use codex_providers::activation::{write_provider_activation_config, ActivationError};
use codex_providers::config::{
    active_provider_id_from_config, filter_providers_for_config, openai_auth_status_from_json,
    provider_filter_from_config,
};
use codex_providers::picker::ErrorKind;
use codex_providers::providers::{
    api_key_prompt, default_model_id, find_login_provider, hidden_line_step, login_success_message,
    logout_provider_id, logout_result, provider_list_lines, require_interactive_terminal,
    validate_api_key, AuthStatus, HiddenKey, HiddenKeyCode, HiddenLineStep, ProvidersError,
    ProvidersLogoutArgs,
};

fn xiaomi_provider_table() -> toml_edit::Table {
    let mut table = toml_edit::Table::new();
    table.insert("name", toml_edit::value("Xiaomi Token Plan (Singapore)"));
    table.insert(
        "base_url",
        toml_edit::value("https://token-plan-sgp.xiaomimimo.com/v1"),
    );
    table.insert("env_key", toml_edit::value("XIAOMI_API_KEY"));
    table.insert(
        "env_key_instructions",
        toml_edit::value(
            "Set the `XIAOMI_API_KEY` environment variable with your Xiaomi Token Plan (Singapore) API key.",
        ),
    );
    table.insert("wire_api", toml_edit::value("responses"));
    table.insert("requires_openai_auth", toml_edit::value(false));
    table
}

#[test]
fn write_provider_activation_config_produces_valid_toml() {
    let provider_id = "xiaomi-token-plan-sgp";
    let contents = write_provider_activation_config(
        None,
        provider_id,
        xiaomi_provider_table(),
        Some("mimo-v2-flash".to_string()),
    )
    .expect("config write should succeed");
    let doc =
        toml::from_str::<toml::Value>(&contents).expect("written config.toml must be valid TOML");

    assert_eq!(
        doc.get("model_provider").and_then(|value| value.as_str()),
        Some(provider_id)
    );
    assert_eq!(
        doc.get("model").and_then(|value| value.as_str()),
        Some("mimo-v2-flash")
    );
    assert_eq!(
        doc.get("model_catalog_json")
            .and_then(|value| value.as_str()),
        Some("provider-catalog/xiaomi-token-plan-sgp.json")
    );

    let provider_table = doc
        .get("model_providers")
        .and_then(|value| value.get(provider_id))
        .expect("provider table should exist");
    assert_eq!(
        provider_table.get("name").and_then(|value| value.as_str()),
        Some("Xiaomi Token Plan (Singapore)")
    );
    assert_eq!(
        provider_table
            .get("base_url")
            .and_then(|value| value.as_str()),
        Some("https://token-plan-sgp.xiaomimimo.com/v1")
    );
    assert_eq!(
        provider_table
            .get("env_key")
            .and_then(|value| value.as_str()),
        Some("XIAOMI_API_KEY")
    );
    assert!(
        doc.get("model_providers")
            .and_then(|v| v.get(provider_id))
            .is_some()
    );
}

#[test]
fn write_provider_activation_config_merges_existing_config() {
    let mut table = toml_edit::Table::new();
    table.insert("name", toml_edit::value("Anthropic"));
    table.insert("base_url", toml_edit::value("https://api.anthropic.com/v1"));
    table.insert("env_key", toml_edit::value("ANTHROPIC_API_KEY"));
    let contents = write_provider_activation_config(
        Some("profile = \"work\"\nmodel = \"gpt-5\"\n"),
        "anthropic",
        table,
        Some("sonnet-4".to_string()),
    )
    .expect("config merge should succeed");

    let doc = toml::from_str::<toml::Value>(&contents).expect("merged config must remain valid TOML");

    assert_eq!(
        doc.get("profile").and_then(|value| value.as_str()),
        Some("work")
    );
    assert_eq!(
        doc.get("model").and_then(|value| value.as_str()),
        Some("sonnet-4")
    );
    assert!(doc.get("model_providers").is_some());
}

#[test]
fn activation_keeps_other_providers_and_model_without_default() {
    let mut table = toml_edit::Table::new();
    table.insert("name", toml_edit::value("Anthropic"));
    let contents = write_provider_activation_config(
        Some("model = \"gpt-5\"\nretries = 3\nverbose = true\n[model_providers.other]\nname = \"Other\"\nport = 8080\n"),
        "anthropic",
        table,
        None,
    )
    .expect("activation should succeed");
    let doc = toml::from_str::<toml::Value>(&contents).expect("valid TOML");
    assert_eq!(doc.get("model").and_then(|v| v.as_str()), Some("gpt-5"));
    assert_eq!(doc.get("retries").and_then(|v| v.as_integer()), Some(3));
    assert_eq!(doc.get("verbose").and_then(|v| v.as_bool()), Some(true));
    let providers = doc.get("model_providers").expect("providers");
    let other = providers.get("other").expect("other provider kept");
    assert_eq!(other.get("name").and_then(|v| v.as_str()), Some("Other"));
    assert_eq!(other.get("port").and_then(|v| v.as_integer()), Some(8080));
    assert_eq!(
        providers
            .get("anthropic")
            .and_then(|p| p.get("name"))
            .and_then(|v| v.as_str()),
        Some("Anthropic")
    );
}

#[test]
fn activation_twice_gives_the_same_config() {
    let once = write_provider_activation_config(
        Some("profile = \"work\"\n"),
        "anthropic",
        toml_edit::Table::new(),
        Some("haiku-4".to_string()),
    )
    .expect("first activation");
    let twice = write_provider_activation_config(
        Some(&once),
        "anthropic",
        toml_edit::Table::new(),
        Some("haiku-4".to_string()),
    )
    .expect("second activation");
    assert_eq!(
        toml::from_str::<toml::Value>(&once).expect("valid"),
        toml::from_str::<toml::Value>(&twice).expect("valid")
    );
}

#[test]
fn activation_rejects_invalid_config() {
    let err = write_provider_activation_config(Some("model = ["), "x", toml_edit::Table::new(), None)
        .expect_err("invalid TOML must be rejected");
    assert!(matches!(err, ActivationError::InvalidData(_)));
    assert_eq!(err.kind(), ErrorKind::InvalidData);
    assert_eq!(err.message().is_empty(), false);
    let err = write_provider_activation_config(
        Some("model_providers = \"none\"\n"),
        "x",
        toml_edit::Table::new(),
        None,
    )
    .expect_err("a non-table model_providers must be rejected");
    assert_eq!(err, ActivationError::ModelProvidersNotTable);
    assert_eq!(err.message(), "`model_providers` is not a table");
}

#[test]
fn openai_auth_status_reads_oauth_auth_json() {
    assert_eq!(
        openai_auth_status_from_json(r#"{"OPENAI_API_KEY":null,"tokens":{"access_token":"token"}}"#)
            .expect("auth status"),
        Some(AuthStatus::OAuth)
    );
    assert_eq!(AuthStatus::OAuth.label(), "oauth");
}

#[test]
fn openai_auth_status_reads_api_key_auth_json() {
    assert_eq!(
        openai_auth_status_from_json(r#"{"OPENAI_API_KEY":"sk-test"}"#).expect("auth status"),
        Some(AuthStatus::ApiKey)
    );
    assert_eq!(AuthStatus::ApiKey.label(), "api-key");
}

#[test]
fn openai_auth_status_without_credentials() {
    assert_eq!(
        openai_auth_status_from_json(r#"{"OPENAI_API_KEY":"","tokens":null}"#).expect("status"),
        None
    );
    assert_eq!(openai_auth_status_from_json("{}").expect("status"), None);
    let err = openai_auth_status_from_json("not json").expect_err("invalid JSON");
    assert_eq!(err.kind(), ErrorKind::InvalidData);
}

#[test]
fn default_model_id_uses_lexicographically_first_model() {
    let ids = vec!["sonnet-4".to_string(), "haiku-4".to_string()];
    assert_eq!(default_model_id(&ids).as_deref(), Some("haiku-4"));
    assert_eq!(default_model_id(&Vec::new()), None);
}

#[test]
fn active_provider_defaults_to_openai() {
    assert_eq!(
        active_provider_id_from_config("model = \"gpt-5\"\n").expect("valid"),
        "openai"
    );
    assert_eq!(
        active_provider_id_from_config("model_provider = \"anthropic\"\n").expect("valid"),
        "anthropic"
    );
    assert!(active_provider_id_from_config("model_provider = ").is_err());
}

fn ids(names: &[&str]) -> Vec<String> {
    names.iter().map(|s| s.to_string()).collect()
}

#[test]
fn provider_filter_applies_enabled_and_disabled_lists() {
    let all = ids(&["anthropic", "openrouter", "xiaomi"]);
    assert_eq!(filter_providers_for_config(&all, None).expect("ok"), all);
    assert_eq!(
        filter_providers_for_config(&all, Some("disabled_providers = [\"openrouter\"]\n"))
            .expect("ok"),
        ids(&["anthropic", "xiaomi"])
    );
    assert_eq!(
        filter_providers_for_config(
            &all,
            Some("enabled_providers = [\"xiaomi\", \"anthropic\"]\ndisabled_providers = [\"anthropic\"]\n")
        )
        .expect("ok"),
        ids(&["xiaomi"])
    );
    assert!(filter_providers_for_config(&all, Some("enabled_providers = [")).is_err());
    let filter = provider_filter_from_config("enabled_providers = [\"a\", 3]\n").expect("ok");
    assert_eq!(filter.enabled, Some(ids(&["a"])));
    assert!(filter.allows("a"));
    assert!(!filter.allows("b"));
}

#[test]
fn list_lines_show_credentials() {
    let lines = provider_list_lines(
        "anthropic",
        Some(AuthStatus::OAuth),
        &vec![("anthropic".to_string(), AuthStatus::ApiKey)],
    );
    assert_eq!(
        lines,
        vec![
            "Configured providers".to_string(),
            "Active provider: anthropic".to_string(),
            "- openai: oauth".to_string(),
            "- anthropic: api-key".to_string(),
        ]
    );
    let lines = provider_list_lines("openai", None, &Vec::new());
    assert_eq!(
        lines,
        vec![
            "Configured providers".to_string(),
            "Active provider: openai".to_string(),
            "No credentials in auth.json or provider-auth.json".to_string(),
        ]
    );
}

#[test]
fn logout_needs_a_provider_with_credentials() {
    let err = logout_provider_id(ProvidersLogoutArgs { provider_id: None }).expect_err("required");
    assert_eq!(err, ProvidersError::ProviderIdRequired);
    assert_eq!(err.kind(), ErrorKind::InvalidInput);
    assert_eq!(err.message(), "provider id is required");
    assert_eq!(
        logout_provider_id(ProvidersLogoutArgs {
            provider_id: Some("x".to_string())
        }),
        Ok("x".to_string())
    );
    assert_eq!(
        logout_result("anthropic", true),
        Ok("Removed credentials for `anthropic`".to_string())
    );
    let err = logout_result("anthropic", false).expect_err("nothing removed");
    assert_eq!(err.kind(), ErrorKind::NotFound);
    assert_eq!(err.message(), "no credentials for `anthropic`");
}

#[test]
fn login_finds_known_providers_only() {
    let available = ids(&["anthropic", "openrouter"]);
    assert_eq!(find_login_provider(&available, "openrouter"), Ok(1));
    let err = find_login_provider(&available, "nope").expect_err("unknown");
    assert_eq!(err.kind(), ErrorKind::NotFound);
    assert_eq!(err.message(), "unknown provider `nope`");
}

#[test]
fn login_messages_and_key_checks() {
    assert_eq!(api_key_prompt("Anthropic"), "Enter API key for Anthropic: ");
    assert_eq!(
        login_success_message("anthropic", "/h/provider-catalog/anthropic.json"),
        "Provider `anthropic` configured. Catalog: /h/provider-catalog/anthropic.json"
    );
    let err = validate_api_key(String::new()).expect_err("empty key");
    assert_eq!(err.kind(), ErrorKind::InvalidInput);
    assert_eq!(err.message(), "API key must not be empty");
    assert_eq!(validate_api_key("sk".to_string()), Ok("sk".to_string()));
    assert_eq!(require_interactive_terminal(true, true, "tty"), Ok(()));
    let err = require_interactive_terminal(true, false, "needs a TTY").expect_err("no tty");
    assert_eq!(err.kind(), ErrorKind::NotConnected);
    assert_eq!(err.message(), "needs a TTY");
}

fn hidden(code: HiddenKeyCode) -> HiddenKey {
    HiddenKey {
        code,
        control: false,
        press: true,
    }
}

#[test]
fn hidden_line_entry_edits_and_finishes() {
    let mut line = String::new();
    assert_eq!(
        hidden_line_step(&mut line, hidden(HiddenKeyCode::Char('s'))),
        HiddenLineStep::Continue
    );
    hidden_line_step(&mut line, hidden(HiddenKeyCode::Char('k')));
    hidden_line_step(&mut line, hidden(HiddenKeyCode::Char('x')));
    hidden_line_step(&mut line, hidden(HiddenKeyCode::Backspace));
    assert_eq!(line, "sk");
    assert_eq!(
        hidden_line_step(&mut line, hidden(HiddenKeyCode::Enter)),
        HiddenLineStep::Finished
    );
    assert_eq!(line, "sk");
}

#[test]
fn hidden_line_entry_cancels() {
    let mut line = "ab".to_string();
    assert_eq!(
        hidden_line_step(&mut line, hidden(HiddenKeyCode::Esc)),
        HiddenLineStep::Cancelled
    );
    assert_eq!(
        hidden_line_step(
            &mut line,
            HiddenKey {
                code: HiddenKeyCode::Char('c'),
                control: true,
                press: true
            }
        ),
        HiddenLineStep::Cancelled
    );
    assert_eq!(line, "ab");
    let mut empty = String::new();
    hidden_line_step(&mut empty, hidden(HiddenKeyCode::Backspace));
    assert_eq!(empty, "");
}
