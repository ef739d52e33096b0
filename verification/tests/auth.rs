use codex_providers::auth::{
    auth_provider_from_auth, bearer_auth_for_provider, env_key_auth_source, resolve_provider_auth,
    unauthenticated_auth_provider, AgentIdentityAuthProvider, BearerAuthProvider, CodexAuth,
    EnvKeySource, ProviderAuth, ProviderAuthError, ProviderRuntimeContext, TokenAuth,
    UnauthenticatedAuthProvider, BEDROCK_API_KEY_UNSUPPORTED_MESSAGE,
};

#[test]
fn unauthenticated_auth_provider_adds_no_headers() {
    let auth = resolve_provider_auth(None, Ok(None), None).expect("auth should resolve");
    match auth {
        ProviderAuth::Unauthenticated(provider) => {
            assert!(provider.to_auth_headers().is_empty());
            let mut headers = http::HeaderMap::new();
            headers.insert("x-existing", http::HeaderValue::from_static("1"));
            provider.add_auth_headers(&mut headers);
            assert_eq!(headers.len(), 1);
        }
        other => panic!("expected no auth, got {other:?}"),
    }
    assert!(unauthenticated_auth_provider().to_auth_headers().is_empty());
}

#[test]
fn openai_provider_rejects_bedrock_api_key_auth() {
    let auth = CodexAuth::BedrockApiKey;
    match resolve_provider_auth(Some(&auth), Ok(None), None) {
        Err(ProviderAuthError::UnsupportedOperation(message)) => {
            assert_eq!(message, BEDROCK_API_KEY_UNSUPPORTED_MESSAGE);
        }
        Err(err) => panic!("unexpected auth error: {err:?}"),
        Ok(_) => panic!("Bedrock API key auth should be rejected"),
    }
}

#[test]
fn bedrock_is_rejected_even_with_a_provider_key() {
    let auth = CodexAuth::BedrockApiKey;
    let result = resolve_provider_auth(Some(&auth), Ok(Some("key".to_string())), None);
    assert_eq!(
        result,
        Err(ProviderAuthError::UnsupportedOperation(
            "Bedrock API key auth is only supported by the Amazon Bedrock model provider".to_string()
        ))
    );
}

fn chatgpt_auth() -> CodexAuth {
    CodexAuth::Chatgpt(TokenAuth {
        token: Some("tok".to_string()),
        account_id: Some("acct".to_string()),
        is_fedramp_account: true,
    })
}

#[test]
fn provider_key_comes_before_codex_auth() {
    let auth = chatgpt_auth();
    assert_eq!(
        resolve_provider_auth(Some(&auth), Ok(Some("env-key".to_string())), Some("bearer".to_string())),
        Ok(ProviderAuth::ProviderBearer("env-key".to_string()))
    );
    assert_eq!(
        resolve_provider_auth(Some(&auth), Ok(None), Some("bearer".to_string())),
        Ok(ProviderAuth::ProviderBearer("bearer".to_string()))
    );
    assert_eq!(
        resolve_provider_auth(
            Some(&auth),
            Err(ProviderAuthError::Credentials("unreadable".to_string())),
            None
        ),
        Err(ProviderAuthError::Credentials("unreadable".to_string()))
    );
}

#[test]
fn codex_auth_becomes_bearer_auth() {
    let auth = chatgpt_auth();
    let expected = ProviderAuth::Bearer(BearerAuthProvider {
        token: Some("tok".to_string()),
        account_id: Some("acct".to_string()),
        is_fedramp_account: true,
    });
    assert_eq!(resolve_provider_auth(Some(&auth), Ok(None), None), Ok(expected));
    let api_key = CodexAuth::ApiKey(TokenAuth {
        token: None,
        account_id: None,
        is_fedramp_account: false,
    });
    assert_eq!(
        auth_provider_from_auth(&api_key),
        ProviderAuth::Bearer(BearerAuthProvider {
            token: None,
            account_id: None,
            is_fedramp_account: false,
        })
    );
}

#[test]
fn bearer_token_prefers_the_env_key() {
    assert_eq!(
        bearer_auth_for_provider(Ok(Some("a".to_string())), Some("b".to_string())),
        Ok(Some("a".to_string()))
    );
    assert_eq!(
        bearer_auth_for_provider(Ok(None), Some("b".to_string())),
        Ok(Some("b".to_string()))
    );
    assert_eq!(bearer_auth_for_provider(Ok(None), None), Ok(None));
}

fn agent(authorization: Option<&str>, account_id: &str, fedramp: bool) -> AgentIdentityAuthProvider {
    AgentIdentityAuthProvider {
        authorization: authorization.map(str::to_string),
        account_id: account_id.to_string(),
        is_fedramp_account: fedramp,
    }
}

#[test]
fn agent_identity_adds_its_headers() {
    let headers = agent(Some("AgentAssertion abc"), "acct-1", true).to_auth_headers();
    assert_eq!(headers.len(), 3);
    assert_eq!(headers.get("authorization").unwrap(), "AgentAssertion abc");
    assert_eq!(headers.get("chatgpt-account-id").unwrap(), "acct-1");
    assert_eq!(headers.get("x-openai-fedramp").unwrap(), "true");
}

#[test]
fn agent_identity_skips_invalid_values() {
    let headers = agent(Some("bad\nvalue"), "acct\u{7f}", false).to_auth_headers();
    assert!(headers.is_empty());
    let headers = agent(None, "acct-2", false).to_auth_headers();
    assert_eq!(headers.len(), 1);
    assert_eq!(headers.get("ChatGPT-Account-ID").unwrap(), "acct-2");
}

#[test]
fn agent_identity_replaces_existing_values() {
    let mut headers = http::HeaderMap::new();
    headers.insert("authorization", http::HeaderValue::from_static("old"));
    headers.insert("accept", http::HeaderValue::from_static("*/*"));
    agent(Some("new"), "acct", false).add_auth_headers(&mut headers);
    assert_eq!(headers.get("authorization").unwrap(), "new");
    assert_eq!(headers.get("accept").unwrap(), "*/*");
    assert_eq!(headers.len(), 3);
}

#[test]
fn agent_identity_auth_passes_through() {
    let auth = CodexAuth::AgentIdentity(agent(Some("sig"), "acct", false));
    assert_eq!(
        auth_provider_from_auth(&auth),
        ProviderAuth::AgentIdentity(agent(Some("sig"), "acct", false))
    );
}

#[test]
fn env_key_source_follows_the_runtime_context() {
    assert_eq!(env_key_auth_source(None), EnvKeySource::ProviderConfig);
    let context = ProviderRuntimeContext::new("anthropic", "/home/u/.codex");
    assert_eq!(context.provider_id, "anthropic");
    assert_eq!(context.codex_home, "/home/u/.codex");
    assert_eq!(
        env_key_auth_source(Some(&context)),
        EnvKeySource::AuthStore {
            provider_id: "anthropic".to_string(),
            codex_home: "/home/u/.codex".to_string(),
        }
    );
    let _ = UnauthenticatedAuthProvider;
}
