//! The `providers` subcommands' arguments, messages and decisions: listing
//! credentials, logging in and out, and hidden API-key entry.
use vstd::prelude::*;
use crate::picker::ErrorKind;
use crate::text::{lemma_lex_lt_irreflexive, lemma_lex_lt_transitive, pop_char, push_char, str_eq, str_lt, string_lt, utf8};

verus! {

/// The provider id of OpenAI's own API.
pub const OPENAI_PROVIDER_ID: &'static str = "openai";

/// `codexium providers <subcommand>`.
#[derive(Debug)]
pub struct ProvidersCli {
    pub subcommand: ProvidersSubcommand,
}

#[derive(Debug)]
pub enum ProvidersSubcommand {
    /// List configured third-party providers and credential status.
    List,
    /// Log in to a models.dev provider (API key).
    Login(ProvidersLoginArgs),
    /// Remove stored credentials for a provider.
    Logout(ProvidersLogoutArgs),
    /// Force refresh the models.dev catalog cache.
    Refresh,
}

#[derive(Debug)]
pub struct ProvidersLoginArgs {
    /// Provider id from models.dev (for example `anthropic`, `openrouter`).
    pub provider_id: Option<String>,
}

#[derive(Debug)]
pub struct ProvidersLogoutArgs {
    /// Provider id to remove from provider-auth.json.
    pub provider_id: Option<String>,
}

/// How a provider's credentials are stored.
#[derive(Debug, Clone, Copy, PartialEq, Eq, Structural)]
pub enum AuthStatus {
    ApiKey,
    OAuth,
}

pub open spec fn auth_status_label(status: AuthStatus) -> Seq<char> {
    match status {
        AuthStatus::ApiKey => "api-key"@,
        AuthStatus::OAuth => "oauth"@,
    }
}

impl AuthStatus {
    /// `api-key` or `oauth`.
    pub fn label(&self) -> (r: &'static str)
        ensures
            r@ == auth_status_label(*self),
    {
        match self {
            AuthStatus::ApiKey => "api-key",
            AuthStatus::OAuth => "oauth",
        }
    }
}

/// `- <provider>: <status>`.
pub open spec fn status_line(provider_id: Seq<char>, status: AuthStatus) -> Seq<char> {
    "- "@ + provider_id + ": "@ + auth_status_label(status)
}

fn status_line_exec(provider_id: &str, status: AuthStatus) -> (r: String)
    ensures
        r@ == status_line(provider_id@, status),
{
    let mut out = String::new();
    out.append("- ");
    out.append(provider_id);
    out.append(": ");
    out.append(status.label());
    out
}

/// The lines that `providers list` prints, in order: a header, the active
/// provider, OpenAI's own credential status when there is one, then either a
/// note that no credentials exist or one line per stored credential.
pub open spec fn list_lines(
    active: Seq<char>,
    openai: Option<AuthStatus>,
    stored: Seq<(Seq<char>, AuthStatus)>,
) -> Seq<Seq<char>> {
    let head = seq!["Configured providers"@, "Active provider: "@ + active];
    let with_openai = match openai {
        Some(status) => head.push(status_line(OPENAI_PROVIDER_ID@, status)),
        None => head,
    };
    if stored.len() == 0 && openai is None {
        with_openai.push("No credentials in auth.json or provider-auth.json"@)
    } else {
        with_openai + Seq::new(stored.len(), |i: int| status_line(stored[i].0, stored[i].1))
    }
}

/// `providers list` opens with the header and the active provider, shows a
/// line for OpenAI's credential when there is one and a line for every stored
/// credential, and says that there are no credentials exactly when there is
/// neither.
pub proof fn lemma_list_reports_missing_credentials_only_without_any(
    active: Seq<char>,
    openai: Option<AuthStatus>,
    stored: Seq<(Seq<char>, AuthStatus)>,
)
    ensures
        list_lines(active, openai, stored)[0] == "Configured providers"@,
        list_lines(active, openai, stored)[1] == "Active provider: "@ + active,
        list_lines(active, openai, stored).contains("No credentials in auth.json or provider-auth.json"@)
            <==> (stored.len() == 0 && openai is None),
        openai matches Some(status) ==> list_lines(active, openai, stored).contains(
            "- openai: "@ + auth_status_label(status),
        ),
        forall|i: int|
            0 <= i < stored.len() ==> list_lines(active, openai, stored).contains(
                "- "@ + (#[trigger] stored[i]).0 + ": "@ + auth_status_label(stored[i].1),
            ),
{
    reveal_strlit("Configured providers");
    reveal_strlit("Active provider: ");
    reveal_strlit("No credentials in auth.json or provider-auth.json");
    reveal_strlit("- ");
    reveal_strlit("openai");
    let lines = list_lines(active, openai, stored);
    let none_line = "No credentials in auth.json or provider-auth.json"@;
    let head = seq!["Configured providers"@, "Active provider: "@ + active];
    let with_openai = match openai {
        Some(status) => head.push(status_line(OPENAI_PROVIDER_ID@, status)),
        None => head,
    };
    assert(none_line[0] == 'N');
    assert(("Active provider: "@ + active)[0] == 'A');
    assert(forall|id: Seq<char>, st: AuthStatus| (#[trigger] status_line(id, st))[0] == '-');
    assert forall|k: int| 0 <= k < with_openai.len() implies #[trigger] with_openai[k] != none_line by {
        if k == 2 {
            assert(with_openai[k][0] == '-');
        }
    }
    if openai is Some {
        let status = openai->0;
        assert("- "@ + OPENAI_PROVIDER_ID@ + ": "@ + auth_status_label(status) == "- openai: "@
            + auth_status_label(status)) by {
            reveal_strlit(": ");
            reveal_strlit("- openai: ");
            assert("- "@ + OPENAI_PROVIDER_ID@ + ": "@ =~= "- openai: "@);
        }
        assert(lines[2] == with_openai[2]);
    }
    if stored.len() == 0 && openai is None {
        assert(lines[2] == none_line);
    } else {
        let tail = Seq::new(stored.len(), |i: int| status_line(stored[i].0, stored[i].1));
        assert(lines == with_openai + tail);
        assert forall|i: int| 0 <= i < stored.len() implies lines.contains(
            "- "@ + (#[trigger] stored[i]).0 + ": "@ + auth_status_label(stored[i].1),
        ) by {
            assert(lines[with_openai.len() + i] == tail[i]);
        }
        if lines.contains(none_line) {
            let k = choose|k: int| 0 <= k < lines.len() && lines[k] == none_line;
            if k >= with_openai.len() {
                assert(lines[k] == tail[k - with_openai.len()]);
                assert(lines[k][0] == '-');
            } else {
                assert(lines[k] == with_openai[k]);
            }
        }
    }
}

/// The lines of `providers list`; the first is the header, drawn bold.
pub fn provider_list_lines(
    active: &str,
    openai: Option<AuthStatus>,
    stored: &Vec<(String, AuthStatus)>,
) -> (r: Vec<String>)
    ensures
        r@.map_values(|l: String| l@) == list_lines(
            active@,
            openai,
            stored@.map_values(|e: (String, AuthStatus)| (e.0@, e.1)),
        ),
{
    let ghost stored_view = stored@.map_values(|e: (String, AuthStatus)| (e.0@, e.1));
    let mut lines: Vec<String> = Vec::new();
    lines.push("Configured providers".to_owned());
    let mut active_line = String::new();
    active_line.append("Active provider: ");
    active_line.append(active);
    lines.push(active_line);
    match openai {
        Some(status) => {
            lines.push(status_line_exec(OPENAI_PROVIDER_ID, status));
        },
        None => {},
    }
    let ghost head = lines@.map_values(|l: String| l@);
    if stored.len() == 0 && openai.is_none() {
        lines.push("No credentials in auth.json or provider-auth.json".to_owned());
        assert(lines@.map_values(|l: String| l@) =~= list_lines(active@, openai, stored_view));
        return lines;
    }
    let mut i: usize = 0;
    while i < stored.len()
        invariant
            i <= stored@.len(),
            stored_view == stored@.map_values(|e: (String, AuthStatus)| (e.0@, e.1)),
            lines@.map_values(|l: String| l@) =~= head + Seq::new(
                i as nat,
                |k: int| status_line(stored_view[k].0, stored_view[k].1),
            ),
        decreases stored@.len() - i,
    {
        assert(stored_view[i as int] == (stored@[i as int].0@, stored@[i as int].1));
        let ghost before = lines@.map_values(|l: String| l@);
        let line = status_line_exec(stored[i].0.as_str(), stored[i].1);
        lines.push(line);
        assert(lines@.map_values(|l: String| l@) =~= before.push(line@));
        i = i + 1;
    }
    assert(lines@.map_values(|l: String| l@) =~= list_lines(active@, openai, stored_view));
    lines
}

/// Errors of the `providers` subcommands.
#[derive(Debug, PartialEq, Eq)]
pub enum ProvidersError {
    /// `logout` was given no provider id.
    ProviderIdRequired,
    /// `logout` found no stored credentials for this provider.
    NoCredentials(String),
    /// `login` was given a provider id that no available provider has.
    UnknownProvider(String),
    /// The API key typed at the prompt was empty.
    EmptyApiKey,
    /// Hidden API key entry was cancelled with Esc or Ctrl-C.
    ApiKeyEntryCancelled,
    /// An interactive step ran without a terminal.
    NotInteractive(String),
}

pub open spec fn providers_error_kind(e: ProvidersError) -> ErrorKind {
    match e {
        ProvidersError::ProviderIdRequired => ErrorKind::InvalidInput,
        ProvidersError::NoCredentials(_) => ErrorKind::NotFound,
        ProvidersError::UnknownProvider(_) => ErrorKind::NotFound,
        ProvidersError::EmptyApiKey => ErrorKind::InvalidInput,
        ProvidersError::ApiKeyEntryCancelled => ErrorKind::Interrupted,
        ProvidersError::NotInteractive(_) => ErrorKind::NotConnected,
    }
}

pub open spec fn providers_error_message(e: ProvidersError) -> Seq<char> {
    match e {
        ProvidersError::ProviderIdRequired => "provider id is required"@,
        ProvidersError::NoCredentials(id) => "no credentials for `"@ + id@ + "`"@,
        ProvidersError::UnknownProvider(id) => "unknown provider `"@ + id@ + "`"@,
        ProvidersError::EmptyApiKey => "API key must not be empty"@,
        ProvidersError::ApiKeyEntryCancelled => "API key entry cancelled"@,
        ProvidersError::NotInteractive(message) => message@,
    }
}

impl ProvidersError {
    pub fn kind(&self) -> (r: ErrorKind)
        ensures
            r == providers_error_kind(*self),
    {
        match self {
            ProvidersError::ProviderIdRequired => ErrorKind::InvalidInput,
            ProvidersError::NoCredentials(_) => ErrorKind::NotFound,
            ProvidersError::UnknownProvider(_) => ErrorKind::NotFound,
            ProvidersError::EmptyApiKey => ErrorKind::InvalidInput,
            ProvidersError::ApiKeyEntryCancelled => ErrorKind::Interrupted,
            ProvidersError::NotInteractive(_) => ErrorKind::NotConnected,
        }
    }

    pub fn message(&self) -> (r: String)
        ensures
            r@ == providers_error_message(*self),
    {
        match self {
            ProvidersError::ProviderIdRequired => "provider id is required".to_owned(),
            ProvidersError::NoCredentials(id) => backticked("no credentials for `", id.as_str()),
            ProvidersError::UnknownProvider(id) => backticked("unknown provider `", id.as_str()),
            ProvidersError::EmptyApiKey => "API key must not be empty".to_owned(),
            ProvidersError::ApiKeyEntryCancelled => "API key entry cancelled".to_owned(),
            ProvidersError::NotInteractive(message) => message.clone(),
        }
    }
}

fn backticked(prefix: &str, id: &str) -> (r: String)
    ensures
        r@ == prefix@ + id@ + "`"@,
{
    let mut out = String::new();
    out.append(prefix);
    out.append(id);
    out.append("`");
    out
}

/// `logout` needs a provider id.
pub fn logout_provider_id(args: ProvidersLogoutArgs) -> (r: Result<String, ProvidersError>)
    ensures
        match args.provider_id {
            Some(id) => r == Ok::<String, ProvidersError>(id),
            None => r == Err::<String, ProvidersError>(ProvidersError::ProviderIdRequired),
        },
{
    match args.provider_id {
        Some(id) => Ok(id),
        None => Err(ProvidersError::ProviderIdRequired),
    }
}

/// The outcome of `logout` once the stored credentials were looked up:
/// the success message when some were removed, otherwise `NoCredentials`.
pub fn logout_result(provider_id: &str, removed: bool) -> (r: Result<String, ProvidersError>)
    ensures
        removed ==> (r matches Ok(m) && m@ == "Removed credentials for `"@ + provider_id@ + "`"@),
        !removed ==> (r matches Err(ProvidersError::NoCredentials(id)) && id@ == provider_id@),
{
    if removed {
        Ok(backticked("Removed credentials for `", provider_id))
    } else {
        Err(ProvidersError::NoCredentials(provider_id.to_owned()))
    }
}

/// Finds the provider to log in to among the available providers' ids.
pub fn find_login_provider(available: &Vec<String>, provider_id: &str) -> (r: Result<
    usize,
    ProvidersError,
>)
    ensures
        match r {
            Ok(i) => i < available@.len() && available@[i as int]@ == provider_id@ && forall|j: int|
                0 <= j < i ==> available@[j]@ != provider_id@,
            Err(e) => e == ProvidersError::UnknownProvider(e->UnknownProvider_0) && e->UnknownProvider_0@
                == provider_id@ && forall|j: int|
                0 <= j < available@.len() ==> available@[j]@ != provider_id@,
        },
{
    let mut i: usize = 0;
    while i < available.len()
        invariant
            i <= available@.len(),
            forall|j: int| 0 <= j < i ==> available@[j]@ != provider_id@,
        decreases available@.len() - i,
    {
        if str_eq(available[i].as_str(), provider_id) {
            return Ok(i);
        }
        i = i + 1;
    }
    Err(ProvidersError::UnknownProvider(provider_id.to_owned()))
}

/// `Enter API key for <provider name>: `.
pub fn api_key_prompt(provider_name: &str) -> (r: String)
    ensures
        r@ == "Enter API key for "@ + provider_name@ + ": "@,
{
    let mut out = String::new();
    out.append("Enter API key for ");
    out.append(provider_name);
    out.append(": ");
    out
}

/// The API key read at the prompt must not be empty.
pub fn validate_api_key(api_key: String) -> (r: Result<String, ProvidersError>)
    ensures
        api_key@.len() == 0 ==> r == Err::<String, ProvidersError>(ProvidersError::EmptyApiKey),
        api_key@.len() > 0 ==> r == Ok::<String, ProvidersError>(api_key),
{
    if api_key.as_str().is_empty() {
        Err(ProvidersError::EmptyApiKey)
    } else {
        Ok(api_key)
    }
}

/// Interactive steps need a terminal on both stdin and stdout.
pub fn require_interactive_terminal(stdin_is_tty: bool, stdout_is_tty: bool, message: &str) -> (r:
    Result<(), ProvidersError>)
    ensures
        stdin_is_tty && stdout_is_tty ==> r is Ok,
        !(stdin_is_tty && stdout_is_tty) ==> (r matches Err(ProvidersError::NotInteractive(m))
            && m@ == message@),
{
    if stdin_is_tty && stdout_is_tty {
        Ok(())
    } else {
        Err(ProvidersError::NotInteractive(message.to_owned()))
    }
}

/// `Provider `<id>` configured. Catalog: <path>`.
pub fn login_success_message(provider_id: &str, catalog_path: &str) -> (r: String)
    ensures
        r@ == "Provider `"@ + provider_id@ + "` configured. Catalog: "@ + catalog_path@,
{
    let mut out = String::new();
    out.append("Provider `");
    out.append(provider_id);
    out.append("` configured. Catalog: ");
    out.append(catalog_path);
    out
}

/// A key as hidden API key entry reads it.
#[derive(Debug, Clone, Copy, PartialEq, Eq)]
pub enum HiddenKeyCode {
    Enter,
    Char(char),
    Backspace,
    Esc,
    Other,
}

#[derive(Debug, Clone, Copy, PartialEq, Eq)]
pub struct HiddenKey {
    pub code: HiddenKeyCode,
    pub control: bool,
    pub press: bool,
}

/// Where hidden entry stands after a key.
#[derive(Debug, Clone, Copy, PartialEq, Eq, Structural)]
pub enum HiddenLineStep {
    Continue,
    Finished,
    Cancelled,
}

/// Where hidden entry stands after a key: Enter finishes, Ctrl-C and Esc
/// cancel, every other key (and any release) continues.
pub open spec fn hidden_line_outcome(key: HiddenKey) -> HiddenLineStep {
    if !key.press {
        HiddenLineStep::Continue
    } else {
        match key.code {
            HiddenKeyCode::Enter => HiddenLineStep::Finished,
            HiddenKeyCode::Char(c) => if c == 'c' && key.control {
                HiddenLineStep::Cancelled
            } else {
                HiddenLineStep::Continue
            },
            HiddenKeyCode::Esc => HiddenLineStep::Cancelled,
            _ => HiddenLineStep::Continue,
        }
    }
}

/// The entered text after a key: a typed character (other than Ctrl-C) is
/// appended, Backspace removes the last character, anything else keeps it.
pub open spec fn hidden_line_after(line: Seq<char>, key: HiddenKey) -> Seq<char> {
    if !key.press {
        line
    } else {
        match key.code {
            HiddenKeyCode::Char(c) => if c == 'c' && key.control {
                line
            } else {
                line.push(c)
            },
            HiddenKeyCode::Backspace => if line.len() > 0 {
                line.drop_last()
            } else {
                line
            },
            _ => line,
        }
    }
}

/// One key of hidden API key entry.
pub fn hidden_line_step(line: &mut String, key: HiddenKey) -> (r: HiddenLineStep)
    ensures
        r == hidden_line_outcome(key),
        final(line)@ == hidden_line_after(old(line)@, key),
{
    if !key.press {
        return HiddenLineStep::Continue;
    }
    match key.code {
        HiddenKeyCode::Enter => HiddenLineStep::Finished,
        HiddenKeyCode::Char(c) => {
            if c == 'c' && key.control {
                HiddenLineStep::Cancelled
            } else {
                push_char(line, c);
                HiddenLineStep::Continue
            }
        },
        HiddenKeyCode::Backspace => {
            let _ = pop_char(line);
            HiddenLineStep::Continue
        },
        HiddenKeyCode::Esc => HiddenLineStep::Cancelled,
        HiddenKeyCode::Other => HiddenLineStep::Continue,
    }
}

/// Typing a character (other than Ctrl-C) and pressing Backspace leaves the
/// entered text as it was.
pub proof fn lemma_backspace_undoes_typed_char(line: Seq<char>, c: char, control: bool)
    requires
        !(c == 'c' && control),
    ensures
        hidden_line_after(
            hidden_line_after(line, HiddenKey { code: HiddenKeyCode::Char(c), control, press: true }),
            HiddenKey { code: HiddenKeyCode::Backspace, control: false, press: true },
        ) == line,
{
    assert(line.push(c).drop_last() =~= line);
}

/// The model a provider defaults to: the first of its model ids as Rust
/// orders strings, or none when it lists no models.
pub fn default_model_id(model_ids: &Vec<String>) -> (r: Option<String>)
    ensures
        model_ids@.len() == 0 ==> r is None,
        model_ids@.len() > 0 ==> (r matches Some(m) && model_ids@.map_values(|s: String| s@).contains(
            m@,
        ) && forall|i: int| 0 <= i < model_ids@.len() ==> !str_lt(#[trigger] model_ids@[i]@, m@)),
{
    if model_ids.len() == 0 {
        return None;
    }
    let mut best: usize = 0;
    let mut i: usize = 1;
    proof {
        lemma_lex_lt_irreflexive(utf8(model_ids@[0]@));
    }
    while i < model_ids.len()
        invariant
            0 < model_ids@.len(),
            best < model_ids@.len(),
            1 <= i <= model_ids@.len(),
            forall|j: int| 0 <= j < i ==> !str_lt(#[trigger] model_ids@[j]@, model_ids@[best as int]@),
        decreases model_ids@.len() - i,
    {
        if string_lt(model_ids[i].as_str(), model_ids[best].as_str()) {
            let ghost old_best = best;
            proof {
                lemma_lex_lt_irreflexive(utf8(model_ids@[i as int]@));
                assert forall|j: int| 0 <= j < i + 1 implies !str_lt(
                    #[trigger] model_ids@[j]@,
                    model_ids@[i as int]@,
                ) by {
                    let a = utf8(model_ids@[j]@);
                    let b = utf8(model_ids@[old_best as int]@);
                    let c = utf8(model_ids@[i as int]@);
                    lemma_lex_lt_irreflexive(c);
                    if str_lt(model_ids@[j]@, model_ids@[i as int]@) {
                        lemma_lex_lt_transitive(a, c, b);
                    }
                }
            }
            best = i;
        } else {
            proof {
                assert(!str_lt(model_ids@[i as int]@, model_ids@[best as int]@));
                assert forall|j: int| 0 <= j < i + 1 implies !str_lt(
                    #[trigger] model_ids@[j]@,
                    model_ids@[best as int]@,
                ) by {}
            }
        }
        i = i + 1;
    }
    assert(model_ids@.map_values(|s: String| s@)[best as int] == model_ids@[best as int]@);
    Some(model_ids[best].clone())
}

} // verus!
