//! Resolving a provider's credentials into the auth its requests use, and the
//! headers that agent-identity auth adds to a request.
use vstd::prelude::*;
use crate::text::{ascii_lower, utf8};

verus! {

#[verifier::external_type_specification]
#[verifier::external_body]
#[verifier::reject_recursive_types(T)]
pub struct ExHeaderMap<T>(http::HeaderMap<T>);

#[verifier::external_type_specification]
#[verifier::external_body]
pub struct ExHeaderValue(http::HeaderValue);

#[verifier::external_type_specification]
#[verifier::external_body]
pub struct ExInvalidHeaderValue(http::header::InvalidHeaderValue);

/// The headers a map holds: each name, lower-cased as `http` stores it, with
/// the bytes of its values in order.
pub uninterp spec fn header_entries(map: http::HeaderMap<http::HeaderValue>) -> Map<
    Seq<char>,
    Seq<Seq<u8>>,
>;

/// The bytes a header value holds, as `HeaderValue::as_bytes` gives them.
pub uninterp spec fn header_value_bytes(value: http::HeaderValue) -> Seq<u8>;

/// A map without headers.
pub open spec fn no_headers() -> Map<Seq<char>, Seq<Seq<u8>>> {
    Map::empty()
}

/// A byte that a header value may hold: visible ASCII, tab, or any byte from
/// 128 up (so every non-ASCII character is accepted).
pub open spec fn is_header_value_byte(b: u8) -> bool {
    (b >= 32 && b != 127) || b == 9
}

/// Text that `HeaderValue::from_str` accepts: every UTF-8 byte of it may
/// stand in a header value.
pub open spec fn is_header_value_text(s: Seq<char>) -> bool {
    forall|i: int| 0 <= i < utf8(s).len() ==> is_header_value_byte(#[trigger] utf8(s)[i])
}

/// A character that `HeaderValue::from_static` accepts: visible ASCII or tab.
pub open spec fn is_static_header_value_char(c: char) -> bool {
    (' ' <= c && c <= '~') || c == '\t'
}

/// The bytes of an ASCII text.
pub open spec fn ascii_bytes(s: Seq<char>) -> Seq<u8> {
    Seq::new(s.len(), |i: int| s[i] as u8)
}

/// A header name made of ASCII letters, digits and `-`, which `http` accepts
/// as a static name and stores lower-cased.
pub open spec fn is_plain_header_name(s: Seq<char>) -> bool {
    &&& 0 < s.len() <= 64
    &&& forall|i: int|
        0 <= i < s.len() ==> {
            let c = #[trigger] s[i];
            ('a' <= c && c <= 'z') || ('A' <= c && c <= 'Z') || ('0' <= c && c <= '9') || c
                == '-'
        }
}

/// Whether one more `HeaderMap::insert` is sure not to panic on a map that
/// holds `names` header names.  `insert` panics only when its index table
/// would grow past `MAX_SIZE` (2^15 slots); the table doubles either when it
/// is full or, after long probe sequences, when `LOAD_FACTOR_THRESHOLD` (5)
/// times the number of names reaches its size, so below this bound neither
/// growth can pass `MAX_SIZE`.
pub open spec fn header_insert_is_safe(names: nat) -> bool {
    names * 5 < 32768
}

/// Calls `http::HeaderMap::new`: an empty map.
#[verifier::external_body]
fn new_header_map() -> (r: http::HeaderMap<http::HeaderValue>)
    ensures
        header_entries(r) == no_headers(),
{
    http::HeaderMap::new()
}

/// Calls `http::HeaderValue::from_str`: accepts the text when each of its
/// bytes may stand in a header value, and then holds exactly those bytes.
#[verifier::external_body]
fn header_value_from_str(s: &str) -> (r: Result<http::HeaderValue, http::header::InvalidHeaderValue>)
    ensures
        r is Ok <==> is_header_value_text(s@),
        r matches Ok(v) ==> header_value_bytes(v) == utf8(s@),
{
    http::HeaderValue::from_str(s)
}

/// Calls `http::HeaderValue::from_static`, which panics on any character
/// but visible ASCII and tab; the value holds the text's bytes.
#[verifier::external_body]
fn header_value_from_static(s: &'static str) -> (r: http::HeaderValue)
    requires
        forall|i: int| 0 <= i < s@.len() ==> is_static_header_value_char(#[trigger] s@[i]),
    ensures
        header_value_bytes(r) == ascii_bytes(s@),
{
    http::HeaderValue::from_static(s)
}

/// Calls `http::HeaderMap::insert` with a static name: the name, lower-cased,
/// then holds this one value, whatever it held before.  `insert` panics when
/// the map's table would outgrow its maximum, which `requires` leaves out.
#[verifier::external_body]
fn insert_header(map: &mut http::HeaderMap<http::HeaderValue>, name: &'static str, value: http::HeaderValue)
    requires
        is_plain_header_name(name@),
        header_entries(*old(map)).dom().finite(),
        header_insert_is_safe(header_entries(*old(map)).dom().len()),
    ensures
        header_entries(*final(map)) == header_entries(*old(map)).insert(
            ascii_lower(name@),
            seq![header_value_bytes(value)],
        ),
{
    let _ = map.insert(name, value);
}

/// Runtime context needed to resolve provider credentials from
/// `provider-auth.json`.
#[derive(Debug, PartialEq, Eq)]
pub struct ProviderRuntimeContext {
    pub provider_id: String,
    /// CODEX_HOME, as text.
    pub codex_home: String,
}

impl ProviderRuntimeContext {
    pub fn new(provider_id: &str, codex_home: &str) -> (r: Self)
        ensures
            r.provider_id@ == provider_id@,
            r.codex_home@ == codex_home@,
    {
        ProviderRuntimeContext { provider_id: provider_id.to_string(), codex_home: codex_home.to_string() }
    }
}

/// Agent-identity auth as a request sees it.
#[derive(Debug, PartialEq, Eq)]
pub struct AgentIdentityAuthProvider {
    /// The `Authorization` value signed for the agent's task, when signing
    /// succeeded.
    pub authorization: Option<String>,
    /// The ChatGPT account the agent acts for.
    pub account_id: String,
    pub is_fedramp_account: bool,
}

/// `headers` with `name` set to the bytes of `value` when `value` may stand
/// in a header; unchanged otherwise.
pub open spec fn with_text_header(
    headers: Map<Seq<char>, Seq<Seq<u8>>>,
    name: Seq<char>,
    value: Seq<char>,
) -> Map<Seq<char>, Seq<Seq<u8>>> {
    if is_header_value_text(value) {
        headers.insert(name, seq![utf8(value)])
    } else {
        headers
    }
}

/// The headers after agent-identity auth was added: `authorization` when a
/// value was signed and is a valid header value, `chatgpt-account-id` when
/// the account id is one, and `x-openai-fedramp: true` for FedRAMP accounts.
pub open spec fn agent_identity_headers(
    headers: Map<Seq<char>, Seq<Seq<u8>>>,
    auth: AgentIdentityAuthProvider,
) -> Map<Seq<char>, Seq<Seq<u8>>> {
    let with_authorization = match auth.authorization {
        Some(v) => with_text_header(headers, "authorization"@, v@),
        None => headers,
    };
    let with_account = with_text_header(with_authorization, "chatgpt-account-id"@, auth.account_id@);
    if auth.is_fedramp_account {
        with_account.insert("x-openai-fedramp"@, seq![ascii_bytes("true"@)])
    } else {
        with_account
    }
}

proof fn lemma_with_text_header_len(headers: Map<Seq<char>, Seq<Seq<u8>>>, name: Seq<char>, value: Seq<char>)
    requires
        headers.dom().finite(),
    ensures
        with_text_header(headers, name, value).dom().finite(),
        with_text_header(headers, name, value).dom().len() <= headers.dom().len() + 1,
{
    if is_header_value_text(value) {
        assert(headers.insert(name, seq![utf8(value)]).dom() =~= headers.dom().insert(name));
    }
}

impl AgentIdentityAuthProvider {
    /// Adds the agent's auth headers to a request's headers.
    pub fn add_auth_headers(&self, headers: &mut http::HeaderMap<http::HeaderValue>)
        requires
            header_entries(*old(headers)).dom().finite(),
            header_insert_is_safe(header_entries(*old(headers)).dom().len() + 2),
        ensures
            header_entries(*final(headers)) == agent_identity_headers(
                header_entries(*old(headers)),
                *self,
            ),
    {
        let ghost start = header_entries(*headers);
        proof {
            reveal_strlit("authorization");
            reveal_strlit("ChatGPT-Account-ID");
            reveal_strlit("X-OpenAI-Fedramp");
            reveal_strlit("true");
            reveal_strlit("chatgpt-account-id");
            reveal_strlit("x-openai-fedramp");
            assert(ascii_lower("authorization"@) =~= "authorization"@);
            assert(ascii_lower("ChatGPT-Account-ID"@) =~= "chatgpt-account-id"@);
            assert(ascii_lower("X-OpenAI-Fedramp"@) =~= "x-openai-fedramp"@);
        }
        if let Some(value) = &self.authorization {
            match header_value_from_str(value.as_str()) {
                Ok(header) => {
                    insert_header(headers, "authorization", header);
                },
                Err(_) => {},
            }
        }
        let ghost after_authorization = header_entries(*headers);
        proof {
            assert(after_authorization == match self.authorization {
                Some(v) => with_text_header(start, "authorization"@, v@),
                None => start,
            });
            if self.authorization is Some {
                lemma_with_text_header_len(start, "authorization"@, self.authorization->0@);
            }
        }
        match header_value_from_str(self.account_id.as_str()) {
            Ok(header) => {
                insert_header(headers, "ChatGPT-Account-ID", header);
            },
            Err(_) => {},
        }
        proof {
            lemma_with_text_header_len(after_authorization, "chatgpt-account-id"@, self.account_id@);
        }
        if self.is_fedramp_account {
            let value = header_value_from_static("true");
            insert_header(headers, "X-OpenAI-Fedramp", value);
        }
    }

    /// The auth headers alone, in a new map.
    pub fn to_auth_headers(&self) -> (r: http::HeaderMap<http::HeaderValue>)
        ensures
            header_entries(r) == agent_identity_headers(no_headers(), *self),
    {
        let mut headers = new_header_map();
        proof {
            assert(header_entries(headers).dom() =~= Set::<Seq<char>>::empty());
        }
        self.add_auth_headers(&mut headers);
        headers
    }
}

/// Auth that sends no headers, as local OSS providers and custom test
/// providers without OpenAI auth use.
#[derive(Debug, Clone, Copy, PartialEq, Eq)]
pub struct UnauthenticatedAuthProvider;

impl UnauthenticatedAuthProvider {
    /// Adds nothing.
    pub fn add_auth_headers(&self, headers: &mut http::HeaderMap<http::HeaderValue>)
        ensures
            header_entries(*final(headers)) == header_entries(*old(headers)),
    {
    }

    /// An empty map of headers.
    pub fn to_auth_headers(&self) -> (r: http::HeaderMap<http::HeaderValue>)
        ensures
            header_entries(r) == no_headers(),
    {
        new_header_map()
    }
}

pub fn unauthenticated_auth_provider() -> (r: UnauthenticatedAuthProvider)
    ensures
        r == UnauthenticatedAuthProvider,
{
    UnauthenticatedAuthProvider
}

/// Why an OpenAI-style provider refuses Bedrock API-key auth.
pub const BEDROCK_API_KEY_UNSUPPORTED_MESSAGE: &'static str =
    "Bedrock API key auth is only supported by the Amazon Bedrock model provider";

/// What a token-bearing Codex auth snapshot reports: its token when one could
/// be read, its account id and whether the account is a FedRAMP account.
#[derive(Debug, PartialEq, Eq)]
pub struct TokenAuth {
    pub token: Option<String>,
    pub account_id: Option<String>,
    pub is_fedramp_account: bool,
}

/// A first-party Codex auth snapshot, as far as choosing request auth reads it.
#[derive(Debug, PartialEq, Eq)]
pub enum CodexAuth {
    ApiKey(TokenAuth),
    Chatgpt(TokenAuth),
    ChatgptAuthTokens(TokenAuth),
    PersonalAccessToken(TokenAuth),
    AgentIdentity(AgentIdentityAuthProvider),
    BedrockApiKey,
}

/// Bearer auth built from a Codex auth snapshot.
#[derive(Debug, PartialEq, Eq)]
pub struct BearerAuthProvider {
    pub token: Option<String>,
    pub account_id: Option<String>,
    pub is_fedramp_account: bool,
}

/// The auth a provider's requests use.
#[derive(Debug, PartialEq, Eq)]
pub enum ProviderAuth {
    /// Bearer auth with a key or token configured for the provider itself.
    ProviderBearer(String),
    /// Bearer auth taken from a Codex auth snapshot.
    Bearer(BearerAuthProvider),
    AgentIdentity(AgentIdentityAuthProvider),
    Unauthenticated(UnauthenticatedAuthProvider),
}

/// Why a provider's auth could not be resolved.
#[derive(Debug, PartialEq, Eq)]
pub enum ProviderAuthError {
    /// The auth is not supported for this provider.
    UnsupportedOperation(String),
    /// Reading the provider's configured key failed; the message says why.
    Credentials(String),
}

/// The request auth that a Codex auth snapshot gives (Bedrock API-key auth
/// gives none: it is refused before this is asked).
pub open spec fn auth_provider_for(auth: CodexAuth) -> ProviderAuth {
    match auth {
        CodexAuth::ApiKey(t) | CodexAuth::Chatgpt(t) | CodexAuth::ChatgptAuthTokens(t)
        | CodexAuth::PersonalAccessToken(t) => ProviderAuth::Bearer(
            BearerAuthProvider {
                token: t.token,
                account_id: t.account_id,
                is_fedramp_account: t.is_fedramp_account,
            },
        ),
        CodexAuth::AgentIdentity(a) => ProviderAuth::AgentIdentity(a),
        CodexAuth::BedrockApiKey => ProviderAuth::Unauthenticated(UnauthenticatedAuthProvider),
    }
}

fn copy_string_option(s: &Option<String>) -> (r: Option<String>)
    ensures
        r == *s,
{
    match s {
        Some(v) => Some(v.clone()),
        None => None,
    }
}

fn copy_agent_identity(a: &AgentIdentityAuthProvider) -> (r: AgentIdentityAuthProvider)
    ensures
        r == *a,
{
    AgentIdentityAuthProvider {
        authorization: copy_string_option(&a.authorization),
        account_id: a.account_id.clone(),
        is_fedramp_account: a.is_fedramp_account,
    }
}

fn bearer_from_token_auth(t: &TokenAuth) -> (r: BearerAuthProvider)
    ensures
        r == (BearerAuthProvider {
            token: t.token,
            account_id: t.account_id,
            is_fedramp_account: t.is_fedramp_account,
        }),
{
    BearerAuthProvider {
        token: copy_string_option(&t.token),
        account_id: copy_string_option(&t.account_id),
        is_fedramp_account: t.is_fedramp_account,
    }
}

/// Builds request-header auth for a first-party Codex auth snapshot.  Bedrock
/// API-key auth has none.
pub fn auth_provider_from_auth(auth: &CodexAuth) -> (r: ProviderAuth)
    requires
        !(auth is BedrockApiKey),
    ensures
        r == auth_provider_for(*auth),
{
    match auth {
        CodexAuth::ApiKey(t) | CodexAuth::Chatgpt(t) | CodexAuth::ChatgptAuthTokens(t)
        | CodexAuth::PersonalAccessToken(t) => ProviderAuth::Bearer(bearer_from_token_auth(t)),
        CodexAuth::AgentIdentity(a) => ProviderAuth::AgentIdentity(copy_agent_identity(a)),
        CodexAuth::BedrockApiKey => ProviderAuth::Unauthenticated(UnauthenticatedAuthProvider),
    }
}

/// The bearer token a provider configures for itself: the key its `env_key`
/// resolved to, else its experimental bearer token; a failure to resolve the
/// key is passed on.
pub open spec fn provider_bearer_token(
    env_key_auth: Result<Option<String>, ProviderAuthError>,
    experimental_bearer_token: Option<String>,
) -> Result<Option<String>, ProviderAuthError> {
    match env_key_auth {
        Err(e) => Err(e),
        Ok(Some(key)) => Ok(Some(key)),
        Ok(None) => Ok(experimental_bearer_token),
    }
}

/// Chooses the bearer token a provider configures for itself, from what its
/// `env_key` resolved to and its experimental bearer token.
pub fn bearer_auth_for_provider(
    env_key_auth: Result<Option<String>, ProviderAuthError>,
    experimental_bearer_token: Option<String>,
) -> (r: Result<Option<String>, ProviderAuthError>)
    ensures
        r == provider_bearer_token(env_key_auth, experimental_bearer_token),
{
    match env_key_auth {
        Err(e) => Err(e),
        Ok(Some(key)) => Ok(Some(key)),
        Ok(None) => Ok(experimental_bearer_token),
    }
}

/// The snapshot behind an optional reference.
pub open spec fn auth_snapshot(auth: Option<&CodexAuth>) -> Option<CodexAuth> {
    match auth {
        Some(a) => Some(*a),
        None => None,
    }
}

/// Whether a Codex auth snapshot is Bedrock API-key auth.
pub open spec fn is_bedrock_auth(auth: Option<CodexAuth>) -> bool {
    auth matches Some(a) && a is BedrockApiKey
}

/// The auth a provider's requests use, when no Bedrock API key is offered:
/// the provider's own bearer token first, then the Codex auth snapshot, else
/// none.
pub open spec fn resolved_provider_auth(
    auth: Option<CodexAuth>,
    env_key_auth: Result<Option<String>, ProviderAuthError>,
    experimental_bearer_token: Option<String>,
) -> Result<ProviderAuth, ProviderAuthError> {
    match provider_bearer_token(env_key_auth, experimental_bearer_token) {
        Err(e) => Err(e),
        Ok(Some(token)) => Ok(ProviderAuth::ProviderBearer(token)),
        Ok(None) => Ok(
            match auth {
                Some(a) => auth_provider_for(a),
                None => ProviderAuth::Unauthenticated(UnauthenticatedAuthProvider),
            },
        ),
    }
}

/// A key or token that the provider configures for itself is used whatever
/// Codex auth snapshot is offered (short of Bedrock API-key auth, which is
/// refused first).
pub proof fn lemma_provider_token_takes_precedence(
    auth: Option<CodexAuth>,
    env_key_auth: Result<Option<String>, ProviderAuthError>,
    experimental_bearer_token: Option<String>,
    token: String,
)
    requires
        provider_bearer_token(env_key_auth, experimental_bearer_token) == Ok::<
            Option<String>,
            ProviderAuthError,
        >(Some(token)),
    ensures
        resolved_provider_auth(auth, env_key_auth, experimental_bearer_token) == Ok::<
            ProviderAuth,
            ProviderAuthError,
        >(ProviderAuth::ProviderBearer(token)),
{
}

/// The token, account and FedRAMP flag of a token-bearing snapshot.
pub open spec fn token_auth_of(auth: CodexAuth) -> Option<TokenAuth> {
    match auth {
        CodexAuth::ApiKey(t) => Some(t),
        CodexAuth::Chatgpt(t) => Some(t),
        CodexAuth::ChatgptAuthTokens(t) => Some(t),
        CodexAuth::PersonalAccessToken(t) => Some(t),
        _ => None,
    }
}

/// When the provider has no key or token of its own, a token-bearing Codex
/// snapshot (API key, ChatGPT, ChatGPT tokens or personal access token)
/// gives bearer auth with exactly its token, account id and FedRAMP flag, an
/// agent-identity snapshot gives agent-identity auth, and requests go out
/// without auth only when there is no snapshot at all.
pub proof fn lemma_codex_snapshot_decides_auth_without_provider_token(auth: Option<CodexAuth>)
    requires
        !(auth matches Some(a) && a is BedrockApiKey),
    ensures
        match auth {
            Some(CodexAuth::AgentIdentity(agent)) => resolved_provider_auth(auth, Ok(None), None)
                == Ok::<ProviderAuth, ProviderAuthError>(ProviderAuth::AgentIdentity(agent)),
            Some(a) => match token_auth_of(a) {
                Some(t) => resolved_provider_auth(auth, Ok(None), None) == Ok::<
                    ProviderAuth,
                    ProviderAuthError,
                >(
                    ProviderAuth::Bearer(
                        BearerAuthProvider {
                            token: t.token,
                            account_id: t.account_id,
                            is_fedramp_account: t.is_fedramp_account,
                        },
                    ),
                ),
                None => true,
            },
            None => true,
        },
        (resolved_provider_auth(auth, Ok(None), None) matches Ok(ProviderAuth::Unauthenticated(_)))
            <==> auth is None,
{
}

/// Resolves the auth a provider's requests use from the Codex auth snapshot
/// (if any), what the provider's `env_key` resolved to and its experimental
/// bearer token.  Bedrock API-key auth is refused.
pub fn resolve_provider_auth(
    auth: Option<&CodexAuth>,
    env_key_auth: Result<Option<String>, ProviderAuthError>,
    experimental_bearer_token: Option<String>,
) -> (r: Result<ProviderAuth, ProviderAuthError>)
    ensures
        is_bedrock_auth(auth_snapshot(auth)) ==> (r matches Err(
            ProviderAuthError::UnsupportedOperation(message),
        ) && message@ == BEDROCK_API_KEY_UNSUPPORTED_MESSAGE@),
        !is_bedrock_auth(auth_snapshot(auth)) ==> r == resolved_provider_auth(
            auth_snapshot(auth),
            env_key_auth,
            experimental_bearer_token,
        ),
{
    if let Some(a) = auth {
        if let CodexAuth::BedrockApiKey = a {
            return Err(ProviderAuthError::UnsupportedOperation(BEDROCK_API_KEY_UNSUPPORTED_MESSAGE.to_string()));
        }
    }
    match bearer_auth_for_provider(env_key_auth, experimental_bearer_token) {
        Err(e) => Err(e),
        Ok(Some(token)) => Ok(ProviderAuth::ProviderBearer(token)),
        Ok(None) => match auth {
            Some(a) => Ok(auth_provider_from_auth(a)),
            None => Ok(ProviderAuth::Unauthenticated(unauthenticated_auth_provider())),
        },
    }
}

/// Where a provider's `env_key` is resolved: from the provider's own
/// configuration, or from the auth store under a CODEX_HOME for a provider id.
#[derive(Debug, PartialEq, Eq)]
pub enum EnvKeySource {
    ProviderConfig,
    AuthStore { provider_id: String, codex_home: String },
}

/// Chooses where a provider's `env_key` is resolved: without a runtime
/// context from the provider's configuration, else from the auth store the
/// context names.
pub fn env_key_auth_source(runtime_context: Option<&ProviderRuntimeContext>) -> (r: EnvKeySource)
    ensures
        match runtime_context {
            None => r == EnvKeySource::ProviderConfig,
            Some(c) => r == (EnvKeySource::AuthStore {
                provider_id: c.provider_id,
                codex_home: c.codex_home,
            }),
        },
{
    match runtime_context {
        None => EnvKeySource::ProviderConfig,
        Some(c) => EnvKeySource::AuthStore {
            provider_id: c.provider_id.clone(),
            codex_home: c.codex_home.clone(),
        },
    }
}

} // verus!
