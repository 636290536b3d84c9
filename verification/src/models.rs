//! What the gateway is configured with: upstreams, model aliases and keys.
use crate::json::{Json, JsonView};
use crate::text::{cat, copy, opt_str, opt_text};
use vstd::prelude::*;

verus! {

/// What kind of service an upstream is.
#[derive(Debug, Clone, Copy, PartialEq, Eq, Structural)]
pub enum ApiType {
    OpenAI,
    /// The Codex backend of ChatGPT.
    ChatGptCodex,
}

impl Default for ApiType {
    fn default() -> (r: ApiType)
        ensures
            r == ApiType::OpenAI,
    {
        ApiType::OpenAI
    }
}

/// How requests to an upstream are authenticated.
#[derive(Debug, PartialEq)]
pub enum UpstreamAuth {
    ApiKey { key: Option<String> },
    OAuthDevice {
        client_id: String,
        device_auth_url: String,
        token_url: String,
        scope: Option<String>,
    },
    AnthropicOAuth,
    CodexOAuth,
}

/// How requests to an upstream are authenticated, as a mathematical value.
pub enum AuthView {
    ApiKey { key: Option<Seq<char>> },
    OAuthDevice {
        client_id: Seq<char>,
        device_auth_url: Seq<char>,
        token_url: Seq<char>,
        scope: Option<Seq<char>>,
    },
    AnthropicOAuth,
    CodexOAuth,
}

impl AuthView {
    /// Whether the local proxy for command line tools carries the requests.
    pub open spec fn is_cli_proxy_api(self) -> bool {
        self is AnthropicOAuth || self is CodexOAuth
    }

    /// The key of the upstream itself.
    pub open spec fn key(self) -> Option<Seq<char>> {
        match self {
            AuthView::ApiKey { key } => key,
            _ => None,
        }
    }

    /// The name by which the local proxy knows the account's provider: that of Anthropic's
    /// command line tool is `tool`.
    pub open spec fn provider(self, tool: Seq<char>) -> Option<Seq<char>> {
        match self {
            AuthView::AnthropicOAuth => Some(tool),
            AuthView::CodexOAuth => Some("codex"@),
            _ => None,
        }
    }
}

impl UpstreamAuth {
    pub open spec fn view(self) -> AuthView {
        match self {
            UpstreamAuth::ApiKey { key } => AuthView::ApiKey { key: opt_text(key) },
            UpstreamAuth::OAuthDevice { client_id, device_auth_url, token_url, scope } => AuthView::OAuthDevice {
                client_id: client_id@,
                device_auth_url: device_auth_url@,
                token_url: token_url@,
                scope: opt_text(scope),
            },
            UpstreamAuth::AnthropicOAuth => AuthView::AnthropicOAuth,
            UpstreamAuth::CodexOAuth => AuthView::CodexOAuth,
        }
    }

    /// Whether the local proxy for command line tools carries the requests.
    pub fn is_cli_proxy_api(&self) -> (r: bool)
        ensures
            r == self@.is_cli_proxy_api(),
    {
        match self {
            UpstreamAuth::AnthropicOAuth => true,
            UpstreamAuth::CodexOAuth => true,
            _ => false,
        }
    }

    /// The name by which the local proxy knows the account's provider: that of Anthropic's
    /// command line tool is `tool`.
    pub fn cli_proxy_api_provider<'a>(&self, tool: &'a str) -> (r: Option<&'a str>)
        ensures
            opt_str(r) == self@.provider(tool@),
    {
        match self {
            UpstreamAuth::AnthropicOAuth => Some(tool),
            UpstreamAuth::CodexOAuth => Some("codex"),
            _ => None,
        }
    }

    /// An equal value.
    pub fn copy(&self) -> (r: UpstreamAuth)
        ensures
            r@ == self@,
    {
        match self {
            UpstreamAuth::ApiKey { key } => UpstreamAuth::ApiKey { key: key.clone() },
            UpstreamAuth::OAuthDevice { client_id, device_auth_url, token_url, scope } => UpstreamAuth::OAuthDevice {
                client_id: client_id.clone(),
                device_auth_url: device_auth_url.clone(),
                token_url: token_url.clone(),
                scope: scope.clone(),
            },
            UpstreamAuth::AnthropicOAuth => UpstreamAuth::AnthropicOAuth,
            UpstreamAuth::CodexOAuth => UpstreamAuth::CodexOAuth,
        }
    }
}

impl Default for UpstreamAuth {
    fn default() -> (r: UpstreamAuth)
        ensures
            r@ == (AuthView::ApiKey { key: None }),
    {
        UpstreamAuth::ApiKey { key: None }
    }
}

/// The answer to a request for device authorization.
#[derive(Debug, PartialEq)]
pub struct DeviceAuthResponse {
    pub device_code: String,
    pub user_code: String,
    pub verification_uri: String,
    pub verification_uri_complete: Option<String>,
    pub expires_in: u64,
    pub interval: Option<u64>,
}

/// The answer to a request for a token.
#[derive(Debug, PartialEq)]
pub struct OAuthTokenResponse {
    pub access_token: String,
    pub token_type: String,
    pub expires_in: u64,
    pub refresh_token: Option<String>,
}

/// How far a device authorization has come.
#[derive(Debug, PartialEq)]
pub enum DeviceAuthStatus {
    Pending {
        user_code: String,
        verification_uri: String,
        verification_uri_complete: Option<String>,
        expires_at: String,
    },
    Success { message: String, expires_at: Option<String> },
    Failed { reason: String, message: String },
    Expired { message: String },
}

/// Where an alias comes from.
#[derive(Debug, Clone, Copy, PartialEq, Eq, Structural)]
pub enum ModelAliasSource {
    /// Made from the models of an upstream.
    Auto,
    /// Added by hand.
    Manual,
}

impl Default for ModelAliasSource {
    fn default() -> (r: ModelAliasSource)
        ensures
            r == ModelAliasSource::Manual,
    {
        ModelAliasSource::Manual
    }
}

/// How a configured parameter meets one of the request.
#[derive(Debug, Clone, Copy, PartialEq, Eq, Structural)]
pub enum OverrideMode {
    /// The configured value replaces the one of the request.
    Override,
    /// The configured value is used where the request has none.
    Default,
}

impl Default for OverrideMode {
    fn default() -> (r: OverrideMode)
        ensures
            r == OverrideMode::Default,
    {
        OverrideMode::Default
    }
}

/// A configured parameter.
#[derive(Debug, PartialEq)]
pub struct ParamOverride {
    pub key: String,
    pub value: Json,
    pub mode: OverrideMode,
}

/// A configured parameter as a mathematical value.
pub struct OverrideView {
    pub key: Seq<char>,
    pub value: JsonView,
    pub mode: OverrideMode,
}

impl ParamOverride {
    pub open spec fn view(self) -> OverrideView {
        OverrideView { key: self.key@, value: self.value@, mode: self.mode }
    }
}

/// The views of a list of configured parameters.
pub open spec fn override_views(s: Seq<ParamOverride>) -> Seq<OverrideView> {
    s.map_values(|p: ParamOverride| p@)
}

/// An upstream.
#[derive(Debug, PartialEq)]
pub struct UpstreamConfig {
    /// The name, which identifies it.
    pub name: String,
    pub base_url: String,
    pub api_type: ApiType,
    pub auth: UpstreamAuth,
    pub enabled: bool,
    pub support_chat_completions: bool,
    pub support_responses: bool,
    pub support_anthropic_messages: bool,
    /// Where Anthropic requests go, if not to `base_url`.
    pub anthropic_base_url: Option<String>,
}

/// An upstream as a mathematical value.
pub struct UpstreamView {
    pub name: Seq<char>,
    pub base_url: Seq<char>,
    pub api_type: ApiType,
    pub auth: AuthView,
    pub enabled: bool,
    pub support_chat_completions: bool,
    pub support_responses: bool,
    pub support_anthropic_messages: bool,
    pub anthropic_base_url: Option<Seq<char>>,
}

impl UpstreamView {
    /// Where the list of models is asked for.
    pub open spec fn models_url(self) -> Seq<char> {
        if self.api_type == ApiType::ChatGptCodex {
            self.base_url + "/codex/models"@
        } else {
            self.base_url + "/v1/models"@
        }
    }
}

/// An upstream as it may be written down: every field may be missing, and fields of older
/// forms may stand in for newer ones.
#[derive(Debug)]
pub struct RawUpstream {
    pub name: Option<String>,
    pub base_url: Option<String>,
    pub api_type: Option<ApiType>,
    pub api_key: Option<String>,
    pub auth: Option<UpstreamAuth>,
    pub enabled: Option<bool>,
    pub support_openai: Option<bool>,
    pub support_anthropic: Option<bool>,
    pub support_chat_completions: Option<bool>,
    pub support_responses: Option<bool>,
    pub support_anthropic_messages: Option<bool>,
    pub anthropic_base_url: Option<String>,
}

/// A field that an upstream cannot do without.
#[derive(Debug, Clone, Copy, PartialEq, Eq, Structural)]
pub enum MissingField {
    Name,
    BaseUrl,
}

impl MissingField {
    /// The name of the field.
    pub fn field(&self) -> (r: &'static str)
        ensures
            r@ == match *self {
                MissingField::Name => "name"@,
                MissingField::BaseUrl => "base_url"@,
            },
    {
        match self {
            MissingField::Name => "name",
            MissingField::BaseUrl => "base_url",
        }
    }
}

/// A value, or what stands for it where it is missing.
pub open spec fn or_else<A>(v: Option<A>, d: A) -> A {
    match v {
        Some(x) => x,
        None => d,
    }
}

/// The protocols that an upstream as written down supports: Chat Completions, Responses and
/// Anthropic Messages. Codex takes Responses alone. The newer fields count where one of them is
/// there; else the older ones do.
pub open spec fn raw_support(r: RawUpstream) -> (bool, bool, bool) {
    if or_else(r.api_type, ApiType::OpenAI) == ApiType::ChatGptCodex {
        (false, true, false)
    } else if r.support_chat_completions is Some || r.support_responses is Some
        || r.support_anthropic_messages is Some {
        (
            or_else(r.support_chat_completions, true),
            or_else(r.support_responses, false),
            or_else(r.support_anthropic_messages, false),
        )
    } else {
        (
            or_else(r.support_openai, true),
            or_else(r.support_openai, true),
            or_else(r.support_anthropic, false),
        )
    }
}

/// The upstream that is written down.
pub open spec fn upstream_of(r: RawUpstream) -> Result<UpstreamView, MissingField> {
    match (r.name, r.base_url) {
        (None, _) => Err(MissingField::Name),
        (Some(_), None) => Err(MissingField::BaseUrl),
        (Some(name), Some(base_url)) => Ok(
            UpstreamView {
                name: name@,
                base_url: base_url@,
                api_type: or_else(r.api_type, ApiType::OpenAI),
                auth: match r.auth {
                    Some(a) => a@,
                    None => AuthView::ApiKey { key: opt_text(r.api_key) },
                },
                enabled: or_else(r.enabled, true),
                support_chat_completions: raw_support(r).0,
                support_responses: raw_support(r).1,
                support_anthropic_messages: raw_support(r).2,
                anthropic_base_url: opt_text(r.anthropic_base_url),
            },
        ),
    }
}

/// A value, or what stands for it where it is missing.
fn bool_or(v: Option<bool>, d: bool) -> (r: bool)
    ensures
        r == or_else(v, d),
{
    match v {
        Some(x) => x,
        None => d,
    }
}

impl UpstreamConfig {
    pub open spec fn view(self) -> UpstreamView {
        UpstreamView {
            name: self.name@,
            base_url: self.base_url@,
            api_type: self.api_type,
            auth: self.auth@,
            enabled: self.enabled,
            support_chat_completions: self.support_chat_completions,
            support_responses: self.support_responses,
            support_anthropic_messages: self.support_anthropic_messages,
            anthropic_base_url: opt_text(self.anthropic_base_url),
        }
    }

    /// An enabled upstream that takes Chat Completions and has no key.
    pub fn new(name: String, base_url: String) -> (r: UpstreamConfig)
        ensures
            r@ == (UpstreamView {
                name: name@,
                base_url: base_url@,
                api_type: ApiType::OpenAI,
                auth: AuthView::ApiKey { key: None },
                enabled: true,
                support_chat_completions: true,
                support_responses: false,
                support_anthropic_messages: false,
                anthropic_base_url: None,
            }),
    {
        UpstreamConfig {
            name,
            base_url,
            api_type: ApiType::OpenAI,
            auth: UpstreamAuth::ApiKey { key: None },
            enabled: true,
            support_chat_completions: true,
            support_responses: false,
            support_anthropic_messages: false,
            anthropic_base_url: None,
        }
    }

    /// Reads an upstream as it is written down.
    pub fn from_raw(raw: RawUpstream) -> (r: Result<UpstreamConfig, MissingField>)
        ensures
            match r {
                Ok(u) => upstream_of(raw) == Ok::<UpstreamView, MissingField>(u@),
                Err(e) => upstream_of(raw) == Err::<UpstreamView, MissingField>(e),
            },
    {
        let name = match raw.name {
            Some(n) => n,
            None => return Err(MissingField::Name),
        };
        let base_url = match raw.base_url {
            Some(u) => u,
            None => return Err(MissingField::BaseUrl),
        };
        let api_type = match raw.api_type {
            Some(t) => t,
            None => ApiType::OpenAI,
        };
        let auth = match raw.auth {
            Some(a) => a,
            None => UpstreamAuth::ApiKey { key: raw.api_key },
        };
        let (chat, responses, anthropic) = if api_type == ApiType::ChatGptCodex {
            (false, true, false)
        } else if raw.support_chat_completions.is_some() || raw.support_responses.is_some()
            || raw.support_anthropic_messages.is_some() {
            (
                bool_or(raw.support_chat_completions, true),
                bool_or(raw.support_responses, false),
                bool_or(raw.support_anthropic_messages, false),
            )
        } else {
            (
                bool_or(raw.support_openai, true),
                bool_or(raw.support_openai, true),
                bool_or(raw.support_anthropic, false),
            )
        };
        Ok(
            UpstreamConfig {
                name,
                base_url,
                api_type,
                auth,
                enabled: bool_or(raw.enabled, true),
                support_chat_completions: chat,
                support_responses: responses,
                support_anthropic_messages: anthropic,
                anthropic_base_url: raw.anthropic_base_url,
            },
        )
    }

    /// What identifies the upstream: its name.
    pub fn id(&self) -> (r: &str)
        ensures
            r@ == self@.name,
    {
        self.name.as_str()
    }

    /// Where the list of models is asked for.
    pub fn get_models_url(&self) -> (r: String)
        ensures
            r@ == self@.models_url(),
    {
        if self.api_type == ApiType::ChatGptCodex {
            cat(&self.base_url, "/codex/models")
        } else {
            cat(&self.base_url, "/v1/models")
        }
    }

    /// Whether requests are authenticated by an account rather than by a key.
    pub fn is_oauth(&self) -> (r: bool)
        ensures
            r == !(self@.auth is ApiKey),
    {
        match &self.auth {
            UpstreamAuth::ApiKey { key: _ } => false,
            _ => true,
        }
    }

    /// The key, where requests are authenticated by one.
    pub fn api_key_value(&self) -> (r: Option<&str>)
        ensures
            opt_str(r) == self@.auth.key(),
    {
        match &self.auth {
            UpstreamAuth::ApiKey { key } => match key {
                Some(k) => Some(k.as_str()),
                None => None,
            },
            _ => None,
        }
    }

    /// An equal value.
    pub fn copy(&self) -> (r: UpstreamConfig)
        ensures
            r@ == self@,
    {
        UpstreamConfig {
            name: self.name.clone(),
            base_url: self.base_url.clone(),
            api_type: self.api_type,
            auth: self.auth.copy(),
            enabled: self.enabled,
            support_chat_completions: self.support_chat_completions,
            support_responses: self.support_responses,
            support_anthropic_messages: self.support_anthropic_messages,
            anthropic_base_url: self.anthropic_base_url.clone(),
        }
    }
}

/// A Codex upstream takes Responses and nothing else, whatever was written down.
pub proof fn codex_takes_responses_alone(r: RawUpstream)
    requires
        r.api_type == Some(ApiType::ChatGptCodex),
        upstream_of(r) is Ok,
    ensures
        ({
            let u = upstream_of(r)->Ok_0;
            !u.support_chat_completions && u.support_responses && !u.support_anthropic_messages
        }),
{
}

/// A model name that clients may use, and what it stands for.
#[derive(Debug, PartialEq)]
pub struct ModelAlias {
    pub alias: String,
    pub target_model: String,
    /// The name of the upstream.
    pub upstream: String,
    pub param_overrides: Vec<ParamOverride>,
    pub source: ModelAliasSource,
    /// The largest context, where it is known.
    pub max_model_len: Option<u32>,
}

/// An alias as a mathematical value.
pub struct AliasView {
    pub alias: Seq<char>,
    pub target_model: Seq<char>,
    pub upstream: Seq<char>,
    pub param_overrides: Seq<OverrideView>,
    pub source: ModelAliasSource,
    pub max_model_len: Option<u32>,
}

impl ModelAlias {
    pub open spec fn view(self) -> AliasView {
        AliasView {
            alias: self.alias@,
            target_model: self.target_model@,
            upstream: self.upstream@,
            param_overrides: override_views(self.param_overrides@),
            source: self.source,
            max_model_len: self.max_model_len,
        }
    }

    /// An alias added by hand, without parameters.
    pub fn new(alias: String, target_model: String, upstream: String) -> (r: ModelAlias)
        ensures
            r@ == (AliasView {
                alias: alias@,
                target_model: target_model@,
                upstream: upstream@,
                param_overrides: Seq::empty(),
                source: ModelAliasSource::Manual,
                max_model_len: None,
            }),
    {
        let param_overrides: Vec<ParamOverride> = Vec::new();
        assert(override_views(param_overrides@) =~= Seq::<OverrideView>::empty());
        ModelAlias {
            alias,
            target_model,
            upstream,
            param_overrides,
            source: ModelAliasSource::Manual,
            max_model_len: None,
        }
    }
}

/// A key that clients may use.
#[derive(Debug, PartialEq)]
pub struct ClientApiKeyConfig {
    pub name: String,
    pub key: String,
}

/// A key that clients may use, as a mathematical value.
pub struct KeyView {
    pub name: Seq<char>,
    pub key: Seq<char>,
}

impl ClientApiKeyConfig {
    pub open spec fn view(self) -> KeyView {
        KeyView { name: self.name@, key: self.key@ }
    }
}

/// The views of a list of keys.
pub open spec fn key_views(s: Seq<ClientApiKeyConfig>) -> Seq<KeyView> {
    s.map_values(|k: ClientApiKeyConfig| k@)
}

/// The views of a list of upstreams.
pub open spec fn upstream_views(s: Seq<UpstreamConfig>) -> Seq<UpstreamView> {
    s.map_values(|u: UpstreamConfig| u@)
}

/// The views of a list of aliases.
pub open spec fn alias_views(s: Seq<ModelAlias>) -> Seq<AliasView> {
    s.map_values(|a: ModelAlias| a@)
}

/// The whole configuration.
#[derive(Debug, PartialEq)]
pub struct AppConfig {
    pub upstreams: Vec<UpstreamConfig>,
    pub aliases: Vec<ModelAlias>,
    /// Whether requests are converted for upstreams that do not take their protocol.
    pub allow_protocol_conversion: bool,
    /// Where the local proxy for command line tools listens.
    pub cli_proxy_api_endpoint: String,
    pub cli_proxy_api_api_key: Option<String>,
    /// A single client key, an older form of the list.
    pub client_api_key: Option<String>,
    pub client_api_keys: Vec<ClientApiKeyConfig>,
    pub admin_password_hash: Option<String>,
    /// Whether session cookies are for secure connections only; else the request decides.
    pub cookie_secure: Option<bool>,
}

/// The whole configuration as a mathematical value.
pub struct AppView {
    pub upstreams: Seq<UpstreamView>,
    pub aliases: Seq<AliasView>,
    pub allow_protocol_conversion: bool,
    pub cli_proxy_api_endpoint: Seq<char>,
    pub cli_proxy_api_api_key: Option<Seq<char>>,
    pub client_api_key: Option<Seq<char>>,
    pub client_api_keys: Seq<KeyView>,
    pub admin_password_hash: Option<Seq<char>>,
    pub cookie_secure: Option<bool>,
}

impl AppView {
    /// A configuration without upstreams, aliases and keys.
    pub open spec fn empty() -> AppView {
        AppView {
            upstreams: Seq::empty(),
            aliases: Seq::empty(),
            allow_protocol_conversion: false,
            cli_proxy_api_endpoint: "http://127.0.0.1:8317"@,
            cli_proxy_api_api_key: None,
            client_api_key: None,
            client_api_keys: Seq::empty(),
            admin_password_hash: None,
            cookie_secure: None,
        }
    }
}

impl AppConfig {
    pub open spec fn view(self) -> AppView {
        AppView {
            upstreams: upstream_views(self.upstreams@),
            aliases: alias_views(self.aliases@),
            allow_protocol_conversion: self.allow_protocol_conversion,
            cli_proxy_api_endpoint: self.cli_proxy_api_endpoint@,
            cli_proxy_api_api_key: opt_text(self.cli_proxy_api_api_key),
            client_api_key: opt_text(self.client_api_key),
            client_api_keys: key_views(self.client_api_keys@),
            admin_password_hash: opt_text(self.admin_password_hash),
            cookie_secure: self.cookie_secure,
        }
    }

    /// A configuration without upstreams, aliases and keys.
    pub fn new() -> (r: AppConfig)
        ensures
            r@ == AppView::empty(),
    {
        let upstreams: Vec<UpstreamConfig> = Vec::new();
        let aliases: Vec<ModelAlias> = Vec::new();
        let client_api_keys: Vec<ClientApiKeyConfig> = Vec::new();
        assert(upstream_views(upstreams@) =~= Seq::<UpstreamView>::empty());
        assert(alias_views(aliases@) =~= Seq::<AliasView>::empty());
        assert(key_views(client_api_keys@) =~= Seq::<KeyView>::empty());
        AppConfig {
            upstreams,
            aliases,
            allow_protocol_conversion: false,
            cli_proxy_api_endpoint: copy("http://127.0.0.1:8317"),
            cli_proxy_api_api_key: None,
            client_api_key: None,
            client_api_keys,
            admin_password_hash: None,
            cookie_secure: None,
        }
    }
}

impl Default for AppConfig {
    fn default() -> (r: AppConfig)
        ensures
            r@ == AppView::empty(),
    {
        AppConfig::new()
    }
}

/// A message of a chat.
#[derive(Debug, PartialEq)]
pub struct Message {
    pub role: String,
    pub content: String,
}

/// A model in a list of models.
#[derive(Debug, PartialEq)]
pub struct ModelResponse {
    pub id: String,
    pub object: String,
    pub created: u64,
    pub owned_by: String,
}

} // verus!
