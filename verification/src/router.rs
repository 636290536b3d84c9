//! Which upstream a model name leads to, and with which parameters.
use crate::config::{find_alias, find_upstream, first_alias, first_alias_facts, first_upstream, first_upstream_facts};
use crate::json::{JsonObject, JsonView};
use crate::models::{
    override_views, AliasView, ApiType, AppConfig, AppView, AuthView, ModelAlias, OverrideMode, OverrideView,
    ParamOverride, UpstreamAuth, UpstreamConfig, UpstreamView,
};
use crate::seqs::{take_ends, take_step};
use crate::text::{copy, opt_text, texts};
use crate::transform::Protocol;
use vstd::prelude::*;

verus! {

/// Where a request goes, and what is changed in it.
#[derive(Debug, PartialEq)]
pub struct RouteResult {
    pub upstream_base_url: String,
    /// Where Anthropic requests go, if not to `upstream_base_url`.
    pub anthropic_base_url: Option<String>,
    pub upstream_name: String,
    pub upstream_auth: UpstreamAuth,
    pub api_type: ApiType,
    /// The model that the upstream is asked for.
    pub target_model: String,
    /// Parameters that replace those of the request.
    pub override_params: JsonObject,
    /// Parameters that are used where the request has none.
    pub default_params: JsonObject,
    /// Whether the local proxy for command line tools carries the request.
    pub use_cli_proxy_api: bool,
    pub cli_proxy_api_endpoint: String,
    pub cli_proxy_api_api_key: Option<String>,
    pub support_chat_completions: bool,
    pub support_responses: bool,
    pub support_anthropic_messages: bool,
}

/// Where a request goes, as a mathematical value.
pub struct RouteView {
    pub upstream_base_url: Seq<char>,
    pub anthropic_base_url: Option<Seq<char>>,
    pub upstream_name: Seq<char>,
    pub upstream_auth: AuthView,
    pub api_type: ApiType,
    pub target_model: Seq<char>,
    pub override_params: Map<Seq<char>, JsonView>,
    pub default_params: Map<Seq<char>, JsonView>,
    pub use_cli_proxy_api: bool,
    pub cli_proxy_api_endpoint: Seq<char>,
    pub cli_proxy_api_api_key: Option<Seq<char>>,
    pub support_chat_completions: bool,
    pub support_responses: bool,
    pub support_anthropic_messages: bool,
}

/// The view of an optional route.
pub open spec fn opt_route(r: Option<RouteResult>) -> Option<RouteView> {
    match r {
        Some(x) => Some(x@),
        None => None,
    }
}

/// The parameters of a mode; a later one replaces an earlier one of the same name.
pub open spec fn params_of(s: Seq<OverrideView>, mode: OverrideMode) -> Map<Seq<char>, JsonView>
    decreases s.len(),
{
    if s.len() == 0 {
        Map::empty()
    } else if s.last().mode == mode {
        params_of(s.drop_last(), mode).insert(s.last().key, s.last().value)
    } else {
        params_of(s.drop_last(), mode)
    }
}

/// The route to an upstream.
pub open spec fn route_to(
    config: AppView,
    u: UpstreamView,
    target_model: Seq<char>,
    overrides: Seq<OverrideView>,
) -> RouteView {
    RouteView {
        upstream_base_url: u.base_url,
        anthropic_base_url: u.anthropic_base_url,
        upstream_name: u.name,
        upstream_auth: u.auth,
        api_type: u.api_type,
        target_model,
        override_params: params_of(overrides, OverrideMode::Override),
        default_params: params_of(overrides, OverrideMode::Default),
        use_cli_proxy_api: u.auth.is_cli_proxy_api(),
        cli_proxy_api_endpoint: config.cli_proxy_api_endpoint,
        cli_proxy_api_api_key: config.cli_proxy_api_api_key,
        support_chat_completions: u.support_chat_completions,
        support_responses: u.support_responses,
        support_anthropic_messages: u.support_anthropic_messages,
    }
}

/// The route of an alias: to the first enabled upstream of the name that it gives.
pub open spec fn alias_route(config: AppView, a: AliasView) -> Option<RouteView> {
    match first_upstream(config.upstreams, a.upstream, true) {
        Some(i) => Some(
            route_to(config, config.upstreams[i], a.target_model, a.param_overrides),
        ),
        None => None,
    }
}

/// The route of a model name: that of the first alias of this name, else to the first upstream
/// of this name where it is enabled.
pub open spec fn route_of(config: AppView, model: Seq<char>) -> Option<RouteView> {
    match first_alias(config.aliases, model) {
        Some(i) => alias_route(config, config.aliases[i]),
        None => match first_upstream(config.upstreams, model, false) {
            Some(i) => if config.upstreams[i].enabled {
                Some(route_to(config, config.upstreams[i], model, Seq::empty()))
            } else {
                None
            },
            None => None,
        },
    }
}

/// Every route leads to a configured upstream that is enabled.
pub proof fn routes_lead_to_enabled_upstreams(config: AppView, model: Seq<char>)
    requires
        route_of(config, model) is Some,
    ensures
        exists|i: int|
            0 <= i < config.upstreams.len() && (#[trigger] config.upstreams[i]).enabled
                && config.upstreams[i].name == route_of(config, model)->Some_0.upstream_name
                && config.upstreams[i].base_url == route_of(config, model)->Some_0.upstream_base_url,
{
    match first_alias(config.aliases, model) {
        Some(i) => {
            first_upstream_facts(config.upstreams, config.aliases[i].upstream, true);
            let k = first_upstream(config.upstreams, config.aliases[i].upstream, true)->Some_0;
            assert(config.upstreams[k].enabled);
        },
        None => {
            first_upstream_facts(config.upstreams, model, false);
            let k = first_upstream(config.upstreams, model, false)->Some_0;
            assert(config.upstreams[k].enabled);
        },
    }
}

/// An alias takes precedence: where a name is an alias, an upstream of that name plays no part.
pub proof fn aliases_come_first(config: AppView, model: Seq<char>)
    requires
        first_alias(config.aliases, model) is Some,
    ensures
        ({
            let i = first_alias(config.aliases, model)->Some_0;
            &&& 0 <= i < config.aliases.len()
            &&& config.aliases[i].alias == model
            &&& route_of(config, model) == alias_route(config, config.aliases[i])
        }),
{
    first_alias_facts(config.aliases, model);
}

/// Only aliases and names of upstreams are routed: the model that an alias stands for leads
/// nowhere by itself.
pub proof fn other_names_have_no_route(config: AppView, model: Seq<char>)
    requires
        forall|i: int| 0 <= i < config.aliases.len() ==> (#[trigger] config.aliases[i]).alias != model,
        forall|i: int| 0 <= i < config.upstreams.len() ==> (#[trigger] config.upstreams[i]).name != model,
    ensures
        route_of(config, model) is None,
{
    first_alias_facts(config.aliases, model);
    first_upstream_facts(config.upstreams, model, false);
}

impl RouteView {
    /// Whether the upstream takes a protocol.
    pub open spec fn supports(self, p: Protocol) -> bool {
        match p {
            Protocol::ChatCompletions => self.support_chat_completions,
            Protocol::Responses => self.support_responses,
            Protocol::AnthropicMessages => self.support_anthropic_messages,
        }
    }

    /// The first protocol in the order of preference that the upstream takes.
    pub open spec fn best(self, entry: Protocol) -> Option<Protocol> {
        let s = Protocol::priority(entry);
        if self.supports(s[0]) {
            Some(s[0])
        } else if self.supports(s[1]) {
            Some(s[1])
        } else if self.supports(s[2]) {
            Some(s[2])
        } else {
            None
        }
    }

    /// Where requests of a protocol go.
    pub open spec fn base_url(self, p: Protocol) -> Seq<char> {
        match (p, self.anthropic_base_url) {
            (Protocol::AnthropicMessages, Some(url)) => url,
            _ => self.upstream_base_url,
        }
    }
}

/// The best protocol is one that the upstream takes, it is the entry protocol wherever that is
/// taken, and there is one wherever the upstream takes any.
pub proof fn best_is_supported(route: RouteView, entry: Protocol)
    ensures
        route.best(entry) is Some ==> route.supports(route.best(entry)->Some_0),
        route.supports(entry) ==> route.best(entry) == Some(entry),
        forall|p: Protocol| route.supports(p) ==> route.best(entry) is Some,
{
}

impl RouteResult {
    pub open spec fn view(self) -> RouteView {
        RouteView {
            upstream_base_url: self.upstream_base_url@,
            anthropic_base_url: opt_text(self.anthropic_base_url),
            upstream_name: self.upstream_name@,
            upstream_auth: self.upstream_auth@,
            api_type: self.api_type,
            target_model: self.target_model@,
            override_params: self.override_params@,
            default_params: self.default_params@,
            use_cli_proxy_api: self.use_cli_proxy_api,
            cli_proxy_api_endpoint: self.cli_proxy_api_endpoint@,
            cli_proxy_api_api_key: opt_text(self.cli_proxy_api_api_key),
            support_chat_completions: self.support_chat_completions,
            support_responses: self.support_responses,
            support_anthropic_messages: self.support_anthropic_messages,
        }
    }

    /// Whether the upstream takes a protocol.
    pub fn supports(&self, protocol: Protocol) -> (r: bool)
        ensures
            r == self@.supports(protocol),
    {
        match protocol {
            Protocol::ChatCompletions => self.support_chat_completions,
            Protocol::Responses => self.support_responses,
            Protocol::AnthropicMessages => self.support_anthropic_messages,
        }
    }

    /// The first protocol in the order of preference that the upstream takes.
    pub fn best_available_protocol(&self, entry: Protocol) -> (r: Option<Protocol>)
        ensures
            r == self@.best(entry),
    {
        let order = Protocol::selection_priority(entry);
        if self.supports(order[0]) {
            Some(order[0])
        } else if self.supports(order[1]) {
            Some(order[1])
        } else if self.supports(order[2]) {
            Some(order[2])
        } else {
            None
        }
    }

    /// Where requests of a protocol go.
    pub fn effective_base_url(&self, protocol: Protocol) -> (r: &str)
        ensures
            r@ == self@.base_url(protocol),
    {
        if protocol == Protocol::AnthropicMessages {
            if let Some(url) = &self.anthropic_base_url {
                return url.as_str();
            }
        }
        self.upstream_base_url.as_str()
    }
}

/// The parameters of a mode.
fn collect_params(s: &Vec<ParamOverride>, mode: OverrideMode) -> (r: JsonObject)
    ensures
        r@ == params_of(override_views(s@), mode),
{
    let ghost all = override_views(s@);
    let mut out = JsonObject::new();
    let mut i: usize = 0;
    proof {
        take_ends(all);
    }
    while i < s.len()
        invariant
            i <= s@.len(),
            all == override_views(s@),
            out@ == params_of(all.take(i as int), mode),
        decreases s@.len() - i,
    {
        proof {
            take_step(all, i as int);
            assert(all[i as int] == s@[i as int]@);
        }
        if s[i].mode == mode {
            out.insert(&s[i].key, s[i].value.copy());
        }
        i += 1;
    }
    out
}

/// The route to an upstream.
fn make_route(
    config: &AppConfig,
    u: &UpstreamConfig,
    target_model: &str,
    overrides: &Vec<ParamOverride>,
) -> (r: RouteResult)
    ensures
        r@ == route_to(config@, u@, target_model@, override_views(overrides@)),
{
    RouteResult {
        upstream_base_url: u.base_url.clone(),
        anthropic_base_url: u.anthropic_base_url.clone(),
        upstream_name: u.name.clone(),
        upstream_auth: u.auth.copy(),
        api_type: u.api_type,
        target_model: copy(target_model),
        override_params: collect_params(overrides, OverrideMode::Override),
        default_params: collect_params(overrides, OverrideMode::Default),
        use_cli_proxy_api: u.auth.is_cli_proxy_api(),
        cli_proxy_api_endpoint: config.cli_proxy_api_endpoint.clone(),
        cli_proxy_api_api_key: config.cli_proxy_api_api_key.clone(),
        support_chat_completions: u.support_chat_completions,
        support_responses: u.support_responses,
        support_anthropic_messages: u.support_anthropic_messages,
    }
}

/// Finds the upstreams for model names.
#[derive(Debug)]
pub struct ModelRouter {
    config: AppConfig,
}

impl ModelRouter {
    /// The configuration.
    pub closed spec fn view(self) -> AppView {
        self.config@
    }

    /// A router for a configuration.
    pub fn new(config: AppConfig) -> (r: ModelRouter)
        ensures
            r@ == config@,
    {
        ModelRouter { config }
    }

    /// The route of a model name or alias.
    pub fn route(&self, model: &str) -> (r: Option<RouteResult>)
        ensures
            opt_route(r) == route_of(self@, model@),
    {
        if let Some(i) = find_alias(&self.config.aliases, model) {
            return self.build_route_for_alias(&self.config.aliases[i]);
        }
        match find_upstream(&self.config.upstreams, model, false) {
            Some(i) => {
                let u = &self.config.upstreams[i];
                if u.enabled {
                    let none: Vec<ParamOverride> = Vec::new();
                    assert(override_views(none@) =~= Seq::<OverrideView>::empty());
                    Some(make_route(&self.config, u, model, &none))
                } else {
                    None
                }
            },
            None => None,
        }
    }

    /// The route of an alias.
    pub fn build_route_for_alias(&self, alias: &ModelAlias) -> (r: Option<RouteResult>)
        ensures
            opt_route(r) == alias_route(self@, alias@),
    {
        match find_upstream(&self.config.upstreams, &alias.upstream, true) {
            Some(i) => Some(
                make_route(
                    &self.config,
                    &self.config.upstreams[i],
                    &alias.target_model,
                    &alias.param_overrides,
                ),
            ),
            None => None,
        }
    }

    /// Whether requests are converted for upstreams that do not take their protocol.
    pub fn allows_conversion(&self) -> (r: bool)
        ensures
            r == self@.allow_protocol_conversion,
    {
        self.config.allow_protocol_conversion
    }

    /// The model names that clients may use.
    pub fn get_models(&self) -> (r: Vec<String>)
        ensures
            texts(r@) == self@.model_names(),
    {
        self.config.get_available_models()
    }
}

} // verus!
