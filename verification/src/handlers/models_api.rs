//! Lists of models: what upstreams offer, what clients see, and aliases made from them.
use crate::config::{find_alias, find_upstream, first_alias, first_upstream};
use crate::handlers::config_api::{is_masked, looks_masked};
use crate::json::{views, views_are, Json, JsonView};
use crate::models::{
    alias_views, override_views, upstream_views, AliasView, AppConfig, AppView, AuthView, ModelAlias,
    ModelAliasSource, OverrideView, ParamOverride, UpstreamAuth, UpstreamConfig, UpstreamView,
};
use crate::oauth::{bearer_token, sent_token};
use crate::seqs::{take_ends, take_step};
use crate::text::{
    cat, cat3, copy, list_contains, opt_str, opt_text, same, starts_with, texts, trim,
    trim_end_matches, trimmed, without_trailing,
};
use crate::transform::chat_completions::items_at;
use crate::transform::stream::{either, parse_either};
use vstd::prelude::*;

verus! {

/// A model that an upstream offers.
#[derive(Debug, PartialEq)]
pub struct UpstreamModel {
    pub id: String,
    /// The largest context, where it is known.
    pub max_len: Option<u32>,
}

/// A model that an upstream offers, as a mathematical value.
pub struct UpstreamModelView {
    pub id: Seq<char>,
    pub max_len: Option<u32>,
}

impl UpstreamModel {
    pub open spec fn view(self) -> UpstreamModelView {
        UpstreamModelView { id: self.id@, max_len: self.max_len }
    }
}

/// The views of a list of models.
pub open spec fn model_views(s: Seq<UpstreamModel>) -> Seq<UpstreamModelView> {
    s.map_values(|m: UpstreamModel| m@)
}

/// The lower 32 bits of a number.
pub open spec fn low32(n: u64) -> u32 {
    (n % 0x1_0000_0000) as u32
}

/// A length as it is listed: the lower 32 bits of the number.
pub open spec fn length_of(v: JsonView) -> Option<u32> {
    match v.as_u64() {
        Some(n) => Some(low32(n)),
        None => None,
    }
}

/// The models of a list in the form that OpenAI gives it.
pub open spec fn listed_models(s: Seq<JsonView>) -> Seq<UpstreamModelView>
    decreases s.len(),
{
    if s.len() == 0 {
        Seq::empty()
    } else {
        let before = listed_models(s.drop_last());
        match s.last().str_at("id"@) {
            Some(id) => before.push(
                UpstreamModelView { id, max_len: length_of(s.last().at("max_model_len"@)) },
            ),
            None => before,
        }
    }
}

/// The models of a list in the form that Codex gives it.
pub open spec fn codex_models(s: Seq<JsonView>) -> Seq<UpstreamModelView>
    decreases s.len(),
{
    if s.len() == 0 {
        Seq::empty()
    } else {
        let before = codex_models(s.drop_last());
        match s.last().str_at("slug"@) {
            Some(id) => before.push(
                UpstreamModelView {
                    id,
                    max_len: length_of(either(s.last(), "max_model_len"@, "context_window"@)),
                },
            ),
            None => before,
        }
    }
}

/// The models that the answer of an upstream lists.
pub open spec fn models_of(body: JsonView) -> Seq<UpstreamModelView> {
    match body.array_at("data"@) {
        Some(a) => listed_models(a),
        None => codex_models(items_at(body, "models"@)),
    }
}

/// A length as it is listed.
fn parse_length(v: &Json) -> (r: Option<u32>)
    ensures
        r == length_of(v@),
{
    match v.as_u64() {
        Some(n) => Some((n % 0x1_0000_0000) as u32),
        None => None,
    }
}

/// The models that the answer of an upstream lists.
pub fn extract_models_from_upstream_response(body: &Json) -> (r: Vec<UpstreamModel>)
    ensures
        model_views(r@) == models_of(body@),
{
    broadcast use views_are;

    let mut out: Vec<UpstreamModel> = Vec::new();
    let mut i: usize = 0;
    if let Some(data) = body.array_at("data") {
        let ghost all = views(data@);
        proof {
            take_ends(all);
            assert(model_views(out@) =~= listed_models(all.take(0)));
        }
        while i < data.len()
            invariant
                i <= data@.len(),
                all == views(data@),
                model_views(out@) == listed_models(all.take(i as int)),
            decreases data@.len() - i,
        {
            proof {
                take_step(all, i as int);
            }
            if let Some(id) = data[i].str_at("id") {
                let ghost before = model_views(out@);
                let m = UpstreamModel {
                    id: copy(id),
                    max_len: parse_length(&data[i].at("max_model_len")),
                };
                out.push(m);
                assert(model_views(out@) =~= before.push(m@));
            }
            i += 1;
        }
        proof {
            take_ends(all);
        }
        return out;
    }
    let none: Vec<Json> = Vec::new();
    assert(views(none@) =~= Seq::<JsonView>::empty());
    let data = match body.array_at("models") {
        Some(a) => a,
        None => &none,
    };
    let ghost all = views(data@);
    proof {
        take_ends(all);
        assert(model_views(out@) =~= codex_models(all.take(0)));
    }
    while i < data.len()
        invariant
            i <= data@.len(),
            all == views(data@),
            model_views(out@) == codex_models(all.take(i as int)),
        decreases data@.len() - i,
    {
        proof {
            take_step(all, i as int);
        }
        if let Some(id) = data[i].str_at("slug") {
            let ghost before = model_views(out@);
            let m = UpstreamModel {
                id: copy(id),
                max_len: parse_length(&parse_either(&data[i], "max_model_len", "context_window")),
            };
            out.push(m);
            assert(model_views(out@) =~= before.push(m@));
        }
        i += 1;
    }
    proof {
        take_ends(all);
    }
    out
}

/// Whether a model of the local proxy belongs to the account of an upstream: the names of the
/// models of Anthropic's command line tool begin with that of the tool.
pub open spec fn model_matches(auth: AuthView, id: Seq<char>, tool: Seq<char>) -> bool {
    match auth {
        AuthView::AnthropicOAuth => (tool + "-"@).is_prefix_of(id),
        AuthView::CodexOAuth => !(tool + "-"@).is_prefix_of(id),
        _ => true,
    }
}

/// Whether a model of the local proxy belongs to the account of an upstream.
pub fn cli_proxy_api_model_matches_auth(auth: &UpstreamAuth, model_id: &str, tool: &str) -> (r: bool)
    ensures
        r == model_matches(auth@, model_id@, tool@),
{
    match auth {
        UpstreamAuth::AnthropicOAuth => starts_with(model_id, &cat(tool, "-")),
        UpstreamAuth::CodexOAuth => !starts_with(model_id, &cat(tool, "-")),
        _ => true,
    }
}

/// The models among those that belong to an upstream.
pub open spec fn matching_models(auth: AuthView, s: Seq<UpstreamModelView>, tool: Seq<char>) -> Seq<UpstreamModelView>
    decreases s.len(),
{
    if s.len() == 0 {
        Seq::empty()
    } else if model_matches(auth, s.last().id, tool) {
        matching_models(auth, s.drop_last(), tool).push(s.last())
    } else {
        matching_models(auth, s.drop_last(), tool)
    }
}

/// The models of an upstream, from the answer that lists them.
pub fn upstream_models(auth: &UpstreamAuth, body: &Json, tool: &str) -> (r: Vec<UpstreamModel>)
    ensures
        model_views(r@) == matching_models(auth@, models_of(body@), tool@),
{
    let listed = extract_models_from_upstream_response(body);
    let ghost all = model_views(listed@);
    let mut out: Vec<UpstreamModel> = Vec::new();
    let mut i: usize = 0;
    proof {
        take_ends(all);
        assert(model_views(out@) =~= matching_models(auth@, all.take(0), tool@));
    }
    while i < listed.len()
        invariant
            i <= listed@.len(),
            all == model_views(listed@),
            model_views(out@) == matching_models(auth@, all.take(i as int), tool@),
        decreases listed@.len() - i,
    {
        proof {
            take_step(all, i as int);
            assert(all[i as int] == listed@[i as int]@);
        }
        if cli_proxy_api_model_matches_auth(auth, &listed[i].id, tool) {
            let ghost before = model_views(out@);
            let m = UpstreamModel { id: listed[i].id.clone(), max_len: listed[i].max_len };
            out.push(m);
            assert(model_views(out@) =~= before.push(m@));
        }
        i += 1;
    }
    proof {
        take_ends(all);
    }
    out
}

/// Why the models of an upstream could not be fetched.
#[derive(Debug, PartialEq)]
pub enum UpstreamFetchError {
    CliProxyNotRunning,
    CliProxyNotConfigured,
    Timeout,
    Http(String),
}

impl UpstreamFetchError {
    /// What the error says.
    pub open spec fn text(self) -> Seq<char> {
        match self {
            UpstreamFetchError::CliProxyNotRunning => "CLIProxyAPI 服务未运行"@,
            UpstreamFetchError::CliProxyNotConfigured => "CLIProxyAPI 未配置"@,
            UpstreamFetchError::Timeout => "请求上游超时"@,
            UpstreamFetchError::Http(e) => e@,
        }
    }

    /// What the error says.
    pub fn message(&self) -> (r: String)
        ensures
            r@ == self.text(),
    {
        match self {
            UpstreamFetchError::CliProxyNotRunning => copy("CLIProxyAPI 服务未运行"),
            UpstreamFetchError::CliProxyNotConfigured => copy("CLIProxyAPI 未配置"),
            UpstreamFetchError::Timeout => copy("请求上游超时"),
            UpstreamFetchError::Http(e) => e.clone(),
        }
    }

    /// The HTTP status and the message that an administrator gets for the error.
    pub fn answer(&self, upstream: &str) -> (r: (u16, String))
        ensures
            match *self {
                UpstreamFetchError::CliProxyNotRunning => r.0 == 400 && r.1@ == "上游 '"@ + upstream@
                    + "' 的 CLIProxyAPI 服务未运行"@,
                UpstreamFetchError::CliProxyNotConfigured => r.0 == 400 && r.1@ == "上游 '"@
                    + upstream@ + "' 的 CLIProxyAPI 未配置"@,
                UpstreamFetchError::Timeout => r.0 == 504 && r.1@ == "请求上游超时"@,
                UpstreamFetchError::Http(e) => r.0 == 502 && r.1@ == "请求上游失败: "@ + e@,
            },
    {
        match self {
            UpstreamFetchError::CliProxyNotRunning => (
                400,
                cat3("上游 '", upstream, "' 的 CLIProxyAPI 服务未运行"),
            ),
            UpstreamFetchError::CliProxyNotConfigured => (
                400,
                cat3("上游 '", upstream, "' 的 CLIProxyAPI 未配置"),
            ),
            UpstreamFetchError::Timeout => (504, copy("请求上游超时")),
            UpstreamFetchError::Http(e) => (502, cat("请求上游失败: ", e)),
        }
    }
}

/// How the local proxy is at the moment.
#[derive(Debug, PartialEq)]
pub enum LocalProxy {
    Absent,
    Stopped,
    Running { endpoint: String, api_key: String },
}

/// What is asked for a list of models.
#[derive(Debug, PartialEq)]
pub struct FetchRequest {
    pub url: String,
    pub bearer: Option<String>,
    pub user_agent: Option<String>,
}

/// What is asked for a list of models, as a mathematical value.
pub struct FetchView {
    pub url: Seq<char>,
    pub bearer: Option<Seq<char>>,
    pub user_agent: Option<Seq<char>>,
}

impl FetchRequest {
    pub open spec fn view(self) -> FetchView {
        FetchView {
            url: self.url@,
            bearer: opt_text(self.bearer),
            user_agent: opt_text(self.user_agent),
        }
    }
}

/// What is asked for the models of an upstream: the upstream itself, or the local proxy where
/// that carries its requests. Anthropic's command line tool goes by the name `tool`.
pub open spec fn fetch_of(u: UpstreamView, proxy: LocalProxy, tool: Seq<char>) -> Result<
    FetchView,
    UpstreamFetchError,
> {
    if u.auth.is_cli_proxy_api() {
        match proxy {
            LocalProxy::Absent => Err(UpstreamFetchError::CliProxyNotConfigured),
            LocalProxy::Stopped => Err(UpstreamFetchError::CliProxyNotRunning),
            LocalProxy::Running { endpoint, api_key } => Ok(
                FetchView {
                    url: endpoint@ + "/v1/models"@,
                    bearer: Some(api_key@),
                    user_agent: if u.auth is AnthropicOAuth {
                        Some(tool + "-cli/llm-wrapper"@)
                    } else {
                        None
                    },
                },
            ),
        }
    } else {
        Ok(FetchView { url: u.models_url(), bearer: sent_token(u.auth), user_agent: None })
    }
}

/// What is asked for the models of an upstream.
pub fn plan_fetch(upstream: &UpstreamConfig, proxy: &LocalProxy, tool: &str) -> (r: Result<
    FetchRequest,
    UpstreamFetchError,
>)
    ensures
        match r {
            Ok(f) => fetch_of(upstream@, *proxy, tool@) == Ok::<FetchView, UpstreamFetchError>(f@),
            Err(e) => fetch_of(upstream@, *proxy, tool@) == Err::<FetchView, UpstreamFetchError>(e),
        },
{
    if upstream.auth.is_cli_proxy_api() {
        match proxy {
            LocalProxy::Absent => Err(UpstreamFetchError::CliProxyNotConfigured),
            LocalProxy::Stopped => Err(UpstreamFetchError::CliProxyNotRunning),
            LocalProxy::Running { endpoint, api_key } => {
                let user_agent = match &upstream.auth {
                    UpstreamAuth::AnthropicOAuth => Some(cat(tool, "-cli/llm-wrapper")),
                    _ => None,
                };
                Ok(
                    FetchRequest {
                        url: cat(endpoint, "/v1/models"),
                        bearer: Some(api_key.clone()),
                        user_agent,
                    },
                )
            },
        }
    } else {
        Ok(
            FetchRequest {
                url: upstream.get_models_url(),
                bearer: bearer_token(&upstream.auth),
                user_agent: None,
            },
        )
    }
}

/// A model that was fetched, with the upstream that offers it.
#[derive(Debug, PartialEq)]
pub struct FetchedModel {
    pub upstream: String,
    pub id: String,
    pub max_len: Option<u32>,
}

/// A model that was fetched, as a mathematical value.
pub struct FetchedView {
    pub upstream: Seq<char>,
    pub id: Seq<char>,
    pub max_len: Option<u32>,
}

impl FetchedModel {
    pub open spec fn view(self) -> FetchedView {
        FetchedView { upstream: self.upstream@, id: self.id@, max_len: self.max_len }
    }
}

/// The views of a list of fetched models.
pub open spec fn fetched_views(s: Seq<FetchedModel>) -> Seq<FetchedView> {
    s.map_values(|m: FetchedModel| m@)
}

/// The length of a model of an upstream: the last one that is known.
pub open spec fn known_length(s: Seq<FetchedView>, upstream: Seq<char>, model: Seq<char>) -> Option<u32>
    decreases s.len(),
{
    if s.len() == 0 {
        None
    } else if s.last().upstream == upstream && s.last().id == model && s.last().max_len is Some {
        s.last().max_len
    } else {
        known_length(s.drop_last(), upstream, model)
    }
}

/// The length of a model of an upstream.
fn find_length(fetched: &Vec<FetchedModel>, upstream: &str, model: &str) -> (r: Option<u32>)
    ensures
        r == known_length(fetched_views(fetched@), upstream@, model@),
{
    let ghost all = fetched_views(fetched@);
    let mut n: usize = fetched.len();
    proof {
        take_ends(all);
    }
    while n > 0
        invariant
            n <= fetched@.len(),
            all == fetched_views(fetched@),
            known_length(all, upstream@, model@) == known_length(
                all.take(n as int),
                upstream@,
                model@,
            ),
        decreases n,
    {
        proof {
            take_step(all, n - 1);
            assert(all[n - 1] == fetched@[n - 1]@);
        }
        let m = &fetched[n - 1];
        if same(&m.upstream, upstream) && same(&m.id, model) && m.max_len.is_some() {
            return m.max_len;
        }
        n -= 1;
    }
    None
}

/// An alias in the list that clients see.
pub open spec fn listed_alias(a: AliasView, fetched: Seq<FetchedView>) -> JsonView {
    JsonView::object().with("id"@, JsonView::Str(a.alias)).with(
        "object"@,
        JsonView::Str("model"@),
    ).with("created"@, JsonView::uint(0)).with("owned_by"@, JsonView::Str(a.upstream)).with_some(
        "max_model_len"@,
        match known_length(fetched, a.upstream, a.target_model) {
            Some(n) => Some(JsonView::uint(n as u64)),
            None => None,
        },
    )
}

/// The list that clients see: the aliases, with the lengths of the models that they stand for.
pub open spec fn listed_aliases(s: Seq<AliasView>, fetched: Seq<FetchedView>) -> JsonView {
    JsonView::object().with("object"@, JsonView::Str("list"@)).with(
        "data"@,
        JsonView::Array(Seq::new(s.len(), |i: int| listed_alias(s[i], fetched))),
    )
}

/// The list that clients see.
pub fn list_models(aliases: &Vec<ModelAlias>, fetched: &Vec<FetchedModel>) -> (r: Json)
    ensures
        r@ == listed_aliases(alias_views(aliases@), fetched_views(fetched@)),
{
    let ghost known = fetched_views(fetched@);
    let mut out: Vec<Json> = Vec::new();
    let mut i: usize = 0;
    while i < aliases.len()
        invariant
            i <= aliases@.len(),
            known == fetched_views(fetched@),
            out@.len() == i,
            forall|j: int| 0 <= j < i ==> (#[trigger] out@[j])@ == listed_alias(aliases@[j]@, known),
        decreases aliases@.len() - i,
    {
        let a = &aliases[i];
        let length = match find_length(fetched, &a.upstream, &a.target_model) {
            Some(n) => Some(Json::uint(n as u64)),
            None => None,
        };
        out.push(
            Json::object().with("id", Json::str(&a.alias)).with("object", Json::str("model")).with(
                "created",
                Json::uint(0),
            ).with("owned_by", Json::str(&a.upstream)).with_some("max_model_len", length),
        );
        i += 1;
    }
    broadcast use views_are;

    let ghost s = alias_views(aliases@);
    assert(views(out@) =~= Seq::new(s.len(), |i: int| listed_alias(s[i], known)));
    Json::object().with("object", Json::str("list")).with("data", Json::Array(out))
}

/// An alias with the length that was learned for its model.
pub open spec fn learned_alias(a: AliasView, fetched: Seq<FetchedView>) -> AliasView {
    match known_length(fetched, a.upstream, a.target_model) {
        Some(n) => AliasView { max_model_len: Some(n), ..a },
        None => a,
    }
}

/// Aliases with the lengths that were learned.
pub open spec fn learned_aliases(s: Seq<AliasView>, fetched: Seq<FetchedView>) -> Seq<AliasView> {
    Seq::new(s.len(), |i: int| learned_alias(s[i], fetched))
}

/// Whether a length was learned that an alias does not have yet.
pub fn lengths_changed(aliases: &Vec<ModelAlias>, fetched: &Vec<FetchedModel>) -> (r: bool)
    ensures
        r == (learned_aliases(alias_views(aliases@), fetched_views(fetched@)) != alias_views(
            aliases@,
        )),
{
    let ghost known = fetched_views(fetched@);
    let ghost all = alias_views(aliases@);
    let mut i: usize = 0;
    while i < aliases.len()
        invariant
            i <= aliases@.len(),
            known == fetched_views(fetched@),
            all == alias_views(aliases@),
            forall|j: int| 0 <= j < i ==> learned_alias(#[trigger] all[j], known) == all[j],
        decreases aliases@.len() - i,
    {
        let a = &aliases[i];
        assert(all[i as int] == a@);
        if let Some(n) = find_length(fetched, &a.upstream, &a.target_model) {
            let same_length = match a.max_model_len {
                Some(m) => m == n,
                None => false,
            };
            if !same_length {
                assert(learned_alias(all[i as int], known).max_model_len != all[i as int].max_model_len);
                assert(learned_aliases(all, known)[i as int] != all[i as int]);
                return true;
            }
        }
        i += 1;
    }
    assert(learned_aliases(all, known) =~= all);
    false
}

/// Notes the lengths that were learned.
pub fn store_lengths(config: &mut AppConfig, fetched: &Vec<FetchedModel>)
    ensures
        final(config)@ == (AppView {
            aliases: learned_aliases(old(config)@.aliases, fetched_views(fetched@)),
            ..old(config)@
        }),
{
    let ghost before = config@;
    let ghost known = fetched_views(fetched@);
    let n: usize = config.aliases.len();
    let mut i: usize = 0;
    while i < n
        invariant
            i <= n,
            n == config.aliases@.len(),
            n == before.aliases.len(),
            known == fetched_views(fetched@),
            config@ == (AppView { aliases: config@.aliases, ..before }),
            forall|j: int|
                0 <= j < i ==> (#[trigger] config.aliases@[j])@ == learned_alias(
                    before.aliases[j],
                    known,
                ),
            forall|j: int| i <= j < n ==> (#[trigger] config.aliases@[j])@ == before.aliases[j],
        decreases n - i,
    {
        let found = find_length(fetched, &config.aliases[i].upstream, &config.aliases[i].target_model);
        if let Some(len) = found {
            config.aliases[i].max_model_len = Some(len);
        }
        i += 1;
    }
    assert(config@.aliases =~= learned_aliases(before.aliases, known));
}

/// The names of upstreams that the aliases lead to, each once, in the order in which they
/// first appear.
pub open spec fn alias_upstreams(s: Seq<AliasView>) -> Seq<Seq<char>>
    decreases s.len(),
{
    if s.len() == 0 {
        Seq::empty()
    } else {
        let before = alias_upstreams(s.drop_last());
        if before.contains(s.last().upstream) {
            before
        } else {
            before.push(s.last().upstream)
        }
    }
}

/// The enabled upstreams of the given names.
pub open spec fn enabled_among(names: Seq<Seq<char>>, s: Seq<UpstreamView>) -> Seq<UpstreamView>
    decreases names.len(),
{
    if names.len() == 0 {
        Seq::empty()
    } else {
        let before = enabled_among(names.drop_last(), s);
        match first_upstream(s, names.last(), true) {
            Some(i) => before.push(s[i]),
            None => before,
        }
    }
}

/// The upstreams whose models are fetched for the list that clients see.
pub fn upstreams_to_ask(config: &AppConfig) -> (r: Vec<UpstreamConfig>)
    ensures
        upstream_views(r@) == enabled_among(alias_upstreams(config@.aliases), config@.upstreams),
{
    let ghost aliases = config@.aliases;
    let mut names: Vec<String> = Vec::new();
    let mut i: usize = 0;
    proof {
        take_ends(aliases);
        assert(texts(names@) =~= alias_upstreams(aliases.take(0)));
    }
    while i < config.aliases.len()
        invariant
            i <= config.aliases@.len(),
            aliases == alias_views(config.aliases@),
            texts(names@) == alias_upstreams(aliases.take(i as int)),
        decreases config.aliases@.len() - i,
    {
        proof {
            take_step(aliases, i as int);
        }
        let name = &config.aliases[i].upstream;
        if !list_contains(&names, name) {
            let ghost before = names@;
            names.push(name.clone());
            assert(texts(names@) =~= texts(before).push(name@));
        }
        i += 1;
    }
    let ghost all = texts(names@);
    let mut out: Vec<UpstreamConfig> = Vec::new();
    let mut j: usize = 0;
    proof {
        take_ends(aliases);
        take_ends(all);
        assert(upstream_views(out@) =~= Seq::<UpstreamView>::empty());
    }
    while j < names.len()
        invariant
            j <= names@.len(),
            all == texts(names@),
            upstream_views(out@) == enabled_among(all.take(j as int), config@.upstreams),
        decreases names@.len() - j,
    {
        proof {
            take_step(all, j as int);
            assert(all[j as int] == names@[j as int]@);
        }
        if let Some(k) = find_upstream(&config.upstreams, &names[j], true) {
            let ghost before = upstream_views(out@);
            let u = config.upstreams[k].copy();
            out.push(u);
            assert(upstream_views(out@) =~= before.push(u@));
        }
        j += 1;
    }
    proof {
        take_ends(all);
    }
    out
}

/// Why a test of an upstream cannot be made.
#[derive(Debug, Clone, Copy, PartialEq, Eq, Structural)]
pub enum TestError {
    /// There is no URL.
    EmptyUrl,
    /// The key is masked, and there is no stored one.
    MaskedKey,
}

/// The key of the first upstream of a name that has one.
pub open spec fn key_of_upstream(s: Seq<UpstreamView>, name: Seq<char>) -> Option<Seq<char>>
    decreases s.len(),
{
    if s.len() == 0 {
        None
    } else if s[0].name == name && s[0].auth.key() is Some {
        s[0].auth.key()
    } else {
        key_of_upstream(s.skip(1), name)
    }
}

/// A key as it can be sent: trimmed, and none where it is empty or says that there is none.
pub open spec fn usable_key(key: Option<Seq<char>>) -> Option<Seq<char>> {
    match key {
        Some(k) => if k.len() == 0 || k == "none"@ {
            None
        } else {
            Some(k)
        },
        None => None,
    }
}

/// What is asked for a test of an upstream that may not be stored yet. A masked key stands for
/// the stored one of the named upstream.
pub open spec fn test_request(
    upstreams: Seq<UpstreamView>,
    base_url: Seq<char>,
    api_key: Option<Seq<char>>,
    upstream: Option<Seq<char>>,
) -> Result<FetchView, TestError> {
    let base = without_trailing(trimmed(base_url), '/');
    let given = usable_key(
        match api_key {
            Some(k) => Some(trimmed(k)),
            None => None,
        },
    );
    let stored = match upstream {
        Some(name) => key_of_upstream(upstreams, name),
        None => None,
    };
    if base.len() == 0 {
        Err(TestError::EmptyUrl)
    } else if given is Some && looks_masked(given->Some_0) {
        match stored {
            Some(k) => Ok(
                FetchView { url: base + "/v1/models"@, bearer: usable_key(Some(k)), user_agent: None },
            ),
            None => Err(TestError::MaskedKey),
        }
    } else {
        Ok(FetchView { url: base + "/v1/models"@, bearer: given, user_agent: None })
    }
}

/// The key of the first upstream of a name that has one.
fn find_key_of_upstream(list: &Vec<UpstreamConfig>, name: &str) -> (r: Option<String>)
    ensures
        opt_text(r) == key_of_upstream(upstream_views(list@), name@),
{
    let ghost all = upstream_views(list@);
    let mut i: usize = 0;
    assert(all.skip(0) =~= all);
    while i < list.len()
        invariant
            i <= list@.len(),
            all == upstream_views(list@),
            key_of_upstream(all, name@) == key_of_upstream(all.skip(i as int), name@),
        decreases list@.len() - i,
    {
        assert(all.skip(i as int)[0] == list@[i as int]@);
        assert(all.skip(i as int).skip(1) =~= all.skip(i + 1));
        if same(&list[i].name, name) {
            if let Some(k) = list[i].api_key_value() {
                return Some(copy(k));
            }
        }
        i += 1;
    }
    None
}

/// A key as it can be sent.
fn make_usable(key: Option<String>) -> (r: Option<String>)
    ensures
        opt_text(r) == usable_key(opt_text(key)),
{
    match key {
        Some(k) => if k.as_str().is_empty() || same(&k, "none") {
            None
        } else {
            Some(k)
        },
        None => None,
    }
}

/// What is asked for a test of an upstream that may not be stored yet.
pub fn plan_test(
    upstreams: &Vec<UpstreamConfig>,
    base_url: &str,
    api_key: Option<&str>,
    upstream: Option<&str>,
) -> (r: Result<FetchRequest, TestError>)
    ensures
        match r {
            Ok(f) => test_request(
                upstream_views(upstreams@),
                base_url@,
                opt_str(api_key),
                opt_str(upstream),
            ) == Ok::<FetchView, TestError>(f@),
            Err(e) => test_request(
                upstream_views(upstreams@),
                base_url@,
                opt_str(api_key),
                opt_str(upstream),
            ) == Err::<FetchView, TestError>(e),
        },
{
    let base = trim_end_matches(trim(base_url), '/');
    if base.is_empty() {
        return Err(TestError::EmptyUrl);
    }
    let given = make_usable(
        match api_key {
            Some(k) => Some(copy(trim(k))),
            None => None,
        },
    );
    let hidden = match &given {
        Some(k) => is_masked(k),
        None => false,
    };
    let bearer = if hidden {
        let stored = match upstream {
            Some(name) => find_key_of_upstream(upstreams, name),
            None => None,
        };
        if stored.is_none() {
            return Err(TestError::MaskedKey);
        }
        make_usable(stored)
    } else {
        given
    };
    Ok(FetchRequest { url: cat(base, "/v1/models"), bearer, user_agent: None })
}

/// What becomes of a request for an alias.
#[derive(Debug, Clone, Copy, PartialEq, Eq, Structural)]
pub enum AliasOutcome {
    Created,
    /// There is no such upstream, or it is not enabled.
    NoUpstream,
    /// The name is taken.
    Taken,
}

/// What becomes of a request for an alias.
pub open spec fn alias_outcome(c: AppView, upstream: Seq<char>, model: Seq<char>) -> AliasOutcome {
    if first_upstream(c.upstreams, upstream, true) is None {
        AliasOutcome::NoUpstream
    } else if first_alias(c.aliases, model) is Some {
        AliasOutcome::Taken
    } else {
        AliasOutcome::Created
    }
}

/// An alias for a model under the model's own name.
pub open spec fn auto_alias(upstream: Seq<char>, model: Seq<char>) -> AliasView {
    AliasView {
        alias: model,
        target_model: model,
        upstream,
        param_overrides: Seq::empty(),
        source: ModelAliasSource::Auto,
        max_model_len: None,
    }
}

/// Adds an alias for a model of an upstream, under the model's own name. Other aliases for the
/// same model do not stand in its way.
pub fn create_upstream_model_alias(config: &mut AppConfig, upstream: &str, model: &str) -> (r: AliasOutcome)
    ensures
        r == alias_outcome(old(config)@, upstream@, model@),
        final(config)@ == (if r == AliasOutcome::Created {
            AppView {
                aliases: old(config)@.aliases.push(auto_alias(upstream@, model@)),
                ..old(config)@
            }
        } else {
            old(config)@
        }),
{
    if find_upstream(&config.upstreams, upstream, true).is_none() {
        return AliasOutcome::NoUpstream;
    }
    if find_alias(&config.aliases, model).is_some() {
        return AliasOutcome::Taken;
    }
    let param_overrides: Vec<ParamOverride> = Vec::new();
    assert(override_views(param_overrides@) =~= Seq::<OverrideView>::empty());
    let alias = ModelAlias {
        alias: copy(model),
        target_model: copy(model),
        upstream: copy(upstream),
        param_overrides,
        source: ModelAliasSource::Auto,
        max_model_len: None,
    };
    let ghost before = alias_views(config.aliases@);
    config.aliases.push(alias);
    assert(alias_views(config.aliases@) =~= before.push(alias@));
    AliasOutcome::Created
}

/// A created alias can be called: its name leads to the upstream, with the model under its own
/// name and without parameters.
pub proof fn created_aliases_are_routed(c: AppView, upstream: Seq<char>, model: Seq<char>)
    requires
        alias_outcome(c, upstream, model) == AliasOutcome::Created,
    ensures
        ({
            let after = AppView { aliases: c.aliases.push(auto_alias(upstream, model)), ..c };
            let route = crate::router::route_of(after, model);
            &&& route is Some
            &&& route->Some_0.upstream_name == upstream
            &&& route->Some_0.target_model == model
            &&& route->Some_0.override_params == Map::<Seq<char>, JsonView>::empty()
            &&& route->Some_0.default_params == Map::<Seq<char>, JsonView>::empty()
        }),
{
    let a = auto_alias(upstream, model);
    let after = c.aliases.push(a);
    crate::config::first_alias_facts(c.aliases, model);
    crate::config::first_alias_facts(after, model);
    assert(after[c.aliases.len() as int].alias == model);
    let i = crate::config::first_alias(after, model)->Some_0;
    if i < c.aliases.len() {
        assert(c.aliases[i].alias == model);
    }
    crate::config::first_upstream_facts(c.upstreams, upstream, true);
}

} // verus!
