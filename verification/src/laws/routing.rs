//! What routing means: which upstream a model name leads to, which parameters go with it, where
//! a request is sent and with what.
use crate::args::{command_from, CommandView};
use crate::config::{first_alias, first_alias_facts, first_upstream, first_upstream_facts};
use crate::headers::{header_value, value_text, HeaderView};
use crate::json::JsonView;
use crate::models::{upstream_of, AliasView, ApiType, AppView, AuthView, OverrideMode, OverrideView, RawUpstream, UpstreamView};
use crate::oauth::sent_token;
use crate::proxy::{adapted, addressed, passed_headers, upstream_url};
use crate::router::{alias_route, params_of, route_of, RouteView};
use crate::text::{lowered, opt_text, without_trailing};
use crate::transform::Protocol;
use vstd::prelude::*;
use vstd::string::*;
use vstd::utf8::*;

verus! {

/// Whether a list has a parameter of a mode and a name.
pub open spec fn is_configured(s: Seq<OverrideView>, mode: OverrideMode, name: Seq<char>) -> bool {
    exists|i: int| 0 <= i < s.len() && (#[trigger] s[i]).mode == mode && s[i].key == name
}

/// Whether the parameter at a place is the last one of its mode and name.
pub open spec fn is_last_of_name(s: Seq<OverrideView>, i: int) -> bool {
    &&& 0 <= i < s.len()
    &&& forall|j: int| i < j < s.len() ==> !((#[trigger] s[j]).mode == s[i].mode && s[j].key == s[i].key)
}

/// A name is among the parameters of a mode exactly where a configured parameter of that mode
/// bears it, and its value is that of the last one.
pub proof fn last_parameters_count(s: Seq<OverrideView>, mode: OverrideMode)
    ensures
        forall|name: Seq<char>| #[trigger]
            params_of(s, mode).dom().contains(name) <==> is_configured(s, mode, name),
        forall|i: int|
            #![trigger s[i]]
            is_last_of_name(s, i) && s[i].mode == mode ==> params_of(s, mode).dom().contains(s[i].key)
                && params_of(s, mode)[s[i].key] == s[i].value,
    decreases s.len(),
{
    if s.len() > 0 {
        let t = s.drop_last();
        last_parameters_count(t, mode);
        let p = params_of(s, mode);
        let q = params_of(t, mode);
        assert forall|name: Seq<char>| #[trigger] p.dom().contains(name) implies is_configured(s, mode, name) by {
            if q.dom().contains(name) {
                let i = choose|i: int| 0 <= i < t.len() && (#[trigger] t[i]).mode == mode && t[i].key == name;
                assert(s[i] == t[i]);
            } else {
                assert(s[s.len() - 1].mode == mode);
            }
        }
        assert forall|name: Seq<char>| is_configured(s, mode, name) implies #[trigger] p.dom().contains(name) by {
            let i = choose|i: int| 0 <= i < s.len() && (#[trigger] s[i]).mode == mode && s[i].key == name;
            if i < t.len() {
                assert(t[i] == s[i]);
                assert(q.dom().contains(name));
            }
        }
        assert forall|i: int|
            #![trigger s[i]]
            is_last_of_name(s, i) && s[i].mode == mode implies p.dom().contains(s[i].key) && p[s[i].key]
            == s[i].value by {
            if i < t.len() {
                assert(t[i] == s[i]);
                assert forall|j: int| i < j < t.len() implies !((#[trigger] t[j]).mode == t[i].mode && t[j].key
                    == t[i].key) by {
                    assert(t[j] == s[j]);
                }
                assert(is_last_of_name(t, i));
                let l = s[s.len() - 1];
                assert(!(l.mode == mode && l.key == s[i].key));
            }
        }
    } else {
        assert forall|name: Seq<char>| is_configured(s, mode, name) implies #[trigger] params_of(
            s,
            mode,
        ).dom().contains(name) by {
        }
    }
}

/// Whether the alias at a place is the first one of a name.
pub open spec fn is_first_alias(s: Seq<AliasView>, i: int, name: Seq<char>) -> bool {
    &&& 0 <= i < s.len()
    &&& s[i].alias == name
    &&& forall|j: int| 0 <= j < i ==> (#[trigger] s[j]).alias != name
}

/// Whether the upstream at a place is the first enabled one of a name.
pub open spec fn is_first_enabled(s: Seq<UpstreamView>, i: int, name: Seq<char>) -> bool {
    &&& 0 <= i < s.len()
    &&& s[i].name == name && s[i].enabled
    &&& forall|j: int| 0 <= j < i ==> !((#[trigger] s[j]).name == name && s[j].enabled)
}

/// Whether the upstream at a place is the first one of a name.
pub open spec fn is_first_upstream(s: Seq<UpstreamView>, i: int, name: Seq<char>) -> bool {
    &&& 0 <= i < s.len()
    &&& s[i].name == name
    &&& forall|j: int| 0 <= j < i ==> (#[trigger] s[j]).name != name
}

/// The first alias that is looked for is found.
pub proof fn first_alias_is_first(s: Seq<AliasView>, i: int, name: Seq<char>)
    requires
        is_first_alias(s, i, name),
    ensures
        first_alias(s, name) == Some(i),
    decreases s.len(),
{
    if i > 0 {
        let t = s.skip(1);
        assert(s[0].alias != name);
        assert forall|j: int| 0 <= j < i - 1 implies (#[trigger] t[j]).alias != name by {
            assert(t[j] == s[j + 1]);
        }
        first_alias_is_first(t, i - 1, name);
    }
}

/// The first upstream that is looked for is found.
pub proof fn first_upstream_is_first(s: Seq<UpstreamView>, i: int, name: Seq<char>, only_enabled: bool)
    requires
        only_enabled ==> is_first_enabled(s, i, name),
        !only_enabled ==> is_first_upstream(s, i, name),
    ensures
        first_upstream(s, name, only_enabled) == Some(i),
    decreases s.len(),
{
    if i > 0 {
        let t = s.skip(1);
        assert(!(s[0].name == name && (!only_enabled || s[0].enabled)));
        assert forall|j: int| 0 <= j < i - 1 implies !((#[trigger] t[j]).name == name && (!only_enabled
            || t[j].enabled)) by {
            assert(t[j] == s[j + 1]);
        }
        first_upstream_is_first(t, i - 1, name, only_enabled);
    }
}

/// Whether a route leads to an upstream.
pub open spec fn leads_to(config: AppView, r: RouteView, u: UpstreamView) -> bool {
    &&& r.upstream_name == u.name
    &&& r.upstream_base_url == u.base_url
    &&& r.anthropic_base_url == u.anthropic_base_url
    &&& r.upstream_auth == u.auth
    &&& r.api_type == u.api_type
    &&& r.use_cli_proxy_api <==> (u.auth is AnthropicOAuth || u.auth is CodexOAuth)
    &&& r.cli_proxy_api_endpoint == config.cli_proxy_api_endpoint
    &&& r.cli_proxy_api_api_key == config.cli_proxy_api_api_key
    &&& r.supports(Protocol::ChatCompletions) <==> u.support_chat_completions
    &&& r.supports(Protocol::Responses) <==> u.support_responses
    &&& r.supports(Protocol::AnthropicMessages) <==> u.support_anthropic_messages
}

/// Whether a route carries configured parameters: of each mode those that no later one replaces,
/// and no others.
pub open spec fn carries_parameters(r: RouteView, s: Seq<OverrideView>) -> bool {
    &&& forall|name: Seq<char>| #[trigger]
        r.override_params.dom().contains(name) <==> is_configured(s, OverrideMode::Override, name)
    &&& forall|name: Seq<char>| #[trigger]
        r.default_params.dom().contains(name) <==> is_configured(s, OverrideMode::Default, name)
    &&& forall|i: int|
        #![trigger s[i]]
        is_last_of_name(s, i) ==> match s[i].mode {
            OverrideMode::Override => r.override_params.dom().contains(s[i].key) && r.override_params[s[i].key]
                == s[i].value,
            OverrideMode::Default => r.default_params.dom().contains(s[i].key) && r.default_params[s[i].key]
                == s[i].value,
        }
}

/// An alias leads to the first enabled upstream of the name that it gives, asks for the model
/// that it stands for, and carries its parameters; where no such upstream is enabled it leads
/// nowhere.
pub proof fn aliases_lead_to_their_upstream(config: AppView, a: AliasView, k: int)
    ensures
        is_first_enabled(config.upstreams, k, a.upstream) ==> ({
            let r = alias_route(config, a)->Some_0;
            &&& alias_route(config, a) is Some
            &&& leads_to(config, r, config.upstreams[k])
            &&& r.target_model == a.target_model
            &&& carries_parameters(r, a.param_overrides)
        }),
        (forall|i: int|
            0 <= i < config.upstreams.len() ==> !((#[trigger] config.upstreams[i]).name == a.upstream
                && config.upstreams[i].enabled)) ==> alias_route(config, a) is None,
{
    if is_first_enabled(config.upstreams, k, a.upstream) {
        first_upstream_is_first(config.upstreams, k, a.upstream, true);
    }
    first_upstream_facts(config.upstreams, a.upstream, true);
    last_parameters_count(a.param_overrides, OverrideMode::Override);
    last_parameters_count(a.param_overrides, OverrideMode::Default);
}

/// A model name leads where the first alias of that name leads; a name that is no alias leads
/// to the first upstream of that name, under that name and without parameters, where that
/// upstream is enabled.
pub proof fn names_lead_to_routes(config: AppView, model: Seq<char>, i: int, k: int)
    ensures
        is_first_alias(config.aliases, i, model) ==> route_of(config, model) == alias_route(
            config,
            config.aliases[i],
        ),
        (forall|j: int| 0 <= j < config.aliases.len() ==> (#[trigger] config.aliases[j]).alias != model)
            && is_first_upstream(config.upstreams, k, model) ==> (match route_of(config, model) {
            Some(r) => config.upstreams[k].enabled && leads_to(config, r, config.upstreams[k])
                && r.target_model == model && r.override_params == Map::<Seq<char>, JsonView>::empty()
                && r.default_params == Map::<Seq<char>, JsonView>::empty(),
            None => !config.upstreams[k].enabled,
        }),
{
    first_alias_facts(config.aliases, model);
    if is_first_alias(config.aliases, i, model) {
        first_alias_is_first(config.aliases, i, model);
    }
    if is_first_upstream(config.upstreams, k, model) {
        first_upstream_is_first(config.upstreams, k, model, false);
    }
}

/// The protocol for an upstream is that of the request where the upstream takes it, then Chat
/// Completions, then Responses, then Anthropic Messages.
pub proof fn protocols_are_preferred_in_order(r: RouteView, entry: Protocol)
    ensures
        r.supports(entry) ==> r.best(entry) == Some(entry),
        !r.supports(entry) && r.supports(Protocol::ChatCompletions) ==> r.best(entry) == Some(
            Protocol::ChatCompletions,
        ),
        !r.supports(entry) && !r.supports(Protocol::ChatCompletions) && r.supports(Protocol::Responses)
            ==> r.best(entry) == Some(Protocol::Responses),
        !r.supports(Protocol::ChatCompletions) && !r.supports(Protocol::Responses) && r.supports(
            Protocol::AnthropicMessages,
        ) ==> r.best(entry) == Some(Protocol::AnthropicMessages),
        r.best(entry) is None <==> !r.supports(Protocol::ChatCompletions) && !r.supports(Protocol::Responses)
            && !r.supports(Protocol::AnthropicMessages),
{
}

/// Whether a path is that of Anthropic messages or lies under it.
pub open spec fn lies_under_messages(path: Seq<char>) -> bool {
    path == "/v1/messages"@ || (path.len() >= 13 && path.take(13) == "/v1/messages/"@)
}

/// A request goes to the base of the upstream, or to its base for Anthropic requests, without a
/// slash at its end, followed by the path and by the query where there is one.
pub proof fn requests_go_to_the_base(r: RouteView, path: Seq<char>, query: Seq<char>, base: Seq<char>)
    requires
        match r.anthropic_base_url {
            Some(url) => lies_under_messages(path) && base == url || !lies_under_messages(path) && base
                == r.upstream_base_url,
            None => base == r.upstream_base_url,
        },
    ensures
        base.len() > 0 && base.last() != '/' && query.len() == 0 ==> upstream_url(r, path, query) == base + path,
        base.len() > 0 && base.last() != '/' && query.len() > 0 ==> upstream_url(r, path, query) == base + path
            + "?"@ + query,
        base.len() > 1 && base.last() == '/' && base[base.len() - 2] != '/' && query.len() == 0 ==> upstream_url(
            r,
            path,
            query,
        ) == base.drop_last() + path,
{
    reveal_strlit("/v1/messages/");
    assert("/v1/messages/"@.len() == 13);
    assert("/v1/messages/"@.is_prefix_of(path) <==> path.len() >= 13 && path.take(13) == "/v1/messages/"@) by {
        if path.len() >= 13 && path.take(13) == "/v1/messages/"@ {
            assert forall|i: int| 0 <= i < 13 implies "/v1/messages/"@[i] == path[i] by {
                assert(path.take(13)[i] == path[i]);
            }
            assert("/v1/messages/"@ =~= path.subrange(0, 13));
        }
        if "/v1/messages/"@.is_prefix_of(path) {
            assert(path.take(13) =~= "/v1/messages/"@);
        }
    }
    reveal_with_fuel(without_trailing, 3);
    assert(base + (path + "?"@ + query) =~= base + path + "?"@ + query);
}

/// Slashes at the end of a base play no part.
pub proof fn slashes_play_no_part(r: RouteView, path: Seq<char>, query: Seq<char>)
    ensures
        upstream_url(
            RouteView {
                upstream_base_url: r.upstream_base_url.push('/'),
                anthropic_base_url: match r.anthropic_base_url {
                    Some(url) => Some(url.push('/')),
                    None => None,
                },
                ..r
            },
            path,
            query,
        ) == upstream_url(r, path, query),
{
    assert(r.upstream_base_url.push('/').drop_last() =~= r.upstream_base_url);
    match r.anthropic_base_url {
        Some(url) => assert(url.push('/').drop_last() =~= url),
        None => {},
    }
}

/// A request is sent with the key of the upstream, unless that is empty or says that there is
/// none, and with the body that it is given.
pub proof fn requests_carry_the_key(
    r: RouteView,
    path: Seq<char>,
    query: Seq<char>,
    headers: Seq<HeaderView>,
    body: JsonView,
)
    ensures
        ({
            let sent = addressed(r, path, query, headers, body);
            &&& sent.body == body
            &&& sent.url == upstream_url(r, path, query)
            &&& sent.headers == passed_headers(path, headers)
            &&& sent.bearer is Some <==> (match r.upstream_auth {
                AuthView::ApiKey { key } => key is Some && key->Some_0.len() > 0 && key->Some_0 != "none"@,
                _ => false,
            })
            &&& sent.bearer is Some ==> r.upstream_auth == (AuthView::ApiKey { key: sent.bearer })
        }),
{
}

/// Whether the header at a place is the first one of a name, case aside.
pub open spec fn is_first_header(s: Seq<HeaderView>, i: int, name: Seq<char>) -> bool {
    &&& 0 <= i < s.len()
    &&& lowered(s[i].name) == lowered(name)
    &&& forall|j: int| 0 <= j < i ==> lowered((#[trigger] s[j]).name) != lowered(name)
}

/// The value of a header is that of the first one of its name, case aside.
pub proof fn first_headers_count(s: Seq<HeaderView>, i: int, name: Seq<char>)
    ensures
        is_first_header(s, i, name) ==> header_value(s, name) == value_text(s[i].value),
        (forall|j: int| 0 <= j < s.len() ==> lowered((#[trigger] s[j]).name) != lowered(name)) ==> header_value(
            s,
            name,
        ) is None,
    decreases s.len(),
{
    if s.len() > 0 {
        let t = s.skip(1);
        first_headers_count(t, i - 1, name);
        if is_first_header(s, i, name) && i > 0 {
            assert(lowered(s[0].name) != lowered(name));
            assert forall|j: int| 0 <= j < i - 1 implies lowered((#[trigger] t[j]).name) != lowered(name) by {
                assert(t[j] == s[j + 1]);
            }
            assert(is_first_header(t, i - 1, name));
        }
        if forall|j: int| 0 <= j < s.len() ==> lowered((#[trigger] s[j]).name) != lowered(name) {
            assert(lowered(s[0].name) != lowered(name));
            assert forall|j: int| 0 <= j < t.len() implies lowered((#[trigger] t[j]).name) != lowered(name) by {
                assert(t[j] == s[j + 1]);
            }
        }
    }
}

/// The value of a header is text where each of its bytes is a visible character of ASCII, a blank
/// or a tab, and then it is the text of these bytes.
pub proof fn visible_values_are_text(v: Seq<u8>)
    ensures
        value_text(v) is Some <==> forall|i: int|
            0 <= i < v.len() ==> 32 <= #[trigger] v[i] <= 126 || v[i] == 9,
        value_text(v) is Some ==> value_text(v)->Some_0 == decode_utf8(v),
{
    if value_text(v) is Some {
        assert forall|i: int| 0 <= i < v.len() implies 32 <= #[trigger] v[i] <= 126 || v[i] == 9 by {
            assert(crate::headers::is_visible(v[i]));
        }
    }
}

/// A header of the client is handed on exactly where the path is one of Anthropic's and the
/// header is one of the three of Anthropic.
pub proof fn headers_are_passed(path: Seq<char>, s: Seq<HeaderView>, name: Seq<char>, v: Seq<char>)
    ensures
        passed_headers(path, s).contains((name, v)) <==> lies_under_messages(path) && header_value(s, name)
            == Some(v) && (name == "anthropic-version"@ || name == "anthropic-beta"@ || name
            == "anthropic-dangerous-direct-browser-access"@),
{
    reveal_strlit("/v1/messages/");
    assert("/v1/messages/"@.len() == 13);
    assert("/v1/messages/"@.is_prefix_of(path) <==> path.len() >= 13 && path.take(13) == "/v1/messages/"@) by {
        if path.len() >= 13 && path.take(13) == "/v1/messages/"@ {
            assert("/v1/messages/"@ =~= path.subrange(0, 13));
        }
        if "/v1/messages/"@.is_prefix_of(path) {
            assert(path.take(13) =~= "/v1/messages/"@);
        }
    }
    let a = crate::proxy::passed_header(s, "anthropic-version"@);
    let b = crate::proxy::passed_header(s, "anthropic-beta"@);
    let c = crate::proxy::passed_header(s, "anthropic-dangerous-direct-browser-access"@);
    let all = passed_headers(path, s);
    if lies_under_messages(path) && header_value(s, name) == Some(v) {
        if name == "anthropic-version"@ {
            assert(all[0] == (name, v));
        } else if name == "anthropic-beta"@ {
            assert(all[a.len() as int] == (name, v));
        } else if name == "anthropic-dangerous-direct-browser-access"@ {
            assert(all[(a.len() + b.len()) as int] == (name, v));
        }
    }
    if all.contains((name, v)) {
        let i = choose|i: int| 0 <= i < all.len() && all[i] == (name, v);
        if i < a.len() {
            assert(all[i] == a[i]);
        } else if i < a.len() + b.len() {
            assert(all[i] == b[i - a.len()]);
        } else {
            assert(all[i] == c[i - a.len() - b.len()]);
        }
    }
}

/// The value that parameters give under `extra_body`.
pub open spec fn extra_value(params: Map<Seq<char>, JsonView>, key: Seq<char>) -> Option<JsonView> {
    if params.dom().contains("extra_body"@) {
        params["extra_body"@].get(key)
    } else {
        None
    }
}

/// Where a field of what the upstream gets comes from: an overriding parameter, else one under
/// `extra_body` of the overriding parameters, else the request, else a default parameter, else
/// one under `extra_body` of the default parameters where the request has no `extra_body`.
pub proof fn fields_come_from_the_first_to_speak(m: Map<Seq<char>, JsonView>, r: RouteView, key: Seq<char>)
    requires
        key != "model"@,
        key != "extra_body"@,
    ensures
        ({
            let got = adapted(JsonView::Object(m), r).get(key);
            if r.override_params.dom().contains(key) {
                got == Some(r.override_params[key])
            } else if extra_value(r.override_params, key) is Some {
                got == extra_value(r.override_params, key)
            } else if m.dom().contains(key) {
                got == Some(m[key])
            } else if r.default_params.dom().contains(key) {
                got == Some(r.default_params[key])
            } else if m.dom().contains("extra_body"@) {
                got is None
            } else {
                got == extra_value(r.default_params, key)
            }
        }),
        adapted(JsonView::Object(m), r).get("model"@) == Some(JsonView::Str(r.target_model)),
{
}

/// An upstream as written down needs a name and a base; its other fields are those written down,
/// and what is not written down has its usual value.
pub proof fn upstreams_are_read(r: RawUpstream)
    ensures
        upstream_of(r) is Ok <==> r.name is Some && r.base_url is Some,
        upstream_of(r) is Ok ==> ({
            let u = upstream_of(r)->Ok_0;
            let codex = r.api_type == Some(ApiType::ChatGptCodex);
            let newer = r.support_chat_completions is Some || r.support_responses is Some
                || r.support_anthropic_messages is Some;
            &&& u.name == r.name->Some_0@ && u.base_url == r.base_url->Some_0@
            &&& u.anthropic_base_url == opt_text(r.anthropic_base_url)
            &&& u.api_type == ApiType::ChatGptCodex <==> codex
            &&& r.auth is Some ==> u.auth == r.auth->Some_0@
            &&& r.auth is None ==> u.auth == (AuthView::ApiKey { key: opt_text(r.api_key) })
            &&& !u.enabled <==> r.enabled == Some(false)
            &&& codex ==> !u.support_chat_completions && u.support_responses && !u.support_anthropic_messages
            &&& !codex && newer ==> {
                &&& !u.support_chat_completions <==> r.support_chat_completions == Some(false)
                &&& u.support_responses <==> r.support_responses == Some(true)
                &&& u.support_anthropic_messages <==> r.support_anthropic_messages == Some(true)
            }
            &&& !codex && !newer ==> {
                &&& !u.support_chat_completions <==> r.support_openai == Some(false)
                &&& !u.support_responses <==> r.support_openai == Some(false)
                &&& u.support_anthropic_messages <==> r.support_anthropic == Some(true)
            }
        }),
{
}

/// The list of models is asked for under the base of an upstream.
pub proof fn models_are_asked_under_the_base(u: UpstreamView)
    ensures
        u.api_type == ApiType::ChatGptCodex ==> u.models_url() == u.base_url + "/codex/models"@,
        u.api_type != ApiType::ChatGptCodex ==> u.models_url() == u.base_url + "/v1/models"@,
        sent_token(u.auth) is Some ==> u.auth.key() == sent_token(u.auth),
{
}

/// Whether an argument names the configuration file.
pub open spec fn names_config(a: Seq<char>) -> bool {
    a == "-c"@ || a == "--config"@
}

/// Whether an argument names the address.
pub open spec fn names_addr(a: Seq<char>) -> bool {
    a == "-a"@ || a == "--addr"@
}

/// Whether `n` options with their values stand from the second argument on.
pub open spec fn has_options(args: Seq<Seq<char>>, n: nat) -> bool {
    &&& args.len() >= 1 + 2 * n
    &&& forall|k: int| 0 <= k < n ==> names_config(#[trigger] args[1 + 2 * k]) || names_addr(args[1 + 2 * k])
}

/// The value of the last of `n` options of a kind.
pub open spec fn last_value(args: Seq<Seq<char>>, n: nat, config: bool) -> Option<Seq<char>>
    decreases n,
{
    if n == 0 {
        None
    } else if names_config(args[2 * n - 1]) == config {
        Some(args[2 * n as int])
    } else {
        last_value(args, (n - 1) as nat, config)
    }
}

proof fn options_are_passed(args: Seq<Seq<char>>, n: nat)
    requires
        has_options(args, n),
    ensures
        command_from(args, 1, None, None) == command_from(
            args,
            1 + 2 * n as int,
            last_value(args, n, true),
            last_value(args, n, false),
        ),
    decreases n,
{
    reveal_strlit("-c");
    reveal_strlit("--config");
    reveal_strlit("-a");
    reveal_strlit("--addr");
    reveal_strlit("-v");
    reveal_strlit("--version");
    reveal_strlit("-h");
    reveal_strlit("--help");
    assert("-c"@.len() == 2);
    assert("--config"@.len() == 8);
    assert("-a"@.len() == 2);
    assert("--addr"@.len() == 6);
    assert("-v"@.len() == 2);
    assert("--version"@.len() == 9);
    assert("-h"@.len() == 2);
    assert("--help"@.len() == 6);
    assert("-c"@[1] == 'c' && "-a"@[1] == 'a');
    assert("-c"@[1] == 'c' && "-v"@[1] == 'v');
    assert("-c"@[1] == 'c' && "-h"@[1] == 'h');
    assert("-a"@[1] == 'a' && "-v"@[1] == 'v');
    assert("-a"@[1] == 'a' && "-h"@[1] == 'h');
    assert("--addr"@[2] == 'a' && "--help"@[2] == 'h');
    assert("-v"@[1] == 'v' && "-h"@[1] == 'h');
    if n > 0 {
        let m = (n - 1) as nat;
        assert(has_options(args, m));
        options_are_passed(args, m);
        let a = args[1 + 2 * m as int];
        assert(names_config(args[1 + 2 * (n - 1)]) || names_addr(args[1 + 2 * (n - 1)]));
        assert(names_config(a) || names_addr(a));
        assert(2 * n - 1 == 1 + 2 * m);
        assert(2 * n == 1 + 2 * m + 1);
    }
}

/// The command line is read option by option, the last value of each counting; the first
/// argument that is no option decides, and an option without a value is passed over.
pub proof fn command_lines_are_read(args: Seq<Seq<char>>, n: nat)
    requires
        has_options(args, n),
    ensures
        ({
            let r = command_from(args, 1, None, None);
            let run = CommandView::Run {
                config_path: last_value(args, n, true),
                bind_addr: last_value(args, n, false),
            };
            let next = args[1 + 2 * n as int];
            &&& args.len() == 1 + 2 * n ==> r == run
            &&& args.len() > 1 + 2 * n && (next == "-v"@ || next == "--version"@) ==> r is Version
            &&& args.len() > 1 + 2 * n && (next == "-h"@ || next == "--help"@) ==> r is Help
            &&& args.len() == 2 + 2 * n && (names_config(next) || names_addr(next)) ==> r == run
            &&& args.len() > 1 + 2 * n && next != "-v"@ && next != "--version"@ && next != "-h"@ && next
                != "--help"@ && !names_config(next) && !names_addr(next) ==> r == CommandView::Unknown(next)
        }),
{
    reveal_strlit("-c");
    reveal_strlit("--config");
    reveal_strlit("-a");
    reveal_strlit("--addr");
    reveal_strlit("-v");
    reveal_strlit("--version");
    reveal_strlit("-h");
    reveal_strlit("--help");
    assert("-c"@.len() == 2);
    assert("--config"@.len() == 8);
    assert("-a"@.len() == 2);
    assert("--addr"@.len() == 6);
    assert("-v"@.len() == 2);
    assert("--version"@.len() == 9);
    assert("-h"@.len() == 2);
    assert("--help"@.len() == 6);
    assert("-c"@[1] == 'c' && "-a"@[1] == 'a');
    assert("-c"@[1] == 'c' && "-v"@[1] == 'v');
    assert("-c"@[1] == 'c' && "-h"@[1] == 'h');
    assert("-a"@[1] == 'a' && "-v"@[1] == 'v');
    assert("-a"@[1] == 'a' && "-h"@[1] == 'h');
    assert("--addr"@[2] == 'a' && "--help"@[2] == 'h');
    assert("-v"@[1] == 'v' && "-h"@[1] == 'h');
    options_are_passed(args, n);
}

} // verus!
