//! What is sent to an upstream for a request, and what its answer means.
use crate::codec::json_parse;
use crate::headers::{get_header, header_value, header_views, Header, HeaderView};
use crate::json::{opt_json, Json, JsonObject, JsonView};
use crate::oauth::{bearer_token, sent_token};
use crate::router::{RouteResult, RouteView};
use crate::text::{
    cat, cat3, contains, copy, numeral, numeral_of, occurs, opt_text, same, starts_with, trim_end_matches,
    without_trailing,
};
use crate::transform::stream::utf8_text;
use vstd::prelude::*;
use vstd::string::*;
use vstd::utf8::*;

verus! {

/// A path with a query behind it, where there is one.
pub open spec fn path_with_query(path: Seq<char>, query: Seq<char>) -> Seq<char> {
    if query.len() == 0 {
        path
    } else {
        path + "?"@ + query
    }
}

/// A path with a query behind it, where there is one.
pub fn build_endpoint_path_with_query(endpoint_path: &str, query_string: &str) -> (r: String)
    ensures
        r@ == path_with_query(endpoint_path@, query_string@),
{
    if query_string.is_empty() {
        copy(endpoint_path)
    } else {
        cat3(endpoint_path, "?", query_string)
    }
}

/// Whether a path is that of Anthropic messages or lies under it.
pub open spec fn is_messages_path(path: Seq<char>) -> bool {
    path == "/v1/messages"@ || "/v1/messages/"@.is_prefix_of(path)
}

/// Whether a path is that of Anthropic messages or lies under it.
pub fn is_anthropic_messages_endpoint(endpoint_path: &str) -> (r: bool)
    ensures
        r == is_messages_path(endpoint_path@),
{
    same(endpoint_path, "/v1/messages") || starts_with(endpoint_path, "/v1/messages/")
}

/// The URL that a request is sent to.
pub open spec fn upstream_url(route: RouteView, path: Seq<char>, query: Seq<char>) -> Seq<char> {
    let base = match route.anthropic_base_url {
        Some(url) => if is_messages_path(path) {
            url
        } else {
            route.upstream_base_url
        },
        None => route.upstream_base_url,
    };
    without_trailing(base, '/') + path_with_query(path, query)
}

/// The URL that a request is sent to.
pub fn build_upstream_url(route: &RouteResult, endpoint_path: &str, query_string: &str) -> (r: String)
    ensures
        r@ == upstream_url(route@, endpoint_path@, query_string@),
{
    let base = match &route.anthropic_base_url {
        Some(url) => if is_anthropic_messages_endpoint(endpoint_path) {
            url
        } else {
            &route.upstream_base_url
        },
        None => &route.upstream_base_url,
    };
    let path = build_endpoint_path_with_query(endpoint_path, query_string);
    cat(trim_end_matches(base, '/'), &path)
}

/// A header that is handed on, as a mathematical value.
pub open spec fn pair_views(s: Seq<(&'static str, String)>) -> Seq<(Seq<char>, Seq<char>)> {
    s.map_values(|p: (&'static str, String)| (p.0@, p.1@))
}

/// The header of a name, where it is there.
pub open spec fn passed_header(s: Seq<HeaderView>, name: Seq<char>) -> Seq<(Seq<char>, Seq<char>)> {
    match header_value(s, name) {
        Some(v) => seq![(name, v)],
        None => Seq::empty(),
    }
}

/// The headers of the client that are handed on: three of Anthropic's, to Anthropic's paths.
pub open spec fn passed_headers(path: Seq<char>, s: Seq<HeaderView>) -> Seq<(Seq<char>, Seq<char>)> {
    if is_messages_path(path) {
        passed_header(s, "anthropic-version"@) + passed_header(s, "anthropic-beta"@) + passed_header(
            s,
            "anthropic-dangerous-direct-browser-access"@,
        )
    } else {
        Seq::empty()
    }
}

/// Adds the header of a name, where it is there.
fn pass_header(headers: &Vec<Header>, name: &'static str, out: &mut Vec<(&'static str, String)>)
    ensures
        pair_views(final(out)@) == pair_views(old(out)@) + passed_header(
            header_views(headers@),
            name@,
        ),
{
    let ghost before = pair_views(out@);
    match get_header(headers, name) {
        Some(v) => {
            out.push((name, v));
            assert(pair_views(out@) =~= before + seq![(name@, v@)]);
        },
        None => {
            assert(pair_views(out@) =~= before + Seq::<(Seq<char>, Seq<char>)>::empty());
        },
    }
}

/// The headers of the client that are handed on.
pub fn anthropic_passthrough_headers(endpoint_path: &str, headers: &Vec<Header>) -> (r: Vec<
    (&'static str, String),
>)
    ensures
        pair_views(r@) == passed_headers(endpoint_path@, header_views(headers@)),
{
    let mut out: Vec<(&'static str, String)> = Vec::new();
    assert(pair_views(out@) =~= Seq::<(Seq<char>, Seq<char>)>::empty());
    if !is_anthropic_messages_endpoint(endpoint_path) {
        return out;
    }
    let ghost all = header_views(headers@);
    let ghost none = Seq::<(Seq<char>, Seq<char>)>::empty();
    pass_header(headers, "anthropic-version", &mut out);
    assert(none + passed_header(all, "anthropic-version"@) =~= passed_header(
        all,
        "anthropic-version"@,
    ));
    pass_header(headers, "anthropic-beta", &mut out);
    pass_header(headers, "anthropic-dangerous-direct-browser-access", &mut out);
    out
}

/// No header of the client but the three is handed on, so its own credentials never are.
pub proof fn credentials_are_not_passed(path: Seq<char>, s: Seq<HeaderView>, i: int)
    requires
        0 <= i < passed_headers(path, s).len(),
    ensures
        passed_headers(path, s)[i].0 != "authorization"@,
        passed_headers(path, s)[i].0 != "x-api-key"@,
        passed_headers(path, s)[i].0 != "cookie"@,
{
    reveal_strlit("authorization");
    reveal_strlit("x-api-key");
    reveal_strlit("cookie");
    reveal_strlit("anthropic-version");
    reveal_strlit("anthropic-beta");
    reveal_strlit("anthropic-dangerous-direct-browser-access");
    assert("authorization"@.len() == 13);
    assert("x-api-key"@.len() == 9);
    assert("cookie"@.len() == 6);
    assert("anthropic-version"@.len() == 17);
    assert("anthropic-beta"@.len() == 14);
    assert("anthropic-dangerous-direct-browser-access"@.len() == 41);
}

/// Puts another model into a request and leaves the rest as it is.
pub fn replace_model_only(body: &mut Json, target_model: &str)
    ensures
        final(body)@ == old(body)@.with("model"@, JsonView::Str(target_model@)),
{
    if let Json::Object(map) = body {
        map.insert("model", Json::str(target_model));
    }
}

/// The parameters under `extra_body`, which stand for themselves.
pub open spec fn extra_of(params: Map<Seq<char>, JsonView>) -> Map<Seq<char>, JsonView> {
    if params.dom().contains("extra_body"@) {
        match params["extra_body"@] {
            JsonView::Object(m) => m,
            _ => Map::empty(),
        }
    } else {
        Map::empty()
    }
}

/// The fields of a request after the default parameters were filled in. What the request says
/// stays; the parameters under `extra_body` are filled in too, unless the request has an
/// `extra_body` of its own.
pub open spec fn with_defaults(
    body: Map<Seq<char>, JsonView>,
    defaults: Map<Seq<char>, JsonView>,
) -> Map<Seq<char>, JsonView> {
    let filled = defaults.remove("extra_body"@).union_prefer_right(body);
    if body.dom().contains("extra_body"@) {
        filled
    } else {
        extra_of(defaults).union_prefer_right(filled)
    }
}

/// The fields of a request after the overriding parameters replaced those of the request.
pub open spec fn with_overrides(
    body: Map<Seq<char>, JsonView>,
    overrides: Map<Seq<char>, JsonView>,
) -> Map<Seq<char>, JsonView> {
    body.union_prefer_right(extra_of(overrides)).union_prefer_right(overrides.remove("extra_body"@))
}

/// The request that the upstream of a route gets.
pub open spec fn adapted(body: JsonView, route: RouteView) -> JsonView {
    match body {
        JsonView::Object(m) => JsonView::Object(
            with_overrides(with_defaults(m, route.default_params), route.override_params).insert(
                "model"@,
                JsonView::Str(route.target_model),
            ),
        ),
        _ => body,
    }
}

/// Puts the parameters under `extra_body` of `params` into `map`.
fn put_extra(map: &mut JsonObject, params: &JsonObject)
    ensures
        final(map)@ == old(map)@.union_prefer_right(extra_of(params@)),
{
    let ghost before = map@;
    if let Some(Json::Object(extra)) = params.get("extra_body") {
        map.put_all_but(extra, None);
    } else {
        assert(before.union_prefer_right(Map::<Seq<char>, JsonView>::empty()) =~= before);
    }
}

/// Fills the parameters under `extra_body` of `params` into `map`.
fn fill_extra(map: &mut JsonObject, params: &JsonObject)
    ensures
        final(map)@ == extra_of(params@).union_prefer_right(old(map)@),
{
    let ghost before = map@;
    if let Some(Json::Object(extra)) = params.get("extra_body") {
        map.fill_all_but(extra, None);
    } else {
        assert(Map::<Seq<char>, JsonView>::empty().union_prefer_right(before) =~= before);
    }
}

/// Puts the parameters of a route and its model into a request.
pub fn apply_param_overrides_inner(body: &mut Json, route: &RouteResult)
    ensures
        final(body)@ == adapted(old(body)@, route@),
{
    if let Json::Object(map) = body {
        let own_extra = map.contains_key("extra_body");
        map.fill_all_but(&route.default_params, Some("extra_body"));
        if !own_extra {
            fill_extra(map, &route.default_params);
        }
        put_extra(map, &route.override_params);
        map.put_all_but(&route.override_params, Some("extra_body"));
        map.insert("model", Json::str(&route.target_model));
    }
}

/// An overriding parameter always wins; the model is always the one of the route.
pub proof fn overrides_win(m: Map<Seq<char>, JsonView>, route: RouteView, key: Seq<char>)
    requires
        route.override_params.dom().contains(key),
        key != "extra_body"@,
        key != "model"@,
    ensures
        adapted(JsonView::Object(m), route).get(key) == Some(route.override_params[key]),
        adapted(JsonView::Object(m), route).get("model"@) == Some(JsonView::Str(route.target_model)),
{
}

/// What the request says stays where no overriding parameter speaks of it; a default parameter
/// never replaces it.
pub proof fn requests_beat_defaults(m: Map<Seq<char>, JsonView>, route: RouteView, key: Seq<char>)
    requires
        m.dom().contains(key),
        key != "model"@,
        !route.override_params.remove("extra_body"@).dom().contains(key),
        !extra_of(route.override_params).dom().contains(key),
    ensures
        adapted(JsonView::Object(m), route).get(key) == Some(m[key]),
{
}

/// A default parameter is used where neither the request nor an overriding parameter says
/// anything.
pub proof fn defaults_fill_gaps(m: Map<Seq<char>, JsonView>, route: RouteView, key: Seq<char>)
    requires
        route.default_params.dom().contains(key),
        !m.dom().contains(key),
        key != "model"@,
        key != "extra_body"@,
        !route.override_params.dom().contains(key),
        !extra_of(route.override_params).dom().contains(key),
    ensures
        adapted(JsonView::Object(m), route).get(key) == Some(route.default_params[key]),
{
}

/// The parameters under `extra_body` go in one by one; the name itself comes into a request
/// only if one of them bears it.
pub proof fn extra_body_dissolves(m: Map<Seq<char>, JsonView>, route: RouteView)
    requires
        !m.dom().contains("extra_body"@),
        !extra_of(route.override_params).dom().contains("extra_body"@),
        !extra_of(route.default_params).dom().contains("extra_body"@),
    ensures
        adapted(JsonView::Object(m), route).get("extra_body"@) is None,
{
    reveal_strlit("extra_body");
    reveal_strlit("model");
    assert("extra_body"@.len() == 10);
    assert("model"@.len() == 5);
}

/// Everything that is sent to an upstream.
#[derive(Debug, PartialEq)]
pub struct UpstreamRequest {
    pub url: String,
    pub body: Json,
    pub headers: Vec<(&'static str, String)>,
    pub bearer: Option<String>,
}

/// Everything that is sent to an upstream, as a mathematical value.
pub struct UpstreamRequestView {
    pub url: Seq<char>,
    pub body: JsonView,
    pub headers: Seq<(Seq<char>, Seq<char>)>,
    pub bearer: Option<Seq<char>>,
}

impl UpstreamRequest {
    pub open spec fn view(self) -> UpstreamRequestView {
        UpstreamRequestView {
            url: self.url@,
            body: self.body@,
            headers: pair_views(self.headers@),
            bearer: opt_text(self.bearer),
        }
    }
}

/// What is sent to the upstream of a route, with a given body.
pub open spec fn addressed(
    route: RouteView,
    path: Seq<char>,
    query: Seq<char>,
    headers: Seq<HeaderView>,
    body: JsonView,
) -> UpstreamRequestView {
    UpstreamRequestView {
        url: upstream_url(route, path, query),
        body,
        headers: passed_headers(path, headers),
        bearer: sent_token(route.upstream_auth),
    }
}

/// What is sent to the upstream of a route, with a given body.
pub fn address_request(
    route: &RouteResult,
    endpoint_path: &str,
    query_string: &str,
    client_headers: &Vec<Header>,
    body: Json,
) -> (r: UpstreamRequest)
    ensures
        r@ == addressed(
            route@,
            endpoint_path@,
            query_string@,
            header_views(client_headers@),
            body@,
        ),
{
    UpstreamRequest {
        url: build_upstream_url(route, endpoint_path, query_string),
        body,
        headers: anthropic_passthrough_headers(endpoint_path, client_headers),
        bearer: bearer_token(&route.upstream_auth),
    }
}

/// What is sent to the upstream of a route for a request that is not converted: the request with
/// the parameters of the route.
pub fn prepare_upstream_request(
    route: &RouteResult,
    endpoint_path: &str,
    query_string: &str,
    client_headers: &Vec<Header>,
    body: &Json,
) -> (r: UpstreamRequest)
    ensures
        r@ == addressed(
            route@,
            endpoint_path@,
            query_string@,
            header_views(client_headers@),
            adapted(body@, route@),
        ),
{
    let mut request_body = body.copy();
    apply_param_overrides_inner(&mut request_body, route);
    address_request(route, endpoint_path, query_string, client_headers, request_body)
}

/// What the answer of an upstream means.
#[derive(Debug, Clone, Copy, PartialEq, Eq, Structural)]
pub enum AnswerKind {
    /// The upstream does not know the path or the method.
    Refused,
    /// The answer comes in pieces.
    Stream,
    /// The answer comes at once.
    Whole,
}

/// Whether the answer to a request comes in pieces: it was asked for so, or its type says so.
pub open spec fn comes_in_pieces(body: JsonView, content_type: Seq<char>) -> bool {
    body.bool_at("stream"@) == Some(true) || occurs(content_type, "text/event-stream"@)
}

/// Whether the answer to a request comes in pieces.
pub fn is_stream_answer(body: &Json, content_type: &str) -> (r: bool)
    ensures
        r == comes_in_pieces(body@, content_type@),
{
    match body.bool_at("stream") {
        Some(true) => true,
        _ => contains(content_type, "text/event-stream"),
    }
}

/// What the answer of an upstream means, from its status and type.
pub fn classify_answer(body: &Json, status: u16, content_type: &str) -> (r: AnswerKind)
    ensures
        r == (if status == 404 || status == 405 {
            AnswerKind::Refused
        } else if comes_in_pieces(body@, content_type@) {
            AnswerKind::Stream
        } else {
            AnswerKind::Whole
        }),
{
    if status == 404 || status == 405 {
        AnswerKind::Refused
    } else if is_stream_answer(body, content_type) {
        AnswerKind::Stream
    } else {
        AnswerKind::Whole
    }
}

/// What is said of an upstream that does not know the path or the method.
pub fn refusal_message(status: u16, body: &str) -> (r: String)
    ensures
        r@ == "上游返回 "@ + numeral(status as nat) + " - "@ + body@,
{
    let digits = numeral_of(status as u64);
    let mut s = cat3("上游返回 ", &digits, " - ");
    s.append(body);
    s
}

/// The value that the bytes of an answer hold, where they are JSON.
pub open spec fn answer_value(bytes: Seq<u8>) -> Option<JsonView> {
    if valid_utf8(bytes) {
        json_parse(decode_utf8(bytes))
    } else {
        None
    }
}

/// The value that the bytes of an answer hold, where they are JSON.
pub fn read_answer(bytes: &[u8]) -> (r: Option<Json>)
    ensures
        opt_json(r) == answer_value(bytes@),
{
    match utf8_text(bytes) {
        Some(t) => Json::parse(t),
        None => None,
    }
}

/// The answer as a record shows it: its value, null where it is no JSON or has not come at once.
pub open spec fn shown_answer(answer: Option<Seq<u8>>) -> JsonView {
    match answer {
        Some(bytes) => match answer_value(bytes) {
            Some(v) => v,
            None => JsonView::Null,
        },
        None => JsonView::Null,
    }
}

/// What was sent and received for the last request, for whoever debugs it.
#[derive(Debug, PartialEq)]
pub struct DebugInfo {
    pub client_request: Json,
    pub client_ip: String,
    pub client_url: String,
    pub endpoint: String,
    pub upstream_url: String,
    pub upstream_request: Json,
    pub upstream_response: Json,
}

impl Default for DebugInfo {
    fn default() -> (r: DebugInfo)
        ensures
            r.client_request@ == JsonView::Null,
            r.client_ip@ == Seq::<char>::empty(),
            r.client_url@ == Seq::<char>::empty(),
            r.endpoint@ == Seq::<char>::empty(),
            r.upstream_url@ == Seq::<char>::empty(),
            r.upstream_request@ == JsonView::Null,
            r.upstream_response@ == JsonView::Null,
    {
        DebugInfo {
            client_request: Json::Null,
            client_ip: String::new(),
            client_url: String::new(),
            endpoint: String::new(),
            upstream_url: String::new(),
            upstream_request: Json::Null,
            upstream_response: Json::Null,
        }
    }
}

/// The record of a request: what the client sent and from where, what was sent to the upstream,
/// and the answer where it came at once.
pub fn debug_record(
    client: &Json,
    ip: &str,
    url: &str,
    endpoint: &str,
    upstream_url: &str,
    sent: &Json,
    answer: Option<&[u8]>,
) -> (r: DebugInfo)
    ensures
        r.client_request@ == client@,
        r.client_ip@ == ip@,
        r.client_url@ == url@,
        r.endpoint@ == endpoint@,
        r.upstream_url@ == upstream_url@,
        r.upstream_request@ == sent@,
        r.upstream_response@ == shown_answer(
            match answer {
                Some(b) => Some(b@),
                None => None,
            },
        ),
{
    let upstream_response = match answer {
        Some(bytes) => match read_answer(bytes) {
            Some(v) => v,
            None => Json::Null,
        },
        None => Json::Null,
    };
    DebugInfo {
        client_request: client.copy(),
        client_ip: copy(ip),
        client_url: copy(url),
        endpoint: copy(endpoint),
        upstream_url: copy(upstream_url),
        upstream_request: sent.copy(),
        upstream_response,
    }
}

} // verus!
