//! What becomes of a request of a client: which upstream it goes to, in which protocol, and in
//! which form the answer goes back. The answer is always in the protocol of the request.
use crate::codec::json_parse;
use crate::json::{opt_json, sorted_keys, views, views_are, Json, JsonView};
use crate::models::{ApiType, AppView};
use crate::proxy::{
    adapted, answer_value, apply_param_overrides_inner, is_anthropic_messages_endpoint, is_messages_path,
    overrides_win, read_answer,
};
use crate::router::{route_of, ModelRouter, RouteResult, RouteView};
use crate::seqs::{take_ends, take_step};
use crate::text::{cat, cat3, copy, is_text, join, joined, same, texts};
use crate::transform::canonical::{
    CanonicalStopReason, CanonicalUsage, ConvertError, RequestView, ResponseView,
};
use crate::transform::chat_completions::{finish_name, items_at};
use crate::transform::emit::{
    chunk, data_frame, make_chunk, make_data_frame, openai_sse, WrapperView,
};
use crate::transform::framing::idle;
use crate::transform::image::{ImageError, ImageErrorView};
use crate::transform::loss::{
    are_sayable, check_field, find_unsayable, is_sayable_choice, is_sayable_system, is_whole_field,
    unsayable,
};
use crate::transform::pump::{
    chat_output_is_what_is_seen, conversions, convert_stream_sse, pieces_convert_the_whole, readings, seen,
    StreamConversion,
};
use crate::transform::stream::{all_converted, all_texts, fed_bytes, put_together, EventParser, StreamView};
use crate::transform::survival::{limit_field, settings_are_written};
use crate::transform::{
    canonical_to_response, convert_request, converted_request, is_among, read_request, read_response,
    request_to_canonical, response_to_canonical, strs, unmapped_fields, write_response, Protocol,
};
use vstd::prelude::*;
use vstd::string::*;

verus! {

impl Protocol {
    /// The name of the protocol.
    pub open spec fn label(self) -> Seq<char> {
        match self {
            Protocol::ChatCompletions => "chat_completions"@,
            Protocol::Responses => "responses"@,
            Protocol::AnthropicMessages => "anthropic_messages"@,
        }
    }

    /// The name of the protocol.
    pub fn name(&self) -> (r: &'static str)
        ensures
            r@ == self.label(),
    {
        match self {
            Protocol::ChatCompletions => "chat_completions",
            Protocol::Responses => "responses",
            Protocol::AnthropicMessages => "anthropic_messages",
        }
    }
}

/// Why a request is refused.
#[derive(Debug, PartialEq)]
pub enum Refusal {
    /// The request names no model.
    MissingModel,
    /// Nothing is configured for the model.
    NoRoute(String),
    /// The upstream does not take what comes under this path.
    UnsupportedEndpoint { upstream: String, path: String },
    /// The upstream takes another protocol, and converting is switched off.
    ConversionDisabled { upstream: String, entry: Protocol, target: Protocol },
    /// The upstream takes no protocol at all.
    NoProtocol { upstream: String, entry: Protocol },
    /// The request cannot be read.
    Unreadable(ConvertError),
    /// The request says things that the other protocol cannot say.
    LostFields { fields: Vec<String>, target: Protocol },
    /// The request refers to an image that is not fetched.
    BadImage(ImageError),
}

/// Why a request is refused, as a mathematical value.
pub enum RefusalView {
    MissingModel,
    NoRoute(Seq<char>),
    UnsupportedEndpoint { upstream: Seq<char>, path: Seq<char> },
    ConversionDisabled { upstream: Seq<char>, entry: Protocol, target: Protocol },
    NoProtocol { upstream: Seq<char>, entry: Protocol },
    Unreadable(ConvertError),
    LostFields { fields: Seq<Seq<char>>, target: Protocol },
    BadImage(ImageErrorView),
}

impl RefusalView {
    /// The HTTP status of the refusal.
    pub open spec fn status(self) -> u16 {
        match self {
            RefusalView::MissingModel => 400,
            RefusalView::NoRoute(_) => 400,
            RefusalView::UnsupportedEndpoint { upstream, path } => 400,
            RefusalView::ConversionDisabled { upstream, entry, target } => 422,
            RefusalView::NoProtocol { upstream, entry } => 422,
            RefusalView::Unreadable(_) => 400,
            RefusalView::LostFields { fields, target } => 422,
            RefusalView::BadImage(_) => 422,
        }
    }

    /// What is said.
    pub open spec fn text(self) -> Seq<char> {
        match self {
            RefusalView::MissingModel => "缺少 model 参数"@,
            RefusalView::NoRoute(model) => "找不到模型 "@ + model + " 的路由"@,
            RefusalView::UnsupportedEndpoint { upstream, path } => "上游 '"@ + upstream
                + "' 不支持当前协议端点 ("@ + path + ")"@,
            RefusalView::ConversionDisabled { upstream, entry, target } =>
                "protocol conversion is disabled: upstream '"@ + upstream + "' does not support "@
                + entry.label() + " (supported: "@ + target.label() + ")"@,
            RefusalView::NoProtocol { upstream, entry } => "upstream '"@ + upstream
                + "' supports no protocol for "@ + entry.label(),
            RefusalView::Unreadable(e) => e.text(),
            RefusalView::LostFields { fields, target } => "fields not supported by "@
                + target.label() + ": "@ + joined(fields, ", "@),
            RefusalView::BadImage(e) => e.text(),
        }
    }
}

impl Refusal {
    pub open spec fn view(self) -> RefusalView {
        match self {
            Refusal::MissingModel => RefusalView::MissingModel,
            Refusal::NoRoute(m) => RefusalView::NoRoute(m@),
            Refusal::UnsupportedEndpoint { upstream, path } => RefusalView::UnsupportedEndpoint {
                upstream: upstream@,
                path: path@,
            },
            Refusal::ConversionDisabled { upstream, entry, target } => RefusalView::ConversionDisabled {
                upstream: upstream@,
                entry,
                target,
            },
            Refusal::NoProtocol { upstream, entry } => RefusalView::NoProtocol {
                upstream: upstream@,
                entry,
            },
            Refusal::Unreadable(e) => RefusalView::Unreadable(e),
            Refusal::LostFields { fields, target } => RefusalView::LostFields {
                fields: texts(fields@),
                target,
            },
            Refusal::BadImage(e) => RefusalView::BadImage(e@),
        }
    }

    /// The HTTP status of the refusal.
    pub fn status(&self) -> (r: u16)
        ensures
            r == self@.status(),
    {
        match self {
            Refusal::MissingModel => 400,
            Refusal::NoRoute(_) => 400,
            Refusal::UnsupportedEndpoint { upstream: _, path: _ } => 400,
            Refusal::ConversionDisabled { upstream: _, entry: _, target: _ } => 422,
            Refusal::NoProtocol { upstream: _, entry: _ } => 422,
            Refusal::Unreadable(_) => 400,
            Refusal::LostFields { fields: _, target: _ } => 422,
            Refusal::BadImage(_) => 422,
        }
    }

    /// What is said.
    pub fn message(&self) -> (r: String)
        ensures
            r@ == self@.text(),
    {
        match self {
            Refusal::MissingModel => copy("缺少 model 参数"),
            Refusal::NoRoute(model) => cat3("找不到模型 ", model, " 的路由"),
            Refusal::UnsupportedEndpoint { upstream, path } => {
                let mut s = cat3("上游 '", upstream, "' 不支持当前协议端点 (");
                s.append(path);
                s.append(")");
                s
            },
            Refusal::ConversionDisabled { upstream, entry, target } => {
                let mut s = cat3(
                    "protocol conversion is disabled: upstream '",
                    upstream,
                    "' does not support ",
                );
                s.append(entry.name());
                s.append(" (supported: ");
                s.append(target.name());
                s.append(")");
                s
            },
            Refusal::NoProtocol { upstream, entry } => {
                let mut s = cat3("upstream '", upstream, "' supports no protocol for ");
                s.append(entry.name());
                s
            },
            Refusal::Unreadable(e) => copy(e.message()),
            Refusal::LostFields { fields, target } => {
                let mut s = cat3("fields not supported by ", target.name(), ": ");
                let list = join(fields, ", ");
                s.append(&list);
                s
            },
            Refusal::BadImage(e) => e.message(),
        }
    }
}

/// Where a request goes and in which protocol.
#[derive(Debug, PartialEq)]
pub struct RequestPlan {
    pub route: RouteResult,
    /// The protocol of the request, and of the answer to the client.
    pub entry: Protocol,
    /// The protocol that the upstream is spoken to in.
    pub target: Protocol,
    /// The path at the upstream.
    pub path: String,
}

/// Where a request goes, as a mathematical value.
pub struct PlanView {
    pub route: RouteView,
    pub entry: Protocol,
    pub target: Protocol,
    pub path: Seq<char>,
}

impl RequestPlan {
    pub open spec fn view(self) -> PlanView {
        PlanView { route: self.route@, entry: self.entry, target: self.target, path: self.path@ }
    }

    /// Whether the request has to be converted.
    pub fn converts(&self) -> (r: bool)
        ensures
            r == (self@.entry != self@.target),
    {
        self.entry != self.target
    }
}

/// The protocol of what comes in under a path; paths under that of Anthropic messages count to
/// it.
pub open spec fn entry_of(path: Seq<char>) -> Protocol {
    if is_messages_path(path) {
        Protocol::AnthropicMessages
    } else {
        Protocol::of_path(path)
    }
}

/// Whether a path is one of the three that take requests of a protocol.
pub open spec fn is_entry_path(path: Seq<char>) -> bool {
    path == "/v1/chat/completions"@ || path == "/v1/responses"@ || path == "/v1/messages"@
}

/// Whether the upstream of a route takes what comes under a path as it is.
pub open spec fn takes_path(route: RouteView, path: Seq<char>) -> bool {
    if is_messages_path(path) {
        route.support_anthropic_messages
    } else if path == "/v1/chat/completions"@ {
        route.support_chat_completions
    } else if path == "/v1/responses"@ {
        route.support_responses
    } else {
        true
    }
}

/// The path at the upstream: Codex has its own for Responses.
pub open spec fn upstream_path(route: RouteView, target: Protocol, path: Seq<char>) -> Seq<char> {
    if route.api_type == ApiType::ChatGptCodex && target == Protocol::Responses {
        "/codex/responses"@
    } else {
        path
    }
}

/// Where a request for a route goes: as it is where the upstream takes it, else converted to
/// the first protocol in the order of preference that the upstream takes, where that is
/// allowed.
pub open spec fn plan_for_route(route: RouteView, path: Seq<char>, allow: bool) -> Result<
    PlanView,
    RefusalView,
> {
    let entry = entry_of(path);
    if takes_path(route, path) {
        Ok(PlanView { route, entry, target: entry, path: upstream_path(route, entry, path) })
    } else if !is_entry_path(path) {
        Err(RefusalView::UnsupportedEndpoint { upstream: route.upstream_name, path })
    } else {
        match route.best(entry) {
            None => Err(RefusalView::NoProtocol { upstream: route.upstream_name, entry }),
            Some(target) => if allow {
                Ok(PlanView { route, entry, target, path: upstream_path(route, target, target.path()) })
            } else {
                Err(
                    RefusalView::ConversionDisabled { upstream: route.upstream_name, entry, target },
                )
            },
        }
    }
}

/// Where a request goes.
pub open spec fn plan_of(config: AppView, path: Seq<char>, body: JsonView) -> Result<
    PlanView,
    RefusalView,
> {
    match body.str_at("model"@) {
        None => Err(RefusalView::MissingModel),
        Some(model) => match route_of(config, model) {
            None => Err(RefusalView::NoRoute(model)),
            Some(route) => plan_for_route(route, path, config.allow_protocol_conversion),
        },
    }
}

/// The protocol of what comes in under a path.
pub fn entry_protocol(path: &str) -> (r: Protocol)
    ensures
        r == entry_of(path@),
{
    if is_anthropic_messages_endpoint(path) {
        Protocol::AnthropicMessages
    } else {
        Protocol::from_endpoint(path)
    }
}

/// Whether the upstream of a route takes what comes under a path as it is.
pub fn upstream_takes(route: &RouteResult, path: &str) -> (r: bool)
    ensures
        r == takes_path(route@, path@),
{
    if is_anthropic_messages_endpoint(path) {
        route.support_anthropic_messages
    } else if same(path, "/v1/chat/completions") {
        route.support_chat_completions
    } else if same(path, "/v1/responses") {
        route.support_responses
    } else {
        true
    }
}

/// The path at the upstream.
fn path_at_upstream(route: &RouteResult, target: Protocol, path: &str) -> (r: String)
    ensures
        r@ == upstream_path(route@, target, path@),
{
    if route.api_type == ApiType::ChatGptCodex && target == Protocol::Responses {
        copy("/codex/responses")
    } else {
        copy(path)
    }
}

/// Where a request for a route goes.
pub fn plan_route(route: RouteResult, path: &str, allow: bool) -> (r: Result<RequestPlan, Refusal>)
    ensures
        match r {
            Ok(p) => plan_for_route(route@, path@, allow) == Ok::<PlanView, RefusalView>(p@),
            Err(e) => plan_for_route(route@, path@, allow) == Err::<PlanView, RefusalView>(e@),
        },
{
    let entry = entry_protocol(path);
    if upstream_takes(&route, path) {
        let at = path_at_upstream(&route, entry, path);
        return Ok(RequestPlan { route, entry, target: entry, path: at });
    }
    if !(same(path, "/v1/chat/completions") || same(path, "/v1/responses") || same(
        path,
        "/v1/messages",
    )) {
        return Err(
            Refusal::UnsupportedEndpoint { upstream: route.upstream_name, path: copy(path) },
        );
    }
    match route.best_available_protocol(entry) {
        None => Err(Refusal::NoProtocol { upstream: route.upstream_name, entry }),
        Some(target) => if allow {
            let at = path_at_upstream(&route, target, target.to_upstream_path());
            Ok(RequestPlan { route, entry, target, path: at })
        } else {
            Err(Refusal::ConversionDisabled { upstream: route.upstream_name, entry, target })
        },
    }
}

/// Where a request goes.
pub fn plan_request(router: &ModelRouter, path: &str, body: &Json) -> (r: Result<RequestPlan, Refusal>)
    ensures
        match r {
            Ok(p) => plan_of(router@, path@, body@) == Ok::<PlanView, RefusalView>(p@),
            Err(e) => plan_of(router@, path@, body@) == Err::<PlanView, RefusalView>(e@),
        },
{
    let model = match body.str_at("model") {
        Some(m) => m,
        None => return Err(Refusal::MissingModel),
    };
    match router.route(model) {
        Some(route) => plan_route(route, path, router.allows_conversion()),
        None => Err(Refusal::NoRoute(copy(model))),
    }
}

/// A request goes out in a protocol that its upstream takes; it is left as it is wherever the
/// upstream takes it so; and with converting switched off nothing is converted.
pub proof fn plans_respect_upstreams(route: RouteView, path: Seq<char>, allow: bool)
    requires
        is_entry_path(path),
        plan_for_route(route, path, allow) is Ok,
    ensures
        ({
            let p = plan_for_route(route, path, allow)->Ok_0;
            &&& route.supports(p.target)
            &&& route.supports(p.entry) ==> p.target == p.entry
            &&& !allow ==> p.target == p.entry
            &&& p.entry == entry_of(path)
        }),
{
    entry_paths_are_distinct();
}

/// A request is refused only where its upstream does not take its protocol, and then with
/// status 422.
pub proof fn refusals_are_422(route: RouteView, path: Seq<char>, allow: bool)
    requires
        is_entry_path(path),
        plan_for_route(route, path, allow) is Err,
    ensures
        !route.supports(entry_of(path)),
        plan_for_route(route, path, allow)->Err_0.status() == 422,
        allow ==> forall|p: Protocol| !route.supports(p),
{
    entry_paths_are_distinct();
}

proof fn entry_paths_are_distinct()
    ensures
        entry_of("/v1/chat/completions"@) == Protocol::ChatCompletions,
        entry_of("/v1/responses"@) == Protocol::Responses,
        entry_of("/v1/messages"@) == Protocol::AnthropicMessages,
        !is_messages_path("/v1/chat/completions"@),
        !is_messages_path("/v1/responses"@),
        is_messages_path("/v1/messages"@),
        "/v1/chat/completions"@ != "/v1/responses"@,
{
    reveal_strlit("/v1/chat/completions");
    reveal_strlit("/v1/responses");
    reveal_strlit("/v1/messages");
    reveal_strlit("/v1/messages/");
    assert("/v1/chat/completions"@.len() == 20);
    assert("/v1/responses"@.len() == 13);
    assert("/v1/messages"@.len() == 12);
    assert("/v1/messages/"@.len() == 13);
    assert("/v1/chat/completions"@[4] == 'c');
    assert("/v1/responses"@[4] == 'r');
    assert("/v1/messages/"@[4] == 'm');
    assert("/v1/chat/completions"@.subrange(0, 13)[4] == 'c');
    assert("/v1/responses"@.subrange(0, 13)[4] == 'r');
}

/// The fields of a request that are carried over into another protocol.
pub open spec fn carried_fields(entry: Protocol) -> Seq<Seq<char>> {
    match entry {
        Protocol::ChatCompletions => seq![
            "model"@,
            "messages"@,
            "temperature"@,
            "top_p"@,
            "max_tokens"@,
            "max_completion_tokens"@,
            "stop"@,
            "stream"@,
            "tools"@,
            "tool_choice"@,
        ],
        Protocol::Responses => seq![
            "model"@,
            "input"@,
            "instructions"@,
            "temperature"@,
            "top_p"@,
            "max_output_tokens"@,
            "stop_sequences"@,
            "stream"@,
            "tools"@,
            "tool_choice"@,
        ],
        Protocol::AnthropicMessages => seq![
            "model"@,
            "messages"@,
            "system"@,
            "temperature"@,
            "top_p"@,
            "max_tokens"@,
            "stop_sequences"@,
            "stream"@,
            "tools"@,
            "tool_choice"@,
        ],
    }
}

/// The fields that say how much to reason; Anthropic's protocol has no such field.
pub open spec fn effort_fields(entry: Protocol, target: Protocol) -> Seq<Seq<char>> {
    if entry == Protocol::AnthropicMessages || target == Protocol::AnthropicMessages {
        Seq::empty()
    } else {
        seq!["reasoning"@, "reasoning_effort"@]
    }
}

/// Whether a field of a request would be lost in another protocol, as a whole or in part: it is
/// not carried over, or reading it drops something that it says.
pub open spec fn is_lost(entry: Protocol, target: Protocol, body: JsonView, key: Seq<char>) -> bool {
    !(carried_fields(entry) + effort_fields(entry, target)).contains(key) || !is_whole_field(
        entry,
        key,
        body,
    )
}

/// Those of the fields of a request that would be lost in another protocol.
pub open spec fn lost_among(entry: Protocol, target: Protocol, body: JsonView, s: Seq<Seq<char>>) -> Seq<
    Seq<char>,
>
    decreases s.len(),
{
    if s.len() == 0 {
        Seq::empty()
    } else {
        let before = lost_among(entry, target, body, s.drop_last());
        if is_lost(entry, target, body, s.last()) {
            before.push(s.last())
        } else {
            before
        }
    }
}

/// The fields of a request that would be lost in another protocol, as a whole or in part, in
/// the order of their names. Where there are none, those that hold something that the other
/// protocol cannot say.
pub open spec fn lost_fields(entry: Protocol, target: Protocol, body: JsonView) -> Seq<Seq<char>> {
    let unread = match body.as_object() {
        Some(m) => lost_among(entry, target, body, sorted_keys(m)),
        None => Seq::empty(),
    };
    if unread.len() > 0 {
        unread
    } else {
        match read_request(entry, body) {
            Ok(q) => unsayable(entry, target, q),
            Err(_) => Seq::empty(),
        }
    }
}

/// The fields of a request that are carried over into another protocol.
fn list_carried_fields(entry: Protocol, target: Protocol) -> (r: Vec<&'static str>)
    ensures
        strs(r@) == carried_fields(entry) + effort_fields(entry, target),
{
    let mut r: Vec<&'static str> = match entry {
        Protocol::ChatCompletions => vec![
            "model",
            "messages",
            "temperature",
            "top_p",
            "max_tokens",
            "max_completion_tokens",
            "stop",
            "stream",
            "tools",
            "tool_choice",
        ],
        Protocol::Responses => vec![
            "model",
            "input",
            "instructions",
            "temperature",
            "top_p",
            "max_output_tokens",
            "stop_sequences",
            "stream",
            "tools",
            "tool_choice",
        ],
        Protocol::AnthropicMessages => vec![
            "model",
            "messages",
            "system",
            "temperature",
            "top_p",
            "max_tokens",
            "stop_sequences",
            "stream",
            "tools",
            "tool_choice",
        ],
    };
    assert(strs(r@) =~= carried_fields(entry));
    if entry != Protocol::AnthropicMessages && target != Protocol::AnthropicMessages {
        r.push("reasoning");
        r.push("reasoning_effort");
    }
    assert(strs(r@) =~= carried_fields(entry) + effort_fields(entry, target));
    r
}

/// The fields of a request that would be lost in another protocol, as a whole or in part.
pub fn find_lost_fields(entry: Protocol, target: Protocol, body: &Json) -> (r: Vec<String>)
    ensures
        texts(r@) == lost_fields(entry, target, body@),
{
    let mut out: Vec<String> = Vec::new();
    assert(texts(out@) =~= Seq::<Seq<char>>::empty());
    if let Some(object) = body.as_object() {
        let carried = list_carried_fields(entry, target);
        let n: usize = object.len();
        let ghost keys = sorted_keys(object@);
        let mut i: usize = 0;
        proof {
            take_ends(keys);
        }
        while i < n
            invariant
                i <= n,
                n == keys.len(),
                keys == sorted_keys(object@),
                strs(carried@) == carried_fields(entry) + effort_fields(entry, target),
                texts(out@) == lost_among(entry, target, body@, keys.take(i as int)),
            decreases n - i,
        {
            proof {
                take_step(keys, i as int);
            }
            let key = object.key_at(i);
            if !is_among(key, &carried) || !check_field(entry, key, body) {
                let ghost before = out@;
                out.push(key.clone());
                assert(texts(out@) =~= texts(before).push(key@));
            }
            i += 1;
        }
        proof {
            take_ends(keys);
        }
    }
    if out.len() > 0 {
        return out;
    }
    match request_to_canonical(entry, body) {
        Ok(q) => find_unsayable(entry, target, &q),
        Err(_) => out,
    }
}

/// A message of a Chat Completions request in full: an assistant that only calls tools says
/// nothing.
pub open spec fn full_message(m: JsonView) -> JsonView {
    if m.get("tool_calls"@) is Some && m.get("content"@) is None {
        m.with("content"@, JsonView::Null)
    } else {
        m
    }
}

/// The items of a list in full.
pub open spec fn full_messages(s: Seq<JsonView>) -> Seq<JsonView> {
    Seq::new(s.len(), |i: int| full_message(s[i]))
}

/// A converted request in the form that upstreams of the protocol expect.
pub open spec fn full_request(target: Protocol, body: JsonView) -> JsonView {
    match target {
        Protocol::ChatCompletions => match body.array_at("messages"@) {
            Some(a) => body.with("messages"@, JsonView::Array(full_messages(a))),
            None => body,
        },
        Protocol::AnthropicMessages => if body.str_at("tool_choice"@) == Some("auto"@) {
            body.with("tool_choice"@, JsonView::object().with("type"@, JsonView::Str("auto"@)))
        } else {
            body
        },
        Protocol::Responses => body,
    }
}

/// A converted request for Codex is not to be stored there.
pub open spec fn for_upstream(plan: PlanView, body: JsonView) -> JsonView {
    if plan.route.api_type == ApiType::ChatGptCodex && plan.target == Protocol::Responses {
        body.with("store"@, JsonView::Bool(false))
    } else {
        body
    }
}

/// The body that a plan sends out for the body of a request: the same, or converted. A request
/// of which something would be lost is refused.
pub open spec fn planned_body(plan: PlanView, body: JsonView) -> Result<JsonView, RefusalView> {
    if plan.entry == plan.target {
        Ok(body)
    } else if lost_fields(plan.entry, plan.target, body).len() > 0 {
        Err(
            RefusalView::LostFields {
                fields: lost_fields(plan.entry, plan.target, body),
                target: plan.target,
            },
        )
    } else {
        match converted_request(plan.entry, plan.target, body) {
            Ok(v) => Ok(for_upstream(plan, full_request(plan.target, v))),
            Err(e) => Err(RefusalView::Unreadable(e)),
        }
    }
}

/// A message of a Chat Completions request in full.
fn fill_message(m: &Json) -> (r: Json)
    ensures
        r@ == full_message(m@),
{
    let copy = m.copy();
    if m.get("tool_calls").is_some() && m.get("content").is_none() {
        copy.with("content", Json::Null)
    } else {
        copy
    }
}

/// A converted request in the form that upstreams of the protocol expect.
fn fill_request(target: Protocol, body: Json) -> (r: Json)
    ensures
        r@ == full_request(target, body@),
{
    match target {
        Protocol::ChatCompletions => {
            let mut out: Vec<Json> = Vec::new();
            match body.array_at("messages") {
                Some(a) => {
                    let mut i: usize = 0;
                    while i < a.len()
                        invariant
                            i <= a@.len(),
                            out@.len() == i,
                            forall|j: int| 0 <= j < i ==> (#[trigger] out@[j])@ == full_message(a@[j]@),
                        decreases a@.len() - i,
                    {
                        out.push(fill_message(&a[i]));
                        i += 1;
                    }
                    broadcast use views_are;

                    assert(views(out@) =~= full_messages(views(a@)));
                },
                None => return body,
            }
            body.with("messages", Json::Array(out))
        },
        Protocol::AnthropicMessages => {
            if is_text(body.str_at("tool_choice"), "auto") {
                body.with("tool_choice", Json::object().with("type", Json::str("auto")))
            } else {
                body
            }
        },
        Protocol::Responses => body,
    }
}

/// A converted request for Codex is not to be stored there.
fn mark_for_upstream(plan: &RequestPlan, body: Json) -> (r: Json)
    ensures
        r@ == for_upstream(plan@, body@),
{
    if plan.route.api_type == ApiType::ChatGptCodex && plan.target == Protocol::Responses {
        body.with("store", Json::Bool(false))
    } else {
        body
    }
}

/// The body that a plan sends out for the body of a request.
pub fn plan_body(plan: &RequestPlan, body: &Json) -> (r: Result<Json, Refusal>)
    ensures
        match r {
            Ok(v) => planned_body(plan@, body@) == Ok::<JsonView, RefusalView>(v@),
            Err(e) => planned_body(plan@, body@) == Err::<JsonView, RefusalView>(e@),
        },
{
    if plan.entry == plan.target {
        return Ok(body.copy());
    }
    let fields = find_lost_fields(plan.entry, plan.target, body);
    if fields.len() > 0 {
        return Err(Refusal::LostFields { fields, target: plan.target });
    }
    match convert_request(plan.entry, plan.target, body) {
        Ok(v) => Ok(mark_for_upstream(plan, fill_request(plan.target, v))),
        Err(e) => Err(Refusal::Unreadable(e)),
    }
}

/// The body that goes to the upstream of a plan: the parameters of the route are put into the
/// request, and the result is converted where the upstream speaks another protocol.
pub fn outgoing_body(plan: &RequestPlan, body: &Json) -> (r: Result<Json, Refusal>)
    ensures
        match r {
            Ok(v) => planned_body(plan@, adapted(body@, plan@.route)) == Ok::<JsonView, RefusalView>(
                v@,
            ),
            Err(e) => planned_body(plan@, adapted(body@, plan@.route)) == Err::<
                JsonView,
                RefusalView,
            >(e@),
        },
{
    let mut request = body.copy();
    apply_param_overrides_inner(&mut request, &plan.route);
    plan_body(plan, &request)
}

/// Nothing is dropped in silence: of a request that is converted, every field is carried over
/// and read as a whole, and the other protocol can say every message, the system's instructions
/// and the choice of a tool.
pub proof fn nothing_is_dropped(plan: PlanView, m: Map<Seq<char>, JsonView>, key: Seq<char>)
    requires
        plan.entry != plan.target,
        planned_body(plan, JsonView::Object(m)) is Ok,
        sorted_keys(m).contains(key),
    ensures
        ({
            let body = JsonView::Object(m);
            let q = read_request(plan.entry, body)->Ok_0;
            &&& (carried_fields(plan.entry) + effort_fields(plan.entry, plan.target)).contains(key)
            &&& is_whole_field(plan.entry, key, body)
            &&& read_request(plan.entry, body) is Ok
            &&& are_sayable(plan.target, q.messages)
            &&& is_sayable_system(q.system)
            &&& is_sayable_choice(plan.target, q.tool_choice)
        }),
{
    let body = JsonView::Object(m);
    none_lost_means_all_kept(plan.entry, plan.target, body, sorted_keys(m), key);
    let q = read_request(plan.entry, body)->Ok_0;
    assert(unsayable(plan.entry, plan.target, q).len() == 0);
}

proof fn none_lost_means_all_kept(
    entry: Protocol,
    target: Protocol,
    body: JsonView,
    s: Seq<Seq<char>>,
    key: Seq<char>,
)
    requires
        lost_among(entry, target, body, s).len() == 0,
        s.contains(key),
    ensures
        !is_lost(entry, target, body, key),
    decreases s.len(),
{
    if s.len() > 0 && key != s.last() {
        let i = choose|i: int| 0 <= i < s.len() && s[i] == key;
        assert(s.drop_last()[i] == key);
        none_lost_means_all_kept(entry, target, body, s.drop_last(), key);
    }
}

/// A request that chooses a tool still does so when it is converted.
pub proof fn choices_arrive(plan: PlanView, body: JsonView)
    requires
        plan.entry != plan.target,
        planned_body(plan, body) is Ok,
        body.get("tool_choice"@) is Some,
        !(body.at("tool_choice"@) is Null),
    ensures
        planned_body(plan, body)->Ok_0.get("tool_choice"@) is Some,
{
    reveal_strlit("tool_choice");
    reveal_strlit("messages");
    reveal_strlit("store");
    assert("tool_choice"@.len() == 11 && "messages"@.len() == 8 && "store"@.len() == 5);
    let q = read_request(plan.entry, body)->Ok_0;
    assert(unsayable(plan.entry, plan.target, q).len() == 0);
    assert(is_sayable_choice(plan.target, q.tool_choice));
    let all = RequestView { unmapped: q.unmapped + unmapped_fields(plan.entry, body), ..q };
    settings_are_written(plan.target, all);
}

/// Overriding parameters count in the protocol of the request: a limit on tokens that a route
/// forces on Chat Completions requests reaches the upstream under the name that its protocol has
/// for it, whatever the request says.
pub proof fn forced_limits_reach_the_upstream(plan: PlanView, m: Map<Seq<char>, JsonView>, limit: u64)
    requires
        plan.entry == Protocol::ChatCompletions,
        plan.target != Protocol::ChatCompletions,
        plan.route.override_params.dom().contains("max_tokens"@),
        plan.route.override_params["max_tokens"@] == JsonView::uint(limit),
        planned_body(plan, adapted(JsonView::Object(m), plan.route)) is Ok,
    ensures
        planned_body(plan, adapted(JsonView::Object(m), plan.route))->Ok_0.u64_at(
            limit_field(plan.target),
        ) == Some(limit),
{
    reveal_strlit("max_tokens");
    reveal_strlit("max_output_tokens");
    reveal_strlit("extra_body");
    reveal_strlit("model");
    reveal_strlit("tool_choice");
    reveal_strlit("messages");
    reveal_strlit("store");
    assert("max_tokens"@.len() == 10 && "extra_body"@.len() == 10 && "model"@.len() == 5);
    assert("max_output_tokens"@.len() == 17 && "tool_choice"@.len() == 11);
    assert("messages"@.len() == 8 && "store"@.len() == 5);
    assert("max_tokens"@[0] == 'm' && "extra_body"@[0] == 'e');
    let body = adapted(JsonView::Object(m), plan.route);
    overrides_win(m, plan.route, "max_tokens"@);
    assert(body.u64_at("max_tokens"@) == Some(limit));
    let q = read_request(plan.entry, body)->Ok_0;
    let all = RequestView { unmapped: q.unmapped + unmapped_fields(plan.entry, body), ..q };
    settings_are_written(plan.target, all);
}

/// Token counts with their sum, where it is missing and can be written down.
pub open spec fn with_total(u: CanonicalUsage) -> CanonicalUsage {
    if u.total_tokens is None && u.input_tokens + u.output_tokens <= u64::MAX {
        CanonicalUsage {
            total_tokens: Some((u.input_tokens + u.output_tokens) as u64),
            ..u
        }
    } else {
        u
    }
}

/// A response with the sum of its token counts.
pub open spec fn with_totals(p: ResponseView) -> ResponseView {
    ResponseView {
        usage: match p.usage {
            Some(u) => Some(with_total(u)),
            None => None,
        },
        ..p
    }
}

/// An output item in full: a message is the assistant's.
pub open spec fn full_item(item: JsonView) -> JsonView {
    if item.text_at("type"@) == "message"@ {
        item.with("role"@, JsonView::Str("assistant"@))
    } else {
        item
    }
}

/// Output items in full.
pub open spec fn full_items(s: Seq<JsonView>) -> Seq<JsonView> {
    Seq::new(s.len(), |i: int| full_item(s[i]))
}

/// A choice in full: an assistant that only calls tools says nothing.
pub open spec fn full_choices(s: Seq<JsonView>) -> Seq<JsonView> {
    Seq::new(s.len(), |i: int| s[i].with("message"@, full_message(s[i].at("message"@))))
}

/// A response in the form that clients of the protocol expect: it names its kind, and the
/// assistant as its author.
pub open spec fn full_response(entry: Protocol, body: JsonView) -> JsonView {
    match entry {
        Protocol::ChatCompletions => body.with("object"@, JsonView::Str("chat.completion"@)).with(
            "choices"@,
            JsonView::Array(full_choices(items_at(body, "choices"@))),
        ),
        Protocol::Responses => body.with("object"@, JsonView::Str("response"@)).with(
            "output"@,
            JsonView::Array(full_items(items_at(body, "output"@))),
        ),
        Protocol::AnthropicMessages => body.with("role"@, JsonView::Str("assistant"@)),
    }
}

/// The body that a client gets for the body of an upstream's response: the same, or converted
/// to the protocol of the request.
pub open spec fn client_body(entry: Protocol, target: Protocol, body: JsonView) -> JsonView {
    if entry == target {
        body
    } else {
        full_response(entry, write_response(entry, with_totals(read_response(target, body))))
    }
}

/// Whether a body has the form of a response of a protocol.
pub open spec fn has_form(protocol: Protocol, body: JsonView) -> bool {
    match protocol {
        Protocol::ChatCompletions => body.str_at("object"@) == Some("chat.completion"@)
            && body.array_at("choices"@) is Some && body.array_at("choices"@)->Some_0.len() == 1,
        Protocol::Responses => body.str_at("object"@) == Some("response"@) && body.array_at(
            "output"@,
        ) is Some,
        Protocol::AnthropicMessages => body.str_at("type"@) == Some("message"@) && body.str_at(
            "role"@,
        ) == Some("assistant"@) && body.array_at("content"@) is Some,
    }
}

/// The fields of responses have different names.
proof fn response_fields()
    ensures
        "id"@ != "model"@,
        "id"@ != "object"@,
        "id"@ != "choices"@,
        "id"@ != "output"@,
        "id"@ != "status"@,
        "id"@ != "stop_reason"@,
        "id"@ != "usage"@,
        "id"@ != "type"@,
        "id"@ != "role"@,
        "id"@ != "content"@,
        "model"@ != "object"@,
        "model"@ != "choices"@,
        "model"@ != "output"@,
        "model"@ != "status"@,
        "model"@ != "stop_reason"@,
        "model"@ != "usage"@,
        "model"@ != "type"@,
        "model"@ != "role"@,
        "model"@ != "content"@,
        "object"@ != "choices"@,
        "object"@ != "output"@,
        "object"@ != "status"@,
        "object"@ != "stop_reason"@,
        "object"@ != "usage"@,
        "object"@ != "type"@,
        "object"@ != "role"@,
        "object"@ != "content"@,
        "choices"@ != "output"@,
        "choices"@ != "status"@,
        "choices"@ != "stop_reason"@,
        "choices"@ != "usage"@,
        "choices"@ != "type"@,
        "choices"@ != "role"@,
        "choices"@ != "content"@,
        "output"@ != "status"@,
        "output"@ != "stop_reason"@,
        "output"@ != "usage"@,
        "output"@ != "type"@,
        "output"@ != "role"@,
        "output"@ != "content"@,
        "status"@ != "stop_reason"@,
        "status"@ != "usage"@,
        "status"@ != "type"@,
        "status"@ != "role"@,
        "status"@ != "content"@,
        "stop_reason"@ != "usage"@,
        "stop_reason"@ != "type"@,
        "stop_reason"@ != "role"@,
        "stop_reason"@ != "content"@,
        "usage"@ != "type"@,
        "usage"@ != "role"@,
        "usage"@ != "content"@,
        "type"@ != "role"@,
        "type"@ != "content"@,
        "role"@ != "content"@,
{
    reveal_strlit("id");
    reveal_strlit("model");
    reveal_strlit("object");
    reveal_strlit("choices");
    reveal_strlit("output");
    reveal_strlit("status");
    reveal_strlit("stop_reason");
    reveal_strlit("usage");
    reveal_strlit("type");
    reveal_strlit("role");
    reveal_strlit("content");
    assert("id"@.len() == 2);
    assert("model"@.len() == 5);
    assert("object"@.len() == 6);
    assert("choices"@.len() == 7);
    assert("output"@.len() == 6);
    assert("status"@.len() == 6);
    assert("stop_reason"@.len() == 11);
    assert("usage"@.len() == 5);
    assert("type"@.len() == 4);
    assert("role"@.len() == 4);
    assert("content"@.len() == 7);
    assert("model"@[0] == 'm' && "usage"@[0] == 'u');
    assert("object"@[1] == 'b' && "output"@[1] == 'u');
    assert("object"@[0] == 'o' && "status"@[0] == 's');
    assert("choices"@[1] == 'h' && "content"@[1] == 'o');
    assert("output"@[0] == 'o' && "status"@[0] == 's');
    assert("type"@[0] == 't' && "role"@[0] == 'r');
}

/// A client is answered in the protocol of its request, whatever the upstream said, and an
/// answer in that protocol is passed on as it is.
pub proof fn answers_have_the_form_of_the_request(entry: Protocol, target: Protocol, body: JsonView)
    ensures
        entry != target ==> has_form(entry, client_body(entry, target, body)),
        entry == target ==> client_body(entry, target, body) == body,
{
    response_fields();
    if entry != target {
        let p = with_totals(read_response(target, body));
        let w = write_response(entry, p);
        let c = client_body(entry, target, body);
        match entry {
            Protocol::ChatCompletions => {
                assert(items_at(w, "choices"@).len() == 1);
                assert(c.str_at("object"@) == Some("chat.completion"@));
                assert(c.array_at("choices"@) == Some(full_choices(items_at(w, "choices"@))));
            },
            Protocol::Responses => {
                assert(c.str_at("object"@) == Some("response"@));
                assert(c.array_at("output"@) == Some(full_items(items_at(w, "output"@))));
            },
            Protocol::AnthropicMessages => {
                assert(w.str_at("type"@) == Some("message"@));
                assert(w.array_at("content"@) is Some);
                assert(c.str_at("role"@) == Some("assistant"@));
                assert(c.str_at("type"@) == Some("message"@));
                assert(c.array_at("content"@) == w.array_at("content"@));
            },
        }
    }
}

/// Output items in full.
fn fill_items(items: &Vec<Json>) -> (r: Vec<Json>)
    ensures
        views(r@) == full_items(views(items@)),
{
    let mut out: Vec<Json> = Vec::new();
    let mut i: usize = 0;
    while i < items.len()
        invariant
            i <= items@.len(),
            out@.len() == i,
            forall|j: int| 0 <= j < i ==> (#[trigger] out@[j])@ == full_item(items@[j]@),
        decreases items@.len() - i,
    {
        let item = items[i].copy();
        let kind = item.text_at("type");
        if same(&kind, "message") {
            out.push(item.with("role", Json::str("assistant")));
        } else {
            out.push(item);
        }
        i += 1;
    }
    broadcast use views_are;

    assert(views(out@) =~= full_items(views(items@)));
    out
}

/// Choices in full.
fn fill_choices(items: &Vec<Json>) -> (r: Vec<Json>)
    ensures
        views(r@) == full_choices(views(items@)),
{
    let mut out: Vec<Json> = Vec::new();
    let mut i: usize = 0;
    while i < items.len()
        invariant
            i <= items@.len(),
            out@.len() == i,
            forall|j: int|
                0 <= j < i ==> (#[trigger] out@[j])@ == items@[j]@.with(
                    "message"@,
                    full_message(items@[j]@.at("message"@)),
                ),
        decreases items@.len() - i,
    {
        let message = fill_message(&items[i].at("message"));
        out.push(items[i].copy().with("message", message));
        i += 1;
    }
    broadcast use views_are;

    assert(views(out@) =~= full_choices(views(items@)));
    out
}

/// A response in the form that clients of the protocol expect.
fn fill_response(entry: Protocol, body: Json) -> (r: Json)
    ensures
        r@ == full_response(entry, body@),
{
    broadcast use views_are;

    let none: Vec<Json> = Vec::new();
    assert(views(none@) =~= Seq::<JsonView>::empty());
    match entry {
        Protocol::ChatCompletions => {
            let choices = match body.array_at("choices") {
                Some(a) => fill_choices(a),
                None => fill_choices(&none),
            };
            body.with("object", Json::str("chat.completion")).with("choices", Json::Array(choices))
        },
        Protocol::Responses => {
            let output = match body.array_at("output") {
                Some(a) => fill_items(a),
                None => fill_items(&none),
            };
            body.with("object", Json::str("response")).with("output", Json::Array(output))
        },
        Protocol::AnthropicMessages => body.with("role", Json::str("assistant")),
    }
}

/// The body that a client gets for the body of an upstream's response.
pub fn client_response(entry: Protocol, target: Protocol, body: &Json) -> (r: Json)
    ensures
        r@ == client_body(entry, target, body@),
{
    if entry == target {
        return body.copy();
    }
    let mut response = match response_to_canonical(target, body) {
        Ok(p) => p,
        Err(_) => return body.copy(),
    };
    if let Some(u) = response.usage {
        if u.total_tokens.is_none() && u.input_tokens <= u64::MAX - u.output_tokens {
            response.usage = Some(
                CanonicalUsage {
                    input_tokens: u.input_tokens,
                    output_tokens: u.output_tokens,
                    total_tokens: Some(u.input_tokens + u.output_tokens),
                },
            );
        }
    }
    match canonical_to_response(entry, &response) {
        Ok(v) => fill_response(entry, v),
        Err(_) => body.copy(),
    }
}

/// The body that a client gets for the bytes of an upstream's answer that came at once, where
/// they are JSON.
pub fn whole_answer(plan: &RequestPlan, bytes: &[u8]) -> (r: Option<Json>)
    ensures
        opt_json(r) == match answer_value(bytes@) {
            Some(v) => Some(client_body(plan@.entry, plan@.target, v)),
            None => None,
        },
{
    match read_answer(bytes) {
        Some(v) => Some(client_response(plan.entry, plan.target, &v)),
        None => None,
    }
}

/// What an upstream says of an error: the error object of its answer, else the answer itself as
/// a message.
pub open spec fn error_of(text: Seq<char>) -> JsonView {
    let said = match json_parse(text) {
        Some(v) => v.at("error"@),
        None => JsonView::Null,
    };
    if said is Object {
        said
    } else {
        JsonView::object().with("message"@, JsonView::Str(text))
    }
}

/// The body that a client gets for an error of an upstream that speaks another protocol.
pub open spec fn client_error(entry: Protocol, text: Seq<char>) -> JsonView {
    let body = JsonView::object().with("error"@, error_of(text));
    if entry == Protocol::AnthropicMessages {
        body.with("type"@, JsonView::Str("error"@))
    } else {
        body
    }
}

/// The body that a client gets for an error of an upstream that speaks another protocol.
pub fn error_answer(entry: Protocol, text: &str) -> (r: Json)
    ensures
        r@ == client_error(entry, text@),
{
    let said = match Json::parse(text) {
        Some(v) => v.at("error"),
        None => Json::Null,
    };
    let error = match said {
        Json::Object(o) => Json::Object(o),
        _ => Json::object().with("message", Json::str(text)),
    };
    let body = Json::object().with("error", error);
    if entry == Protocol::AnthropicMessages {
        body.with("type", Json::str("error"))
    } else {
        body
    }
}

/// An error is told in the form of the protocol of the request, whatever the upstream said.
pub proof fn errors_have_the_form_of_the_request(entry: Protocol, text: Seq<char>)
    ensures
        client_error(entry, text).at("error"@) is Object,
        client_error(entry, text).str_at("type"@) == (if entry == Protocol::AnthropicMessages {
            Some("error"@)
        } else {
            None
        }),
{
    reveal_strlit("error");
    reveal_strlit("type");
    assert("error"@.len() == 5 && "type"@.len() == 4);
}

/// How the answer of an upstream reaches the client.
#[derive(Debug, Clone, Copy, PartialEq, Eq, Structural)]
pub enum Delivery {
    /// As it comes.
    Relay,
    /// Piece by piece, each converted.
    ConvertStream,
    /// At once, converted.
    ConvertWhole,
    /// As an error in the protocol of the request.
    ConvertError,
    /// The pieces are gathered into one answer, for a client that asked for no pieces.
    Gather,
}

/// How the answer of an upstream reaches the client: as it comes where no protocol is converted,
/// except that Codex always answers in pieces, which are gathered where they were not asked for.
pub open spec fn delivery(plan: PlanView, wants_stream: bool, is_stream: bool, success: bool) -> Delivery {
    let unasked = is_stream && !wants_stream && plan.target == Protocol::Responses;
    if plan.entry == plan.target {
        if success && unasked && plan.route.api_type == ApiType::ChatGptCodex {
            Delivery::Gather
        } else {
            Delivery::Relay
        }
    } else if !success {
        Delivery::ConvertError
    } else if unasked {
        Delivery::Gather
    } else if is_stream {
        Delivery::ConvertStream
    } else {
        Delivery::ConvertWhole
    }
}

/// How the answer of an upstream reaches the client.
pub fn choose_delivery(plan: &RequestPlan, wants_stream: bool, is_stream: bool, success: bool) -> (r: Delivery)
    ensures
        r == delivery(plan@, wants_stream, is_stream, success),
{
    let unasked = is_stream && !wants_stream && plan.target == Protocol::Responses;
    if plan.entry == plan.target {
        if success && unasked && plan.route.api_type == ApiType::ChatGptCodex {
            Delivery::Gather
        } else {
            Delivery::Relay
        }
    } else if !success {
        Delivery::ConvertError
    } else if unasked {
        Delivery::Gather
    } else if is_stream {
        Delivery::ConvertStream
    } else {
        Delivery::ConvertWhole
    }
}

/// What opens a converted stream: a chat client is told who speaks.
pub open spec fn opening(entry: Protocol) -> Option<Seq<char>> {
    if entry == Protocol::ChatCompletions {
        Some(data_frame(role_chunk()))
    } else {
        None
    }
}

/// What opens a converted stream.
pub fn stream_opening(entry: Protocol) -> (r: Option<String>)
    ensures
        crate::text::opt_text(r) == opening(entry),
{
    if entry == Protocol::ChatCompletions {
        let c = make_chunk(Json::object().with("role", Json::str("assistant")), Json::Null);
        Some(make_data_frame(&c))
    } else {
        None
    }
}

/// A stream that a client gets from an upstream that speaks another protocol: what opens it, and
/// the conversion of what follows.
pub fn begin_client_stream(plan: &RequestPlan) -> (r: (Option<String>, StreamConversion))
    ensures
        crate::text::opt_text(r.0) == opening(plan@.entry),
        r.1.kind() == EventParser::of(plan@.target),
        r.1.target() == plan@.entry,
        r.1.parser() == idle(),
        r.1.writer() == WrapperView::fresh(),
{
    (stream_opening(plan.entry), convert_stream_sse(plan.target, plan.entry))
}

/// The whole stream that a client gets for the pieces of an upstream's stream: the opening, and
/// the conversion of all pieces.
pub open spec fn client_stream(entry: Protocol, target: Protocol, pieces: Seq<Seq<u8>>) -> Seq<
    Result<Seq<char>, Seq<char>>,
> {
    (match opening(entry) {
        Some(s) => seq![Ok::<Seq<char>, Seq<char>>(s)],
        None => Seq::empty(),
    }) + conversions(EventParser::of(target), entry, idle(), WrapperView::fresh(), pieces).2
}

/// The chunk that opens a chat stream.
pub open spec fn role_chunk() -> JsonView {
    chunk(JsonView::object().with("role"@, JsonView::Str("assistant"@)), JsonView::Null)
}

/// The chunk of a chat stream that carries a text.
pub open spec fn text_chunk(text: Seq<char>) -> JsonView {
    chunk(JsonView::object().with("content"@, JsonView::Str(text)), JsonView::Null)
}

/// The chunk that ends a chat stream.
pub open spec fn finish_chunk(reason: CanonicalStopReason) -> JsonView {
    chunk(JsonView::object(), JsonView::Str(finish_name(reason)))
}

/// What a chat client is meant to see of a response that is a text in pieces: who speaks, the
/// pieces, the reason of the end, and the end mark.
pub open spec fn chat_stream(texts: Seq<Seq<char>>, reason: CanonicalStopReason) -> Seq<
    Result<Seq<char>, Seq<char>>,
> {
    seq![Ok::<Seq<char>, Seq<char>>(data_frame(role_chunk()))] + Seq::new(
        texts.len(),
        |i: int| Ok::<Seq<char>, Seq<char>>(data_frame(text_chunk(texts[i]))),
    ) + seq![
        Ok::<Seq<char>, Seq<char>>(data_frame(finish_chunk(reason)) + "data: [DONE]\n\n"@),
    ]
}

/// The events of a response that is a text in pieces.
pub open spec fn text_events(texts: Seq<Seq<char>>, reason: CanonicalStopReason) -> Seq<StreamView> {
    texts.map_values(|t: Seq<char>| StreamView::TextDelta { text: t }).push(
        StreamView::Stop { reason },
    )
}

/// A chat client sees a text that another protocol streams as a chat stream: the role chunk, one
/// chunk for each piece of text, the finish chunk and the end mark, and nothing else, in whatever
/// pieces the upstream's stream comes. Events that say nothing to a chat client may stand anywhere
/// among the others.
pub proof fn chat_clients_see_a_chat_stream(
    target: Protocol,
    pieces: Seq<Seq<u8>>,
    events: Seq<StreamView>,
    texts: Seq<Seq<char>>,
    reason: CanonicalStopReason,
)
    requires
        all_texts(pieces),
        all_converted(EventParser::of(target), fed_bytes(idle(), put_together(pieces)).1) == readings(
            events,
        ),
        seen(events) == text_events(texts, reason),
    ensures
        client_stream(Protocol::ChatCompletions, target, pieces) == chat_stream(texts, reason),
{
    let w = WrapperView::fresh();
    let chat = Protocol::ChatCompletions;
    pieces_convert_the_whole(EventParser::of(target), chat, idle(), w, pieces);
    chat_output_is_what_is_seen(w, events);
    let line = |e: StreamView| Ok::<Seq<char>, Seq<char>>(openai_sse(e));
    let shown = text_events(texts, reason);
    assert forall|i: int| 0 <= i < texts.len() implies line(#[trigger] shown[i]) == Ok::<
        Seq<char>,
        Seq<char>,
    >(data_frame(text_chunk(texts[i]))) by {
        assert(shown[i] == (StreamView::TextDelta { text: texts[i] }));
    }
    assert(shown[texts.len() as int] == (StreamView::Stop { reason }));
    assert(client_stream(chat, target, pieces) =~= chat_stream(texts, reason));
}

/// The key for the local proxy: that of the running proxy, else the configured one.
pub fn local_proxy_key<'a>(running: &'a str, configured: Option<&'a str>) -> (r: Option<&'a str>)
    ensures
        crate::text::opt_str(r) == (if running@.len() == 0 {
            crate::text::opt_str(configured)
        } else {
            Some(running@)
        }),
{
    if running.is_empty() {
        configured
    } else {
        Some(running)
    }
}

/// What is said where a request to an upstream fails. An upstream that does not know the path is
/// named as the reason.
pub fn upstream_error_message(error: &str) -> (r: String)
    ensures
        r@ == (if crate::text::occurs(error@, "404"@) || crate::text::occurs(error@, "405"@) {
            "上游服务不支持该端点。错误："@ + error@
        } else {
            error@
        }),
{
    if crate::text::contains(error, "404") || crate::text::contains(error, "405") {
        cat("上游服务不支持该端点。错误：", error)
    } else {
        copy(error)
    }
}

/// Whether a client wants to see what was sent and received.
pub fn debug_requested(headers: &Vec<crate::headers::Header>) -> (r: bool)
    ensures
        r == (crate::headers::header_value(
            crate::headers::header_views(headers@),
            "X-Debug-Mode"@,
        ) == Some("true"@)),
{
    match crate::headers::get_header(headers, "X-Debug-Mode") {
        Some(v) => same(&v, "true"),
        None => false,
    }
}

} // verus!
