//! What happens to a request: where it goes, what of it would be lost, what the upstream gets and
//! how the answer reaches the client.
use crate::codec::{json_parse, json_text};
use crate::handlers::chat::{
    carried_fields, client_error, delivery, effort_fields, entry_of, full_message, full_messages, lost_among,
    lost_fields,    opening, plan_for_route, plan_of, planned_body, PlanView, RefusalView,
};
use crate::json::{sorted_keys, JsonView};
use crate::laws::events::is_chunk;
use crate::laws::outgoing::anthropic_messages_are_written;
use crate::laws::requests::{chat_assistants_are_read, chat_messages_add_up, is_list, is_word};
use crate::laws::routing::{lies_under_messages, protocols_are_preferred_in_order};
use crate::models::{ApiType, AppView};
use crate::router::{route_of, RouteView};
use crate::text::{joined, occurs};
use crate::transform::anthropic;
use crate::transform::canonical::{BlockView, CanonicalRole, ImageView, MessageView, RequestView};
use crate::transform::chat_completions;
use crate::transform::chat_completions::items_at;
use crate::transform::loss::{
    all_fit, are_whole, chat_says_result, fits, is_sayable, is_sayable_system, is_whole, is_whole_field,
    responses_say_result, says_only, unsayable, Form, Rule,
};
use crate::transform::{converted_request, read_request, write_request, Protocol};
use vstd::prelude::*;
use vstd::string::*;

verus! {

/// Whether an item of Anthropic's protocol is a text.
pub open spec fn is_text_item(v: JsonView, t: Seq<char>) -> bool {
    is_word(v.get("type"@), "text"@) && is_word(v.get("text"@), t)
}

/// Whether an item of Anthropic's protocol is a tool use.
pub open spec fn is_use_item(v: JsonView, id: Seq<char>, name: Seq<char>, input: JsonView) -> bool {
    &&& is_word(v.get("type"@), "tool_use"@)
    &&& is_word(v.get("id"@), id)
    &&& is_word(v.get("name"@), name)
    &&& v.get("input"@) == Some(input)
}

/// Each block has its item in Anthropic's protocol.
pub proof fn anthropic_blocks_are_written(b: BlockView, t: Seq<char>)
    ensures
        ({
            let v = anthropic::anthropic_block(b);
            match b {
                BlockView::Text { text } => is_text_item(v, text),
                BlockView::Reasoning { text } => is_word(v.get("type"@), "thinking"@) && is_word(
                    v.get("thinking"@),
                    text,
                ),
                BlockView::ToolUse { id, name, input } => is_use_item(v, id, name, input),
                BlockView::Image { source: ImageView::Url { url } } => is_word(v.get("type"@), "image"@) && is_word(
                    v.at("source"@).get("type"@),
                    "url"@,
                ) && is_word(v.at("source"@).get("url"@), url),
                BlockView::Image { source: ImageView::Base64 { media_type, data } } => is_word(
                    v.get("type"@),
                    "image"@,
                ) && is_word(v.at("source"@).get("type"@), "base64"@) && is_word(
                    v.at("source"@).get("media_type"@),
                    media_type,
                ) && is_word(v.at("source"@).get("data"@), data),
                BlockView::ToolResult { tool_use_id, content } => {
                    &&& is_word(v.get("type"@), "tool_result"@)
                    &&& is_word(v.get("tool_use_id"@), tool_use_id)
                    &&& content == seq![BlockView::Text { text: t }] ==> is_word(v.get("content"@), t)
                    &&& content.len() > 1 ==> is_list(
                        v.get("content"@),
                        content.map_values(|c: BlockView| anthropic::anthropic_block(c)),
                    )
                },
            }
        }),
{
    reveal_strlit("type");
    reveal_strlit("text");
    reveal_strlit("thinking");
    reveal_strlit("source");
    reveal_strlit("media_type");
    reveal_strlit("data");
    reveal_strlit("url");
    reveal_strlit("id");
    reveal_strlit("name");
    reveal_strlit("input");
    reveal_strlit("tool_use_id");
    reveal_strlit("content");
    assert("type"@.len() == 4);
    assert("text"@.len() == 4);
    assert("thinking"@.len() == 8);
    assert("source"@.len() == 6);
    assert("media_type"@.len() == 10);
    assert("data"@.len() == 4);
    assert("url"@.len() == 3);
    assert("id"@.len() == 2);
    assert("name"@.len() == 4);
    assert("input"@.len() == 5);
    assert("tool_use_id"@.len() == 11);
    assert("content"@.len() == 7);
    assert("type"@[1] == 'y' && "text"@[1] == 'e');
    assert("type"@[0] == 't' && "data"@[0] == 'd');
    assert("type"@[0] == 't' && "name"@[0] == 'n');
    assert("text"@[0] == 't' && "data"@[0] == 'd');
    assert("text"@[0] == 't' && "name"@[0] == 'n');
    assert("data"@[0] == 'd' && "name"@[0] == 'n');
    match b {
        BlockView::ToolResult { tool_use_id, content } => {
            assert(anthropic::anthropic_blocks(content) =~= content.map_values(
                |c: BlockView| anthropic::anthropic_block(c),
            ));
            if content == seq![BlockView::Text { text: t }] {
                let one = anthropic::anthropic_blocks(content);
                assert(one.len() == 1 && one[0] == anthropic::anthropic_block(content[0]));
                assert(is_text_item(one[0], t));
            }
        },
        _ => {},
    }
}

/// An assistant's message with a text and function calls reaches an Anthropic upstream with one
/// block more than it has calls: first the text, then each call in its order.
pub proof fn assistants_reach_anthropic(
    body: JsonView,
    before: Seq<JsonView>,
    m: JsonView,
    t: Seq<char>,
    calls: Seq<JsonView>,
)
    requires
        body is Object,
        body.get("model"@) is Some && body.get("model"@)->Some_0 is Str,
        is_word(m.get("role"@), "assistant"@),
        is_word(m.get("content"@), t),
        t.len() > 0,
        is_list(m.get("tool_calls"@), calls),
        calls.len() > 0,
        forall|i: int| 0 <= i < calls.len() ==> (#[trigger] calls[i]).get("function"@) is Some,
    ensures
        ({
            let r = converted_request(
                Protocol::ChatCompletions,
                Protocol::AnthropicMessages,
                body.with("messages"@, JsonView::Array(before.push(m))),
            );
            let s = items_at(r->Ok_0, "messages"@);
            let c = items_at(s.last(), "content"@);
            &&& r is Ok
            &&& is_word(s.last().get("role"@), "assistant"@)
            &&& c.len() == calls.len() + 1
            &&& is_text_item(c[0], t)
            &&& forall|i: int|
                0 <= i < calls.len() ==> is_word((#[trigger] c[i + 1]).get("type"@), "tool_use"@) && (
                calls[i].get("id"@) is Some && calls[i].get("id"@)->Some_0 is Str ==> c[i + 1].get("id"@)
                    == calls[i].get("id"@)) && (calls[i].at("function"@).get("name"@) is Some && calls[i].at(
                    "function"@,
                ).get("name"@)->Some_0 is Str ==> c[i + 1].get("name"@) == calls[i].at("function"@).get("name"@))
        }),
{
    let b = body.with("messages"@, JsonView::Array(before.push(m)));
    chat_messages_add_up(body, before, m);
    chat_assistants_are_read(m, t, calls);
    let q = read_request(Protocol::ChatCompletions, b)->Ok_0;
    let all = RequestView {
        unmapped: q.unmapped + crate::transform::unmapped_fields(Protocol::ChatCompletions, b),
        ..q
    };
    let last = chat_completions::message_of(m)->Some_0;
    let n = q.messages.len() - 1;
    assert(q.messages[n] == last);
    anthropic_messages_are_written(all, n, t);
    let content = last.content;
    let s = items_at(write_request(Protocol::AnthropicMessages, all), "messages"@);
    let c = items_at(s.last(), "content"@);
    assert(c == content.map_values(|x: BlockView| anthropic::anthropic_block(x)));
    assert(c[0] == anthropic::anthropic_block(content[0]));
    anthropic_blocks_are_written(content[0], t);
    assert forall|i: int| 0 <= i < calls.len() implies is_word((#[trigger] c[i + 1]).get("type"@), "tool_use"@) && (
    calls[i].get("id"@) is Some && calls[i].get("id"@)->Some_0 is Str ==> c[i + 1].get("id"@) == calls[i].get(
        "id"@,
    )) && (calls[i].at("function"@).get("name"@) is Some && calls[i].at("function"@).get("name"@)->Some_0 is Str
        ==> c[i + 1].get("name"@) == calls[i].at("function"@).get("name"@)) by {
        anthropic_blocks_are_written(content[i + 1], t);
        assert(c[i + 1] == anthropic::anthropic_block(content[i + 1]));
        assert(crate::laws::requests::is_use_of(content[i + 1], calls[i]));
    }
}

/// The body for an upstream says what the bare conversion says: fields are as they are, except
/// that a chat message with tool calls alone says null, that the automatic choice of a tool is
/// written out for Anthropic, and that Codex is told not to store.
pub proof fn requests_keep_what_is_said(plan: PlanView, body: JsonView, key: Seq<char>, i: int, name: Seq<char>)
    requires
        plan.entry != plan.target,
        planned_body(plan, body) is Ok,
    ensures
        ({
            let got = planned_body(plan, body)->Ok_0;
            let bare = converted_request(plan.entry, plan.target, body)->Ok_0;
            let codex = plan.route.api_type == ApiType::ChatGptCodex && plan.target == Protocol::Responses;
            let a = items_at(bare, "messages"@);
            let b = items_at(got, "messages"@);
            &&& converted_request(plan.entry, plan.target, body) is Ok
            &&& key != "messages"@ && key != "tool_choice"@ && key != "store"@ ==> got.get(key) == bare.get(key)
            &&& codex ==> got.get("store"@) == Some(JsonView::Bool(false))
            &&& !codex ==> got.get("store"@) == bare.get("store"@)
            &&& plan.target != Protocol::AnthropicMessages ==> got.get("tool_choice"@) == bare.get("tool_choice"@)
            &&& plan.target == Protocol::AnthropicMessages && is_word(bare.get("tool_choice"@), "auto"@) ==> is_word(
                got.at("tool_choice"@).get("type"@),
                "auto"@,
            )
            &&& plan.target == Protocol::AnthropicMessages && !is_word(bare.get("tool_choice"@), "auto"@)
                ==> got.get("tool_choice"@) == bare.get("tool_choice"@)
            &&& a.len() == b.len()
            &&& 0 <= i < a.len() && (name != "content"@ || a[i].get(name) is Some || a[i].get("tool_calls"@) is None)
                ==> b[i].get(name) == a[i].get(name)
            &&& plan.target == Protocol::ChatCompletions && 0 <= i < a.len() && a[i] is Object && a[i].get(
                "content"@,
            ) is None && a[i].get("tool_calls"@) is Some ==> b[i].get("content"@) == Some(JsonView::Null)
        }),
{
    reveal_strlit("messages");
    reveal_strlit("tool_choice");
    reveal_strlit("store");
    assert("messages"@.len() == 8);
    assert("tool_choice"@.len() == 11);
    assert("store"@.len() == 5);
    let got = planned_body(plan, body)->Ok_0;
    let bare = converted_request(plan.entry, plan.target, body)->Ok_0;
    assert(bare is Object);
    let a = items_at(bare, "messages"@);
    let b = items_at(got, "messages"@);
    if plan.target == Protocol::ChatCompletions {
        if bare.array_at("messages"@) is Some {
            assert(b == full_messages(a));
        }
        if 0 <= i < a.len() {
            assert(b[i] == full_message(a[i]));
        }
    } else {
        assert(a == b);
    }
}

/// A request that needs no conversion goes out as it is.
pub proof fn unconverted_requests_stay(plan: PlanView, body: JsonView)
    requires
        plan.entry == plan.target,
    ensures
        planned_body(plan, body) == Ok::<JsonView, RefusalView>(body),
{
}

/// The protocol that comes in under a path.
pub proof fn paths_name_protocols(path: Seq<char>)
    ensures
        lies_under_messages(path) ==> entry_of(path) == Protocol::AnthropicMessages,
        path == "/v1/responses"@ ==> entry_of(path) == Protocol::Responses,
        path == "/v1/chat/completions"@ ==> entry_of(path) == Protocol::ChatCompletions,
        Protocol::ChatCompletions.path() == "/v1/chat/completions"@,
        Protocol::Responses.path() == "/v1/responses"@,
        Protocol::AnthropicMessages.path() == "/v1/messages"@,
        crate::proxy::is_messages_path(path) <==> lies_under_messages(path),
{
    reveal_strlit("/v1/chat/completions");
    reveal_strlit("/v1/responses");
    reveal_strlit("/v1/messages");
    reveal_strlit("/v1/messages/");
    assert("/v1/chat/completions"@.len() == 20);
    assert("/v1/responses"@.len() == 13);
    assert("/v1/messages"@.len() == 12);
    assert("/v1/messages/"@.len() == 13);
    assert("/v1/responses"@[4] == 'r' && "/v1/messages/"@[4] == 'm');
    assert("/v1/messages/"@[4] == 'm');
    assert("/v1/responses"@[4] == 'r');
    assert("/v1/chat/completions"@[4] == 'c');
    if "/v1/messages/"@.is_prefix_of(path) {
        assert(path.take(13) =~= "/v1/messages/"@);
        assert(path[4] == "/v1/messages/"@[4]);
    }
    if path.len() >= 13 && path.take(13) == "/v1/messages/"@ {
        assert("/v1/messages/"@ =~= path.subrange(0, 13));
    }
}

/// Where a request of one of the three protocols goes: as it is where the upstream takes its
/// protocol; else, where converting is allowed, in the protocol that is preferred, to that
/// protocol's path; Codex has a path of its own.
pub proof fn requests_go_where_they_are_taken(route: RouteView, path: Seq<char>, allow: bool)
    requires
        path == "/v1/chat/completions"@ || path == "/v1/responses"@ || path == "/v1/messages"@,
    ensures
        ({
            let entry = entry_of(path);
            let codex = route.api_type == ApiType::ChatGptCodex;
            match plan_for_route(route, path, allow) {
                Ok(p) => {
                    &&& p.route == route && p.entry == entry
                    &&& route.supports(entry) ==> p.target == entry
                    &&& !route.supports(entry) ==> allow && route.best(entry) == Some(p.target)
                    &&& codex && p.target == Protocol::Responses ==> p.path == "/codex/responses"@
                    &&& !(codex && p.target == Protocol::Responses) ==> p.path == (match p.target {
                        Protocol::ChatCompletions => "/v1/chat/completions"@,
                        Protocol::Responses => "/v1/responses"@,
                        Protocol::AnthropicMessages => "/v1/messages"@,
                    })
                },
                Err(RefusalView::NoProtocol { upstream, entry: e }) => upstream == route.upstream_name && e == entry
                    && route.best(entry) is None,
                Err(RefusalView::ConversionDisabled { upstream, entry: e, target }) => upstream
                    == route.upstream_name && e == entry && !allow && !route.supports(entry) && route.best(entry)
                    == Some(target),
                Err(_) => false,
            }
        }),
{
    paths_name_protocols(path);
    protocols_are_preferred_in_order(route, entry_of(path));
    reveal_strlit("/v1/chat/completions");
    reveal_strlit("/v1/responses");
    reveal_strlit("/v1/messages");
    reveal_strlit("/v1/messages/");
    assert("/v1/chat/completions"@.len() == 20);
    assert("/v1/responses"@.len() == 13);
    assert("/v1/messages"@.len() == 12);
    assert("/v1/messages/"@.len() == 13);
    assert("/v1/responses"@[4] == 'r' && "/v1/messages/"@[4] == 'm');
    assert(path[4] == 'c' || path[4] == 'r' || path[4] == 'm') by {
        assert("/v1/messages"@[4] == 'm');
        assert("/v1/responses"@[4] == 'r');
        assert("/v1/chat/completions"@[4] == 'c');
    }
    assert(path != "/v1/messages"@ ==> !lies_under_messages(path)) by {
        assert("/v1/messages/"@[4] == 'm');
        assert("/v1/responses"@[4] == 'r');
        assert("/v1/chat/completions"@[4] == 'c');
        if path.len() >= 13 && path.take(13) == "/v1/messages/"@ {
            assert(path.take(13)[4] == path[4]);
        }
    }
}

/// What comes under any other path goes out as it is, under that path, except that a path under
/// that of Anthropic messages needs an upstream that takes them.
pub proof fn other_paths_are_passed(route: RouteView, path: Seq<char>, allow: bool)
    requires
        path != "/v1/chat/completions"@,
        path != "/v1/responses"@,
        path != "/v1/messages"@,
    ensures
        match plan_for_route(route, path, allow) {
            Ok(p) => {
                &&& p.entry == p.target && p.route == route
                &&& lies_under_messages(path) ==> route.support_anthropic_messages && p.path == path
                &&& route.api_type != ApiType::ChatGptCodex ==> p.path == path
            },
            Err(e) => e == (RefusalView::UnsupportedEndpoint { upstream: route.upstream_name, path })
                && lies_under_messages(path) && !route.support_anthropic_messages,
        },
{
    paths_name_protocols(path);
}

/// A request needs a model that something is configured for; then its route decides.
pub proof fn requests_need_a_route(config: AppView, path: Seq<char>, body: JsonView, model: Seq<char>)
    ensures
        is_word(body.get("model"@), model) && route_of(config, model) is Some ==> plan_of(config, path, body)
            == plan_for_route(route_of(config, model)->Some_0, path, config.allow_protocol_conversion),
        is_word(body.get("model"@), model) && route_of(config, model) is None ==> plan_of(config, path, body) == Err::<
            PlanView,
            RefusalView,
        >(RefusalView::NoRoute(model)),
        crate::laws::has_no_text(body, "model"@) ==> plan_of(config, path, body) == Err::<PlanView, RefusalView>(
            RefusalView::MissingModel,
        ),
{
}

/// A refusal is the client's fault: what cannot be converted is told by one status, all else by
/// another.
pub proof fn refusals_have_a_status(r: RefusalView)
    ensures
        r.status() == (if r is ConversionDisabled || r is NoProtocol || r is LostFields || r is BadImage {
            422u16
        } else {
            400u16
        }),
{
}

/// A refusal names what it is about: the model, the upstream and the path, the protocols, or the
/// fields that would be lost.
pub proof fn refusals_name_their_reason(
    model: Seq<char>,
    upstream: Seq<char>,
    path: Seq<char>,
    entry: Protocol,
    target: Protocol,
    fields: Seq<Seq<char>>,
)
    ensures
        occurs(RefusalView::NoRoute(model).text(), model),
        occurs(RefusalView::UnsupportedEndpoint { upstream, path }.text(), upstream),
        occurs(RefusalView::UnsupportedEndpoint { upstream, path }.text(), path),
        occurs(RefusalView::ConversionDisabled { upstream, entry, target }.text(), upstream),
        occurs(RefusalView::ConversionDisabled { upstream, entry, target }.text(), entry.label()),
        occurs(RefusalView::ConversionDisabled { upstream, entry, target }.text(), target.label()),
        occurs(RefusalView::NoProtocol { upstream, entry }.text(), upstream),
        occurs(RefusalView::NoProtocol { upstream, entry }.text(), entry.label()),
        occurs(RefusalView::LostFields { fields, target }.text(), target.label()),
        occurs(RefusalView::LostFields { fields, target }.text(), joined(fields, ", "@)),
        Protocol::ChatCompletions.label() == "chat_completions"@,
        Protocol::Responses.label() == "responses"@,
        Protocol::AnthropicMessages.label() == "anthropic_messages"@,
{
    stands_in(RefusalView::NoRoute(model).text(), "找不到模型 "@, model, " 的路由"@);
    let u = RefusalView::UnsupportedEndpoint { upstream, path }.text();
    let u1 = "上游 '"@ + upstream + "' 不支持当前协议端点 ("@;
    stands_in(u, "上游 '"@, upstream, "' 不支持当前协议端点 ("@ + path + ")"@);
    stands_in(u, u1, path, ")"@);
    let c = RefusalView::ConversionDisabled { upstream, entry, target }.text();
    let c0 = "protocol conversion is disabled: upstream '"@;
    let c1 = c0 + upstream + "' does not support "@;
    let c2 = c1 + entry.label() + " (supported: "@;
    stands_in(c, c0, upstream, "' does not support "@ + entry.label() + " (supported: "@ + target.label() + ")"@);
    stands_in(c, c1, entry.label(), " (supported: "@ + target.label() + ")"@);
    stands_in(c, c2, target.label(), ")"@);
    let n = RefusalView::NoProtocol { upstream, entry }.text();
    let n1 = "upstream '"@ + upstream + "' supports no protocol for "@;
    stands_in(n, "upstream '"@, upstream, "' supports no protocol for "@ + entry.label());
    stands_in(n, n1, entry.label(), Seq::empty());
    let l = RefusalView::LostFields { fields, target }.text();
    let l1 = "fields not supported by "@ + target.label() + ": "@;
    stands_in(l, "fields not supported by "@, target.label(), ": "@ + joined(fields, ", "@));
    stands_in(l, l1, joined(fields, ", "@), Seq::empty());
}

proof fn stands_in(s: Seq<char>, a: Seq<char>, p: Seq<char>, b: Seq<char>)
    requires
        s =~= a + p + b,
    ensures
        occurs(s, p),
{
    crate::laws::texts::texts_occur(a, p, b);
}

/// How an answer reaches the client. An answer in the protocol of the request is passed on, and
/// any other is converted: an error as an error, pieces as pieces and a whole as a whole. Pieces
/// of a Responses answer that the client has not asked for are gathered where they are converted
/// or come from Codex.
pub proof fn answers_reach_the_client(plan: PlanView, wants: bool, stream: bool, success: bool)
    ensures
        ({
            let d = delivery(plan, wants, stream, success);
            let same = plan.entry == plan.target;
            let codex = plan.route.api_type == ApiType::ChatGptCodex;
            &&& d is Relay ==> same
            &&& same && !codex ==> d is Relay
            &&& same && !success ==> d is Relay
            &&& same && (wants || !stream) ==> d is Relay
            &&& same && codex && plan.target == Protocol::Responses && success && stream && !wants ==> d is Gather
            &&& d is ConvertError <==> !same && !success
            &&& d is ConvertWhole <==> !same && success && !stream
            &&& d is ConvertStream ==> !same && success && stream
            &&& !same && success && stream && (wants || plan.target != Protocol::Responses) ==> d is ConvertStream
            &&& d is Gather ==> success && stream && !wants && plan.target == Protocol::Responses
        }),
{
}

/// An error that the upstream tells as an object is passed on as that object; anything else is
/// told as a message.
pub proof fn errors_are_passed_on(entry: Protocol, text: Seq<char>)
    ensures
        ({
            let e = client_error(entry, text).at("error"@);
            let told = match json_parse(text) {
                Some(v) => v.get("error"@),
                None => None,
            };
            &&& told is Some && told->Some_0 is Object ==> e == told->Some_0
            &&& !(told is Some && told->Some_0 is Object) ==> is_word(e.get("message"@), text)
            &&& entry == Protocol::AnthropicMessages ==> is_word(client_error(entry, text).get("type"@), "error"@)
        }),
{
    reveal_strlit("error");
    reveal_strlit("type");
    assert("error"@.len() == 5);
    assert("type"@.len() == 4);
}

/// A converted stream opens with the role of the assistant for chat clients, and with nothing for
/// others.
pub proof fn streams_open(entry: Protocol, c: JsonView)
    ensures
        entry != Protocol::ChatCompletions ==> opening(entry) is None,
        c == crate::handlers::chat::role_chunk() ==> is_chunk(
            c,
            JsonView::object().with("role"@, JsonView::Str("assistant"@)),
            JsonView::Null,
        ) && opening(Protocol::ChatCompletions) == Some("data: "@ + json_text(c) + "\n\n"@),
{
    reveal_strlit("id");
    reveal_strlit("object");
    reveal_strlit("created");
    reveal_strlit("model");
    reveal_strlit("choices");
    reveal_strlit("index");
    reveal_strlit("delta");
    reveal_strlit("finish_reason");
    assert("id"@.len() == 2);
    assert("object"@.len() == 6);
    assert("created"@.len() == 7);
    assert("model"@.len() == 5);
    assert("choices"@.len() == 7);
    assert("index"@.len() == 5);
    assert("delta"@.len() == 5);
    assert("finish_reason"@.len() == 13);
    assert("created"@[1] == 'r' && "choices"@[1] == 'h');
    assert("model"@[0] == 'm' && "index"@[0] == 'i');
    assert("model"@[0] == 'm' && "delta"@[0] == 'd');
    assert("index"@[0] == 'i' && "delta"@[0] == 'd');
}

/// The settings that every protocol carries over under one name.
pub open spec fn is_common_field(key: Seq<char>) -> bool {
    key == "model"@ || key == "temperature"@ || key == "top_p"@ || key == "stream"@ || key == "tools"@ || key
        == "tool_choice"@
}

/// Which fields of a request are carried over: those that the protocols share, the messages and
/// the limits under the names of each protocol, and how much to reason, except to and from
/// Anthropic's.
pub proof fn fields_are_carried(entry: Protocol, target: Protocol, key: Seq<char>)
    ensures
        ({
            let s = carried_fields(entry) + effort_fields(entry, target);
            let effort = (key == "reasoning"@ || key == "reasoning_effort"@) && entry != Protocol::AnthropicMessages
                && target != Protocol::AnthropicMessages;
            s.contains(key) <==> is_common_field(key) || effort || (match entry {
                Protocol::ChatCompletions => key == "messages"@ || key == "max_tokens"@ || key
                    == "max_completion_tokens"@ || key == "stop"@,
                Protocol::Responses => key == "input"@ || key == "instructions"@ || key == "max_output_tokens"@ || key
                    == "stop_sequences"@,
                Protocol::AnthropicMessages => key == "messages"@ || key == "system"@ || key == "max_tokens"@ || key
                    == "stop_sequences"@,
            })
        }),
{
    let a = carried_fields(entry);
    let b = effort_fields(entry, target);
    let s = a + b;
    assert(a.len() == 10 || a.len() == 11 || a.len() == 9);
    assert forall|i: int| 0 <= i < a.len() implies #[trigger] s[i] == a[i] by {}
    assert forall|i: int| 0 <= i < b.len() implies #[trigger] s[a.len() + i] == b[i] by {}
    assert(a.len() > 0 ==> s.contains(a[0])) by {
        assert(s[0] == a[0]);
    }
    assert(s[0] == a[0] && s[1] == a[1] && s[2] == a[2] && s[3] == a[3] && s[4] == a[4]);
    assert(s[5] == a[5] && s[6] == a[6] && s[7] == a[7] && s[8] == a[8]);
    if a.len() > 9 {
        assert(s[9] == a[9]);
    }
    if b.len() > 0 {
        assert(s[a.len() as int] == b[0] && s[a.len() as int + 1] == b[1]);
    }
    if s.contains(key) {
        let i = choose|i: int| 0 <= i < s.len() && s[i] == key;
        if i >= a.len() {
            assert(s[i] == b[i - a.len()]);
        }
    }
}

/// Whether a value says something: it is not null, not false and not an empty list.
pub open spec fn says_something(v: JsonView) -> bool {
    match v {
        JsonView::Null => false,
        JsonView::Bool(b) => b,
        JsonView::Array(a) => a.len() > 0,
        _ => true,
    }
}

/// Whether a name is one that pieces of requests are read under.
pub open spec fn is_known_name(k: Seq<char>) -> bool {
    k == "type"@ || k == "text"@ || k == "image_url"@ || k == "id"@ || k == "function"@ || k == "role"@ || k
        == "content"@ || k == "tool_calls"@ || k == "tool_call_id"@ || k == "data"@ || k == "format"@ || k
        == "status"@ || k == "call_id"@ || k == "output"@ || k == "name"@ || k == "description"@ || k
        == "parameters"@ || k == "source"@ || k == "input"@ || k == "thinking"@ || k == "tool_use_id"@ || k
        == "input_schema"@
}

proof fn unknown_is_not_said(v: JsonView, known: Seq<Seq<char>>, k: Seq<char>)
    requires
        forall|i: int| 0 <= i < known.len() ==> is_known_name(#[trigger] known[i]),
        v.get(k) is Some,
        says_something(v.get(k)->Some_0),
        !is_known_name(k),
    ensures
        !says_only(v, known),
{
    if says_only(v, known) {
        let m = v->Object_0;
        assert(m.dom().contains(k));
        assert(known.contains(k));
        let i = choose|i: int| 0 <= i < known.len() && known[i] == k;
        assert(is_known_name(known[i]));
    }
}

/// A piece that says something under a name that no piece is read under is not read as a whole.
pub proof fn unknown_names_are_lost(form: Form, v: JsonView, k: Seq<char>)
    requires
        v.get(k) is Some,
        says_something(v.get(k)->Some_0),
        !is_known_name(k),
    ensures
        !is_whole(form, v),
{
    unknown_is_not_said(v, seq!["type"@, "text"@], k);
    unknown_is_not_said(v, seq!["type"@, "image_url"@], k);
    unknown_is_not_said(v, seq!["id"@, "type"@, "function"@], k);
    unknown_is_not_said(v, seq!["role"@, "content"@], k);
    unknown_is_not_said(v, seq!["role"@, "content"@, "tool_calls"@], k);
    unknown_is_not_said(v, seq!["role"@, "content"@, "tool_call_id"@], k);
    unknown_is_not_said(v, seq!["type"@, "function"@], k);
    unknown_is_not_said(v, seq!["type"@, "data"@, "format"@], k);
    unknown_is_not_said(v, seq!["type"@, "role"@, "content"@, "id"@, "status"@], k);
    unknown_is_not_said(v, seq!["type"@, "call_id"@, "output"@, "id"@, "status"@], k);
    unknown_is_not_said(v, seq!["type"@, "name"@, "description"@, "parameters"@], k);
    unknown_is_not_said(v, seq!["type"@, "source"@], k);
    unknown_is_not_said(v, seq!["type"@, "id"@, "name"@, "input"@], k);
    unknown_is_not_said(v, seq!["type"@, "thinking"@], k);
    unknown_is_not_said(v, seq!["type"@, "tool_use_id"@, "content"@], k);
    unknown_is_not_said(v, seq!["name"@, "description"@, "input_schema"@], k);
}

/// Whether an object says nothing under other names than three.
pub open spec fn has_only(v: JsonView, a: Seq<char>, b: Seq<char>, c: Seq<char>) -> bool {
    v is Object && forall|k: Seq<char>| (#[trigger] v->Object_0.dom().contains(k)) ==> k == a || k == b || k == c
        || !says_something(v->Object_0[k])
}

/// Plain pieces are read as a whole: texts, messages of texts, calls, results and tools that say
/// no more than what every protocol knows.
pub proof fn plain_pieces_are_whole(v: JsonView, t: Seq<char>, a: Seq<JsonView>)
    ensures
        has_only(v, "type"@, "text"@, "text"@) && is_word(v.get("type"@), "text"@) && is_word(v.get("text"@), t)
            ==> is_whole(Form::ChatItem, v) && is_whole(Form::Part, v) && is_whole(Form::Block, v),
        has_only(v, "role"@, "content"@, "content"@) && is_word(v.get("content"@), t) && (is_word(
            v.get("role"@),
            "user"@,
        ) || is_word(v.get("role"@), "assistant"@) && v.get("tool_calls"@) is None) ==> is_whole(Form::ChatMessage, v)
            && is_whole(Form::Message, v),
        has_only(v, "role"@, "content"@, "content"@) && is_word(v.get("content"@), t) && is_word(
            v.get("role"@),
            "system"@,
        ) ==> is_whole(Form::ChatMessage, v),
        has_only(v, "role"@, "content"@, "tool_call_id"@) && is_word(v.get("content"@), t) && is_word(
            v.get("role"@),
            "tool"@,
        ) && v.str_at("tool_call_id"@) is Some ==> is_whole(Form::ChatMessage, v),
        has_only(v, "role"@, "content"@, "tool_calls"@) && is_word(v.get("content"@), t) && is_word(
            v.get("role"@),
            "assistant"@,
        ) && is_list(v.get("tool_calls"@), a) && are_whole(Form::ChatCall, a) ==> is_whole(Form::ChatMessage, v),
        has_only(v, "id"@, "type"@, "function"@) && v.str_at("id"@) is Some && v.get("function"@) is Some && has_only(
            v.get("function"@)->Some_0,
            "name"@,
            "arguments"@,
            "arguments"@,
        ) && v.get("function"@)->Some_0.str_at("name"@) is Some ==> is_whole(Form::ChatCall, v),
        has_only(v, "type"@, "function"@, "function"@) && is_word(v.get("type"@), "function"@) && v.get(
            "function"@,
        ) is Some && has_only(v.get("function"@)->Some_0, "name"@, "description"@, "parameters"@) && v.get(
            "function"@,
        )->Some_0.str_at("name"@) is Some && v.get("function"@)->Some_0.str_at("description"@) is Some ==> is_whole(
            Form::ChatTool,
            v,
        ),
        has_only(v, "name"@, "description"@, "input_schema"@) && v.str_at("name"@) is Some && v.str_at(
            "description"@,
        ) is Some ==> is_whole(Form::Tool, v),
        has_only(v, "type"@, "role"@, "content"@) && is_word(v.get("type"@), "message"@) && is_word(
            v.get("content"@),
            t,
        ) && (is_word(v.get("role"@), "user"@) || is_word(v.get("role"@), "assistant"@)) ==> is_whole(
            Form::InputItem,
            v,
        ),
        has_only(v, "type"@, "call_id"@, "output"@) && is_word(v.get("type"@), "function_call_output"@) && is_word(
            v.get("output"@),
            t,
        ) && v.text_at("call_id"@).len() > 0 ==> is_whole(Form::InputItem, v),
        has_only(v, "type"@, "tool_use_id"@, "content"@) && is_word(v.get("type"@), "tool_result"@) && is_word(
            v.get("content"@),
            t,
        ) && v.str_at("tool_use_id"@) is Some ==> is_whole(Form::Block, v),
{
    reveal_strlit("text");
    reveal_strlit("image_url");
    reveal_strlit("image");
    reveal_strlit("tool_use");
    reveal_strlit("thinking");
    reveal_strlit("tool_result");
    reveal_strlit("message");
    reveal_strlit("function_call_output");
    reveal_strlit("function");
    reveal_strlit("input_text");
    reveal_strlit("output_text");
    reveal_strlit("reasoning_text");
    reveal_strlit("summary_text");
    reveal_strlit("input_image");
    assert("text"@.len() == 4);
    assert("image_url"@.len() == 9);
    assert("image"@.len() == 5);
    assert("tool_use"@.len() == 8);
    assert("thinking"@.len() == 8);
    assert("tool_result"@.len() == 11);
    assert("message"@.len() == 7);
    assert("function_call_output"@.len() == 20);
    assert("function"@.len() == 8);
    assert("input_text"@.len() == 10);
    assert("output_text"@.len() == 11);
    assert("reasoning_text"@.len() == 14);
    assert("summary_text"@.len() == 12);
    assert("input_image"@.len() == 11);
    assert("tool_use"@[1] == 'o' && "thinking"@[1] == 'h');
    assert("tool_use"@[0] == 't' && "function"@[0] == 'f');
    assert("thinking"@[0] == 't' && "function"@[0] == 'f');
    assert("tool_result"@[0] == 't' && "output_text"@[0] == 'o');
    assert("tool_result"@[0] == 't' && "input_image"@[0] == 'i');
    assert("output_text"@[0] == 'o' && "input_image"@[0] == 'i');
    reveal_strlit("system");
    reveal_strlit("developer");
    reveal_strlit("user");
    reveal_strlit("assistant");
    reveal_strlit("tool");
    assert("system"@.len() == 6);
    assert("developer"@.len() == 9);
    assert("user"@.len() == 4);
    assert("assistant"@.len() == 9);
    assert("tool"@.len() == 4);
    assert("developer"@[0] == 'd' && "assistant"@[0] == 'a');
    assert("user"@[0] == 'u' && "tool"@[0] == 't');
    reveal_strlit("role");
    reveal_strlit("content");
    reveal_strlit("tool_calls");
    assert("role"@.len() == 4);
    assert("content"@.len() == 7);
    assert("tool_calls"@.len() == 10);
    assert(seq!["type"@, "text"@][0] == "type"@ && seq!["type"@, "text"@][1] == "text"@);
    assert(seq!["role"@, "content"@][0] == "role"@ && seq!["role"@, "content"@][1] == "content"@);
    let r3 = seq!["role"@, "content"@, "tool_call_id"@];
    assert(r3[0] == "role"@ && r3[1] == "content"@ && r3[2] == "tool_call_id"@);
    let r4 = seq!["role"@, "content"@, "tool_calls"@];
    assert(r4[0] == "role"@ && r4[1] == "content"@ && r4[2] == "tool_calls"@);
    let c3 = seq!["id"@, "type"@, "function"@];
    assert(c3[0] == "id"@ && c3[1] == "type"@ && c3[2] == "function"@);
    let f2 = seq!["name"@, "arguments"@];
    assert(f2[0] == "name"@ && f2[1] == "arguments"@);
    let t2 = seq!["type"@, "function"@];
    assert(t2[0] == "type"@ && t2[1] == "function"@);
    let d3 = seq!["name"@, "description"@, "parameters"@];
    assert(d3[0] == "name"@ && d3[1] == "description"@ && d3[2] == "parameters"@);
    let s3 = seq!["name"@, "description"@, "input_schema"@];
    assert(s3[0] == "name"@ && s3[1] == "description"@ && s3[2] == "input_schema"@);
    let m5 = seq!["type"@, "role"@, "content"@, "id"@, "status"@];
    assert(m5[0] == "type"@ && m5[1] == "role"@ && m5[2] == "content"@);
    let o5 = seq!["type"@, "call_id"@, "output"@, "id"@, "status"@];
    assert(o5[0] == "type"@ && o5[1] == "call_id"@ && o5[2] == "output"@);
    let u3 = seq!["type"@, "tool_use_id"@, "content"@];
    assert(u3[0] == "type"@ && u3[1] == "tool_use_id"@ && u3[2] == "content"@);
}

/// Plain settings are read as a whole, and settings of another kind are not.
pub proof fn plain_settings_are_whole(entry: Protocol, body: JsonView, key: Seq<char>, v: JsonView)
    requires
        body.get(key) == Some(v),
    ensures
        key == "model"@ ==> (is_whole_field(entry, key, body) <==> v is Str),
        key == "temperature"@ || key == "top_p"@ ==> (is_whole_field(entry, key, body) <==> v is Number || v is Null),
        key == "max_tokens"@ || key == "max_output_tokens"@ ==> (is_whole_field(entry, key, body) <==> v.as_u64() is Some
            || v is Null),
        key == "stream"@ ==> (is_whole_field(entry, key, body) <==> v is Bool || v is Null),
        key == "instructions"@ || key == "reasoning_effort"@ ==> (is_whole_field(entry, key, body) <==> v is Str
            || v is Null),
        key == "stop"@ && v is Str ==> is_whole_field(entry, key, body),
        (key == "input"@ || key == "system"@) && v is Str ==> is_whole_field(entry, key, body),
        (key == "messages"@ || key == "tools"@ || key == "stop_sequences"@) && v is Str ==> !is_whole_field(
            entry,
            key,
            body,
        ),
        key == "messages"@ && v is Array && v->Array_0.len() == 0 ==> is_whole_field(entry, key, body),
{
    reveal_strlit("model");
    reveal_strlit("temperature");
    reveal_strlit("top_p");
    reveal_strlit("max_tokens");
    reveal_strlit("max_output_tokens");
    reveal_strlit("max_completion_tokens");
    reveal_strlit("stream");
    reveal_strlit("stop");
    reveal_strlit("stop_sequences");
    reveal_strlit("messages");
    reveal_strlit("input");
    reveal_strlit("instructions");
    reveal_strlit("reasoning_effort");
    reveal_strlit("system");
    reveal_strlit("tools");
    reveal_strlit("reasoning");
    assert("model"@.len() == 5);
    assert("temperature"@.len() == 11);
    assert("top_p"@.len() == 5);
    assert("max_tokens"@.len() == 10);
    assert("max_output_tokens"@.len() == 17);
    assert("max_completion_tokens"@.len() == 21);
    assert("stream"@.len() == 6);
    assert("stop"@.len() == 4);
    assert("stop_sequences"@.len() == 14);
    assert("messages"@.len() == 8);
    assert("input"@.len() == 5);
    assert("instructions"@.len() == 12);
    assert("reasoning_effort"@.len() == 16);
    assert("system"@.len() == 6);
    assert("tools"@.len() == 5);
    assert("reasoning"@.len() == 9);
    assert("model"@[0] == 'm' && "top_p"@[0] == 't');
    assert("model"@[0] == 'm' && "input"@[0] == 'i');
    assert("model"@[0] == 'm' && "tools"@[0] == 't');
    assert("top_p"@[0] == 't' && "input"@[0] == 'i');
    assert("top_p"@[2] == 'p' && "tools"@[2] == 'o');
    assert("stream"@[1] == 't' && "system"@[1] == 'y');
    assert("input"@[0] == 'i' && "tools"@[0] == 't');
}

/// A list of messages is read as a whole exactly where each of them is.
pub proof fn messages_are_whole_one_by_one(entry: Protocol, body: JsonView, a: Seq<JsonView>)
    requires
        is_list(body.get("messages"@), a),
        entry != Protocol::Responses,
    ensures
        is_whole_field(entry, "messages"@, body) <==> (forall|i: int|
            0 <= i < a.len() ==> is_whole(
                if entry == Protocol::ChatCompletions {
                    Form::ChatMessage
                } else {
                    Form::Message
                },
                #[trigger] a[i],
            )),
{
    reveal_strlit("model");
    reveal_strlit("temperature");
    reveal_strlit("top_p");
    reveal_strlit("max_tokens");
    reveal_strlit("max_output_tokens");
    reveal_strlit("max_completion_tokens");
    reveal_strlit("stream");
    reveal_strlit("stop");
    reveal_strlit("stop_sequences");
    reveal_strlit("messages");
    assert("model"@.len() == 5);
    assert("temperature"@.len() == 11);
    assert("top_p"@.len() == 5);
    assert("max_tokens"@.len() == 10);
    assert("max_output_tokens"@.len() == 17);
    assert("max_completion_tokens"@.len() == 21);
    assert("stream"@.len() == 6);
    assert("stop"@.len() == 4);
    assert("stop_sequences"@.len() == 14);
    assert("messages"@.len() == 8);
    assert("model"@[0] == 'm' && "top_p"@[0] == 't');
}

/// Every protocol can say texts, and Anthropic's all that is not the system's; Chat Completions
/// and Responses can say an assistant's text with tool calls; Responses cannot say reasoning.
pub proof fn texts_can_be_said(target: Protocol, m: MessageView, t: Seq<char>)
    ensures
        m.role != CanonicalRole::System && m.content == seq![BlockView::Text { text: t }] ==> is_sayable(target, m),
        m.role != CanonicalRole::System && target == Protocol::AnthropicMessages ==> is_sayable(target, m),
        m.role == CanonicalRole::System ==> !is_sayable(target, m),
        m.role == CanonicalRole::Assistant && (forall|i: int|
            0 <= i < m.content.len() ==> #[trigger] m.content[i] is Text || m.content[i] is ToolUse) ==> is_sayable(
            target,
            m,
        ) || (m.content.len() == 1 && target == Protocol::Responses) || m.content.len() == 0,
        target == Protocol::Responses && (exists|i: int|
            0 <= i < m.content.len() && #[trigger] m.content[i] is Reasoning) ==> !is_sayable(target, m),
        is_sayable_system(Some(seq![BlockView::Text { text: t }])),
        is_sayable_system(None),
{
    let s = m.content;
    if m.content == seq![BlockView::Text { text: t }] {
        assert(s[0] is Text);
        assert forall|i: int| 0 <= i < s.len() implies #[trigger] s[i] is Text by {}
    }
    if target == Protocol::Responses && is_sayable(target, m) {
        assert forall|i: int| 0 <= i < s.len() implies !(#[trigger] s[i] is Reasoning) by {}
    }
}

/// Whether a tool result holds nothing but texts, reasoning and images.
pub open spec fn shows_only(b: BlockView) -> bool {
    b is ToolResult && forall|i: int|
        0 <= i < b->content.len() ==> #[trigger] b->content[i] is Text || b->content[i] is Reasoning
            || b->content[i] is Image
}

/// What Chat Completions can say: results by themselves, each of what can be shown and not of a
/// lone image; and without results all that an assistant says, and all but tool calls of a user.
pub proof fn chat_can_say(m: MessageView)
    requires
        m.role != CanonicalRole::System,
    ensures
        ({
            let s = m.content;
            let results = exists|i: int| 0 <= i < s.len() && #[trigger] s[i] is ToolResult;
            &&& results ==> (is_sayable(Protocol::ChatCompletions, m) <==> forall|i: int|
                0 <= i < s.len() ==> shows_only(#[trigger] s[i]) && !(s[i]->content.len() == 1
                    && s[i]->content[0] is Image))
            &&& !results ==> (is_sayable(Protocol::ChatCompletions, m) <==> m.role == CanonicalRole::Assistant
                || forall|i: int| 0 <= i < s.len() ==> !(#[trigger] s[i] is ToolUse))
        }),
{
    let s = m.content;
    assert forall|i: int| 0 <= i < s.len() implies (chat_says_result(#[trigger] s[i]) <==> shows_only(s[i]) && !(
    s[i]->content.len() == 1 && s[i]->content[0] is Image)) by {
        if s[i] is ToolResult {
            let c = s[i]->content;
            if chat_says_result(s[i]) {
                assert forall|j: int| 0 <= j < c.len() implies #[trigger] c[j] is Text || c[j] is Reasoning
                    || c[j] is Image by {
                    assert(fits(Rule::Shown, c[j]));
                }
            }
            if shows_only(s[i]) {
                assert(all_fit(Rule::Shown, c));
            }
        }
    }
    assert(all_fit(Rule::NoCalls, s) <==> forall|i: int| 0 <= i < s.len() ==> !(#[trigger] s[i] is ToolUse)) by {
        if all_fit(Rule::NoCalls, s) {
            assert forall|i: int| 0 <= i < s.len() implies !(#[trigger] s[i] is ToolUse) by {
                assert(fits(Rule::NoCalls, s[i]));
            }
        }
    }
}

/// Whether a block is a text, or a result of nothing but texts.
pub open spec fn tells_in_texts(b: BlockView) -> bool {
    b is Text || b is ToolResult && forall|i: int|
        0 <= i < b->content.len() ==> #[trigger] b->content[i] is Text
}

/// Whether a block is a text, or an image that is given by a URL or as PNG data.
pub open spec fn is_part(b: BlockView) -> bool {
    match b {
        BlockView::Text { text } => true,
        BlockView::Image { source: ImageView::Url { url } } => true,
        BlockView::Image { source: ImageView::Base64 { media_type, data } } => media_type == "image/png"@,
        _ => false,
    }
}

/// What Responses can say: tool calls among texts; results of texts among texts; a lone text or
/// image with a URL; and several texts and images.
pub proof fn responses_can_say(m: MessageView)
    requires
        m.role != CanonicalRole::System,
    ensures
        ({
            let s = m.content;
            let calls = exists|i: int| 0 <= i < s.len() && #[trigger] s[i] is ToolUse;
            let results = exists|i: int| 0 <= i < s.len() && #[trigger] s[i] is ToolResult;
            let sayable = is_sayable(Protocol::Responses, m);
            &&& calls ==> (sayable <==> forall|i: int|
                0 <= i < s.len() ==> #[trigger] s[i] is Text || s[i] is ToolUse)
            &&& !calls && results ==> (sayable <==> forall|i: int| 0 <= i < s.len() ==> tells_in_texts(#[trigger] s[i]))
            &&& !calls && !results && s.len() == 1 ==> (sayable <==> match s[0] {
                BlockView::Text { text } => true,
                BlockView::Image { source: ImageView::Url { url } } => url.len() > 0,
                _ => false,
            })
            &&& !calls && !results && s.len() != 1 ==> (sayable <==> forall|i: int|
                0 <= i < s.len() ==> is_part(#[trigger] s[i]))
        }),
{
    let s = m.content;
    assert forall|i: int| 0 <= i < s.len() implies (responses_say_result(#[trigger] s[i]) <==> tells_in_texts(s[i])) by {
        if s[i] is ToolResult {
            let c = s[i]->content;
            if responses_say_result(s[i]) {
                assert forall|j: int| 0 <= j < c.len() implies #[trigger] c[j] is Text by {
                    assert(fits(Rule::Texts, c[j]));
                }
            }
        }
    }
    assert forall|i: int| 0 <= i < s.len() implies (fits(Rule::TextsAndImages, #[trigger] s[i]) <==> is_part(s[i])) by {}
    assert forall|i: int| 0 <= i < s.len() implies (fits(Rule::TextsAndCalls, #[trigger] s[i]) <==> s[i] is Text
        || s[i] is ToolUse) by {}
}

/// The fields that are lost are told in the order of their names: those that are not carried over
/// or not read as a whole, and no others.
pub proof fn lost_fields_are_told(entry: Protocol, target: Protocol, body: JsonView, s: Seq<Seq<char>>, k: Seq<char>)
    ensures
        ({
            let kept = (carried_fields(entry) + effort_fields(entry, target)).contains(k) && is_whole_field(
                entry,
                k,
                body,
            );
            &&& kept ==> lost_among(entry, target, body, s.push(k)) == lost_among(entry, target, body, s)
            &&& !kept ==> lost_among(entry, target, body, s.push(k)) == lost_among(entry, target, body, s).push(k)
        }),
        lost_among(entry, target, body, Seq::empty()).len() == 0,
        body is Object && lost_among(entry, target, body, sorted_keys(body->Object_0)).len() > 0 ==> lost_fields(
            entry,
            target,
            body,
        ) == lost_among(entry, target, body, sorted_keys(body->Object_0)),
{
    assert(s.push(k).drop_last() =~= s);
}

proof fn no_loss_means_none(entry: Protocol, target: Protocol, body: JsonView, s: Seq<Seq<char>>)
    requires
        forall|i: int|
            0 <= i < s.len() ==> (carried_fields(entry) + effort_fields(entry, target)).contains(#[trigger] s[i])
                && is_whole_field(entry, s[i], body),
    ensures
        lost_among(entry, target, body, s).len() == 0,
    decreases s.len(),
{
    if s.len() > 0 {
        let t = s.drop_last();
        assert forall|i: int| 0 <= i < t.len() implies (carried_fields(entry) + effort_fields(
            entry,
            target,
        )).contains(#[trigger] t[i]) && is_whole_field(entry, t[i], body) by {
            assert(t[i] == s[i]);
        }
        no_loss_means_none(entry, target, body, t);
        assert(is_whole_field(entry, s[s.len() - 1], body));
    }
}

/// A request that loses nothing is not refused for a loss: where each of its fields is carried
/// over and read as a whole, and the other protocol can say what is read, it goes out converted.
pub proof fn whole_requests_are_not_refused(plan: PlanView, m: Map<Seq<char>, JsonView>)
    requires
        plan.entry != plan.target,
        forall|i: int|
            0 <= i < sorted_keys(m).len() ==> (carried_fields(plan.entry) + effort_fields(
                plan.entry,
                plan.target,
            )).contains(#[trigger] sorted_keys(m)[i]) && is_whole_field(
                plan.entry,
                sorted_keys(m)[i],
                JsonView::Object(m),
            ),
        read_request(plan.entry, JsonView::Object(m)) is Ok,
        unsayable(plan.entry, plan.target, read_request(plan.entry, JsonView::Object(m))->Ok_0).len() == 0,
    ensures
        planned_body(plan, JsonView::Object(m)) is Ok,
{
    no_loss_means_none(plan.entry, plan.target, JsonView::Object(m), sorted_keys(m));
}

} // verus!
