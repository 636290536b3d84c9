//! How streams are written: event by event, in the frames of each protocol; and a few more facts
//! about what is sent.
use crate::cli_proxy_api_manager::{host_and_port, proxy_config};
use crate::codec::{json_parse, json_text};
use crate::handlers::admin::{password_fits, password_matches};
use crate::json::JsonView;
use crate::laws::accounts::text_under;
use crate::laws::number_at;
use crate::laws::requests::is_word;
use crate::models::AppView;
use crate::proxy::{comes_in_pieces, shown_answer};
use crate::text::{numeral, occurs, occurs_at};
use crate::transform::canonical::CanonicalStopReason;
use crate::transform::emit::{anthropic_sse, openai_sse, responses_sse, wrapped, FrameKind, FrameView, WrapperView};
use crate::transform::pump::all_emitted;
use crate::transform::responses::responses_choice;
use crate::transform::stream::{from_openai, from_responses, SseView, StreamView};
use crate::transform::{others, Protocol};
use vstd::prelude::*;
use vstd::string::*;
use vstd::utf8::*;

verus! {

/// What is written for one more event comes behind what was written before: for Chat Completions
/// and Responses the text of the event, where it has one; what could not be read is told as it
/// comes.
pub proof fn events_are_written_one_by_one(
    to: Protocol,
    w: WrapperView,
    s: Seq<Result<StreamView, Seq<char>>>,
    e: StreamView,
    m: Seq<char>,
)
    ensures
        ({
            let before = all_emitted(to, w, s);
            let after = all_emitted(to, w, s.push(Ok(e)));
            let failed = all_emitted(to, w, s.push(Err(m)));
            &&& to == Protocol::ChatCompletions && openai_sse(e).len() > 0 ==> after.1 == before.1.push(
                Ok::<Seq<char>, Seq<char>>(openai_sse(e)),
            )
            &&& to == Protocol::ChatCompletions && openai_sse(e).len() == 0 ==> after.1 == before.1
            &&& to == Protocol::Responses && responses_sse(e).len() > 0 ==> after.1 == before.1.push(
                Ok::<Seq<char>, Seq<char>>(responses_sse(e)),
            )
            &&& to == Protocol::Responses && responses_sse(e).len() == 0 ==> after.1 == before.1
            &&& to != Protocol::AnthropicMessages || !before.0.stopped ==> failed.1 == before.1.push(
                Err::<Seq<char>, Seq<char>>(m),
            )
            &&& to == Protocol::AnthropicMessages && before.0.stopped ==> failed == before && after == before
            &&& to == Protocol::AnthropicMessages && !before.0.stopped ==> ({
                let (u, frames) = wrapped(before.0, e);
                &&& after.0 == u
                &&& after.1.len() == before.1.len() + frames.len()
                &&& after.1.take(before.1.len() as int) == before.1
                &&& forall|i: int|
                    0 <= i < frames.len() ==> (#[trigger] after.1[before.1.len() + i]) == Ok::<
                        Seq<char>,
                        Seq<char>,
                    >(
                        "event: "@ + frame_name(frames[i].kind) + "\ndata: "@ + json_text(frames[i].body) + "\n\n"@,
                    )
            })
        }),
        all_emitted(to, w, Seq::empty()).1.len() == 0,
{
    let none = Seq::<Result<Seq<char>, Seq<char>>>::empty();
    let b = all_emitted(to, w, s).1;
    assert(s.push(Ok(e)).drop_last() =~= s);
    assert(s.push(Err(m)).drop_last() =~= s);
    assert(b + none =~= b);
    assert(b + seq![Err::<Seq<char>, Seq<char>>(m)] =~= b.push(Err(m)));
    assert(b + seq![Ok::<Seq<char>, Seq<char>>(openai_sse(e))] =~= b.push(Ok(openai_sse(e))));
    assert(b + seq![Ok::<Seq<char>, Seq<char>>(responses_sse(e))] =~= b.push(Ok(responses_sse(e))));
    if to == Protocol::AnthropicMessages && !all_emitted(to, w, s).0.stopped {
        let after = all_emitted(to, w, s.push(Ok(e)));
        assert(after.1.take(b.len() as int) =~= b);
    }
}

/// What is not understood is kept: data that is no JSON as it is, and a message that says nothing
/// that is known as its text.
pub proof fn the_rest_is_kept(e: SseView, json: JsonView)
    ensures
        json_parse(e.data) is None ==> from_openai(e) == (StreamView::Raw { event: e.event, data: e.data })
            && from_responses(e) == (StreamView::Raw { event: e.event, data: e.data }),
        e.data == "[DONE]"@ ==> from_openai(e) == (StreamView::Raw { event: e.event, data: e.data }),
        e.data != "[DONE]"@ && json_parse(e.data) == Some(json) && json.get("choices"@) is None && json.get(
            "usage"@,
        ) is None ==> from_openai(e) == (StreamView::Raw { event: None, data: json_text(json) }),
        json_parse(e.data) == Some(json) && crate::laws::says_nothing(json, "type"@) ==> from_responses(e) == (
        StreamView::Raw { event: None, data: json_text(json) }),
{
    reveal_strlit("response.text.delta");
    reveal_strlit("response.output_text.delta");
    reveal_strlit("response.reasoning.delta");
    reveal_strlit("response.reasoning_text.delta");
    reveal_strlit("response.output_reasoning.delta");
    reveal_strlit("response.function_call.parameter_delta");
    reveal_strlit("response.function_call_arguments.delta");
    reveal_strlit("response.function_call.completed");
    reveal_strlit("response.output_item.added");
    reveal_strlit("response.output_item.done");
    reveal_strlit("response.output_item.delta");
    reveal_strlit("response.done");
    reveal_strlit("response.completed");
    assert("response.text.delta"@.len() == 19);
    assert("response.output_text.delta"@.len() == 26);
    assert("response.reasoning.delta"@.len() == 24);
    assert("response.reasoning_text.delta"@.len() == 29);
    assert("response.output_reasoning.delta"@.len() == 31);
    assert("response.function_call.parameter_delta"@.len() == 38);
    assert("response.function_call_arguments.delta"@.len() == 38);
    assert("response.function_call.completed"@.len() == 32);
    assert("response.output_item.added"@.len() == 26);
    assert("response.output_item.done"@.len() == 25);
    assert("response.output_item.delta"@.len() == 26);
    assert("response.done"@.len() == 13);
    assert("response.completed"@.len() == 18);
    assert("response.output_text.delta"@[16] == 't' && "response.output_item.added"@[16] == 'i');
    assert("response.output_text.delta"@[16] == 't' && "response.output_item.delta"@[16] == 'i');
    assert("response.function_call.parameter_delta"@[22] == '.' && "response.function_call_arguments.delta"@[22] == '_');
    assert("response.output_item.added"@[21] == 'a' && "response.output_item.delta"@[21] == 'd');
}

/// What a piece of an output item says: a piece of a message is text, and a piece of a function
/// call is arguments, with the call that it is for.
pub proof fn pieces_of_items_are_read(e: SseView, json: JsonView, item: JsonView, t: Seq<char>, id: Seq<char>)
    requires
        json_parse(e.data) == Some(json),
        is_word(json.get("type"@), "response.output_item.delta"@),
        json.get("item"@) == Some(item),
        t.len() > 0,
    ensures
        is_word(item.get("type"@), "message"@) && is_word(json.get("delta"@), t) ==> from_responses(e) == (
        StreamView::TextDelta { text: t }),
        is_word(item.get("type"@), "message"@) && crate::laws::says_nothing(json, "delta"@) && is_word(
            item.get("content_delta"@),
            t,
        ) ==> from_responses(e) == (StreamView::TextDelta { text: t }),
        is_word(item.get("type"@), "function_call"@) && is_word(item.get("call_id"@), id) && (is_word(
            item.get("arguments_delta"@),
            t,
        ) || item.get("arguments_delta"@) is None && is_word(item.get("arguments"@), t)) && json.get(
            "output_index"@,
        ) is Some ==> from_responses(e) == (StreamView::ToolInputDelta {
            tool_use_id: id,
            index: number_at(json, "output_index"@),
            input_chunk: t,
        }),
        is_word(item.get("type"@), "function_call"@) && is_word(item.get("call_id"@), id) && is_word(
            item.get("arguments_delta"@),
            t,
        ) && json.get("output_index"@) is None ==> from_responses(e) == (StreamView::ToolInputDelta {
            tool_use_id: id,
            index: number_at(json, "index"@),
            input_chunk: t,
        }),
{
    reveal_strlit("response.text.delta");
    reveal_strlit("response.output_text.delta");
    reveal_strlit("response.reasoning.delta");
    reveal_strlit("response.reasoning_text.delta");
    reveal_strlit("response.output_reasoning.delta");
    reveal_strlit("response.function_call.parameter_delta");
    reveal_strlit("response.function_call_arguments.delta");
    reveal_strlit("response.function_call.completed");
    reveal_strlit("response.output_item.added");
    reveal_strlit("response.output_item.done");
    reveal_strlit("response.output_item.delta");
    reveal_strlit("response.done");
    reveal_strlit("response.completed");
    assert("response.text.delta"@.len() == 19);
    assert("response.output_text.delta"@.len() == 26);
    assert("response.reasoning.delta"@.len() == 24);
    assert("response.reasoning_text.delta"@.len() == 29);
    assert("response.output_reasoning.delta"@.len() == 31);
    assert("response.function_call.parameter_delta"@.len() == 38);
    assert("response.function_call_arguments.delta"@.len() == 38);
    assert("response.function_call.completed"@.len() == 32);
    assert("response.output_item.added"@.len() == 26);
    assert("response.output_item.done"@.len() == 25);
    assert("response.output_item.delta"@.len() == 26);
    assert("response.done"@.len() == 13);
    assert("response.completed"@.len() == 18);
    assert("response.output_text.delta"@[16] == 't' && "response.output_item.added"@[16] == 'i');
    assert("response.output_text.delta"@[16] == 't' && "response.output_item.delta"@[16] == 'i');
    assert("response.function_call.parameter_delta"@[22] == '.' && "response.function_call_arguments.delta"@[22] == '_');
    assert("response.output_item.added"@[21] == 'a' && "response.output_item.delta"@[21] == 'd');
    reveal_strlit("message");
    reveal_strlit("function_call");
    assert("message"@.len() == 7);
    assert("function_call"@.len() == 13);
}

/// The name of the event that carries a message of an Anthropic stream.
pub open spec fn frame_name(kind: FrameKind) -> Seq<char> {
    match kind {
        FrameKind::MessageStart => "message_start"@,
        FrameKind::BlockStart => "content_block_start"@,
        FrameKind::BlockDelta => "content_block_delta"@,
        FrameKind::BlockStop => "content_block_stop"@,
        FrameKind::MessageDelta => "message_delta"@,
        FrameKind::MessageStop => "message_stop"@,
    }
}

/// Whether a message of an Anthropic stream starts a message of an assistant that says nothing
/// yet.
pub open spec fn is_message_start(f: FrameView) -> bool {
    let m = f.body.at("message"@);
    &&& f.kind is MessageStart
    &&& is_word(m.get("type"@), "message"@)
    &&& is_word(m.get("role"@), "assistant"@)
    &&& m.get("content"@) == Some(JsonView::Array(Seq::empty()))
    &&& number_at(m.at("usage"@), "input_tokens"@) == Some(0u64)
    &&& number_at(m.at("usage"@), "output_tokens"@) == Some(0u64)
}

/// Whether a message of an Anthropic stream starts the first block, of a kind.
pub open spec fn is_first_start(f: FrameView, kind: Seq<char>) -> bool {
    &&& f.kind is BlockStart
    &&& number_at(f.body, "index"@) == Some(0u64)
    &&& is_word(f.body.at("content_block"@).get("type"@), kind)
}

/// The starts that an Anthropic stream needs come in front of its first content, each once: that
/// of the message, and for words that of a block of their kind.
pub proof fn starts_come_in_front(w: WrapperView, e: StreamView)
    ensures
        ({
            let (u, frames) = wrapped(w, e);
            let words = e is TextDelta || e is ReasoningDelta;
            let kind = if e is TextDelta {
                "text"@
            } else {
                "thinking"@
            };
            &&& words && w.sent_message_start && w.sent_content_start ==> frames.len() == 1
            &&& words && w.sent_message_start && !w.sent_content_start ==> frames.len() == 2 && is_first_start(
                frames[0],
                kind,
            )
            &&& words && !w.sent_message_start && w.sent_content_start ==> frames.len() == 2 && is_message_start(
                frames[0],
            )
            &&& words && !w.sent_message_start && !w.sent_content_start ==> frames.len() == 3 && is_message_start(
                frames[0],
            ) && is_first_start(frames[1], kind)
            &&& words ==> number_at(frames.last().body, "index"@) == Some(0u64)
            &&& e is ToolUseStart && w.sent_message_start ==> frames.len() == 1
            &&& e is ToolUseStart && !w.sent_message_start ==> frames.len() == 2 && is_message_start(frames[0])
            &&& words || e is ToolUseStart ==> u.sent_message_start && u.sent_content_start
            &&& words && w.sent_content_start ==> u.last_index == w.last_index
            &&& words && !w.sent_content_start ==> u.last_index == 0
            &&& !words && !(e is ToolUseStart) ==> u.sent_message_start == w.sent_message_start
                && u.sent_content_start == w.sent_content_start && u.last_index == w.last_index
        }),
        !WrapperView::fresh().sent_message_start && !WrapperView::fresh().sent_content_start
            && !WrapperView::fresh().stopped && !WrapperView::fresh().saw_tool_use,
{
    reveal_strlit("type");
    reveal_strlit("message");
    reveal_strlit("id");
    reveal_strlit("role");
    reveal_strlit("content");
    reveal_strlit("model");
    reveal_strlit("stop_sequence");
    reveal_strlit("usage");
    reveal_strlit("input_tokens");
    reveal_strlit("output_tokens");
    reveal_strlit("index");
    reveal_strlit("content_block");
    reveal_strlit("delta");
    reveal_strlit("text");
    reveal_strlit("thinking");
    assert("type"@.len() == 4);
    assert("message"@.len() == 7);
    assert("id"@.len() == 2);
    assert("role"@.len() == 4);
    assert("content"@.len() == 7);
    assert("model"@.len() == 5);
    assert("stop_sequence"@.len() == 13);
    assert("usage"@.len() == 5);
    assert("input_tokens"@.len() == 12);
    assert("output_tokens"@.len() == 13);
    assert("index"@.len() == 5);
    assert("content_block"@.len() == 13);
    assert("delta"@.len() == 5);
    assert("text"@.len() == 4);
    assert("thinking"@.len() == 8);
    assert("type"@[0] == 't' && "role"@[0] == 'r');
    assert("type"@[1] == 'y' && "text"@[1] == 'e');
    assert("message"@[0] == 'm' && "content"@[0] == 'c');
    assert("role"@[0] == 'r' && "text"@[0] == 't');
    assert("model"@[0] == 'm' && "usage"@[0] == 'u');
    assert("model"@[0] == 'm' && "index"@[0] == 'i');
    assert("model"@[0] == 'm' && "delta"@[0] == 'd');
    assert("stop_sequence"@[0] == 's' && "output_tokens"@[0] == 'o');
    assert("stop_sequence"@[0] == 's' && "content_block"@[0] == 'c');
    assert("usage"@[0] == 'u' && "index"@[0] == 'i');
    assert("usage"@[0] == 'u' && "delta"@[0] == 'd');
    assert("output_tokens"@[0] == 'o' && "content_block"@[0] == 'c');
    assert("index"@[0] == 'i' && "delta"@[0] == 'd');
}

/// What stands alone in an Anthropic stream: words, calls and arguments in one message each, an
/// end in two, and nothing for the rest.
pub proof fn lone_events_are_written(e: StreamView)
    ensures
        match e {
            StreamView::Stop { reason } => exists|v: JsonView|
                {
                    &&& anthropic_sse(e) == "event: "@ + "message_delta"@ + "\ndata: "@ + #[trigger] json_text(v)
                        + "\n\n"@ + ("event: "@ + "message_stop"@ + "\ndata: "@ + json_text(
                        JsonView::object().with("type"@, JsonView::Str("message_stop"@)),
                    ) + "\n\n"@)
                    &&& is_word(
                        v.get("stop_reason"@),
                        match reason {
                            CanonicalStopReason::EndTurn => "end_turn"@,
                            CanonicalStopReason::MaxTokens => "max_tokens"@,
                            CanonicalStopReason::StopSequence => "stop_sequence"@,
                            CanonicalStopReason::ToolUse => "tool_use"@,
                        },
                    )
                },
            StreamView::Usage { input_tokens, output_tokens } => anthropic_sse(e).len() == 0,
            StreamView::Raw { event, data } => anthropic_sse(e).len() == 0,
            _ => ({
                let f = wrapped(WrapperView { sent_message_start: true, sent_content_start: true, ..WrapperView::fresh() }, e).1;
                f.len() == 1 && anthropic_sse(e) == "event: "@ + frame_name(f[0].kind) + "\ndata: "@ + json_text(
                    f[0].body,
                ) + "\n\n"@
            }),
        },
{
    reveal_strlit("type");
    reveal_strlit("stop_reason");
    reveal_strlit("stop_sequence");
    assert("type"@.len() == 4);
    assert("stop_reason"@.len() == 11);
    assert("stop_sequence"@.len() == 13);
    match e {
        StreamView::Stop { reason } => {
            let v = crate::transform::emit::typed("message_delta"@).with(
                "stop_reason"@,
                JsonView::Str(crate::transform::anthropic::stop_name(reason)),
            ).with("stop_sequence"@, JsonView::Null);
            let t = json_text(v);
            assert(t == json_text(v));
        },
        _ => {},
    }
}

/// How the choice of a tool goes out to Responses: words that it knows stay, those of Anthropic's
/// protocol become the ones that it knows, a named tool becomes a named function, and anything
/// else cannot be said.
pub proof fn choices_are_said_in_responses(c: JsonView, name: Seq<char>, t: Seq<char>)
    ensures
        c == JsonView::Str("auto"@) || c == JsonView::Str("none"@) || c == JsonView::Str("required"@)
            ==> responses_choice(c) == Some(c),
        c == JsonView::Str(t) && t != "auto"@ && t != "none"@ && t != "required"@ ==> responses_choice(c) is None,
        is_word(c.get("type"@), "auto"@) ==> responses_choice(c) == Some(JsonView::Str("auto"@)),
        is_word(c.get("type"@), "none"@) ==> responses_choice(c) == Some(JsonView::Str("none"@)),
        is_word(c.get("type"@), "any"@) ==> responses_choice(c) == Some(JsonView::Str("required"@)),
        is_word(c.get("type"@), "tool"@) && is_word(c.get("name"@), name) ==> names_function(
            responses_choice(c),
            name,
        ),
        is_word(c.get("type"@), "function"@) && is_word(c.get("name"@), name) ==> responses_choice(c) == Some(c),
        is_word(c.get("type"@), "function"@) && c.get("name"@) is None && is_word(
            c.at("function"@).get("name"@),
            name,
        ) ==> names_function(responses_choice(c), name),
        !(c is Str) && !(c is Object) ==> responses_choice(c) is None,
{
    reveal_strlit("auto");
    reveal_strlit("none");
    reveal_strlit("any");
    reveal_strlit("tool");
    reveal_strlit("function");
    reveal_strlit("required");
    assert("auto"@.len() == 4);
    assert("none"@.len() == 4);
    assert("any"@.len() == 3);
    assert("tool"@.len() == 4);
    assert("function"@.len() == 8);
    assert("required"@.len() == 8);
    assert("auto"@[0] == 'a' && "none"@[0] == 'n');
    assert("auto"@[0] == 'a' && "tool"@[0] == 't');
    assert("none"@[0] == 'n' && "tool"@[0] == 't');
    assert("function"@[0] == 'f' && "required"@[0] == 'r');
    reveal_strlit("type");
    reveal_strlit("name");
    assert("type"@.len() == 4);
    assert("name"@.len() == 4);
    assert("type"@[0] == 't' && "name"@[0] == 'n');
}

/// Whether a choice names a function.
pub open spec fn names_function(c: Option<JsonView>, name: Seq<char>) -> bool {
    c is Some && is_word(c->Some_0.get("type"@), "function"@) && is_word(c->Some_0.get("name"@), name)
}

/// The fields that are not known are those that are left without the known ones, in their order.
pub proof fn unknown_fields_are_left(s: Seq<Seq<char>>, known: Seq<Seq<char>>, k: Seq<char>)
    ensures
        known.contains(k) ==> others(s.push(k), known) == others(s, known),
        !known.contains(k) ==> others(s.push(k), known) == others(s, known).push(k),
        others(Seq::empty(), known).len() == 0,
{
    assert(s.push(k).drop_last() =~= s);
}

/// The models that clients may name are the aliases, in their order.
pub proof fn names_of_models_are_aliases(c: AppView, i: int)
    requires
        0 <= i < c.aliases.len(),
    ensures
        c.model_names().len() == c.aliases.len(),
        c.model_names()[i] == c.aliases[i].alias,
{
}

/// A login fits where the password that it gives matches the stored hash; without a stored one
/// none fits.
pub proof fn passwords_fit(c: AppView, body: JsonView, hash: Seq<char>)
    ensures
        c.admin_password_hash == Some(hash) ==> (password_fits(c, body) <==> password_matches(
            text_under(body, "password"@),
            hash,
        )),
        c.admin_password_hash is None ==> !password_fits(c, body),
{
}

/// An answer comes in pieces where that was asked for or where its type says so, and only there.
pub proof fn pieces_are_told(body: JsonView, kind: Seq<char>, i: int)
    ensures
        body.get("stream"@) == Some(JsonView::Bool(true)) ==> comes_in_pieces(body, kind),
        occurs_at(kind, "text/event-stream"@, i) ==> comes_in_pieces(body, kind),
        body.get("stream"@) != Some(JsonView::Bool(true)) && !occurs(kind, "text/event-stream"@) ==> !comes_in_pieces(
            body,
            kind,
        ),
{
}

/// A record shows the value of an answer that came at once, and null where there is none.
pub proof fn answers_are_recorded(bytes: Seq<u8>)
    ensures
        valid_utf8(bytes) && json_parse(decode_utf8(bytes)) is Some ==> shown_answer(Some(bytes)) == json_parse(
            decode_utf8(bytes),
        )->Some_0,
        valid_utf8(bytes) && json_parse(decode_utf8(bytes)) is None ==> shown_answer(Some(bytes)) is Null,
        !valid_utf8(bytes) ==> shown_answer(Some(bytes)) is Null,
        shown_answer(None) is Null,
{
}

/// The configuration for the proxy names its host and port, where its accounts are kept, its key
/// and its secret, each in a line of its own, and ends with its name for Codex.
pub proof fn the_proxy_is_configured(endpoint: Seq<char>, dir: Seq<char>, key: Seq<char>, secret: Seq<char>)
    ensures
        ({
            let (host, port) = host_and_port(endpoint);
            let c = proxy_config(endpoint, dir, key, secret);
            let a = "host: \""@ + host + "\"\nport: "@ + numeral(port) + "\nauth-dir: \""@ + dir;
            let b = a + "/cli-proxy-api\"\napi-keys:\n  - \""@ + key;
            let d = b + "\"\nremote-management:\n  secret-key: \""@ + secret;
            a.is_prefix_of(b) && b.is_prefix_of(d) && d.is_prefix_of(c)
        }),
{
    let (host, port) = host_and_port(endpoint);
    let c = proxy_config(endpoint, dir, key, secret);
    let a = "host: \""@ + host + "\"\nport: "@ + numeral(port) + "\nauth-dir: \""@ + dir;
    let b = a + "/cli-proxy-api\"\napi-keys:\n  - \""@ + key;
    let d = b + "\"\nremote-management:\n  secret-key: \""@ + secret;
    assert(a =~= b.subrange(0, a.len() as int));
    assert(b =~= d.subrange(0, b.len() as int));
    assert(d =~= c.subrange(0, d.len() as int));
}

} // verus!
