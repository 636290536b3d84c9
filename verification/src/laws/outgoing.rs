//! What is written for a request: which field of the body says what.
use crate::codec::json_text;
use crate::json::JsonView;
use crate::laws::requests::{is_list, is_word};
use crate::laws::number_at;
use crate::number::NumberView;
use crate::transform::anthropic;
use crate::transform::canonical::{BlockView, CanonicalRole, ImageView, MessageView, RequestView, ToolView};
use crate::transform::chat_completions;
use crate::transform::chat_completions::{image_of_url, items_at, text_item};
use crate::transform::responses;
use crate::transform::survival::data_urls_are_read;
use crate::transform::{write_request, Protocol};
use vstd::prelude::*;
use vstd::string::*;

verus! {

/// An image of a Chat Completions request is read from its URL: its type and data where the URL
/// holds them, else the URL.
pub proof fn chat_images_are_read(media_type: Seq<char>, data: Seq<char>, url: Seq<char>)
    ensures
        (forall|i: int|
            0 <= i < media_type.len() ==> #[trigger] media_type[i] != ',' && media_type[i] != ';')
            ==> image_of_url("data:"@ + media_type + ";base64,"@ + data) == (BlockView::Image {
            source: ImageView::Base64 { media_type, data },
        }),
        !"data:"@.is_prefix_of(url) ==> image_of_url(url) == (BlockView::Image {
            source: ImageView::Url { url },
        }),
{
    if forall|i: int|
        0 <= i < media_type.len() ==> #[trigger] media_type[i] != ',' && media_type[i] != ';' {
        data_urls_are_read(media_type, data);
    }
}

/// An optional double as it is written.
pub open spec fn is_double(v: Option<JsonView>, d: Option<Seq<char>>) -> bool {
    match d {
        Some(t) => v == Some(JsonView::Number(NumberView::Float(t))),
        None => v is None,
    }
}

/// What a request says beside its messages is written to the field of its own name.
pub proof fn settings_are_named(protocol: Protocol, q: RequestView)
    ensures
        ({
            let body = write_request(protocol, q);
            &&& is_word(body.get("model"@), q.model)
            &&& is_double(body.get("temperature"@), q.temperature)
            &&& is_double(body.get("top_p"@), q.top_p)
            &&& body.get("stream"@) == (if q.stream {
                Some(JsonView::Bool(true))
            } else {
                None
            })
            &&& match protocol {
                Protocol::ChatCompletions => number_at(body, "max_tokens"@) == q.max_tokens && body.get(
                    "tool_choice"@,
                ) == q.tool_choice && (match q.reasoning_effort {
                    Some(e) => is_word(body.get("reasoning_effort"@), e),
                    None => body.get("reasoning_effort"@) is None,
                }),
                Protocol::Responses => number_at(body, "max_output_tokens"@) == q.max_tokens && (
                match q.reasoning_effort {
                    Some(e) => body.get("reasoning"@) is Some && is_word(
                        body.get("reasoning"@)->Some_0.get("effort"@),
                        e,
                    ),
                    None => body.get("reasoning"@) is None,
                }),
                Protocol::AnthropicMessages => number_at(body, "max_tokens"@) == (match q.max_tokens {
                    Some(n) => Some(n),
                    None => Some(4096),
                }) && body.get("tool_choice"@) == q.tool_choice,
            }
            &&& match q.stop_sequences {
                Some(s) => if protocol == Protocol::ChatCompletions {
                    if s.len() == 1 {
                        is_word(body.get("stop"@), s[0])
                    } else {
                        is_list(body.get("stop"@), s.map_values(|x: Seq<char>| JsonView::Str(x)))
                    }
                } else {
                    is_list(body.get("stop_sequences"@), s.map_values(|x: Seq<char>| JsonView::Str(x)))
                },
                None => body.get("stop"@) is None && body.get("stop_sequences"@) is None,
            }
        }),
{
    reveal_strlit("model");
    reveal_strlit("messages");
    reveal_strlit("input");
    reveal_strlit("temperature");
    reveal_strlit("top_p");
    reveal_strlit("max_tokens");
    reveal_strlit("max_output_tokens");
    reveal_strlit("stop");
    reveal_strlit("stop_sequences");
    reveal_strlit("stream");
    reveal_strlit("tools");
    reveal_strlit("tool_choice");
    reveal_strlit("reasoning_effort");
    reveal_strlit("reasoning");
    reveal_strlit("system");
    reveal_strlit("instructions");
    reveal_strlit("effort");
    assert("model"@.len() == 5);
    assert("messages"@.len() == 8);
    assert("input"@.len() == 5);
    assert("temperature"@.len() == 11);
    assert("top_p"@.len() == 5);
    assert("max_tokens"@.len() == 10);
    assert("max_output_tokens"@.len() == 17);
    assert("stop"@.len() == 4);
    assert("stop_sequences"@.len() == 14);
    assert("stream"@.len() == 6);
    assert("tools"@.len() == 5);
    assert("tool_choice"@.len() == 11);
    assert("reasoning_effort"@.len() == 16);
    assert("reasoning"@.len() == 9);
    assert("system"@.len() == 6);
    assert("instructions"@.len() == 12);
    assert("effort"@.len() == 6);
    assert("model"@[0] == 'm' && "input"@[0] == 'i');
    assert("model"@[0] == 'm' && "top_p"@[0] == 't');
    assert("model"@[0] == 'm' && "tools"@[0] == 't');
    assert("input"@[0] == 'i' && "top_p"@[0] == 't');
    assert("input"@[0] == 'i' && "tools"@[0] == 't');
    assert("temperature"@[1] == 'e' && "tool_choice"@[1] == 'o');
    assert("top_p"@[2] == 'p' && "tools"@[2] == 'o');
    assert("stream"@[1] == 't' && "system"@[1] == 'y');
    assert("stream"@[0] == 's' && "effort"@[0] == 'e');
    assert("system"@[0] == 's' && "effort"@[0] == 'e');
}

/// Whether a function is described under the given names.
pub open spec fn is_described_as(v: JsonView, t: ToolView, schema: Seq<char>) -> bool {
    &&& is_word(v.get("name"@), t.name)
    &&& v.get(schema) == Some(t.input_schema)
    &&& match t.description {
        Some(d) => is_word(v.get("description"@), d),
        None => v.get("description"@) is None || v.get("description"@) == Some(JsonView::Null),
    }
}

/// Tools are written one by one, each with its name, description and parameters in the form of the
/// protocol.
pub proof fn tools_are_named(protocol: Protocol, q: RequestView, i: int)
    requires
        q.tools is Some,
        0 <= i < q.tools->Some_0.len(),
    ensures
        ({
            let tools = items_at(write_request(protocol, q), "tools"@);
            let t = q.tools->Some_0[i];
            &&& tools.len() == q.tools->Some_0.len()
            &&& match protocol {
                Protocol::ChatCompletions => is_word(tools[i].get("type"@), "function"@) && tools[i].get(
                    "function"@,
                ) is Some && is_described_as(tools[i].get("function"@)->Some_0, t, "parameters"@),
                Protocol::Responses => is_word(tools[i].get("type"@), "function"@) && is_described_as(
                    tools[i],
                    t,
                    "parameters"@,
                ),
                Protocol::AnthropicMessages => is_described_as(tools[i], t, "input_schema"@),
            }
        }),
{
    reveal_strlit("model");
    reveal_strlit("messages");
    reveal_strlit("input");
    reveal_strlit("temperature");
    reveal_strlit("top_p");
    reveal_strlit("max_tokens");
    reveal_strlit("max_output_tokens");
    reveal_strlit("stop");
    reveal_strlit("stop_sequences");
    reveal_strlit("stream");
    reveal_strlit("tools");
    reveal_strlit("tool_choice");
    reveal_strlit("reasoning_effort");
    reveal_strlit("reasoning");
    reveal_strlit("system");
    reveal_strlit("instructions");
    assert("model"@.len() == 5);
    assert("messages"@.len() == 8);
    assert("input"@.len() == 5);
    assert("temperature"@.len() == 11);
    assert("top_p"@.len() == 5);
    assert("max_tokens"@.len() == 10);
    assert("max_output_tokens"@.len() == 17);
    assert("stop"@.len() == 4);
    assert("stop_sequences"@.len() == 14);
    assert("stream"@.len() == 6);
    assert("tools"@.len() == 5);
    assert("tool_choice"@.len() == 11);
    assert("reasoning_effort"@.len() == 16);
    assert("reasoning"@.len() == 9);
    assert("system"@.len() == 6);
    assert("instructions"@.len() == 12);
    assert("model"@[0] == 'm' && "input"@[0] == 'i');
    assert("model"@[0] == 'm' && "top_p"@[0] == 't');
    assert("model"@[0] == 'm' && "tools"@[0] == 't');
    assert("input"@[0] == 'i' && "top_p"@[0] == 't');
    assert("input"@[0] == 'i' && "tools"@[0] == 't');
    assert("temperature"@[1] == 'e' && "tool_choice"@[1] == 'o');
    assert("top_p"@[2] == 'p' && "tools"@[2] == 'o');
    assert("stream"@[1] == 't' && "system"@[1] == 'y');
    reveal_strlit("type");
    reveal_strlit("function");
    reveal_strlit("name");
    reveal_strlit("description");
    reveal_strlit("parameters");
    reveal_strlit("strict");
    reveal_strlit("input_schema");
    assert("type"@.len() == 4);
    assert("function"@.len() == 8);
    assert("name"@.len() == 4);
    assert("description"@.len() == 11);
    assert("parameters"@.len() == 10);
    assert("strict"@.len() == 6);
    assert("input_schema"@.len() == 12);
    assert("type"@[0] == 't' && "name"@[0] == 'n');
}

/// The entry of a tool call in a Chat Completions message.
pub open spec fn is_call_entry(v: JsonView, id: Seq<char>, name: Seq<char>, input: JsonView) -> bool {
    &&& is_word(v.get("id"@), id)
    &&& is_word(v.get("type"@), "function"@)
    &&& v.get("function"@) is Some
    &&& is_word(v.get("function"@)->Some_0.get("name"@), name)
    &&& is_word(v.get("function"@)->Some_0.get("arguments"@), json_text(input))
}

/// Tool calls have one entry each.
pub proof fn calls_have_entries(s: Seq<BlockView>)
    requires
        forall|i: int| 0 <= i < s.len() ==> #[trigger] s[i] is ToolUse,
    ensures
        ({
            let r = chat_completions::openai_calls(s);
            &&& r.len() == s.len()
            &&& forall|i: int|
                0 <= i < s.len() ==> is_call_entry(
                    #[trigger] r[i],
                    s[i]->ToolUse_id,
                    s[i]->ToolUse_name,
                    s[i]->ToolUse_input,
                )
        }),
    decreases s.len(),
{
    if s.len() > 0 {
        reveal_strlit("id");
        reveal_strlit("type");
        reveal_strlit("function");
        reveal_strlit("name");
        reveal_strlit("arguments");
        assert("id"@.len() == 2);
        assert("type"@.len() == 4);
        assert("function"@.len() == 8);
        assert("name"@.len() == 4);
        assert("arguments"@.len() == 9);
        assert("type"@[0] == 't' && "name"@[0] == 'n');
        let t = s.drop_last();
        assert forall|i: int| 0 <= i < t.len() implies #[trigger] t[i] is ToolUse by {
            assert(s[i] is ToolUse);
        }
        calls_have_entries(t);
        assert(s[s.len() - 1] is ToolUse);
        let u = chat_completions::openai_calls(t);
        let r = chat_completions::openai_calls(s);
        assert forall|i: int| 0 <= i < s.len() implies is_call_entry(
            #[trigger] r[i],
            s[i]->ToolUse_id,
            s[i]->ToolUse_name,
            s[i]->ToolUse_input,
        ) by {
            if i < t.len() {
                assert(r[i] == u[i]);
                assert(t[i] == s[i]);
            }
        }
    }
}

/// How Chat Completions writes a text that stands before tool calls.
pub proof fn text_before_calls(t: Seq<char>, s: Seq<BlockView>)
    requires
        forall|i: int| 0 <= i < s.len() ==> #[trigger] s[i] is ToolUse,
    ensures
        chat_completions::openai_calls(seq![BlockView::Text { text: t }] + s)
            == chat_completions::openai_calls(s),
        chat_completions::openai_content(seq![BlockView::Text { text: t }] + s) == seq![text_item(t)],
        chat_completions::openai_content(s) == Seq::<JsonView>::empty(),
        chat_completions::visible_texts(seq![BlockView::Text { text: t }] + s) == seq![t],
        chat_completions::visible_texts(s) == Seq::<Seq<char>>::empty(),
    decreases s.len(),
{
    let one = seq![BlockView::Text { text: t }];
    if s.len() == 0 {
        reveal_with_fuel(chat_completions::openai_calls, 2);
        reveal_with_fuel(chat_completions::openai_content, 2);
        reveal_with_fuel(chat_completions::visible_texts, 2);
        assert(one + s =~= one);
        assert(one.drop_last() =~= Seq::<BlockView>::empty());
        assert(chat_completions::openai_content(one) =~= seq![text_item(t)]);
        assert(chat_completions::visible_texts(one) =~= seq![t]);
    } else {
        let u = s.drop_last();
        assert forall|i: int| 0 <= i < u.len() implies #[trigger] u[i] is ToolUse by {
            assert(s[i] is ToolUse);
        }
        text_before_calls(t, u);
        assert(s[s.len() - 1] is ToolUse);
        assert((one + s).drop_last() =~= one + u);
    }
}

/// An assistant that says a text and calls tools goes out in a Chat Completions request as one
/// message with that text and with one entry for each call, in their order.
pub proof fn chat_assistants_are_written(t: Seq<char>, s: Seq<BlockView>)
    requires
        forall|i: int| 0 <= i < s.len() ==> #[trigger] s[i] is ToolUse,
        s.len() > 0,
    ensures
        ({
            let m = MessageView {
                role: CanonicalRole::Assistant,
                content: seq![BlockView::Text { text: t }] + s,
            };
            let v = chat_completions::openai_message(m);
            &&& v is Some && is_word(v->Some_0.get("role"@), "assistant"@)
            &&& is_word(v->Some_0.get("content"@), t)
            &&& items_at(v->Some_0, "tool_calls"@).len() == s.len()
            &&& forall|i: int|
                0 <= i < s.len() ==> is_call_entry(
                    #[trigger] items_at(v->Some_0, "tool_calls"@)[i],
                    s[i]->ToolUse_id,
                    s[i]->ToolUse_name,
                    s[i]->ToolUse_input,
                )
        }),
        ({
            let v = chat_completions::openai_message(
                MessageView { role: CanonicalRole::Assistant, content: s },
            );
            &&& v is Some && is_word(v->Some_0.get("role"@), "assistant"@)
            &&& v->Some_0.get("content"@) is None
            &&& items_at(v->Some_0, "tool_calls"@) == chat_completions::openai_calls(s)
        }),
{
    reveal_strlit("role");
    reveal_strlit("content");
    reveal_strlit("tool_calls");
    reveal_strlit("type");
    reveal_strlit("text");
    assert("role"@.len() == 4);
    assert("content"@.len() == 7);
    assert("tool_calls"@.len() == 10);
    assert("type"@.len() == 4);
    assert("text"@.len() == 4);
    assert("role"@[0] == 'r' && "type"@[0] == 't');
    assert("role"@[0] == 'r' && "text"@[0] == 't');
    assert("type"@[1] == 'y' && "text"@[1] == 'e');
    calls_have_entries(s);
    text_before_calls(t, s);
    let c = seq![BlockView::Text { text: t }] + s;
    assert(!chat_completions::has_results(c)) by {
        assert forall|i: int| 0 <= i < c.len() implies !(#[trigger] c[i] is ToolResult) by {
            if i > 0 {
                assert(s[i - 1] is ToolUse);
            }
        }
    }
    assert(!chat_completions::has_results(s)) by {
        assert forall|i: int| 0 <= i < s.len() implies !(#[trigger] s[i] is ToolResult) by {
            assert(s[i] is ToolUse);
        }
    }
}

/// Messages of a Chat Completions request go out one behind the other; the instructions of the
/// system come first, as one message.
pub proof fn chat_messages_are_written(q: RequestView, m: MessageView, t: Seq<char>, id: Seq<char>)
    ensures
        ({
            let before = items_at(write_request(Protocol::ChatCompletions, q), "messages"@);
            let after = items_at(
                write_request(
                    Protocol::ChatCompletions,
                    RequestView { messages: q.messages.push(m), ..q },
                ),
                "messages"@,
            );
            &&& m.role == CanonicalRole::User && m.content == seq![BlockView::Text { text: t }] ==> {
                &&& after.len() == before.len() + 1
                &&& after.drop_last() == before
                &&& is_word(after.last().get("role"@), "user"@)
                &&& is_word(after.last().get("content"@), t)
            }
            &&& m.role == CanonicalRole::Assistant && m.content == seq![BlockView::Text { text: t }] ==> {
                &&& after.len() == before.len() + 1
                &&& after.drop_last() == before
                &&& is_word(after.last().get("role"@), "assistant"@)
                &&& is_word(after.last().get("content"@), t)
                &&& after.last().get("tool_calls"@) is None
            }
            &&& m.role == CanonicalRole::User && m.content == seq![
                BlockView::ToolResult {
                    tool_use_id: id,
                    content: seq![BlockView::Text { text: t }],
                },
            ] ==> {
                &&& after.len() == before.len() + 1
                &&& after.drop_last() == before
                &&& is_word(after.last().get("role"@), "tool"@)
                &&& is_word(after.last().get("tool_call_id"@), id)
                &&& is_word(after.last().get("content"@), t)
            }
        }),
        q.system == Some(seq![BlockView::Text { text: t }]) ==> ({
            let s = items_at(write_request(Protocol::ChatCompletions, q), "messages"@);
            let bare = items_at(
                write_request(Protocol::ChatCompletions, RequestView { system: None, ..q }),
                "messages"@,
            );
            &&& s.len() == bare.len() + 1
            &&& is_word(s[0].get("role"@), "system"@)
            &&& is_word(s[0].get("content"@), t)
            &&& s.skip(1) == bare
        }),
{
    reveal_strlit("model");
    reveal_strlit("messages");
    reveal_strlit("temperature");
    reveal_strlit("top_p");
    reveal_strlit("max_tokens");
    reveal_strlit("stop");
    reveal_strlit("stream");
    reveal_strlit("tools");
    reveal_strlit("tool_choice");
    reveal_strlit("reasoning_effort");
    assert("model"@.len() == 5);
    assert("messages"@.len() == 8);
    assert("temperature"@.len() == 11);
    assert("top_p"@.len() == 5);
    assert("max_tokens"@.len() == 10);
    assert("stop"@.len() == 4);
    assert("stream"@.len() == 6);
    assert("tools"@.len() == 5);
    assert("tool_choice"@.len() == 11);
    assert("reasoning_effort"@.len() == 16);
    assert("model"@[0] == 'm' && "top_p"@[0] == 't');
    assert("model"@[0] == 'm' && "tools"@[0] == 't');
    assert("temperature"@[1] == 'e' && "tool_choice"@[1] == 'o');
    assert("top_p"@[2] == 'p' && "tools"@[2] == 'o');
    reveal_strlit("role");
    reveal_strlit("content");
    reveal_strlit("tool_calls");
    reveal_strlit("tool_call_id");
    reveal_strlit("type");
    reveal_strlit("text");
    assert("role"@.len() == 4);
    assert("content"@.len() == 7);
    assert("tool_calls"@.len() == 10);
    assert("tool_call_id"@.len() == 12);
    assert("type"@.len() == 4);
    assert("text"@.len() == 4);
    assert("role"@[0] == 'r' && "type"@[0] == 't');
    assert("role"@[0] == 'r' && "text"@[0] == 't');
    assert("type"@[1] == 'y' && "text"@[1] == 'e');
    let r = RequestView { messages: q.messages.push(m), ..q };
    assert(q.messages.push(m).drop_last() =~= q.messages);
    let head = chat_completions::openai_system(q.system);
    let d = chat_completions::openai_dialogue(q.messages);
    assert(items_at(write_request(Protocol::ChatCompletions, q), "messages"@) == head + d);
    let e = chat_completions::openai_dialogue(q.messages.push(m));
    assert(items_at(write_request(Protocol::ChatCompletions, r), "messages"@) == head + e);
    let c = seq![BlockView::Text { text: t }];
    let none = Seq::<BlockView>::empty();
    text_before_calls(t, none);
    assert(c + none =~= c);
    reveal_with_fuel(chat_completions::openai_calls, 2);
    if m.content == c {
        assert(!chat_completions::has_results(m.content));
        assert(chat_completions::openai_blocks(c) =~= seq![text_item(t)]);
    } else if m.role == CanonicalRole::User && m.content == seq![
        BlockView::ToolResult { tool_use_id: id, content: c },
    ] {
        assert(m.content[0] is ToolResult);
        assert(chat_completions::has_results(m.content));
    }
    if m.role != CanonicalRole::System && (m.content == c || (m.role == CanonicalRole::User && m.content
        == seq![BlockView::ToolResult { tool_use_id: id, content: c }])) {
        let v = chat_completions::openai_message(m)->Some_0;
        assert(e == d.push(v));
        assert((head + d.push(v)).drop_last() =~= head + d);
        assert((head + d.push(v)).last() == v);
    }
    if q.system == Some(c) {
        let b = RequestView { system: None, ..q };
        reveal_with_fuel(chat_completions::plain_texts, 2);
        assert(c.drop_last() =~= none);
        assert(chat_completions::plain_texts(c) =~= seq![t]);
        assert(chat_completions::openai_system(None) =~= Seq::<JsonView>::empty());
        assert(Seq::<JsonView>::empty() + d =~= d);
        assert(items_at(write_request(Protocol::ChatCompletions, b), "messages"@) == d);
        assert((head + d).skip(1) =~= d);
    }
}

/// Messages of a Responses request go out one behind the other: a text as a message of who says it,
/// a tool call as a function call, a tool result as the output of its call.
pub proof fn responses_messages_are_written(
    q: RequestView,
    m: MessageView,
    t: Seq<char>,
    id: Seq<char>,
    name: Seq<char>,
    input: JsonView,
)
    ensures
        ({
            let before = items_at(write_request(Protocol::Responses, q), "input"@);
            let after = items_at(
                write_request(Protocol::Responses, RequestView { messages: q.messages.push(m), ..q }),
                "input"@,
            );
            &&& m.role != CanonicalRole::System && m.content == seq![BlockView::Text { text: t }] ==> {
                &&& after.len() == before.len() + 1
                &&& after.drop_last() == before
                &&& is_word(after.last().get("type"@), "message"@)
                &&& is_word(
                    after.last().get("role"@),
                    if m.role == CanonicalRole::User {
                        "user"@
                    } else {
                        "assistant"@
                    },
                )
                &&& is_word(after.last().get("content"@), t)
            }
            &&& m.role == CanonicalRole::Assistant && m.content == seq![
                BlockView::ToolUse { id, name, input },
            ] ==> {
                &&& after.len() == before.len() + 1
                &&& after.drop_last() == before
                &&& is_word(after.last().get("type"@), "function_call"@)
                &&& is_word(after.last().get("call_id"@), id)
                &&& is_word(after.last().get("name"@), name)
                &&& is_word(after.last().get("arguments"@), json_text(input))
            }
            &&& m.role == CanonicalRole::User && m.content == seq![
                BlockView::ToolResult {
                    tool_use_id: id,
                    content: seq![BlockView::Text { text: t }],
                },
            ] ==> {
                &&& after.len() == before.len() + 1
                &&& after.drop_last() == before
                &&& is_word(after.last().get("type"@), "function_call_output"@)
                &&& is_word(after.last().get("call_id"@), id)
                &&& crate::text::trimmed(t) != "[Tool result missing due to internal error]"@ ==> is_word(
                    after.last().get("output"@),
                    t,
                )
            }
        }),
        q.system == Some(seq![BlockView::Text { text: t }]) ==> is_word(
            write_request(Protocol::Responses, q).get("instructions"@),
            t,
        ),
{
    reveal_strlit("model");
    reveal_strlit("input");
    reveal_strlit("instructions");
    reveal_strlit("temperature");
    reveal_strlit("top_p");
    reveal_strlit("max_output_tokens");
    reveal_strlit("stop_sequences");
    reveal_strlit("stream");
    reveal_strlit("tools");
    reveal_strlit("tool_choice");
    reveal_strlit("reasoning");
    assert("model"@.len() == 5);
    assert("input"@.len() == 5);
    assert("instructions"@.len() == 12);
    assert("temperature"@.len() == 11);
    assert("top_p"@.len() == 5);
    assert("max_output_tokens"@.len() == 17);
    assert("stop_sequences"@.len() == 14);
    assert("stream"@.len() == 6);
    assert("tools"@.len() == 5);
    assert("tool_choice"@.len() == 11);
    assert("reasoning"@.len() == 9);
    assert("model"@[0] == 'm' && "input"@[0] == 'i');
    assert("model"@[0] == 'm' && "top_p"@[0] == 't');
    assert("model"@[0] == 'm' && "tools"@[0] == 't');
    assert("input"@[0] == 'i' && "top_p"@[0] == 't');
    assert("input"@[0] == 'i' && "tools"@[0] == 't');
    assert("temperature"@[1] == 'e' && "tool_choice"@[1] == 'o');
    assert("top_p"@[2] == 'p' && "tools"@[2] == 'o');
    reveal_strlit("type");
    reveal_strlit("role");
    reveal_strlit("content");
    reveal_strlit("call_id");
    reveal_strlit("name");
    reveal_strlit("arguments");
    reveal_strlit("output");
    assert("type"@.len() == 4);
    assert("role"@.len() == 4);
    assert("content"@.len() == 7);
    assert("call_id"@.len() == 7);
    assert("name"@.len() == 4);
    assert("arguments"@.len() == 9);
    assert("output"@.len() == 6);
    assert("type"@[0] == 't' && "role"@[0] == 'r');
    assert("type"@[0] == 't' && "name"@[0] == 'n');
    assert("role"@[0] == 'r' && "name"@[0] == 'n');
    assert("content"@[1] == 'o' && "call_id"@[1] == 'a');
    let r = RequestView { messages: q.messages.push(m), ..q };
    assert(q.messages.push(m).drop_last() =~= q.messages);
    let d = responses::dialogue_items(q.messages);
    let e = responses::dialogue_items(q.messages.push(m));
    assert(e == d + responses::message_items(m));
    assert(q.messages.len() == 0 ==> d =~= Seq::<JsonView>::empty());
    assert(items_at(write_request(Protocol::Responses, q), "input"@) =~= d);
    assert(items_at(write_request(Protocol::Responses, r), "input"@) =~= e);
    let c = seq![BlockView::Text { text: t }];
    reveal_with_fuel(chat_completions::plain_texts, 2);
    reveal_with_fuel(responses::calls_items, 2);
    reveal_with_fuel(responses::results_items, 2);
    assert(c.drop_last() =~= Seq::<BlockView>::empty());
    assert(chat_completions::plain_texts(c) =~= seq![t]);
    let items = responses::message_items(m);
    if m.role != CanonicalRole::System && m.content == c {
        assert(!responses::has_calls(c) && !chat_completions::has_results(c));
        assert(items.len() == 1);
    } else if m.role == CanonicalRole::Assistant && m.content == seq![
        BlockView::ToolUse { id, name, input },
    ] {
        assert(m.content[0] is ToolUse);
        assert(responses::has_calls(m.content));
        assert(m.content.drop_last() =~= Seq::<BlockView>::empty());
        assert(items =~= responses::call_items(m.content[0]));
    } else if m.role == CanonicalRole::User && m.content == seq![
        BlockView::ToolResult { tool_use_id: id, content: c },
    ] {
        assert(m.content[0] is ToolResult);
        assert(chat_completions::has_results(m.content));
        assert(!responses::has_calls(m.content));
        assert(m.content.drop_last() =~= Seq::<BlockView>::empty());
        assert(items =~= responses::result_items(m.content[0]));
    }
    if items.len() == 1 {
        assert((d + items).drop_last() =~= d);
        assert((d + items).last() == items[0]);
    }
}

/// Messages of an Anthropic request go out one by one, from whom they are.
pub proof fn anthropic_messages_are_written(q: RequestView, i: int, t: Seq<char>)
    requires
        0 <= i < q.messages.len(),
    ensures
        ({
            let s = items_at(write_request(Protocol::AnthropicMessages, q), "messages"@);
            &&& s.len() == q.messages.len()
            &&& is_word(
                s[i].get("role"@),
                if q.messages[i].role == CanonicalRole::Assistant {
                    "assistant"@
                } else {
                    "user"@
                },
            )
            &&& q.messages[i].content == seq![BlockView::Text { text: t }] ==> is_word(
                s[i].get("content"@),
                t,
            )
            &&& q.messages[i].content.len() > 1 ==> is_list(
                s[i].get("content"@),
                q.messages[i].content.map_values(|b: BlockView| anthropic::anthropic_block(b)),
            )
        }),
        q.system == Some(seq![BlockView::Text { text: t }]) ==> is_word(
            write_request(Protocol::AnthropicMessages, q).get("system"@),
            t,
        ),
{
    reveal_strlit("model");
    reveal_strlit("messages");
    reveal_strlit("system");
    reveal_strlit("temperature");
    reveal_strlit("top_p");
    reveal_strlit("max_tokens");
    reveal_strlit("stop_sequences");
    reveal_strlit("stream");
    reveal_strlit("tools");
    reveal_strlit("tool_choice");
    assert("model"@.len() == 5);
    assert("messages"@.len() == 8);
    assert("system"@.len() == 6);
    assert("temperature"@.len() == 11);
    assert("top_p"@.len() == 5);
    assert("max_tokens"@.len() == 10);
    assert("stop_sequences"@.len() == 14);
    assert("stream"@.len() == 6);
    assert("tools"@.len() == 5);
    assert("tool_choice"@.len() == 11);
    assert("model"@[0] == 'm' && "top_p"@[0] == 't');
    assert("model"@[0] == 'm' && "tools"@[0] == 't');
    assert("system"@[1] == 'y' && "stream"@[1] == 't');
    assert("temperature"@[1] == 'e' && "tool_choice"@[1] == 'o');
    assert("top_p"@[2] == 'p' && "tools"@[2] == 'o');
    reveal_strlit("role");
    reveal_strlit("content");
    reveal_strlit("type");
    reveal_strlit("text");
    assert("role"@.len() == 4);
    assert("content"@.len() == 7);
    assert("type"@.len() == 4);
    assert("text"@.len() == 4);
    assert("role"@[0] == 'r' && "type"@[0] == 't');
    assert("role"@[0] == 'r' && "text"@[0] == 't');
    assert("type"@[1] == 'y' && "text"@[1] == 'e');
    let c = seq![BlockView::Text { text: t }];
    reveal_with_fuel(chat_completions::plain_texts, 2);
    assert(c.drop_last() =~= Seq::<BlockView>::empty());
    assert(chat_completions::plain_texts(c) =~= seq![t]);
    assert(anthropic::anthropic_blocks(c) =~= seq![text_item(t)]);
    let b = q.messages[i].content;
    assert(anthropic::anthropic_blocks(b) =~= b.map_values(|x: BlockView| anthropic::anthropic_block(x)));
}

} // verus!
