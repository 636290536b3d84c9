//! What is said with more than one block: how messages of several blocks are written in each
//! protocol, and what is read where something is missing.
use crate::codec::{json_parse, json_text};
use crate::json::JsonView;
use crate::laws::requests::{is_list, is_word};
use crate::laws::{has_no_text, says, says_nothing};
use crate::text::trimmed;
use crate::transform::canonical::{
    BlockView, CanonicalRole, ConvertError, ImageView, MessageView, RequestView,
};
use crate::transform::chat_completions;
use crate::transform::chat_completions::{items_at, openai_block};
use crate::transform::responses;
use crate::transform::responses::{content_parts, message_items, output_items};
use crate::transform::{read_request, read_response, write_request, Protocol};
use vstd::prelude::*;
use vstd::string::*;

verus! {

/// Each block has its item in Chat Completions: texts as they are, reasoning in marks, images by
/// their URL.
pub proof fn chat_blocks_are_written(b: BlockView)
    ensures
        ({
            let v = openai_block(b);
            match b {
                BlockView::Text { text } => is_word(v.get("type"@), "text"@) && is_word(v.get("text"@), text),
                BlockView::Reasoning { text } => is_word(v.get("type"@), "text"@) && is_word(
                    v.get("text"@),
                    "<think>\n"@ + text + "\n</think>"@,
                ),
                BlockView::Image { source: ImageView::Url { url } } => is_word(v.get("type"@), "image_url"@)
                    && is_word(v.at("image_url"@).get("url"@), url),
                BlockView::Image { source: ImageView::Base64 { media_type, data } } => is_word(
                    v.get("type"@),
                    "image_url"@,
                ) && is_word(v.at("image_url"@).get("url"@), "data:"@ + media_type + ";base64,"@ + data),
                _ => true,
            }
        }),
{
    reveal_strlit("type");
    reveal_strlit("text");
    reveal_strlit("image_url");
    reveal_strlit("url");
    assert("type"@.len() == 4);
    assert("text"@.len() == 4);
    assert("image_url"@.len() == 9);
    assert("url"@.len() == 3);
    assert("type"@[1] == 'y' && "text"@[1] == 'e');
}

/// The messages of a Chat Completions request after one more was put behind the others.
pub open spec fn chat_after(q: RequestView, m: MessageView) -> Seq<JsonView> {
    items_at(
        write_request(Protocol::ChatCompletions, RequestView { messages: q.messages.push(m), ..q }),
        "messages"@,
    )
}

proof fn chat_messages_are(q: RequestView)
    ensures
        items_at(write_request(Protocol::ChatCompletions, q), "messages"@) == chat_completions::openai_system(q.system)
            + chat_completions::openai_dialogue(q.messages),
{
    reveal_strlit("model");
    reveal_strlit("messages");
    reveal_strlit("temperature");
    reveal_strlit("top_p");
    reveal_strlit("max_tokens");
    reveal_strlit("stop");
    reveal_strlit("stream");
    reveal_strlit("tools");
    reveal_strlit("tool_choice");
    reveal_strlit("reasoning_effort");
    assert("model"@.len() == 5);
    assert("messages"@.len() == 8);
    assert("temperature"@.len() == 11);
    assert("top_p"@.len() == 5);
    assert("max_tokens"@.len() == 10);
    assert("stop"@.len() == 4);
    assert("stream"@.len() == 6);
    assert("tools"@.len() == 5);
    assert("tool_choice"@.len() == 11);
    assert("reasoning_effort"@.len() == 16);
    assert("model"@[0] == 'm' && "top_p"@[0] == 't');
    assert("model"@[0] == 'm' && "tools"@[0] == 't');
    assert("temperature"@[1] == 'e' && "tool_choice"@[1] == 'o');
    assert("top_p"@[2] == 'p' && "tools"@[2] == 'o');
}

/// Several blocks of a user are one message with one item for each, in their order; several
/// results are one message each.
pub proof fn chat_says_all_blocks(q: RequestView, m: MessageView, i: int)
    requires
        m.role == CanonicalRole::User,
        m.content.len() > 1,
        0 <= i < m.content.len(),
    ensures
        ({
            let before = items_at(write_request(Protocol::ChatCompletions, q), "messages"@);
            let after = chat_after(q, m);
            let n = before.len() as int;
            &&& after.take(n) == before
            &&& (forall|j: int| 0 <= j < m.content.len() ==> !(#[trigger] m.content[j] is ToolResult)) ==> {
                &&& after.len() == n + 1
                &&& is_word(after[n].get("role"@), "user"@)
                &&& items_at(after[n], "content"@).len() == m.content.len()
                &&& items_at(after[n], "content"@)[i] == openai_block(m.content[i])
            }
            &&& (forall|j: int| 0 <= j < m.content.len() ==> #[trigger] m.content[j] is ToolResult) ==> {
                &&& after.len() == n + m.content.len()
                &&& is_word(after[n + i].get("role"@), "tool"@)
                &&& is_word(after[n + i].get("tool_call_id"@), m.content[i]->tool_use_id)
                &&& m.content[i]->content.len() > 1 ==> is_list(
                    after[n + i].get("content"@),
                    m.content[i]->content.map_values(|b: BlockView| openai_block(b)),
                )
            }
        }),
{
    reveal_strlit("role");
    reveal_strlit("content");
    reveal_strlit("tool_call_id");
    assert("role"@.len() == 4);
    assert("content"@.len() == 7);
    assert("tool_call_id"@.len() == 12);
    let r = RequestView { messages: q.messages.push(m), ..q };
    chat_messages_are(q);
    chat_messages_are(r);
    assert(q.messages.push(m).drop_last() =~= q.messages);
    let before = items_at(write_request(Protocol::ChatCompletions, q), "messages"@);
    let after = chat_after(q, m);
    let n = before.len() as int;
    let c = m.content;
    if forall|j: int| 0 <= j < c.len() ==> !(#[trigger] c[j] is ToolResult) {
        assert(!chat_completions::has_results(c));
        assert(after =~= before.push(chat_completions::user_message(c)));
        assert(after.take(n) =~= before);
    } else {
        let k = choose|j: int| 0 <= j < c.len() && #[trigger] c[j] is ToolResult;
        assert(c[k] is ToolResult);
        assert(chat_completions::has_results(c));
        let s = chat_completions::result_messages(c);
        assert(after =~= before + s);
        assert(after.take(n) =~= before);
        assert(after[n + i] == s[i]);
        if c[i] is ToolResult {
            let inner = c[i]->content;
            assert(chat_completions::openai_blocks(inner) =~= inner.map_values(|b: BlockView| openai_block(b)));
        }
    }
}

proof fn chat_content_adds_up(s: Seq<BlockView>)
    requires
        forall|j: int| 0 <= j < s.len() ==> !(#[trigger] s[j] is ToolUse),
    ensures
        chat_completions::openai_content(s) == s.map_values(|b: BlockView| openai_block(b)),
        chat_completions::openai_calls(s).len() == 0,
    decreases s.len(),
{
    if s.len() > 0 {
        let t = s.drop_last();
        assert forall|j: int| 0 <= j < t.len() implies !(#[trigger] t[j] is ToolUse) by {
            assert(!(s[j] is ToolUse));
        }
        chat_content_adds_up(t);
        assert(!(s[s.len() - 1] is ToolUse));
        assert(chat_completions::openai_content(s) =~= s.map_values(|b: BlockView| openai_block(b)));
    } else {
        assert(chat_completions::openai_content(s) =~= s.map_values(|b: BlockView| openai_block(b)));
    }
}

/// Several blocks of an assistant without tool calls are one message with one item for each.
pub proof fn chat_assistants_say_all_blocks(q: RequestView, m: MessageView)
    requires
        m.role == CanonicalRole::Assistant,
        m.content.len() > 1,
        forall|j: int|
            0 <= j < m.content.len() ==> !(#[trigger] m.content[j] is ToolResult) && !(m.content[j] is ToolUse),
    ensures
        ({
            let before = items_at(write_request(Protocol::ChatCompletions, q), "messages"@);
            let after = chat_after(q, m);
            &&& after.len() == before.len() + 1
            &&& after.drop_last() == before
            &&& is_word(after.last().get("role"@), "assistant"@)
            &&& after.last().get("tool_calls"@) is None
            &&& is_list(after.last().get("content"@), m.content.map_values(|b: BlockView| openai_block(b)))
        }),
{
    reveal_strlit("role");
    reveal_strlit("content");
    reveal_strlit("tool_calls");
    assert("role"@.len() == 4);
    assert("content"@.len() == 7);
    assert("tool_calls"@.len() == 10);
    let r = RequestView { messages: q.messages.push(m), ..q };
    chat_messages_are(q);
    chat_messages_are(r);
    assert(q.messages.push(m).drop_last() =~= q.messages);
    let before = items_at(write_request(Protocol::ChatCompletions, q), "messages"@);
    let after = chat_after(q, m);
    chat_content_adds_up(m.content);
    assert(!chat_completions::has_results(m.content));
    assert(after =~= before.push(chat_completions::assistant_message(m.content)));
    assert(after.drop_last() =~= before);
}

/// The instructions of a request as each protocol says them.
pub open spec fn said_instructions(protocol: Protocol, q: RequestView) -> Option<JsonView> {
    match protocol {
        Protocol::ChatCompletions => {
            let s = items_at(write_request(protocol, RequestView { messages: Seq::empty(), ..q }), "messages"@);
            if s.len() > 0 {
                s[0].get("content"@)
            } else {
                None
            }
        },
        Protocol::Responses => write_request(protocol, q).get("instructions"@),
        Protocol::AnthropicMessages => write_request(protocol, q).get("system"@),
    }
}

/// Instructions of several texts are said as one, each text behind those before it with a blank
/// line between, in every protocol.
pub proof fn instructions_grow(protocol: Protocol, q: RequestView, s: Seq<BlockView>, x: Seq<char>, t: Seq<char>)
    requires
        exists|i: int| 0 <= i < s.len() && #[trigger] s[i] is Text,
        said_instructions(protocol, RequestView { system: Some(s), ..q }) == Some(JsonView::Str(x)),
    ensures
        said_instructions(
            protocol,
            RequestView { system: Some(s.push(BlockView::Text { text: t })), ..q },
        ) == Some(JsonView::Str(x + "\n\n"@ + t)),
{
    reveal_strlit("role");
    reveal_strlit("content");
    assert("role"@.len() == 4);
    assert("content"@.len() == 7);
    let more = s.push(BlockView::Text { text: t });
    assert(more.drop_last() =~= s);
    texts_are_there(s);
    let a = chat_completions::plain_texts(s);
    let b = chat_completions::plain_texts(more);
    assert(b.drop_last() =~= a);
    let q1 = RequestView { system: Some(s), ..q };
    let q2 = RequestView { system: Some(more), ..q };
    match protocol {
        Protocol::ChatCompletions => {
            chat_messages_are(RequestView { messages: Seq::empty(), ..q1 });
            chat_messages_are(RequestView { messages: Seq::empty(), ..q2 });
        },
        Protocol::Responses => {
            reveal_strlit("model");
            reveal_strlit("input");
            reveal_strlit("instructions");
            reveal_strlit("max_output_tokens");
            reveal_strlit("temperature");
            reveal_strlit("top_p");
            reveal_strlit("stop_sequences");
            reveal_strlit("stream");
            reveal_strlit("tools");
            reveal_strlit("tool_choice");
            reveal_strlit("reasoning");
            assert("model"@.len() == 5);
            assert("input"@.len() == 5);
            assert("instructions"@.len() == 12);
            assert("max_output_tokens"@.len() == 17);
            assert("temperature"@.len() == 11);
            assert("top_p"@.len() == 5);
            assert("stop_sequences"@.len() == 14);
            assert("stream"@.len() == 6);
            assert("tools"@.len() == 5);
            assert("tool_choice"@.len() == 11);
            assert("reasoning"@.len() == 9);
            assert("model"@[0] == 'm' && "input"@[0] == 'i');
            assert("model"@[0] == 'm' && "top_p"@[0] == 't');
            assert("model"@[0] == 'm' && "tools"@[0] == 't');
            assert("input"@[0] == 'i' && "top_p"@[0] == 't');
            assert("input"@[0] == 'i' && "tools"@[0] == 't');
            assert("temperature"@[1] == 'e' && "tool_choice"@[1] == 'o');
            assert("top_p"@[2] == 'p' && "tools"@[2] == 'o');
        },
        Protocol::AnthropicMessages => {
            reveal_strlit("messages");
            reveal_strlit("system");
            reveal_strlit("max_tokens");
            reveal_strlit("model");
            reveal_strlit("temperature");
            reveal_strlit("top_p");
            reveal_strlit("stop_sequences");
            reveal_strlit("stream");
            reveal_strlit("tools");
            reveal_strlit("tool_choice");
            assert("messages"@.len() == 8);
            assert("system"@.len() == 6);
            assert("max_tokens"@.len() == 10);
            assert("model"@.len() == 5);
            assert("temperature"@.len() == 11);
            assert("top_p"@.len() == 5);
            assert("stop_sequences"@.len() == 14);
            assert("stream"@.len() == 6);
            assert("tools"@.len() == 5);
            assert("tool_choice"@.len() == 11);
            assert("system"@[1] == 'y' && "stream"@[1] == 't');
            assert("model"@[0] == 'm' && "top_p"@[0] == 't');
            assert("model"@[0] == 'm' && "tools"@[0] == 't');
            assert("temperature"@[1] == 'e' && "tool_choice"@[1] == 'o');
            assert("top_p"@[2] == 'p' && "tools"@[2] == 'o');
        },
    }
}

proof fn texts_are_there(s: Seq<BlockView>)
    requires
        exists|i: int| 0 <= i < s.len() && #[trigger] s[i] is Text,
    ensures
        chat_completions::plain_texts(s).len() > 0,
    decreases s.len(),
{
    let i = choose|i: int| 0 <= i < s.len() && #[trigger] s[i] is Text;
    if i < s.len() - 1 {
        let t = s.drop_last();
        assert(t[i] is Text);
        texts_are_there(t);
    }
}

/// Whether an input item of a Responses request is a message.
pub open spec fn is_input_message(v: JsonView, role: Seq<char>, t: Seq<char>) -> bool {
    is_word(v.get("type"@), "message"@) && is_word(v.get("role"@), role) && is_word(v.get("content"@), t)
}

/// The items of a Responses request grow with the blocks of a message that holds tool calls: a
/// call is one item more, and so is a text, as a message of the assistant.
pub proof fn responses_calls_grow(
    m: MessageView,
    id: Seq<char>,
    name: Seq<char>,
    input: JsonView,
    t: Seq<char>,
    k: int,
)
    requires
        m.role == CanonicalRole::Assistant,
        0 <= k < m.content.len(),
        m.content[k] is ToolUse,
    ensures
        ({
            let before = message_items(m);
            let called = message_items(
                MessageView { role: m.role, content: m.content.push(BlockView::ToolUse { id, name, input }) },
            );
            let spoken = message_items(
                MessageView { role: m.role, content: m.content.push(BlockView::Text { text: t }) },
            );
            &&& called.len() == before.len() + 1 && called.drop_last() == before
            &&& is_word(called.last().get("type"@), "function_call"@)
            &&& is_word(called.last().get("call_id"@), id)
            &&& is_word(called.last().get("name"@), name)
            &&& is_word(called.last().get("arguments"@), json_text(input))
            &&& t.len() > 0 ==> spoken.len() == before.len() + 1 && spoken.drop_last() == before && is_input_message(
                spoken.last(),
                "assistant"@,
                t,
            )
            &&& t.len() == 0 ==> spoken == before
        }),
{
    reveal_strlit("type");
    reveal_strlit("call_id");
    reveal_strlit("name");
    reveal_strlit("arguments");
    reveal_strlit("role");
    reveal_strlit("content");
    assert("type"@.len() == 4);
    assert("call_id"@.len() == 7);
    assert("name"@.len() == 4);
    assert("arguments"@.len() == 9);
    assert("role"@.len() == 4);
    assert("content"@.len() == 7);
    assert("type"@[0] == 't' && "name"@[0] == 'n');
    assert("type"@[0] == 't' && "role"@[0] == 'r');
    assert("call_id"@[1] == 'a' && "content"@[1] == 'o');
    assert("name"@[0] == 'n' && "role"@[0] == 'r');
    let c = m.content;
    let call = BlockView::ToolUse { id, name, input };
    let text = BlockView::Text { text: t };
    assert(c.push(call).drop_last() =~= c);
    assert(c.push(text).drop_last() =~= c);
    assert(c.push(call)[k] is ToolUse && c.push(text)[k] is ToolUse);
    let before = message_items(m);
    assert(before == responses::calls_items(c));
    let called = message_items(MessageView { role: m.role, content: c.push(call) });
    let spoken = message_items(MessageView { role: m.role, content: c.push(text) });
    assert(called == before + responses::call_items(call));
    assert(spoken == before + responses::call_items(text));
    assert(called.drop_last() =~= before);
    if t.len() > 0 {
        assert(spoken.drop_last() =~= before);
    } else {
        assert(spoken =~= before);
    }
}

/// The items of a Responses request grow with the blocks of a message that holds results: a
/// result is one item more, and so is a text, as a message of the user.
pub proof fn responses_results_grow(m: MessageView, id: Seq<char>, said: Seq<char>, t: Seq<char>, k: int)
    requires
        m.role == CanonicalRole::User,
        0 <= k < m.content.len(),
        m.content[k] is ToolResult,
        forall|i: int| 0 <= i < m.content.len() ==> !(#[trigger] m.content[i] is ToolUse),
    ensures
        ({
            let before = message_items(m);
            let result = BlockView::ToolResult { tool_use_id: id, content: seq![BlockView::Text { text: said }] };
            let answered = message_items(MessageView { role: m.role, content: m.content.push(result) });
            let spoken = message_items(
                MessageView { role: m.role, content: m.content.push(BlockView::Text { text: t }) },
            );
            &&& answered.len() == before.len() + 1 && answered.drop_last() == before
            &&& is_word(answered.last().get("type"@), "function_call_output"@)
            &&& is_word(answered.last().get("call_id"@), id)
            &&& trimmed(said) != "[Tool result missing due to internal error]"@ ==> is_word(
                answered.last().get("output"@),
                said,
            )
            &&& trimmed(said) == "[Tool result missing due to internal error]"@ ==> is_word(
                answered.last().get("output"@),
                "Error: Tool runtime internal error (result missing). Please retry the same tool call with identical parameters."@,
            )
            &&& t.len() > 0 ==> spoken.len() == before.len() + 1 && spoken.drop_last() == before && is_input_message(
                spoken.last(),
                "user"@,
                t,
            )
            &&& t.len() == 0 ==> spoken == before
        }),
{
    reveal_strlit("type");
    reveal_strlit("call_id");
    reveal_strlit("output");
    reveal_strlit("role");
    reveal_strlit("content");
    assert("type"@.len() == 4);
    assert("call_id"@.len() == 7);
    assert("output"@.len() == 6);
    assert("role"@.len() == 4);
    assert("content"@.len() == 7);
    assert("type"@[0] == 't' && "role"@[0] == 'r');
    assert("call_id"@[1] == 'a' && "content"@[1] == 'o');
    let c = m.content;
    let one = seq![BlockView::Text { text: said }];
    let result = BlockView::ToolResult { tool_use_id: id, content: one };
    let text = BlockView::Text { text: t };
    assert(c.push(result).drop_last() =~= c);
    assert(c.push(text).drop_last() =~= c);
    assert(c.push(result)[k] is ToolResult && c.push(text)[k] is ToolResult);
    assert(!responses::has_calls(c));
    assert(!responses::has_calls(c.push(result)));
    assert(!responses::has_calls(c.push(text)));
    reveal_with_fuel(chat_completions::plain_texts, 3);
    reveal_with_fuel(crate::text::joined, 3);
    assert(one.drop_last() =~= Seq::<BlockView>::empty());
    assert(chat_completions::plain_texts(one) =~= seq![said]);
    assert(crate::text::joined(seq![said], "\n\n"@) =~= said);
    let before = message_items(m);
    let answered = message_items(MessageView { role: m.role, content: c.push(result) });
    let spoken = message_items(MessageView { role: m.role, content: c.push(text) });
    assert(answered == before + responses::result_items(result));
    assert(spoken == before + responses::result_items(text));
    assert(answered.drop_last() =~= before);
    if t.len() > 0 {
        assert(spoken.drop_last() =~= before);
    } else {
        assert(spoken =~= before);
    }
}

/// Several plain blocks are one Responses message with one part for each text and each image that
/// is given by a URL, in their order; a lone image is a file.
pub proof fn responses_parts_are_written(m: MessageView, s: Seq<BlockView>, t: Seq<char>, url: Seq<char>)
    requires
        m.role == CanonicalRole::User || m.role == CanonicalRole::Assistant,
    ensures
        m.content.len() > 1 && (forall|i: int|
            0 <= i < m.content.len() ==> #[trigger] m.content[i] is Text || m.content[i] is Image)
            && content_parts(m.content).len() > 0 ==> ({
            let items = message_items(m);
            &&& items.len() == 1
            &&& is_word(items[0].get("type"@), "message"@)
            &&& is_word(
                items[0].get("role"@),
                if m.role == CanonicalRole::User {
                    "user"@
                } else {
                    "assistant"@
                },
            )
            &&& is_list(items[0].get("content"@), content_parts(m.content))
        }),
        ({
            let before = content_parts(s);
            let spoken = content_parts(s.push(BlockView::Text { text: t }));
            let shown = content_parts(s.push(BlockView::Image { source: ImageView::Url { url } }));
            &&& spoken.len() == before.len() + 1 && spoken.drop_last() == before
            &&& is_word(spoken.last().get("type"@), "input_text"@) && is_word(spoken.last().get("text"@), t)
            &&& shown.len() == before.len() + 1 && shown.drop_last() == before
            &&& is_word(shown.last().get("type"@), "image_url"@) && is_word(
                shown.last().at("image_url"@).get("url"@),
                url,
            )
        }),
        content_parts(Seq::empty()).len() == 0,
        m.content == seq![BlockView::Image { source: ImageView::Url { url } }] && url.len() > 0 ==> ({
            let items = message_items(m);
            items.len() == 1 && is_word(items[0].get("type"@), "file"@) && is_word(items[0].get("file_url"@), url)
        }),
{
    reveal_strlit("type");
    reveal_strlit("role");
    reveal_strlit("content");
    reveal_strlit("text");
    reveal_strlit("image_url");
    reveal_strlit("url");
    reveal_strlit("file_url");
    assert("type"@.len() == 4);
    assert("role"@.len() == 4);
    assert("content"@.len() == 7);
    assert("text"@.len() == 4);
    assert("image_url"@.len() == 9);
    assert("url"@.len() == 3);
    assert("file_url"@.len() == 8);
    assert("type"@[0] == 't' && "role"@[0] == 'r');
    assert("type"@[1] == 'y' && "text"@[1] == 'e');
    assert("role"@[0] == 'r' && "text"@[0] == 't');
    let text = BlockView::Text { text: t };
    let image = BlockView::Image { source: ImageView::Url { url } };
    assert(s.push(text).drop_last() =~= s);
    assert(s.push(image).drop_last() =~= s);
    assert(content_parts(s.push(text)).drop_last() =~= content_parts(s));
    assert(content_parts(s.push(image)).drop_last() =~= content_parts(s));
    if m.content.len() > 1 && (forall|i: int|
        0 <= i < m.content.len() ==> #[trigger] m.content[i] is Text || m.content[i] is Image) {
        assert(!responses::has_calls(m.content));
        assert(!chat_completions::has_results(m.content));
    }
    if m.content == seq![image] {
        assert(m.content[0] is Image);
        assert(!responses::has_calls(m.content));
        assert(!chat_completions::has_results(m.content));
    }
}

/// The output of a Responses answer grows with its content: reasoning is put behind the items
/// before the message, a call behind all items, and a text into the message, which comes into
/// being with the first one.
pub proof fn responses_output_grows(s: Seq<BlockView>, t: Seq<char>, id: Seq<char>, name: Seq<char>, input: JsonView)
    ensures
        ({
            let before = output_items(s);
            let called = output_items(s.push(BlockView::ToolUse { id, name, input }));
            &&& called.len() == before.len() + 1 && called.drop_last() == before
            &&& is_word(called.last().get("type"@), "function_call"@) && is_word(called.last().get("call_id"@), id)
            &&& is_word(called.last().get("name"@), name) && is_word(
                called.last().get("arguments"@),
                json_text(input),
            )
        }),
        ({
            let before = output_items(s);
            let thought = output_items(s.push(BlockView::Reasoning { text: t }));
            let k = responses::single_items(s).len() as int;
            &&& thought.len() == before.len() + 1
            &&& 0 <= k < thought.len()
            &&& thought.remove(k) == before
            &&& is_word(thought[k].get("type"@), "reasoning"@)
            &&& items_at(thought[k], "summary"@).len() == 1
            &&& is_word(items_at(thought[k], "summary"@)[0].get("type"@), "reasoning_text"@)
            &&& is_word(items_at(thought[k], "summary"@)[0].get("text"@), t)
        }),
        ({
            let before = output_items(s);
            let spoken = output_items(s.push(BlockView::Text { text: t }));
            let k = responses::single_items(s).len() as int;
            let old = if responses::text_parts(s).len() > 0 {
                items_at(before[k], "content"@)
            } else {
                Seq::empty()
            };
            &&& 0 <= k < spoken.len()
            &&& spoken.len() == before.len() + (if responses::text_parts(s).len() > 0 {
                0int
            } else {
                1
            })
            &&& is_word(spoken[k].get("type"@), "message"@)
            &&& items_at(spoken[k], "content"@).len() == old.len() + 1
            &&& items_at(spoken[k], "content"@).drop_last() == old
            &&& is_word(items_at(spoken[k], "content"@).last().get("type"@), "output_text"@)
            &&& is_word(items_at(spoken[k], "content"@).last().get("text"@), t)
        }),
        output_items(Seq::empty()).len() == 0,
{
    reveal_strlit("type");
    reveal_strlit("id");
    reveal_strlit("call_id");
    reveal_strlit("name");
    reveal_strlit("arguments");
    reveal_strlit("summary");
    reveal_strlit("text");
    reveal_strlit("content");
    reveal_strlit("role");
    reveal_strlit("status");
    reveal_strlit("annotations");
    assert("type"@.len() == 4);
    assert("id"@.len() == 2);
    assert("call_id"@.len() == 7);
    assert("name"@.len() == 4);
    assert("arguments"@.len() == 9);
    assert("summary"@.len() == 7);
    assert("text"@.len() == 4);
    assert("content"@.len() == 7);
    assert("role"@.len() == 4);
    assert("status"@.len() == 6);
    assert("annotations"@.len() == 11);
    assert("type"@[0] == 't' && "name"@[0] == 'n');
    assert("type"@[1] == 'y' && "text"@[1] == 'e');
    assert("type"@[0] == 't' && "role"@[0] == 'r');
    assert("call_id"@[0] == 'c' && "summary"@[0] == 's');
    assert("call_id"@[1] == 'a' && "content"@[1] == 'o');
    assert("name"@[0] == 'n' && "text"@[0] == 't');
    assert("name"@[0] == 'n' && "role"@[0] == 'r');
    assert("summary"@[0] == 's' && "content"@[0] == 'c');
    assert("text"@[0] == 't' && "role"@[0] == 'r');
    let call = BlockView::ToolUse { id, name, input };
    let thought = BlockView::Reasoning { text: t };
    let text = BlockView::Text { text: t };
    assert(s.push(call).drop_last() =~= s);
    assert(s.push(thought).drop_last() =~= s);
    assert(s.push(text).drop_last() =~= s);
    assert(output_items(s.push(call)).drop_last() =~= output_items(s));
    let k = responses::single_items(s).len() as int;
    assert(output_items(s.push(thought)).remove(k) =~= output_items(s));
    let p = responses::text_parts(s);
    let r = responses::text_parts(s.push(text));
    assert(r.drop_last() =~= p);
    let spoken = output_items(s.push(text));
    assert(items_at(spoken[k], "content"@) == r);
    if p.len() > 0 {
        assert(items_at(output_items(s)[k], "content"@) == p);
    } else {
        assert(p =~= Seq::<JsonView>::empty());
    }
}

/// Images go out to Responses by their URL or with their data, behind what comes before the
/// message of an answer, and as a part of a message of several blocks.
pub proof fn responses_images_are_written(s: Seq<BlockView>, url: Seq<char>, kind: Seq<char>, data: Seq<char>)
    ensures
        ({
            let before = output_items(s);
            let linked = output_items(s.push(BlockView::Image { source: ImageView::Url { url } }));
            let shown = output_items(
                s.push(BlockView::Image { source: ImageView::Base64 { media_type: kind, data } }),
            );
            let k = responses::single_items(s).len() as int;
            &&& linked.len() == before.len() + 1 && linked.remove(k) == before
            &&& shown.len() == before.len() + 1 && shown.remove(k) == before
            &&& is_word(linked[k].get("type"@), "message"@) && is_word(shown[k].get("type"@), "message"@)
            &&& items_at(linked[k], "content"@).len() == 1 && items_at(shown[k], "content"@).len() == 1
            &&& is_word(items_at(linked[k], "content"@)[0].get("type"@), "input_image"@)
            &&& is_word(items_at(linked[k], "content"@)[0].get("image_url"@), url)
            &&& is_word(items_at(shown[k], "content"@)[0].get("image_url"@), data)
        }),
        ({
            let before = content_parts(s);
            let shown = content_parts(
                s.push(BlockView::Image { source: ImageView::Base64 { media_type: kind, data } }),
            );
            &&& shown.len() == before.len() + 1 && shown.drop_last() == before
            &&& is_word(shown.last().get("type"@), "input_image"@)
            &&& is_word(shown.last().get("image_url"@), data)
            &&& is_word(shown.last().get("format"@), "png"@)
        }),
{
    reveal_strlit("type");
    reveal_strlit("content");
    reveal_strlit("image_url");
    reveal_strlit("format");
    assert("type"@.len() == 4);
    assert("content"@.len() == 7);
    assert("image_url"@.len() == 9);
    assert("format"@.len() == 6);
    let linked = BlockView::Image { source: ImageView::Url { url } };
    let shown = BlockView::Image { source: ImageView::Base64 { media_type: kind, data } };
    assert(s.push(linked).drop_last() =~= s);
    assert(s.push(shown).drop_last() =~= s);
    let k = responses::single_items(s).len() as int;
    assert(output_items(s.push(linked)).remove(k) =~= output_items(s));
    assert(output_items(s.push(shown)).remove(k) =~= output_items(s));
    assert(content_parts(s.push(shown)).drop_last() =~= content_parts(s));
}

/// A request without a model cannot be read.
pub proof fn requests_need_a_model(body: JsonView)
    ensures
        has_no_text(body, "model"@) ==> read_request(Protocol::ChatCompletions, body) == Err::<
            RequestView,
            ConvertError,
        >(ConvertError::MissingModel),
        has_no_text(body, "model"@) ==> read_request(Protocol::AnthropicMessages, body) == Err::<
            RequestView,
            ConvertError,
        >(ConvertError::MissingModel),
        says_nothing(body, "model"@) ==> read_request(Protocol::Responses, body) == Err::<RequestView, ConvertError>(
            ConvertError::EmptyModel,
        ),
        read_request(Protocol::ChatCompletions, body) is Err ==> has_no_text(body, "model"@),
        read_request(Protocol::AnthropicMessages, body) is Err ==> has_no_text(body, "model"@),
        read_request(Protocol::Responses, body) is Err ==> says_nothing(body, "model"@),
{
}

/// Tools of a Chat Completions request are not read where one of them is a function that is not
/// described.
pub proof fn undescribed_tools_are_not_read(body: JsonView, a: Seq<JsonView>, i: int)
    requires
        body.get("model"@) is Some && body.get("model"@)->Some_0 is Str,
        is_list(body.get("tools"@), a),
        0 <= i < a.len(),
        is_word(a[i].get("type"@), "function"@),
        a[i].get("function"@) is None,
    ensures
        read_request(Protocol::ChatCompletions, body)->Ok_0.tools is None,
{
    assert(chat_completions::lacks_function(a[i]));
}

/// The input of a Responses request may be a text, which the user says; an empty one is no
/// message.
pub proof fn lone_inputs_are_read(body: JsonView, t: Seq<char>)
    requires
        says(body, "model"@, body.get("model"@)->Some_0->Str_0),
    ensures
        says(body, "input"@, t) ==> read_request(Protocol::Responses, body)->Ok_0.messages == seq![
            MessageView { role: CanonicalRole::User, content: seq![BlockView::Text { text: t }] },
        ],
        says_nothing(body, "input"@) && !(body.at("input"@) is Array) ==> read_request(
            Protocol::Responses,
            body,
        )->Ok_0.messages.len() == 0,
{
}

/// A function call of a Responses answer without an identifier is no call, and arguments that are
/// no JSON are kept as they are.
pub proof fn odd_calls_are_read(item: JsonView, id: Seq<char>, t: Seq<char>)
    requires
        is_word(item.get("type"@), "function_call"@),
    ensures
        says_nothing(item, "call_id"@) && says_nothing(item, "id"@) ==> responses::output_content(item).len() == 0,
        says(item, "call_id"@, id) && is_word(item.get("arguments"@), t) && json_parse(t) is None ==> ({
            let c = responses::output_content(item);
            c.len() == 1 && c[0] is ToolUse && c[0]->ToolUse_id == id && is_word(c[0]->input.get("raw"@), t)
        }),
{
    reveal_strlit("message");
    reveal_strlit("function_call");
    reveal_strlit("reasoning");
    assert("message"@.len() == 7);
    assert("function_call"@.len() == 13);
    assert("reasoning"@.len() == 9);
}

/// Reasoning in a Chat Completions answer may stand under three names, the first that says
/// something counting; an answer without a choice says nothing.
pub proof fn chat_reasoning_is_read(message: JsonView, body: JsonView, t: Seq<char>)
    ensures
        says(message, "reasoning_content"@, t) ==> chat_completions::reasoning_of(message) == Some(t),
        says_nothing(message, "reasoning_content"@) && says(message, "reasoning"@, t)
            ==> chat_completions::reasoning_of(message) == Some(t),
        says_nothing(message, "reasoning_content"@) && says_nothing(message, "reasoning"@) && says(
            message,
            "thinking"@,
            t,
        ) ==> chat_completions::reasoning_of(message) == Some(t),
        items_at(body, "choices"@).len() == 0 ==> ({
            let p = read_response(Protocol::ChatCompletions, body);
            p.content.len() == 0 && p.stop_reason is None && p.usage is None
        }),
{
}

} // verus!
