//! What is left of a request that is written in a protocol and read back.
use crate::json::JsonView;
use crate::text::{first_index_is, joined};
use crate::transform::anthropic;
use crate::transform::canonical::{
    BlockView, CanonicalRole, ConvertError, ImageView, MessageView, RequestView, ToolView,
};
use crate::transform::chat_completions;
use crate::transform::chat_completions::{
    content_field, data_url, dialogue, double_json, is_system, openai_block, openai_blocks, openai_calls,
    openai_content, openai_dialogue, openai_message, openai_system, openai_tools, plain_texts,
    strings_among, system_content, text_content, text_item, visible_texts,
};
use crate::transform::responses;
use crate::transform::{read_request, write_request, Protocol};
use vstd::prelude::*;

verus! {

/// The fields of a Chat Completions request have different names.
proof fn chat_request_keys()
    ensures
        "model"@ != "messages"@,
        "model"@ != "temperature"@,
        "model"@ != "top_p"@,
        "model"@ != "max_tokens"@,
        "model"@ != "max_completion_tokens"@,
        "model"@ != "stop"@,
        "model"@ != "stream"@,
        "model"@ != "tools"@,
        "model"@ != "tool_choice"@,
        "model"@ != "reasoning_effort"@,
        "model"@ != "reasoning"@,
        "messages"@ != "temperature"@,
        "messages"@ != "top_p"@,
        "messages"@ != "max_tokens"@,
        "messages"@ != "max_completion_tokens"@,
        "messages"@ != "stop"@,
        "messages"@ != "stream"@,
        "messages"@ != "tools"@,
        "messages"@ != "tool_choice"@,
        "messages"@ != "reasoning_effort"@,
        "messages"@ != "reasoning"@,
        "temperature"@ != "top_p"@,
        "temperature"@ != "max_tokens"@,
        "temperature"@ != "max_completion_tokens"@,
        "temperature"@ != "stop"@,
        "temperature"@ != "stream"@,
        "temperature"@ != "tools"@,
        "temperature"@ != "tool_choice"@,
        "temperature"@ != "reasoning_effort"@,
        "temperature"@ != "reasoning"@,
        "top_p"@ != "max_tokens"@,
        "top_p"@ != "max_completion_tokens"@,
        "top_p"@ != "stop"@,
        "top_p"@ != "stream"@,
        "top_p"@ != "tools"@,
        "top_p"@ != "tool_choice"@,
        "top_p"@ != "reasoning_effort"@,
        "top_p"@ != "reasoning"@,
        "max_tokens"@ != "max_completion_tokens"@,
        "max_tokens"@ != "stop"@,
        "max_tokens"@ != "stream"@,
        "max_tokens"@ != "tools"@,
        "max_tokens"@ != "tool_choice"@,
        "max_tokens"@ != "reasoning_effort"@,
        "max_tokens"@ != "reasoning"@,
        "max_completion_tokens"@ != "stop"@,
        "max_completion_tokens"@ != "stream"@,
        "max_completion_tokens"@ != "tools"@,
        "max_completion_tokens"@ != "tool_choice"@,
        "max_completion_tokens"@ != "reasoning_effort"@,
        "max_completion_tokens"@ != "reasoning"@,
        "stop"@ != "stream"@,
        "stop"@ != "tools"@,
        "stop"@ != "tool_choice"@,
        "stop"@ != "reasoning_effort"@,
        "stop"@ != "reasoning"@,
        "stream"@ != "tools"@,
        "stream"@ != "tool_choice"@,
        "stream"@ != "reasoning_effort"@,
        "stream"@ != "reasoning"@,
        "tools"@ != "tool_choice"@,
        "tools"@ != "reasoning_effort"@,
        "tools"@ != "reasoning"@,
        "tool_choice"@ != "reasoning_effort"@,
        "tool_choice"@ != "reasoning"@,
        "reasoning_effort"@ != "reasoning"@,
{
    reveal_strlit("model");
    reveal_strlit("messages");
    reveal_strlit("temperature");
    reveal_strlit("top_p");
    reveal_strlit("max_tokens");
    reveal_strlit("max_completion_tokens");
    reveal_strlit("stop");
    reveal_strlit("stream");
    reveal_strlit("tools");
    reveal_strlit("tool_choice");
    reveal_strlit("reasoning_effort");
    reveal_strlit("reasoning");
    assert("model"@.len() == 5);
    assert("messages"@.len() == 8);
    assert("temperature"@.len() == 11);
    assert("top_p"@.len() == 5);
    assert("max_tokens"@.len() == 10);
    assert("max_completion_tokens"@.len() == 21);
    assert("stop"@.len() == 4);
    assert("stream"@.len() == 6);
    assert("tools"@.len() == 5);
    assert("tool_choice"@.len() == 11);
    assert("reasoning_effort"@.len() == 16);
    assert("reasoning"@.len() == 9);
    assert("model"@[0] == 'm' && "top_p"@[0] == 't');
    assert("model"@[0] == 'm' && "tools"@[0] == 't');
    assert("top_p"@[2] == 'p' && "tools"@[2] == 'o');
    assert("temperature"@[1] == 'e' && "tool_choice"@[1] == 'o');
}

/// The fields of a message have different names.
proof fn message_keys()
    ensures
        "role"@ != "content"@,
        "role"@ != "type"@,
        "role"@ != "text"@,
        "role"@ != "tool_calls"@,
        "content"@ != "type"@,
        "content"@ != "text"@,
        "content"@ != "tool_calls"@,
        "type"@ != "text"@,
        "type"@ != "tool_calls"@,
        "text"@ != "tool_calls"@,
{
    reveal_strlit("role");
    reveal_strlit("content");
    reveal_strlit("type");
    reveal_strlit("text");
    reveal_strlit("tool_calls");
    assert("role"@.len() == 4);
    assert("content"@.len() == 7);
    assert("type"@.len() == 4);
    assert("text"@.len() == 4);
    assert("tool_calls"@.len() == 10);
    assert("role"@[0] == 'r' && "type"@[0] == 't');
    assert("role"@[0] == 'r' && "text"@[0] == 't');
    assert("type"@[1] == 'y' && "text"@[1] == 'e');
}

/// Roles have different names.
proof fn role_names()
    ensures
        "system"@ != "developer"@,
        "system"@ != "user"@,
        "system"@ != "assistant"@,
        "system"@ != "tool"@,
        "developer"@ != "user"@,
        "developer"@ != "assistant"@,
        "developer"@ != "tool"@,
        "user"@ != "assistant"@,
        "user"@ != "tool"@,
        "assistant"@ != "tool"@,
{
    reveal_strlit("system");
    reveal_strlit("developer");
    reveal_strlit("user");
    reveal_strlit("assistant");
    reveal_strlit("tool");
    assert("system"@.len() == 6);
    assert("developer"@.len() == 9);
    assert("user"@.len() == 4);
    assert("assistant"@.len() == 9);
    assert("tool"@.len() == 4);
    assert("developer"@[0] == 'd' && "assistant"@[0] == 'a');
    assert("user"@[0] == 'u' && "tool"@[0] == 't');
}

/// The fields of a Responses request have different names.
proof fn responses_request_keys()
    ensures
        "model"@ != "input"@,
        "model"@ != "instructions"@,
        "model"@ != "max_output_tokens"@,
        "model"@ != "temperature"@,
        "model"@ != "top_p"@,
        "model"@ != "stop_sequences"@,
        "model"@ != "stream"@,
        "model"@ != "tools"@,
        "model"@ != "tool_choice"@,
        "model"@ != "reasoning"@,
        "model"@ != "reasoning_effort"@,
        "input"@ != "instructions"@,
        "input"@ != "max_output_tokens"@,
        "input"@ != "temperature"@,
        "input"@ != "top_p"@,
        "input"@ != "stop_sequences"@,
        "input"@ != "stream"@,
        "input"@ != "tools"@,
        "input"@ != "tool_choice"@,
        "input"@ != "reasoning"@,
        "input"@ != "reasoning_effort"@,
        "instructions"@ != "max_output_tokens"@,
        "instructions"@ != "temperature"@,
        "instructions"@ != "top_p"@,
        "instructions"@ != "stop_sequences"@,
        "instructions"@ != "stream"@,
        "instructions"@ != "tools"@,
        "instructions"@ != "tool_choice"@,
        "instructions"@ != "reasoning"@,
        "instructions"@ != "reasoning_effort"@,
        "max_output_tokens"@ != "temperature"@,
        "max_output_tokens"@ != "top_p"@,
        "max_output_tokens"@ != "stop_sequences"@,
        "max_output_tokens"@ != "stream"@,
        "max_output_tokens"@ != "tools"@,
        "max_output_tokens"@ != "tool_choice"@,
        "max_output_tokens"@ != "reasoning"@,
        "max_output_tokens"@ != "reasoning_effort"@,
        "temperature"@ != "top_p"@,
        "temperature"@ != "stop_sequences"@,
        "temperature"@ != "stream"@,
        "temperature"@ != "tools"@,
        "temperature"@ != "tool_choice"@,
        "temperature"@ != "reasoning"@,
        "temperature"@ != "reasoning_effort"@,
        "top_p"@ != "stop_sequences"@,
        "top_p"@ != "stream"@,
        "top_p"@ != "tools"@,
        "top_p"@ != "tool_choice"@,
        "top_p"@ != "reasoning"@,
        "top_p"@ != "reasoning_effort"@,
        "stop_sequences"@ != "stream"@,
        "stop_sequences"@ != "tools"@,
        "stop_sequences"@ != "tool_choice"@,
        "stop_sequences"@ != "reasoning"@,
        "stop_sequences"@ != "reasoning_effort"@,
        "stream"@ != "tools"@,
        "stream"@ != "tool_choice"@,
        "stream"@ != "reasoning"@,
        "stream"@ != "reasoning_effort"@,
        "tools"@ != "tool_choice"@,
        "tools"@ != "reasoning"@,
        "tools"@ != "reasoning_effort"@,
        "tool_choice"@ != "reasoning"@,
        "tool_choice"@ != "reasoning_effort"@,
        "reasoning"@ != "reasoning_effort"@,
{
    reveal_strlit("model");
    reveal_strlit("input");
    reveal_strlit("instructions");
    reveal_strlit("max_output_tokens");
    reveal_strlit("temperature");
    reveal_strlit("top_p");
    reveal_strlit("stop_sequences");
    reveal_strlit("stream");
    reveal_strlit("tools");
    reveal_strlit("tool_choice");
    reveal_strlit("reasoning");
    reveal_strlit("reasoning_effort");
    assert("model"@.len() == 5);
    assert("input"@.len() == 5);
    assert("instructions"@.len() == 12);
    assert("max_output_tokens"@.len() == 17);
    assert("temperature"@.len() == 11);
    assert("top_p"@.len() == 5);
    assert("stop_sequences"@.len() == 14);
    assert("stream"@.len() == 6);
    assert("tools"@.len() == 5);
    assert("tool_choice"@.len() == 11);
    assert("reasoning"@.len() == 9);
    assert("reasoning_effort"@.len() == 16);
    assert("model"@[0] == 'm' && "input"@[0] == 'i');
    assert("model"@[0] == 'm' && "top_p"@[0] == 't');
    assert("model"@[0] == 'm' && "tools"@[0] == 't');
    assert("input"@[0] == 'i' && "top_p"@[0] == 't');
    assert("input"@[0] == 'i' && "tools"@[0] == 't');
    assert("top_p"@[2] == 'p' && "tools"@[2] == 'o');
    assert("temperature"@[1] == 'e' && "tool_choice"@[1] == 'o');
}

/// The fields of a Messages request have different names.
proof fn anthropic_request_keys()
    ensures
        "model"@ != "messages"@,
        "model"@ != "system"@,
        "model"@ != "max_tokens"@,
        "model"@ != "temperature"@,
        "model"@ != "top_p"@,
        "model"@ != "stop_sequences"@,
        "model"@ != "stream"@,
        "model"@ != "tools"@,
        "model"@ != "tool_choice"@,
        "messages"@ != "system"@,
        "messages"@ != "max_tokens"@,
        "messages"@ != "temperature"@,
        "messages"@ != "top_p"@,
        "messages"@ != "stop_sequences"@,
        "messages"@ != "stream"@,
        "messages"@ != "tools"@,
        "messages"@ != "tool_choice"@,
        "system"@ != "max_tokens"@,
        "system"@ != "temperature"@,
        "system"@ != "top_p"@,
        "system"@ != "stop_sequences"@,
        "system"@ != "stream"@,
        "system"@ != "tools"@,
        "system"@ != "tool_choice"@,
        "max_tokens"@ != "temperature"@,
        "max_tokens"@ != "top_p"@,
        "max_tokens"@ != "stop_sequences"@,
        "max_tokens"@ != "stream"@,
        "max_tokens"@ != "tools"@,
        "max_tokens"@ != "tool_choice"@,
        "temperature"@ != "top_p"@,
        "temperature"@ != "stop_sequences"@,
        "temperature"@ != "stream"@,
        "temperature"@ != "tools"@,
        "temperature"@ != "tool_choice"@,
        "top_p"@ != "stop_sequences"@,
        "top_p"@ != "stream"@,
        "top_p"@ != "tools"@,
        "top_p"@ != "tool_choice"@,
        "stop_sequences"@ != "stream"@,
        "stop_sequences"@ != "tools"@,
        "stop_sequences"@ != "tool_choice"@,
        "stream"@ != "tools"@,
        "stream"@ != "tool_choice"@,
        "tools"@ != "tool_choice"@,
{
    reveal_strlit("model");
    reveal_strlit("messages");
    reveal_strlit("system");
    reveal_strlit("max_tokens");
    reveal_strlit("temperature");
    reveal_strlit("top_p");
    reveal_strlit("stop_sequences");
    reveal_strlit("stream");
    reveal_strlit("tools");
    reveal_strlit("tool_choice");
    assert("model"@.len() == 5);
    assert("messages"@.len() == 8);
    assert("system"@.len() == 6);
    assert("max_tokens"@.len() == 10);
    assert("temperature"@.len() == 11);
    assert("top_p"@.len() == 5);
    assert("stop_sequences"@.len() == 14);
    assert("stream"@.len() == 6);
    assert("tools"@.len() == 5);
    assert("tool_choice"@.len() == 11);
    assert("model"@[0] == 'm' && "top_p"@[0] == 't');
    assert("model"@[0] == 'm' && "tools"@[0] == 't');
    assert("top_p"@[2] == 'p' && "tools"@[2] == 'o');
    assert("system"@[1] == 'y' && "stream"@[1] == 't');
    assert("temperature"@[1] == 'e' && "tool_choice"@[1] == 'o');
}

/// A text that is not empty, alone.
pub open spec fn lone_text(s: Seq<BlockView>) -> bool {
    s.len() == 1 && s[0] is Text && s[0]->Text_text.len() > 0
}

/// Whether Chat Completions can say a piece of a message: texts that are not empty, and images
/// whose URL tells what they are.
pub open spec fn chat_says(b: BlockView) -> bool {
    match b {
        BlockView::Text { text } => text.len() > 0,
        BlockView::Image { source: ImageView::Url { url } } => data_url(url) is None,
        BlockView::Image { source: ImageView::Base64 { media_type, data } } => forall|i: int|
            0 <= i < media_type.len() ==> #[trigger] media_type[i] != ',' && media_type[i] != ';',
        _ => false,
    }
}

/// Whether Chat Completions can say all of the content.
pub open spec fn chat_says_all(s: Seq<BlockView>) -> bool {
    forall|i: int| 0 <= i < s.len() ==> chat_says(#[trigger] s[i])
}

/// Whether a message survives Chat Completions: it holds texts and images, or it is the result
/// of a tool.
pub open spec fn chat_keeps(m: MessageView) -> bool {
    &&& m.role != CanonicalRole::System
    &&& chat_says_all(m.content) || (m.role == CanonicalRole::User && m.content.len() == 1
        && match m.content[0] {
        BlockView::ToolResult { tool_use_id, content } => chat_says_all(content) && (content.len() == 1
            ==> content[0] is Text),
        _ => false,
    })
}

/// Whether Responses can say a piece of a message that has several.
pub open spec fn responses_say(b: BlockView) -> bool {
    match b {
        BlockView::Text { text } => text.len() > 0,
        BlockView::Image { source: ImageView::Url { url } } => true,
        _ => false,
    }
}

/// Whether a message survives Responses: it is a text, it holds several texts and references to
/// images, or it is the result of a tool.
pub open spec fn responses_keep(m: MessageView) -> bool {
    &&& m.role != CanonicalRole::System
    &&& m.content.len() == 0 || lone_text(m.content) || (m.content.len() > 1 && forall|i: int|
        0 <= i < m.content.len() ==> responses_say(#[trigger] m.content[i])) || (m.role
        == CanonicalRole::User && m.content.len() == 1 && match m.content[0] {
        BlockView::ToolResult { tool_use_id, content } => {
            &&& tool_use_id.len() > 0
            &&& content.len() == 0 || lone_text(content)
            &&& responses::output_text(content) == joined(plain_texts(content), "\n\n"@)
        },
        _ => false,
    })
}

/// Whether a message survives Anthropic's protocol: every piece of it says something.
pub open spec fn anthropic_keeps(m: MessageView) -> bool {
    &&& m.role != CanonicalRole::System
    &&& forall|i: int| 0 <= i < m.content.len() ==> says_something(#[trigger] m.content[i])
}

/// Whether a message survives a protocol.
pub open spec fn keeps_message(protocol: Protocol, m: MessageView) -> bool {
    match protocol {
        Protocol::ChatCompletions => chat_keeps(m),
        Protocol::Responses => responses_keep(m),
        Protocol::AnthropicMessages => anthropic_keeps(m),
    }
}

/// Whether a request survives a protocol: its messages do, and no list in it is empty where it
/// could be left out.
pub open spec fn is_kept_request(protocol: Protocol, q: RequestView) -> bool {
    &&& q.model.len() > 0
    &&& forall|i: int|
        0 <= i < q.messages.len() ==> keeps_message(protocol, #[trigger] q.messages[i])
    &&& q.system is Some ==> lone_text(q.system->Some_0)
    &&& q.stop_sequences is Some ==> q.stop_sequences->Some_0.len() > 0
    &&& q.stop_sequences is Some && q.stop_sequences->Some_0.len() == 1
        ==> q.stop_sequences->Some_0[0].len() > 0
    &&& q.tools is Some ==> q.tools->Some_0.len() > 0
    &&& q.unmapped.len() == 0
}

/// What a request is after it went through a protocol. Responses has its own way to say which
/// tool to choose. Anthropic's protocol always limits the tokens, and it cannot say how much to
/// reason.
pub open spec fn surviving(protocol: Protocol, q: RequestView) -> RequestView {
    match protocol {
        Protocol::ChatCompletions => q,
        Protocol::Responses => RequestView {
            tool_choice: match q.tool_choice {
                Some(c) => responses::responses_choice(c),
                None => None,
            },
            ..q
        },
        Protocol::AnthropicMessages => RequestView {
            max_tokens: Some(
                match q.max_tokens {
                    Some(n) => n,
                    None => 4096,
                },
            ),
            reasoning_effort: None,
            ..q
        },
    }
}

proof fn strings_survive(s: Seq<Seq<char>>, n: int)
    requires
        0 <= n <= s.len(),
    ensures
        strings_among(s.map_values(|x: Seq<char>| JsonView::Str(x)).take(n)) == s.take(n),
    decreases n,
{
    let j = s.map_values(|x: Seq<char>| JsonView::Str(x));
    if n == 0 {
        assert(j.take(0) =~= Seq::<JsonView>::empty());
        assert(s.take(0) =~= Seq::<Seq<char>>::empty());
    } else {
        strings_survive(s, n - 1);
        assert(j.take(n).drop_last() =~= j.take(n - 1));
        assert(s.take(n) =~= s.take(n - 1).push(s[n - 1]));
    }
}

proof fn all_strings_survive(s: Seq<Seq<char>>)
    ensures
        strings_among(s.map_values(|x: Seq<char>| JsonView::Str(x))) == s,
{
    let j = s.map_values(|x: Seq<char>| JsonView::Str(x));
    strings_survive(s, s.len() as int);
    assert(j.take(s.len() as int) =~= j);
    assert(s.take(s.len() as int) =~= s);
}

/// How each protocol writes a text that stands alone.
pub proof fn lone_text_facts(s: Seq<BlockView>)
    requires
        lone_text(s),
    ensures
        s == seq![BlockView::Text { text: s[0]->Text_text }],
        plain_texts(s) == seq![s[0]->Text_text],
        visible_texts(s) == seq![s[0]->Text_text],
        joined(seq![s[0]->Text_text], "\n\n"@) == s[0]->Text_text,
        openai_calls(s) == Seq::<JsonView>::empty(),
        openai_content(s) == seq![text_item(s[0]->Text_text)],
        openai_blocks(s) == seq![text_item(s[0]->Text_text)],
        text_content(s[0]->Text_text) == s,
        content_field(seq![text_item(s[0]->Text_text)]) == JsonView::Str(s[0]->Text_text),
        anthropic::anthropic_blocks(s) == seq![text_item(s[0]->Text_text)],
{
    message_keys();
    let t = s[0]->Text_text;
    reveal_with_fuel(plain_texts, 2);
    reveal_with_fuel(visible_texts, 2);
    reveal_with_fuel(openai_calls, 2);
    reveal_with_fuel(openai_content, 2);
    assert(s =~= seq![BlockView::Text { text: t }]);
    assert(s.drop_last() =~= Seq::<BlockView>::empty());
    assert(plain_texts(s) =~= seq![t]);
    assert(visible_texts(s) =~= seq![t]);
    assert(openai_calls(s) =~= Seq::<JsonView>::empty());
    assert(openai_content(s) =~= seq![text_item(t)]);
    assert(openai_blocks(s) =~= seq![text_item(t)]);
    assert(text_content(t) =~= s);
    assert(anthropic::anthropic_blocks(s) =~= seq![text_item(t)]);
}

/// The fields and kinds of a piece of a Chat Completions message have different names.
proof fn chat_item_keys()
    ensures
        "type"@ != "text"@,
        "type"@ != "image_url"@,
        "type"@ != "url"@,
        "type"@ != "role"@,
        "type"@ != "content"@,
        "type"@ != "tool_calls"@,
        "type"@ != "tool_call_id"@,
        "text"@ != "image_url"@,
        "text"@ != "url"@,
        "text"@ != "role"@,
        "text"@ != "content"@,
        "text"@ != "tool_calls"@,
        "text"@ != "tool_call_id"@,
        "image_url"@ != "url"@,
        "image_url"@ != "role"@,
        "image_url"@ != "content"@,
        "image_url"@ != "tool_calls"@,
        "image_url"@ != "tool_call_id"@,
        "url"@ != "role"@,
        "url"@ != "content"@,
        "url"@ != "tool_calls"@,
        "url"@ != "tool_call_id"@,
        "role"@ != "content"@,
        "role"@ != "tool_calls"@,
        "role"@ != "tool_call_id"@,
        "content"@ != "tool_calls"@,
        "content"@ != "tool_call_id"@,
        "tool_calls"@ != "tool_call_id"@,
{
    reveal_strlit("type");
    reveal_strlit("text");
    reveal_strlit("image_url");
    reveal_strlit("url");
    reveal_strlit("role");
    reveal_strlit("content");
    reveal_strlit("tool_calls");
    reveal_strlit("tool_call_id");
    assert("type"@.len() == 4);
    assert("text"@.len() == 4);
    assert("image_url"@.len() == 9);
    assert("url"@.len() == 3);
    assert("role"@.len() == 4);
    assert("content"@.len() == 7);
    assert("tool_calls"@.len() == 10);
    assert("tool_call_id"@.len() == 12);
    assert("type"@[1] == 'y' && "text"@[1] == 'e');
    assert("type"@[0] == 't' && "role"@[0] == 'r');
    assert("text"@[0] == 't' && "role"@[0] == 'r');
}

/// The type and the data of an image are read back from the URL that holds them.
pub proof fn data_urls_are_read(media_type: Seq<char>, data: Seq<char>)
    requires
        forall|i: int|
            0 <= i < media_type.len() ==> #[trigger] media_type[i] != ',' && media_type[i] != ';',
    ensures
        data_url("data:"@ + media_type + ";base64,"@ + data) == Some((media_type, data)),
{
    reveal_strlit("data:");
    reveal_strlit(";base64,");
    let head = "data:"@;
    let tail = ";base64,"@;
    assert(head.len() == 5);
    assert(tail.len() == 8);
    assert(tail[0] == ';' && tail[1] == 'b' && tail[2] == 'a' && tail[3] == 's' && tail[4] == 'e'
        && tail[5] == '6' && tail[6] == '4' && tail[7] == ',');
    let url = head + media_type + tail + data;
    let n = media_type.len() as int;
    assert(head =~= url.subrange(0, 5));
    assert forall|k: int| 0 <= k < n + 12 implies url[k] != ',' by {
        if k < 5 {
            assert(url[k] == head[k]);
            assert(head[0] == 'd' && head[1] == 'a' && head[2] == 't' && head[3] == 'a' && head[4]
                == ':');
        } else if k < n + 5 {
            assert(url[k] == media_type[k - 5]);
        } else {
            assert(url[k] == tail[k - n - 5]);
        }
    }
    assert(url[n + 12] == tail[7]);
    first_index_is(url, ',', n + 12);
    let header = url.subrange(5, n + 12);
    assert forall|k: int| 0 <= k < n implies header[k] != ';' by {
        assert(header[k] == media_type[k]);
    }
    assert(header[n] == tail[0]);
    first_index_is(header, ';', n);
    assert(header.take(n) =~= media_type);
    assert(url.skip(n + 13) =~= data);
}

proof fn chat_block_survives(b: BlockView)
    requires
        chat_says(b),
    ensures
        chat_completions::item_content(openai_block(b)) == seq![b],
        openai_block(b).str_at("type"@) == Some("text"@) <==> b is Text,
        b is Text ==> openai_block(b).at("text"@) == JsonView::Str(b->Text_text),
{
    chat_item_keys();
    let v = openai_block(b);
    match b {
        BlockView::Text { text } => {
            assert(v.str_at("type"@) == Some("text"@));
            assert(v.str_at("text"@) == Some(text));
        },
        BlockView::Image { source } => {
            let url = chat_completions::url_of_image(source);
            assert(v.str_at("type"@) == Some("image_url"@));
            assert(v.get("image_url"@) is Some);
            assert(v.at("image_url"@).str_at("url"@) == Some(url));
            match source {
                ImageView::Base64 { media_type, data } => data_urls_are_read(media_type, data),
                ImageView::Url { url } => {},
            }
        },
        _ => {},
    }
}

proof fn chat_blocks_survive(s: Seq<BlockView>, n: int)
    requires
        0 <= n <= s.len(),
        chat_says_all(s),
    ensures
        chat_completions::items_content(openai_blocks(s).take(n)) == s.take(n),
    decreases n,
{
    let items = openai_blocks(s);
    if n == 0 {
        assert(items.take(0) =~= Seq::<JsonView>::empty());
        assert(s.take(0) =~= Seq::<BlockView>::empty());
    } else {
        chat_blocks_survive(s, n - 1);
        assert(chat_says(s[n - 1]));
        chat_block_survives(s[n - 1]);
        assert(items.take(n).drop_last() =~= items.take(n - 1));
        assert(s.take(n) =~= s.take(n - 1) + seq![s[n - 1]]);
    }
}

proof fn chat_content_survives(s: Seq<BlockView>)
    requires
        chat_says_all(s),
    ensures
        chat_completions::content_of(content_field(openai_blocks(s))) == s,
        chat_completions::content_of(JsonView::Array(openai_blocks(s))) == s,
        openai_content(s) == openai_blocks(s),
        openai_calls(s) == Seq::<JsonView>::empty(),
        !chat_completions::has_results(s),
{
    let items = openai_blocks(s);
    chat_blocks_survive(s, s.len() as int);
    assert(items.take(s.len() as int) =~= items);
    assert(s.take(s.len() as int) =~= s);
    if s.len() == 1 {
        assert(chat_says(s[0]));
        chat_block_survives(s[0]);
        if s[0] is Text {
            assert(text_content(s[0]->Text_text) =~= s);
        }
    }
    no_calls_among(s, s.len() as int);
    assert(s.take(s.len() as int) =~= s);
    assert forall|i: int| 0 <= i < s.len() implies !(#[trigger] s[i] is ToolResult) by {
        assert(chat_says(s[i]));
    }
}

proof fn no_calls_among(s: Seq<BlockView>, n: int)
    requires
        0 <= n <= s.len(),
        chat_says_all(s),
    ensures
        openai_content(s.take(n)) == openai_blocks(s.take(n)),
        openai_calls(s.take(n)) == Seq::<JsonView>::empty(),
    decreases n,
{
    if n == 0 {
        assert(openai_blocks(s.take(0)) =~= Seq::<JsonView>::empty());
    } else {
        no_calls_among(s, n - 1);
        assert(chat_says(s[n - 1]));
        assert(s.take(n).drop_last() =~= s.take(n - 1));
        assert(openai_blocks(s.take(n)) =~= openai_blocks(s.take(n - 1)).push(
            openai_block(s[n - 1]),
        ));
    }
}

proof fn chat_message_survives(m: MessageView)
    requires
        chat_keeps(m),
    ensures
        openai_message(m) is Some,
        openai_message(m)->Some_0 is Object,
        !is_system(openai_message(m)->Some_0),
        chat_completions::message_of(openai_message(m)->Some_0) == Some(m),
{
    chat_item_keys();
    role_names();
    let v = openai_message(m)->Some_0;
    if chat_says_all(m.content) {
        chat_content_survives(m.content);
        assert(m.content + Seq::<BlockView>::empty() =~= m.content);
        assert(v.get("tool_calls"@) is None);
        if m.content.len() == 0 {
            assert(m.content =~= Seq::<BlockView>::empty());
            reveal_strlit("");
        } else {
            assert(v.get("content"@) == Some(content_field(openai_blocks(m.content))));
        }
    } else {
        let b = m.content[0];
        assert(chat_completions::has_results(m.content));
        match b {
            BlockView::ToolResult { tool_use_id, content } => {
                chat_content_survives(content);
                assert(v.str_at("role"@) == Some("tool"@));
                assert(v.str_at("tool_call_id"@) == Some(tool_use_id));
                if content.len() == 1 {
                    assert(chat_says(content[0]));
                    chat_block_survives(content[0]);
                    assert(v.str_at("content"@) == Some(content[0]->Text_text));
                    assert(text_content(content[0]->Text_text) =~= content);
                } else {
                    assert(v.get("content"@) == Some(JsonView::Array(openai_blocks(content))));
                }
                assert(chat_completions::message_content(v) == content);
                assert(m.content =~= seq![b]);
            },
            _ => {},
        }
    }
}

proof fn chat_dialogue_survives(head: Seq<JsonView>, s: Seq<MessageView>, n: int)
    requires
        0 <= n <= s.len(),
        forall|i: int| 0 <= i < s.len() ==> chat_keeps(#[trigger] s[i]),
        dialogue(head) == Seq::<MessageView>::empty(),
    ensures
        dialogue(head + openai_dialogue(s.take(n))) == s.take(n),
        system_content(head + openai_dialogue(s.take(n))) == system_content(head),
    decreases n,
{
    if n == 0 {
        assert(s.take(0) =~= Seq::<MessageView>::empty());
        assert(head + openai_dialogue(s.take(0)) =~= head);
    } else {
        chat_dialogue_survives(head, s, n - 1);
        assert(chat_keeps(s[n - 1]));
        chat_message_survives(s[n - 1]);
        assert(s.take(n).drop_last() =~= s.take(n - 1));
        let v = openai_message(s[n - 1])->Some_0;
        let before = openai_dialogue(s.take(n - 1));
        let after = head + openai_dialogue(s.take(n));
        assert(after =~= (head + before).push(v));
        assert(after.drop_last() =~= head + before);
        assert(s.take(n) =~= s.take(n - 1).push(s[n - 1]));
    }
}

proof fn chat_system_survives(system: Option<Seq<BlockView>>)
    requires
        system is Some ==> lone_text(system->Some_0),
    ensures
        dialogue(openai_system(system)) == Seq::<MessageView>::empty(),
        system_content(openai_system(system)) == (match system {
            Some(s) => s,
            None => Seq::empty(),
        }),
{
    message_keys();
    role_names();
    reveal_with_fuel(dialogue, 2);
    reveal_with_fuel(system_content, 2);
    let h = openai_system(system);
    match system {
        Some(s) => {
            lone_text_facts(s);
            assert(h.drop_last() =~= Seq::<JsonView>::empty());
            assert(h[0].str_at("content"@) == Some(s[0]->Text_text));
            assert(h[0].str_at("role"@) == Some("system"@));
            assert(is_system(h.last()));
            assert(Seq::<BlockView>::empty() + s =~= s);
            assert(dialogue(h) =~= Seq::<MessageView>::empty());
        },
        None => {},
    }
}

/// The fields of a tool have different names.
proof fn tool_keys()
    ensures
        "type"@ != "function"@,
        "type"@ != "name"@,
        "type"@ != "description"@,
        "type"@ != "parameters"@,
        "type"@ != "strict"@,
        "type"@ != "input_schema"@,
        "function"@ != "name"@,
        "function"@ != "description"@,
        "function"@ != "parameters"@,
        "function"@ != "strict"@,
        "function"@ != "input_schema"@,
        "name"@ != "description"@,
        "name"@ != "parameters"@,
        "name"@ != "strict"@,
        "name"@ != "input_schema"@,
        "description"@ != "parameters"@,
        "description"@ != "strict"@,
        "description"@ != "input_schema"@,
        "parameters"@ != "strict"@,
        "parameters"@ != "input_schema"@,
        "strict"@ != "input_schema"@,
{
    reveal_strlit("type");
    reveal_strlit("function");
    reveal_strlit("name");
    reveal_strlit("description");
    reveal_strlit("parameters");
    reveal_strlit("strict");
    reveal_strlit("input_schema");
    assert("type"@.len() == 4);
    assert("function"@.len() == 8);
    assert("name"@.len() == 4);
    assert("description"@.len() == 11);
    assert("parameters"@.len() == 10);
    assert("strict"@.len() == 6);
    assert("input_schema"@.len() == 12);
    assert("type"@[0] == 't' && "name"@[0] == 'n');
}

proof fn chat_tools_survive(t: Seq<ToolView>, n: int)
    requires
        0 <= n <= t.len(),
    ensures
        chat_completions::functions(openai_tools(t).take(n)) == t.take(n),
        forall|i: int|
            0 <= i < n ==> !chat_completions::lacks_function(#[trigger] openai_tools(t)[i]),
    decreases n,
{
    tool_keys();
    let items = openai_tools(t);
    if n == 0 {
        assert(items.take(0) =~= Seq::<JsonView>::empty());
        assert(t.take(0) =~= Seq::<ToolView>::empty());
    } else {
        chat_tools_survive(t, n - 1);
        assert(items.take(n).drop_last() =~= items.take(n - 1));
        let v = items[n - 1];
        let f = v.at("function"@);
        assert(v.str_at("type"@) == Some("function"@));
        assert(v.get("function"@) is Some);
        assert(f.str_at("name"@) == Some(t[n - 1].name));
        assert(f.str_at("description"@) == t[n - 1].description);
        assert(f.get("parameters"@) == Some(t[n - 1].input_schema));
        assert(t.take(n) =~= t.take(n - 1).push(t[n - 1]));
    }
}

/// A request that Chat Completions keeps is read back the same.
proof fn chat_request_survives(q: RequestView)
    requires
        is_kept_request(Protocol::ChatCompletions, q),
    ensures
        chat_completions::request_of(chat_completions::openai_request(q)) == Ok::<
            RequestView,
            ConvertError,
        >(q),
{
    chat_request_keys();
    let body = chat_completions::openai_request(q);
    let head = openai_system(q.system);
    chat_system_survives(q.system);
    assert forall|i: int| 0 <= i < q.messages.len() implies chat_keeps(#[trigger] q.messages[i]) by {
        assert(keeps_message(Protocol::ChatCompletions, q.messages[i]));
    }
    chat_dialogue_survives(head, q.messages, q.messages.len() as int);
    assert(q.messages.take(q.messages.len() as int) =~= q.messages);
    assert(body.str_at("model"@) == Some(q.model));
    assert(body.get("messages"@) == Some(JsonView::Array(head + openai_dialogue(q.messages))));
    assert(body.get("temperature"@) == double_json(q.temperature));
    assert(body.get("top_p"@) == double_json(q.top_p));
    assert(body.u64_at("max_tokens"@) == q.max_tokens);
    assert(body.u64_at("max_completion_tokens"@) is None);
    match q.tools {
        Some(t) => {
            let items = openai_tools(t);
            chat_tools_survive(t, t.len() as int);
            assert(items.take(t.len() as int) =~= items);
            assert(t.take(t.len() as int) =~= t);
            assert(body.get("tools"@) == Some(JsonView::Array(items)));
        },
        None => {
            assert(body.get("tools"@) is None);
        },
    }
    assert(body.get("tool_choice"@) == q.tool_choice);
    assert(body.str_at("reasoning_effort"@) == q.reasoning_effort);
    assert(body.get("reasoning"@) is None);
    assert(body.bool_at("stream"@) == (if q.stream {
        Some(true)
    } else {
        None
    }));
    match q.stop_sequences {
        Some(s) => {
            all_strings_survive(s);
            if s.len() == 1 {
                assert(s =~= seq![s[0]]);
            }
        },
        None => {
            assert(body.get("stop"@) is None);
        },
    }
    assert(q.unmapped =~= Seq::<Seq<char>>::empty());
}

proof fn anthropic_message_survives(m: MessageView)
    requires
        anthropic_keeps(m),
    ensures
        anthropic::message_of(anthropic::anthropic_message(m)) == m,
{
    message_keys();
    role_names();
    let v = anthropic::anthropic_message(m);
    let items = anthropic::anthropic_blocks(m.content);
    assert(v.get("content"@) == Some(content_field(items)));
    anthropic_keeps_content(m.content, m.content.len() as int);
    assert(items.take(m.content.len() as int) =~= items);
    assert(m.content.take(m.content.len() as int) =~= m.content);
    if items.len() == 1 && items[0].str_at("type"@) == Some("text"@) {
        assert(says_something(m.content[0]));
        lone_item_is_text(m.content);
    }
}

proof fn anthropic_tools_survive(t: Seq<ToolView>)
    ensures
        anthropic::tools_of(anthropic::anthropic_tools(t)) == t,
{
    tool_keys();
    let items = anthropic::anthropic_tools(t);
    assert forall|i: int| 0 <= i < t.len() implies anthropic::tool_of(#[trigger] items[i]) == t[i] by {
        let v = items[i];
        assert(v.str_at("name"@) == Some(t[i].name));
        assert(v.str_at("description"@) == t[i].description);
        assert(v.get("input_schema"@) == Some(t[i].input_schema));
    }
    assert(anthropic::tools_of(items) =~= t);
}

/// A request that Anthropic's protocol keeps is read back the same, but for what the protocol
/// demands and cannot say.
proof fn anthropic_request_survives(q: RequestView)
    requires
        is_kept_request(Protocol::AnthropicMessages, q),
    ensures
        anthropic::request_of(anthropic::anthropic_request(q)) == Ok::<RequestView, ConvertError>(
            surviving(Protocol::AnthropicMessages, q),
        ),
{
    anthropic_request_keys();
    let body = anthropic::anthropic_request(q);
    let items = anthropic::anthropic_messages(q.messages);
    assert forall|i: int| 0 <= i < items.len() implies anthropic::message_of(#[trigger] items[i])
        == q.messages[i] by {
        assert(keeps_message(Protocol::AnthropicMessages, q.messages[i]));
        anthropic_message_survives(q.messages[i]);
    }
    assert(anthropic::messages_of(items) =~= q.messages);
    assert(body.str_at("model"@) == Some(q.model));
    assert(body.get("messages"@) == Some(JsonView::Array(items)));
    assert(body.get("temperature"@) == double_json(q.temperature));
    assert(body.get("top_p"@) == double_json(q.top_p));
    assert(body.u64_at("max_tokens"@) == surviving(Protocol::AnthropicMessages, q).max_tokens);
    match q.tools {
        Some(t) => {
            anthropic_tools_survive(t);
            assert(body.get("tools"@) == Some(JsonView::Array(anthropic::anthropic_tools(t))));
        },
        None => {
            assert(body.get("tools"@) is None);
            assert(anthropic::tools_of(Seq::empty()) =~= Seq::empty());
        },
    }
    assert(body.get("tool_choice"@) == q.tool_choice);
    assert(body.bool_at("stream"@) == (if q.stream {
        Some(true)
    } else {
        None
    }));
    match q.system {
        Some(s) => {
            lone_text_facts(s);
            assert(body.str_at("system"@) == Some(s[0]->Text_text));
        },
        None => {
            assert(body.get("system"@) is None);
        },
    }
    match q.stop_sequences {
        Some(s) => {
            all_strings_survive(s);
            assert(body.get("stop_sequences"@) == Some(JsonView::strings(s)));
        },
        None => {
            assert(body.get("stop_sequences"@) is None);
        },
    }
    assert(q.unmapped =~= Seq::<Seq<char>>::empty());
}

/// The fields of an item of a Responses request have different names.
proof fn input_item_keys()
    ensures
        "type"@ != "role"@,
        "type"@ != "content"@,
        "type"@ != "call_id"@,
        "type"@ != "output"@,
        "type"@ != "text"@,
        "type"@ != "image_url"@,
        "type"@ != "url"@,
        "role"@ != "content"@,
        "role"@ != "call_id"@,
        "role"@ != "output"@,
        "role"@ != "text"@,
        "role"@ != "image_url"@,
        "role"@ != "url"@,
        "content"@ != "call_id"@,
        "content"@ != "output"@,
        "content"@ != "text"@,
        "content"@ != "image_url"@,
        "content"@ != "url"@,
        "call_id"@ != "output"@,
        "call_id"@ != "text"@,
        "call_id"@ != "image_url"@,
        "call_id"@ != "url"@,
        "output"@ != "text"@,
        "output"@ != "image_url"@,
        "output"@ != "url"@,
        "text"@ != "image_url"@,
        "text"@ != "url"@,
        "image_url"@ != "url"@,
{
    reveal_strlit("type");
    reveal_strlit("role");
    reveal_strlit("content");
    reveal_strlit("call_id");
    reveal_strlit("output");
    reveal_strlit("text");
    reveal_strlit("image_url");
    reveal_strlit("url");
    assert("type"@.len() == 4);
    assert("role"@.len() == 4);
    assert("content"@.len() == 7);
    assert("call_id"@.len() == 7);
    assert("output"@.len() == 6);
    assert("text"@.len() == 4);
    assert("image_url"@.len() == 9);
    assert("url"@.len() == 3);
    assert("type"@[0] == 't' && "role"@[0] == 'r');
    assert("type"@[1] == 'y' && "text"@[1] == 'e');
    assert("role"@[0] == 'r' && "text"@[0] == 't');
    assert("content"@[1] == 'o' && "call_id"@[1] == 'a');
}

/// The kinds of items and of their pieces have different names.
proof fn input_item_kinds()
    ensures
        "message"@ != "function_call_output"@,
        "message"@ != "text"@,
        "message"@ != "input_text"@,
        "message"@ != "output_text"@,
        "message"@ != "reasoning_text"@,
        "message"@ != "summary_text"@,
        "message"@ != "image_url"@,
        "function_call_output"@ != "text"@,
        "function_call_output"@ != "input_text"@,
        "function_call_output"@ != "output_text"@,
        "function_call_output"@ != "reasoning_text"@,
        "function_call_output"@ != "summary_text"@,
        "function_call_output"@ != "image_url"@,
        "text"@ != "input_text"@,
        "text"@ != "output_text"@,
        "text"@ != "reasoning_text"@,
        "text"@ != "summary_text"@,
        "text"@ != "image_url"@,
        "input_text"@ != "output_text"@,
        "input_text"@ != "reasoning_text"@,
        "input_text"@ != "summary_text"@,
        "input_text"@ != "image_url"@,
        "output_text"@ != "reasoning_text"@,
        "output_text"@ != "summary_text"@,
        "output_text"@ != "image_url"@,
        "reasoning_text"@ != "summary_text"@,
        "reasoning_text"@ != "image_url"@,
        "summary_text"@ != "image_url"@,
{
    reveal_strlit("message");
    reveal_strlit("function_call_output");
    reveal_strlit("text");
    reveal_strlit("input_text");
    reveal_strlit("output_text");
    reveal_strlit("reasoning_text");
    reveal_strlit("summary_text");
    reveal_strlit("image_url");
    assert("message"@.len() == 7);
    assert("function_call_output"@.len() == 20);
    assert("text"@.len() == 4);
    assert("input_text"@.len() == 10);
    assert("output_text"@.len() == 11);
    assert("reasoning_text"@.len() == 14);
    assert("summary_text"@.len() == 12);
    assert("image_url"@.len() == 9);
}

proof fn responses_parts_survive(s: Seq<BlockView>, n: int)
    requires
        0 <= n <= s.len(),
        forall|i: int| 0 <= i < s.len() ==> responses_say(#[trigger] s[i]),
    ensures
        responses::parts_of(responses::content_parts(s.take(n))) == s.take(n),
        responses::content_parts(s.take(n)).len() == n,
    decreases n,
{
    if n == 0 {
        assert(s.take(0) =~= Seq::<BlockView>::empty());
    } else {
        responses_parts_survive(s, n - 1);
        input_item_keys();
        input_item_kinds();
        let b = s[n - 1];
        assert(responses_say(b));
        assert(s.take(n).drop_last() =~= s.take(n - 1));
        let v = responses::content_part(b)->Some_0;
        match b {
            BlockView::Text { text } => {
                assert(v.str_at("type"@) == Some("input_text"@));
                assert(v.str_at("text"@) == Some(text));
            },
            BlockView::Image { source: ImageView::Url { url } } => {
                assert(v.str_at("type"@) == Some("image_url"@));
                assert(v.at("image_url"@).str_at("url"@) == Some(url));
            },
            _ => {},
        }
        assert(responses::part_of(v) == Some(b));
        let before = responses::content_parts(s.take(n - 1));
        let after = responses::content_parts(s.take(n));
        assert(after =~= before.push(v));
        assert(after.drop_last() =~= before);
        assert(s.take(n) =~= s.take(n - 1).push(b));
    }
}

proof fn responses_message_survives(m: MessageView)
    requires
        responses_keep(m),
    ensures
        responses::message_items(m).len() == 1,
        responses::input_message(responses::message_items(m)[0]) == Some(m),
{
    message_keys();
    role_names();
    input_item_keys();
    input_item_kinds();
    let c = m.content;
    let v = responses::message_items(m)[0];
    if c.len() == 1 && c[0] is ToolResult {
        match c[0] {
            BlockView::ToolResult { tool_use_id, content } => {
                reveal_with_fuel(responses::results_items, 2);
                assert(c.drop_last() =~= Seq::<BlockView>::empty());
                assert(chat_completions::has_results(c));
                assert(!responses::has_calls(c));
                assert(responses::results_items(c) =~= responses::result_items(c[0]));
                assert(v.str_at("type"@) == Some("function_call_output"@));
                assert(v.str_at("call_id"@) == Some(tool_use_id));
                assert(v.str_at("output"@) == Some(responses::output_text(content)));
                if content.len() == 0 {
                    assert(content =~= Seq::<BlockView>::empty());
                    assert(plain_texts(content) =~= Seq::<Seq<char>>::empty());
                } else {
                    lone_text_facts(content);
                }
                assert(c =~= seq![c[0]]);
            },
            _ => {},
        }
    } else if c.len() == 0 {
        reveal_strlit("");
        assert(!responses::has_calls(c));
        assert(!chat_completions::has_results(c));
        assert(c =~= Seq::<BlockView>::empty());
        assert(v.str_at("type"@) == Some("message"@));
        assert(v.str_at("content"@) == Some(""@));
    } else if lone_text(c) {
        lone_text_facts(c);
        assert(!responses::has_calls(c));
        assert(!chat_completions::has_results(c));
        assert(v.str_at("type"@) == Some("message"@));
        assert(v.str_at("content"@) == Some(c[0]->Text_text));
    } else {
        assert forall|i: int| 0 <= i < c.len() implies !(#[trigger] c[i] is ToolResult) && !(c[i] is ToolUse) by {
            assert(responses_say(c[i]));
        }
        assert(!responses::has_calls(c));
        assert(!chat_completions::has_results(c));
        responses_parts_survive(c, c.len() as int);
        assert(c.take(c.len() as int) =~= c);
        assert(v.str_at("type"@) == Some("message"@));
        assert(v.get("content"@) == Some(JsonView::Array(responses::content_parts(c))));
    }
}

proof fn responses_dialogue_survives(s: Seq<MessageView>, n: int)
    requires
        0 <= n <= s.len(),
        forall|i: int| 0 <= i < s.len() ==> responses_keep(#[trigger] s[i]),
    ensures
        responses::input_messages(responses::dialogue_items(s.take(n))) == s.take(n),
    decreases n,
{
    if n == 0 {
        assert(s.take(0) =~= Seq::<MessageView>::empty());
    } else {
        responses_dialogue_survives(s, n - 1);
        assert(responses_keep(s[n - 1]));
        responses_message_survives(s[n - 1]);
        assert(s.take(n).drop_last() =~= s.take(n - 1));
        let before = responses::dialogue_items(s.take(n - 1));
        let after = responses::dialogue_items(s.take(n));
        assert(after =~= before.push(responses::message_items(s[n - 1])[0]));
        assert(after.drop_last() =~= before);
        assert(s.take(n) =~= s.take(n - 1).push(s[n - 1]));
    }
}

proof fn responses_tools_survive(t: Seq<ToolView>, n: int)
    requires
        0 <= n <= t.len(),
    ensures
        responses::flat_tools(responses::responses_tools(t).take(n)) == t.take(n),
    decreases n,
{
    tool_keys();
    let items = responses::responses_tools(t);
    if n == 0 {
        assert(items.take(0) =~= Seq::<JsonView>::empty());
        assert(t.take(0) =~= Seq::<ToolView>::empty());
    } else {
        responses_tools_survive(t, n - 1);
        assert(items.take(n).drop_last() =~= items.take(n - 1));
        let v = items[n - 1];
        assert(v.str_at("type"@) == Some("function"@));
        assert(v.str_at("name"@) == Some(t[n - 1].name));
        assert(v.str_at("description"@) == t[n - 1].description);
        assert(v.get("parameters"@) == Some(t[n - 1].input_schema));
        assert(t.take(n) =~= t.take(n - 1).push(t[n - 1]));
    }
}

/// A request that Responses keeps is read back the same, but for the way in which a tool is
/// chosen.
proof fn responses_request_survives(q: RequestView)
    requires
        is_kept_request(Protocol::Responses, q),
    ensures
        responses::request_of(responses::responses_request(q)) == Ok::<RequestView, ConvertError>(
            surviving(Protocol::Responses, q),
        ),
{
    responses_request_keys();
    let body = responses::responses_request(q);
    assert forall|i: int| 0 <= i < q.messages.len() implies responses_keep(
        #[trigger] q.messages[i],
    ) by {
        assert(keeps_message(Protocol::Responses, q.messages[i]));
    }
    responses_dialogue_survives(q.messages, q.messages.len() as int);
    assert(q.messages.take(q.messages.len() as int) =~= q.messages);
    assert(body.str_at("model"@) == Some(q.model));
    if q.messages.len() > 0 {
        assert(body.get("input"@) == Some(JsonView::Array(responses::dialogue_items(q.messages))));
    } else {
        assert(body.get("input"@) is None);
        assert(q.messages =~= Seq::<MessageView>::empty());
    }
    assert(body.get("temperature"@) == double_json(q.temperature));
    assert(body.get("top_p"@) == double_json(q.top_p));
    assert(body.u64_at("max_output_tokens"@) == q.max_tokens);
    match q.tools {
        Some(t) => {
            let items = responses::responses_tools(t);
            responses_tools_survive(t, t.len() as int);
            assert(items.take(t.len() as int) =~= items);
            assert(t.take(t.len() as int) =~= t);
            assert(body.get("tools"@) == Some(JsonView::Array(items)));
        },
        None => {
            assert(body.get("tools"@) is None);
        },
    }
    assert(body.get("tool_choice"@) == surviving(Protocol::Responses, q).tool_choice);
    effort_survives(q);
    assert(body.bool_at("stream"@) == (if q.stream {
        Some(true)
    } else {
        None
    }));
    match q.system {
        Some(s) => {
            lone_text_facts(s);
            assert(body.str_at("instructions"@) == Some(s[0]->Text_text));
        },
        None => {
            assert(body.get("instructions"@) is None);
        },
    }
    match q.stop_sequences {
        Some(s) => {
            all_strings_survive(s);
            assert(body.get("stop_sequences"@) == Some(JsonView::strings(s)));
        },
        None => {
            assert(body.get("stop_sequences"@) is None);
        },
    }
    assert(q.unmapped =~= Seq::<Seq<char>>::empty());
}

proof fn effort_survives(q: RequestView)
    ensures
        chat_completions::effort_of(responses::responses_request(q)) == q.reasoning_effort,
{
    responses_request_keys();
    let body = responses::responses_request(q);
    assert(body.get("reasoning_effort"@) is None);
    match q.reasoning_effort {
        Some(e) => {
            let r = JsonView::object().with("effort"@, JsonView::Str(e));
            assert(body.get("reasoning"@) == Some(r));
            assert(r.str_at("effort"@) == Some(e));
        },
        None => {
            assert(body.get("reasoning"@) is None);
        },
    }
}

/// The field that limits the tokens of a response.
pub open spec fn limit_field(protocol: Protocol) -> Seq<char> {
    if protocol == Protocol::Responses {
        "max_output_tokens"@
    } else {
        "max_tokens"@
    }
}

/// The limit on tokens and the choice of a tool of every request are written under the names
/// that the protocol has for them.
pub proof fn settings_are_written(protocol: Protocol, q: RequestView)
    ensures
        write_request(protocol, q).u64_at(limit_field(protocol)) == surviving(protocol, q).max_tokens,
        write_request(protocol, q).get("tool_choice"@) == surviving(protocol, q).tool_choice,
{
    match protocol {
        Protocol::ChatCompletions => chat_request_keys(),
        Protocol::Responses => responses_request_keys(),
        Protocol::AnthropicMessages => anthropic_request_keys(),
    }
}

/// Requests survive conversion: what is written in a protocol is read back the same, tools and
/// settings included, but for what the protocol demands or cannot say.
pub proof fn requests_survive(protocol: Protocol, q: RequestView)
    requires
        is_kept_request(protocol, q),
    ensures
        read_request(protocol, write_request(protocol, q)) == Ok::<RequestView, ConvertError>(
            surviving(protocol, q),
        ),
{
    match protocol {
        Protocol::ChatCompletions => chat_request_survives(q),
        Protocol::Responses => responses_request_survives(q),
        Protocol::AnthropicMessages => anthropic_request_survives(q),
    }
}

/// A request may be converted through any protocol that can say all of it: it arrives the same
/// as if it had been converted at once.
pub proof fn detours_do_not_matter(through: Protocol, to: Protocol, q: RequestView)
    requires
        is_kept_request(through, q),
        surviving(through, q) == q,
    ensures
        read_request(through, write_request(through, q)) is Ok,
        write_request(to, read_request(through, write_request(through, q))->Ok_0) == write_request(
            to,
            q,
        ),
{
    requests_survive(through, q);
}

/// A request of texts survives every protocol, whatever tools and settings it comes with.
pub proof fn texts_survive(protocol: Protocol, q: RequestView)
    requires
        q.model.len() > 0,
        forall|i: int|
            0 <= i < q.messages.len() ==> (#[trigger] q.messages[i]).role != CanonicalRole::System
                && lone_text(q.messages[i].content),
        q.system is Some ==> lone_text(q.system->Some_0),
        q.stop_sequences is Some ==> q.stop_sequences->Some_0.len() > 0
            && q.stop_sequences->Some_0[0].len() > 0,
        q.tools is Some ==> q.tools->Some_0.len() > 0,
        q.unmapped.len() == 0,
    ensures
        read_request(protocol, write_request(protocol, q)) == Ok::<RequestView, ConvertError>(
            surviving(protocol, q),
        ),
{
    assert forall|i: int| 0 <= i < q.messages.len() implies keeps_message(
        protocol,
        #[trigger] q.messages[i],
    ) by {
        assert(q.messages[i].role != CanonicalRole::System);
    }
    requests_survive(protocol, q);
}

/// The fields of a block have different names.
proof fn block_keys()
    ensures
        "type"@ != "text"@,
        "type"@ != "thinking"@,
        "type"@ != "source"@,
        "type"@ != "id"@,
        "type"@ != "name"@,
        "type"@ != "input"@,
        "type"@ != "tool_use_id"@,
        "type"@ != "content"@,
        "type"@ != "media_type"@,
        "type"@ != "data"@,
        "type"@ != "url"@,
        "text"@ != "thinking"@,
        "text"@ != "source"@,
        "text"@ != "id"@,
        "text"@ != "name"@,
        "text"@ != "input"@,
        "text"@ != "tool_use_id"@,
        "text"@ != "content"@,
        "text"@ != "media_type"@,
        "text"@ != "data"@,
        "text"@ != "url"@,
        "thinking"@ != "source"@,
        "thinking"@ != "id"@,
        "thinking"@ != "name"@,
        "thinking"@ != "input"@,
        "thinking"@ != "tool_use_id"@,
        "thinking"@ != "content"@,
        "thinking"@ != "media_type"@,
        "thinking"@ != "data"@,
        "thinking"@ != "url"@,
        "source"@ != "id"@,
        "source"@ != "name"@,
        "source"@ != "input"@,
        "source"@ != "tool_use_id"@,
        "source"@ != "content"@,
        "source"@ != "media_type"@,
        "source"@ != "data"@,
        "source"@ != "url"@,
        "id"@ != "name"@,
        "id"@ != "input"@,
        "id"@ != "tool_use_id"@,
        "id"@ != "content"@,
        "id"@ != "media_type"@,
        "id"@ != "data"@,
        "id"@ != "url"@,
        "name"@ != "input"@,
        "name"@ != "tool_use_id"@,
        "name"@ != "content"@,
        "name"@ != "media_type"@,
        "name"@ != "data"@,
        "name"@ != "url"@,
        "input"@ != "tool_use_id"@,
        "input"@ != "content"@,
        "input"@ != "media_type"@,
        "input"@ != "data"@,
        "input"@ != "url"@,
        "tool_use_id"@ != "content"@,
        "tool_use_id"@ != "media_type"@,
        "tool_use_id"@ != "data"@,
        "tool_use_id"@ != "url"@,
        "content"@ != "media_type"@,
        "content"@ != "data"@,
        "content"@ != "url"@,
        "media_type"@ != "data"@,
        "media_type"@ != "url"@,
        "data"@ != "url"@,
{
    reveal_strlit("type");
    reveal_strlit("text");
    reveal_strlit("thinking");
    reveal_strlit("source");
    reveal_strlit("id");
    reveal_strlit("name");
    reveal_strlit("input");
    reveal_strlit("tool_use_id");
    reveal_strlit("content");
    reveal_strlit("media_type");
    reveal_strlit("data");
    reveal_strlit("url");
    assert("type"@.len() == 4);
    assert("text"@.len() == 4);
    assert("thinking"@.len() == 8);
    assert("source"@.len() == 6);
    assert("id"@.len() == 2);
    assert("name"@.len() == 4);
    assert("input"@.len() == 5);
    assert("tool_use_id"@.len() == 11);
    assert("content"@.len() == 7);
    assert("media_type"@.len() == 10);
    assert("data"@.len() == 4);
    assert("url"@.len() == 3);
    assert("type"@[1] == 'y' && "text"@[1] == 'e');
    assert("type"@[0] == 't' && "name"@[0] == 'n');
    assert("type"@[0] == 't' && "data"@[0] == 'd');
    assert("text"@[0] == 't' && "name"@[0] == 'n');
    assert("text"@[0] == 't' && "data"@[0] == 'd');
    assert("name"@[0] == 'n' && "data"@[0] == 'd');
}

/// Kinds of blocks have different names.
proof fn block_kinds()
    ensures
        "text"@ != "image"@,
        "text"@ != "tool_use"@,
        "text"@ != "thinking"@,
        "text"@ != "tool_result"@,
        "image"@ != "tool_use"@,
        "image"@ != "thinking"@,
        "image"@ != "tool_result"@,
        "tool_use"@ != "thinking"@,
        "tool_use"@ != "tool_result"@,
        "thinking"@ != "tool_result"@,
{
    reveal_strlit("text");
    reveal_strlit("image");
    reveal_strlit("tool_use");
    reveal_strlit("thinking");
    reveal_strlit("tool_result");
    assert("text"@.len() == 4);
    assert("image"@.len() == 5);
    assert("tool_use"@.len() == 8);
    assert("thinking"@.len() == 8);
    assert("tool_result"@.len() == 11);
    assert("tool_use"@[1] == 'o' && "thinking"@[1] == 'h');
}

/// Kinds of image sources have different names.
proof fn source_kinds()
    ensures
        "base64"@ != "url"@,
{
    reveal_strlit("base64");
    reveal_strlit("url");
    assert("base64"@.len() == 6);
    assert("url"@.len() == 3);
}

/// Whether a block says something: texts and reasoning in it are not empty.
pub open spec fn says_something(b: BlockView) -> bool
    decreases b,
{
    match b {
        BlockView::Text { text } => text.len() > 0,
        BlockView::Reasoning { text } => text.len() > 0,
        BlockView::ToolResult { tool_use_id, content } => forall|i: int|
            0 <= i < content.len() ==> says_something(#[trigger] content[i]),
        _ => true,
    }
}

/// Every block that says something survives Anthropic's form: texts, reasoning, images, tool
/// calls and tool results, these with all that they hold.
pub proof fn anthropic_keeps_blocks(b: BlockView)
    requires
        says_something(b),
    ensures
        anthropic::item_content(anthropic::anthropic_block(b)) == seq![b],
    decreases b,
{
    block_keys();
    block_kinds();
    source_kinds();
    let v = anthropic::anthropic_block(b);
    match b {
        BlockView::Text { text } => {
            assert(v.str_at("type"@) == Some("text"@));
            assert(v.str_at("text"@) == Some(text));
        },
        BlockView::Reasoning { text } => {
            assert(v.str_at("type"@) == Some("thinking"@));
            assert(v.str_at("thinking"@) == Some(text));
        },
        BlockView::Image { source } => {
            assert(v.str_at("type"@) == Some("image"@));
            let src = anthropic::anthropic_image(source);
            assert(v.get("source"@) == Some(src));
        },
        BlockView::ToolUse { id, name, input } => {
            assert(v.str_at("type"@) == Some("tool_use"@));
            assert(v.str_at("id"@) == Some(id));
            assert(v.str_at("name"@) == Some(name));
            assert(v.get("input"@) == Some(input));
        },
        BlockView::ToolResult { tool_use_id, content } => {
            let items = anthropic::anthropic_blocks(content);
            assert(v.str_at("type"@) == Some("tool_result"@));
            assert(v.str_at("tool_use_id"@) == Some(tool_use_id));
            assert(v.get("content"@) == Some(content_field(items)));
            anthropic_keeps_content(content, content.len() as int);
            assert(items.take(content.len() as int) =~= items);
            assert(content.take(content.len() as int) =~= content);
            if items.len() == 1 && items[0].str_at("type"@) == Some("text"@) {
                lone_item_is_text(content);
            }
        },
    }
}

proof fn lone_item_is_text(content: Seq<BlockView>)
    requires
        content.len() == 1,
        says_something(content[0]),
        anthropic::anthropic_blocks(content)[0].str_at("type"@) == Some("text"@),
    ensures
        lone_text(content),
        content_field(anthropic::anthropic_blocks(content)) == JsonView::Str(content[0]->Text_text),
        text_content(content[0]->Text_text) == content,
{
    block_keys();
    block_kinds();
    let b = content[0];
    let v = anthropic::anthropic_block(b);
    assert(anthropic::anthropic_blocks(content)[0] == v);
    match b {
        BlockView::Text { text } => {
            lone_text_facts(content);
        },
        BlockView::Reasoning { text } => {
            assert(v.str_at("type"@) == Some("thinking"@));
        },
        BlockView::Image { source } => {
            assert(v.str_at("type"@) == Some("image"@));
        },
        BlockView::ToolUse { id, name, input } => {
            assert(v.str_at("type"@) == Some("tool_use"@));
        },
        BlockView::ToolResult { tool_use_id, content } => {
            assert(v.str_at("type"@) == Some("tool_result"@));
        },
    }
}

proof fn anthropic_keeps_content(s: Seq<BlockView>, n: int)
    requires
        0 <= n <= s.len(),
        forall|i: int| 0 <= i < s.len() ==> says_something(#[trigger] s[i]),
    ensures
        anthropic::items_content(anthropic::anthropic_blocks(s).take(n)) == s.take(n),
    decreases s, n,
{
    let items = anthropic::anthropic_blocks(s);
    if n == 0 {
        assert(items.take(0) =~= Seq::<JsonView>::empty());
        assert(s.take(0) =~= Seq::<BlockView>::empty());
    } else {
        anthropic_keeps_content(s, n - 1);
        assert(says_something(s[n - 1]));
        anthropic_keeps_blocks(s[n - 1]);
        assert(items.take(n).drop_last() =~= items.take(n - 1));
        assert(items[n - 1] == anthropic::anthropic_block(s[n - 1]));
        assert(s.take(n) =~= s.take(n - 1) + seq![s[n - 1]]);
    }
}

} // verus!
