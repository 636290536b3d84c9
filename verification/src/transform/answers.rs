//! What is left of a response that is written in a protocol and read back.
use crate::codec::{json_parse, json_text};
use crate::json::JsonView;
use crate::text::joined;
use crate::transform::anthropic;
use crate::transform::canonical::{
    BlockView, CanonicalStopReason, CanonicalUsage, ImageView, ResponseView,
};
use crate::transform::chat_completions;
use crate::transform::chat_completions::{
    answer_content, answer_message, content_field, function_call, items_at, openai_calls,
    requested_calls, reread, text_content, visible_texts,
};
use crate::transform::responses;
use crate::transform::survival::{lone_text, lone_text_facts, says_something};
use crate::transform::{read_response, write_response, Protocol};
use vstd::prelude::*;

verus! {

/// The fields of a Chat Completions response have different names.
proof fn chat_response_keys()
    ensures
        "id"@ != "model"@,
        "id"@ != "choices"@,
        "id"@ != "usage"@,
        "model"@ != "choices"@,
        "model"@ != "usage"@,
        "choices"@ != "usage"@,
{
    reveal_strlit("id");
    reveal_strlit("model");
    reveal_strlit("choices");
    reveal_strlit("usage");
    assert("id"@.len() == 2);
    assert("model"@.len() == 5);
    assert("choices"@.len() == 7);
    assert("usage"@.len() == 5);
    assert("model"@[0] == 'm' && "usage"@[0] == 'u');
}

/// The fields of a choice have different names.
proof fn choice_keys()
    ensures
        "index"@ != "message"@,
        "index"@ != "finish_reason"@,
        "message"@ != "finish_reason"@,
{
    reveal_strlit("index");
    reveal_strlit("message");
    reveal_strlit("finish_reason");
    assert("index"@.len() == 5);
    assert("message"@.len() == 7);
    assert("finish_reason"@.len() == 13);
}

/// Token counts have different names.
proof fn chat_usage_keys()
    ensures
        "prompt_tokens"@ != "completion_tokens"@,
        "prompt_tokens"@ != "total_tokens"@,
        "completion_tokens"@ != "total_tokens"@,
{
    reveal_strlit("prompt_tokens");
    reveal_strlit("completion_tokens");
    reveal_strlit("total_tokens");
    assert("prompt_tokens"@.len() == 13);
    assert("completion_tokens"@.len() == 17);
    assert("total_tokens"@.len() == 12);
}

/// Finish reasons have different names.
proof fn finish_names()
    ensures
        "stop"@ != "length"@,
        "stop"@ != "tool_calls"@,
        "stop"@ != "content_filter"@,
        "length"@ != "tool_calls"@,
        "length"@ != "content_filter"@,
        "tool_calls"@ != "content_filter"@,
{
    reveal_strlit("stop");
    reveal_strlit("length");
    reveal_strlit("tool_calls");
    reveal_strlit("content_filter");
    assert("stop"@.len() == 4);
    assert("length"@.len() == 6);
    assert("tool_calls"@.len() == 10);
    assert("content_filter"@.len() == 14);
}

/// The fields of a Messages response have different names.
proof fn anthropic_response_keys()
    ensures
        "id"@ != "model"@,
        "id"@ != "content"@,
        "id"@ != "type"@,
        "id"@ != "stop_reason"@,
        "id"@ != "usage"@,
        "model"@ != "content"@,
        "model"@ != "type"@,
        "model"@ != "stop_reason"@,
        "model"@ != "usage"@,
        "content"@ != "type"@,
        "content"@ != "stop_reason"@,
        "content"@ != "usage"@,
        "type"@ != "stop_reason"@,
        "type"@ != "usage"@,
        "stop_reason"@ != "usage"@,
{
    reveal_strlit("id");
    reveal_strlit("model");
    reveal_strlit("content");
    reveal_strlit("type");
    reveal_strlit("stop_reason");
    reveal_strlit("usage");
    assert("id"@.len() == 2);
    assert("model"@.len() == 5);
    assert("content"@.len() == 7);
    assert("type"@.len() == 4);
    assert("stop_reason"@.len() == 11);
    assert("usage"@.len() == 5);
    assert("model"@[0] == 'm' && "usage"@[0] == 'u');
}

/// Token counts have different names.
proof fn usage_keys()
    ensures
        "input_tokens"@ != "output_tokens"@,
        "input_tokens"@ != "total_tokens"@,
        "output_tokens"@ != "total_tokens"@,
{
    reveal_strlit("input_tokens");
    reveal_strlit("output_tokens");
    reveal_strlit("total_tokens");
    assert("input_tokens"@.len() == 12);
    assert("output_tokens"@.len() == 13);
    assert("total_tokens"@.len() == 12);
    assert("input_tokens"@[0] == 'i' && "total_tokens"@[0] == 't');
}

/// Stop reasons have different names.
proof fn anthropic_stops()
    ensures
        "end_turn"@ != "max_tokens"@,
        "end_turn"@ != "stop_sequence"@,
        "end_turn"@ != "tool_use"@,
        "max_tokens"@ != "stop_sequence"@,
        "max_tokens"@ != "tool_use"@,
        "stop_sequence"@ != "tool_use"@,
{
    reveal_strlit("end_turn");
    reveal_strlit("max_tokens");
    reveal_strlit("stop_sequence");
    reveal_strlit("tool_use");
    assert("end_turn"@.len() == 8);
    assert("max_tokens"@.len() == 10);
    assert("stop_sequence"@.len() == 13);
    assert("tool_use"@.len() == 8);
    assert("end_turn"@[0] == 'e' && "tool_use"@[0] == 't');
}

/// The fields of a Responses response have different names.
proof fn responses_response_keys()
    ensures
        "id"@ != "model"@,
        "id"@ != "output"@,
        "id"@ != "status"@,
        "id"@ != "stop_reason"@,
        "id"@ != "usage"@,
        "model"@ != "output"@,
        "model"@ != "status"@,
        "model"@ != "stop_reason"@,
        "model"@ != "usage"@,
        "output"@ != "status"@,
        "output"@ != "stop_reason"@,
        "output"@ != "usage"@,
        "status"@ != "stop_reason"@,
        "status"@ != "usage"@,
        "stop_reason"@ != "usage"@,
{
    reveal_strlit("id");
    reveal_strlit("model");
    reveal_strlit("output");
    reveal_strlit("status");
    reveal_strlit("stop_reason");
    reveal_strlit("usage");
    assert("id"@.len() == 2);
    assert("model"@.len() == 5);
    assert("output"@.len() == 6);
    assert("status"@.len() == 6);
    assert("stop_reason"@.len() == 11);
    assert("usage"@.len() == 5);
    assert("model"@[0] == 'm' && "usage"@[0] == 'u');
    assert("output"@[0] == 'o' && "status"@[0] == 's');
}

/// Stop reasons have different names.
proof fn responses_stops()
    ensures
        "end_turn"@ != "max_output_tokens"@,
        "end_turn"@ != "max_tokens"@,
        "end_turn"@ != "stop_sequence"@,
        "end_turn"@ != "tool_calls"@,
        "end_turn"@ != "function_call"@,
        "max_output_tokens"@ != "max_tokens"@,
        "max_output_tokens"@ != "stop_sequence"@,
        "max_output_tokens"@ != "tool_calls"@,
        "max_output_tokens"@ != "function_call"@,
        "max_tokens"@ != "stop_sequence"@,
        "max_tokens"@ != "tool_calls"@,
        "max_tokens"@ != "function_call"@,
        "stop_sequence"@ != "tool_calls"@,
        "stop_sequence"@ != "function_call"@,
        "tool_calls"@ != "function_call"@,
{
    reveal_strlit("end_turn");
    reveal_strlit("max_output_tokens");
    reveal_strlit("max_tokens");
    reveal_strlit("stop_sequence");
    reveal_strlit("tool_calls");
    reveal_strlit("function_call");
    assert("end_turn"@.len() == 8);
    assert("max_output_tokens"@.len() == 17);
    assert("max_tokens"@.len() == 10);
    assert("stop_sequence"@.len() == 13);
    assert("tool_calls"@.len() == 10);
    assert("function_call"@.len() == 13);
    assert("max_tokens"@[0] == 'm' && "tool_calls"@[0] == 't');
    assert("stop_sequence"@[0] == 's' && "function_call"@[0] == 'f');
}

/// Statuses have different names.
proof fn statuses()
    ensures
        "in_progress"@ != "incomplete"@,
        "in_progress"@ != "completed"@,
        "incomplete"@ != "completed"@,
{
    reveal_strlit("in_progress");
    reveal_strlit("incomplete");
    reveal_strlit("completed");
    assert("in_progress"@.len() == 11);
    assert("incomplete"@.len() == 10);
    assert("completed"@.len() == 9);
}

/// The fields of a tool call have different names.
proof fn call_keys()
    ensures
        "id"@ != "type"@,
        "id"@ != "function"@,
        "id"@ != "name"@,
        "id"@ != "arguments"@,
        "id"@ != "call_id"@,
        "type"@ != "function"@,
        "type"@ != "name"@,
        "type"@ != "arguments"@,
        "type"@ != "call_id"@,
        "function"@ != "name"@,
        "function"@ != "arguments"@,
        "function"@ != "call_id"@,
        "name"@ != "arguments"@,
        "name"@ != "call_id"@,
        "arguments"@ != "call_id"@,
{
    reveal_strlit("id");
    reveal_strlit("type");
    reveal_strlit("function");
    reveal_strlit("name");
    reveal_strlit("arguments");
    reveal_strlit("call_id");
    assert("id"@.len() == 2);
    assert("type"@.len() == 4);
    assert("function"@.len() == 8);
    assert("name"@.len() == 4);
    assert("arguments"@.len() == 9);
    assert("call_id"@.len() == 7);
    assert("type"@[0] == 't' && "name"@[0] == 'n');
}

/// The fields of an answer have different names.
proof fn message_fields()
    ensures
        "role"@ != "content"@,
        "role"@ != "tool_calls"@,
        "role"@ != "reasoning_content"@,
        "role"@ != "reasoning"@,
        "role"@ != "thinking"@,
        "content"@ != "tool_calls"@,
        "content"@ != "reasoning_content"@,
        "content"@ != "reasoning"@,
        "content"@ != "thinking"@,
        "tool_calls"@ != "reasoning_content"@,
        "tool_calls"@ != "reasoning"@,
        "tool_calls"@ != "thinking"@,
        "reasoning_content"@ != "reasoning"@,
        "reasoning_content"@ != "thinking"@,
        "reasoning"@ != "thinking"@,
{
    reveal_strlit("role");
    reveal_strlit("content");
    reveal_strlit("tool_calls");
    reveal_strlit("reasoning_content");
    reveal_strlit("reasoning");
    reveal_strlit("thinking");
    assert("role"@.len() == 4);
    assert("content"@.len() == 7);
    assert("tool_calls"@.len() == 10);
    assert("reasoning_content"@.len() == 17);
    assert("reasoning"@.len() == 9);
    assert("thinking"@.len() == 8);
}

/// The fields of an output item have different names.
proof fn output_keys()
    ensures
        "type"@ != "content"@,
        "type"@ != "summary"@,
        "type"@ != "text"@,
        "type"@ != "image_url"@,
        "type"@ != "format"@,
        "type"@ != "id"@,
        "type"@ != "call_id"@,
        "type"@ != "name"@,
        "type"@ != "arguments"@,
        "content"@ != "summary"@,
        "content"@ != "text"@,
        "content"@ != "image_url"@,
        "content"@ != "format"@,
        "content"@ != "id"@,
        "content"@ != "call_id"@,
        "content"@ != "name"@,
        "content"@ != "arguments"@,
        "summary"@ != "text"@,
        "summary"@ != "image_url"@,
        "summary"@ != "format"@,
        "summary"@ != "id"@,
        "summary"@ != "call_id"@,
        "summary"@ != "name"@,
        "summary"@ != "arguments"@,
        "text"@ != "image_url"@,
        "text"@ != "format"@,
        "text"@ != "id"@,
        "text"@ != "call_id"@,
        "text"@ != "name"@,
        "text"@ != "arguments"@,
        "image_url"@ != "format"@,
        "image_url"@ != "id"@,
        "image_url"@ != "call_id"@,
        "image_url"@ != "name"@,
        "image_url"@ != "arguments"@,
        "format"@ != "id"@,
        "format"@ != "call_id"@,
        "format"@ != "name"@,
        "format"@ != "arguments"@,
        "id"@ != "call_id"@,
        "id"@ != "name"@,
        "id"@ != "arguments"@,
        "call_id"@ != "name"@,
        "call_id"@ != "arguments"@,
        "name"@ != "arguments"@,
{
    reveal_strlit("type");
    reveal_strlit("content");
    reveal_strlit("summary");
    reveal_strlit("text");
    reveal_strlit("image_url");
    reveal_strlit("format");
    reveal_strlit("id");
    reveal_strlit("call_id");
    reveal_strlit("name");
    reveal_strlit("arguments");
    assert("type"@.len() == 4);
    assert("content"@.len() == 7);
    assert("summary"@.len() == 7);
    assert("text"@.len() == 4);
    assert("image_url"@.len() == 9);
    assert("format"@.len() == 6);
    assert("id"@.len() == 2);
    assert("call_id"@.len() == 7);
    assert("name"@.len() == 4);
    assert("arguments"@.len() == 9);
    assert("type"@[1] == 'y' && "text"@[1] == 'e');
    assert("type"@[0] == 't' && "name"@[0] == 'n');
    assert("content"@[0] == 'c' && "summary"@[0] == 's');
    assert("content"@[1] == 'o' && "call_id"@[1] == 'a');
    assert("summary"@[0] == 's' && "call_id"@[0] == 'c');
    assert("text"@[0] == 't' && "name"@[0] == 'n');
    assert("image_url"@[0] == 'i' && "arguments"@[0] == 'a');
}

/// The kinds of output items and of their pieces have different names.
proof fn output_kinds()
    ensures
        "message"@ != "function_call"@,
        "message"@ != "reasoning"@,
        "message"@ != "text"@,
        "message"@ != "input_text"@,
        "message"@ != "output_text"@,
        "message"@ != "reasoning_text"@,
        "message"@ != "summary_text"@,
        "message"@ != "image_url"@,
        "message"@ != "input_image"@,
        "function_call"@ != "reasoning"@,
        "function_call"@ != "text"@,
        "function_call"@ != "input_text"@,
        "function_call"@ != "output_text"@,
        "function_call"@ != "reasoning_text"@,
        "function_call"@ != "summary_text"@,
        "function_call"@ != "image_url"@,
        "function_call"@ != "input_image"@,
        "reasoning"@ != "text"@,
        "reasoning"@ != "input_text"@,
        "reasoning"@ != "output_text"@,
        "reasoning"@ != "reasoning_text"@,
        "reasoning"@ != "summary_text"@,
        "reasoning"@ != "image_url"@,
        "reasoning"@ != "input_image"@,
        "text"@ != "input_text"@,
        "text"@ != "output_text"@,
        "text"@ != "reasoning_text"@,
        "text"@ != "summary_text"@,
        "text"@ != "image_url"@,
        "text"@ != "input_image"@,
        "input_text"@ != "output_text"@,
        "input_text"@ != "reasoning_text"@,
        "input_text"@ != "summary_text"@,
        "input_text"@ != "image_url"@,
        "input_text"@ != "input_image"@,
        "output_text"@ != "reasoning_text"@,
        "output_text"@ != "summary_text"@,
        "output_text"@ != "image_url"@,
        "output_text"@ != "input_image"@,
        "reasoning_text"@ != "summary_text"@,
        "reasoning_text"@ != "image_url"@,
        "reasoning_text"@ != "input_image"@,
        "summary_text"@ != "image_url"@,
        "summary_text"@ != "input_image"@,
        "image_url"@ != "input_image"@,
{
    reveal_strlit("message");
    reveal_strlit("function_call");
    reveal_strlit("reasoning");
    reveal_strlit("text");
    reveal_strlit("input_text");
    reveal_strlit("output_text");
    reveal_strlit("reasoning_text");
    reveal_strlit("summary_text");
    reveal_strlit("image_url");
    reveal_strlit("input_image");
    assert("message"@.len() == 7);
    assert("function_call"@.len() == 13);
    assert("reasoning"@.len() == 9);
    assert("text"@.len() == 4);
    assert("input_text"@.len() == 10);
    assert("output_text"@.len() == 11);
    assert("reasoning_text"@.len() == 14);
    assert("summary_text"@.len() == 12);
    assert("image_url"@.len() == 9);
    assert("input_image"@.len() == 11);
    assert("reasoning"@[0] == 'r' && "image_url"@[0] == 'i');
    assert("output_text"@[0] == 'o' && "input_image"@[0] == 'i');
}

/// The fields of a block have different names.
proof fn said_keys()
    ensures
        "type"@ != "text"@,
        "type"@ != "thinking"@,
        "type"@ != "source"@,
        "type"@ != "id"@,
        "type"@ != "name"@,
        "type"@ != "input"@,
        "type"@ != "tool_use_id"@,
        "type"@ != "content"@,
        "type"@ != "media_type"@,
        "type"@ != "data"@,
        "type"@ != "url"@,
        "text"@ != "thinking"@,
        "text"@ != "source"@,
        "text"@ != "id"@,
        "text"@ != "name"@,
        "text"@ != "input"@,
        "text"@ != "tool_use_id"@,
        "text"@ != "content"@,
        "text"@ != "media_type"@,
        "text"@ != "data"@,
        "text"@ != "url"@,
        "thinking"@ != "source"@,
        "thinking"@ != "id"@,
        "thinking"@ != "name"@,
        "thinking"@ != "input"@,
        "thinking"@ != "tool_use_id"@,
        "thinking"@ != "content"@,
        "thinking"@ != "media_type"@,
        "thinking"@ != "data"@,
        "thinking"@ != "url"@,
        "source"@ != "id"@,
        "source"@ != "name"@,
        "source"@ != "input"@,
        "source"@ != "tool_use_id"@,
        "source"@ != "content"@,
        "source"@ != "media_type"@,
        "source"@ != "data"@,
        "source"@ != "url"@,
        "id"@ != "name"@,
        "id"@ != "input"@,
        "id"@ != "tool_use_id"@,
        "id"@ != "content"@,
        "id"@ != "media_type"@,
        "id"@ != "data"@,
        "id"@ != "url"@,
        "name"@ != "input"@,
        "name"@ != "tool_use_id"@,
        "name"@ != "content"@,
        "name"@ != "media_type"@,
        "name"@ != "data"@,
        "name"@ != "url"@,
        "input"@ != "tool_use_id"@,
        "input"@ != "content"@,
        "input"@ != "media_type"@,
        "input"@ != "data"@,
        "input"@ != "url"@,
        "tool_use_id"@ != "content"@,
        "tool_use_id"@ != "media_type"@,
        "tool_use_id"@ != "data"@,
        "tool_use_id"@ != "url"@,
        "content"@ != "media_type"@,
        "content"@ != "data"@,
        "content"@ != "url"@,
        "media_type"@ != "data"@,
        "media_type"@ != "url"@,
        "data"@ != "url"@,
{
    reveal_strlit("type");
    reveal_strlit("text");
    reveal_strlit("thinking");
    reveal_strlit("source");
    reveal_strlit("id");
    reveal_strlit("name");
    reveal_strlit("input");
    reveal_strlit("tool_use_id");
    reveal_strlit("content");
    reveal_strlit("media_type");
    reveal_strlit("data");
    reveal_strlit("url");
    assert("type"@.len() == 4);
    assert("text"@.len() == 4);
    assert("thinking"@.len() == 8);
    assert("source"@.len() == 6);
    assert("id"@.len() == 2);
    assert("name"@.len() == 4);
    assert("input"@.len() == 5);
    assert("tool_use_id"@.len() == 11);
    assert("content"@.len() == 7);
    assert("media_type"@.len() == 10);
    assert("data"@.len() == 4);
    assert("url"@.len() == 3);
    assert("type"@[1] == 'y' && "text"@[1] == 'e');
    assert("type"@[0] == 't' && "name"@[0] == 'n');
    assert("type"@[0] == 't' && "data"@[0] == 'd');
    assert("text"@[0] == 't' && "name"@[0] == 'n');
    assert("text"@[0] == 't' && "data"@[0] == 'd');
    assert("name"@[0] == 'n' && "data"@[0] == 'd');
}

/// The kinds of blocks have different names.
proof fn said_kinds()
    ensures
        "text"@ != "image"@,
        "text"@ != "tool_use"@,
        "text"@ != "thinking"@,
        "text"@ != "tool_result"@,
        "text"@ != "base64"@,
        "text"@ != "url"@,
        "image"@ != "tool_use"@,
        "image"@ != "thinking"@,
        "image"@ != "tool_result"@,
        "image"@ != "base64"@,
        "image"@ != "url"@,
        "tool_use"@ != "thinking"@,
        "tool_use"@ != "tool_result"@,
        "tool_use"@ != "base64"@,
        "tool_use"@ != "url"@,
        "thinking"@ != "tool_result"@,
        "thinking"@ != "base64"@,
        "thinking"@ != "url"@,
        "tool_result"@ != "base64"@,
        "tool_result"@ != "url"@,
        "base64"@ != "url"@,
{
    reveal_strlit("text");
    reveal_strlit("image");
    reveal_strlit("tool_use");
    reveal_strlit("thinking");
    reveal_strlit("tool_result");
    reveal_strlit("base64");
    reveal_strlit("url");
    assert("text"@.len() == 4);
    assert("image"@.len() == 5);
    assert("tool_use"@.len() == 8);
    assert("thinking"@.len() == 8);
    assert("tool_result"@.len() == 11);
    assert("base64"@.len() == 6);
    assert("url"@.len() == 3);
    assert("tool_use"@[1] == 'o' && "thinking"@[1] == 'h');
}

/// The tool calls among the blocks as Chat Completions gives them back: their arguments come as
/// JSON text.
pub open spec fn chat_calls(s: Seq<BlockView>) -> Seq<BlockView>
    decreases s.len(),
{
    if s.len() == 0 {
        Seq::empty()
    } else {
        match s.last() {
            BlockView::ToolUse { id, name, input } => chat_calls(s.drop_last()).push(
                BlockView::ToolUse { id, name, input: reread(JsonView::Str(json_text(input))) },
            ),
            _ => chat_calls(s.drop_last()),
        }
    }
}

/// The arguments of a tool call after they were written as text and read.
pub open spec fn reparsed(input: JsonView) -> JsonView {
    match json_parse(json_text(input)) {
        Some(v) => v,
        None => JsonView::object().with("raw"@, JsonView::Str(json_text(input))),
    }
}

/// The reasoning and the images among the blocks as Responses gives them back: images come as
/// references.
pub open spec fn shown_singles(s: Seq<BlockView>) -> Seq<BlockView>
    decreases s.len(),
{
    if s.len() == 0 {
        Seq::empty()
    } else {
        let before = shown_singles(s.drop_last());
        match s.last() {
            BlockView::Reasoning { text } => if text.len() == 0 {
                before
            } else {
                before.push(s.last())
            },
            BlockView::Image { source: ImageView::Url { url } } => before.push(s.last()),
            BlockView::Image { source: ImageView::Base64 { media_type, data } } => before.push(
                BlockView::Image { source: ImageView::Url { url: data } },
            ),
            _ => before,
        }
    }
}

/// The texts among the blocks that are not empty.
pub open spec fn shown_texts(s: Seq<BlockView>) -> Seq<BlockView>
    decreases s.len(),
{
    if s.len() == 0 {
        Seq::empty()
    } else {
        match s.last() {
            BlockView::Text { text } => shown_texts(s.drop_last()) + text_content(text),
            _ => shown_texts(s.drop_last()),
        }
    }
}

/// The tool calls among the blocks that have an id, with their arguments read again.
pub open spec fn shown_calls(s: Seq<BlockView>) -> Seq<BlockView>
    decreases s.len(),
{
    if s.len() == 0 {
        Seq::empty()
    } else {
        let before = shown_calls(s.drop_last());
        match s.last() {
            BlockView::ToolUse { id, name, input } => if id.len() == 0 {
                before
            } else {
                before.push(BlockView::ToolUse { id, name, input: reparsed(input) })
            },
            _ => before,
        }
    }
}

/// A block as Anthropic's protocol gives it back: empty texts are left out.
pub open spec fn said(b: BlockView) -> Seq<BlockView>
    decreases b,
{
    match b {
        BlockView::Text { text } => text_content(text),
        BlockView::Reasoning { text } => if text.len() == 0 {
            Seq::empty()
        } else {
            seq![b]
        },
        BlockView::ToolResult { tool_use_id, content } => seq![
            BlockView::ToolResult { tool_use_id, content: said_all(content) },
        ],
        _ => seq![b],
    }
}

/// Blocks as Anthropic's protocol gives them back.
pub open spec fn said_all(s: Seq<BlockView>) -> Seq<BlockView>
    decreases s,
{
    if s.len() == 0 {
        Seq::empty()
    } else {
        said_all(s.drop_last()) + said(s.last())
    }
}

/// What the content of a response is after it went through a protocol. Chat Completions gives
/// the tool calls first and all that can be read as one text behind them; Responses gives
/// reasoning and images, texts, and tool calls in this order; Anthropic's protocol keeps the
/// order.
pub open spec fn surviving_content(protocol: Protocol, s: Seq<BlockView>) -> Seq<BlockView> {
    match protocol {
        Protocol::ChatCompletions => chat_calls(s) + text_content(joined(visible_texts(s), "\n\n"@)),
        Protocol::Responses => shown_singles(s) + shown_texts(s) + shown_calls(s),
        Protocol::AnthropicMessages => said_all(s),
    }
}

/// What a response is after it went through a protocol. Chat Completions does not tell a stop at
/// a stop sequence from an ordinary end, and Anthropic's protocol does not give the sum of the
/// token counts.
pub open spec fn surviving_response(protocol: Protocol, p: ResponseView) -> ResponseView {
    ResponseView {
        content: surviving_content(protocol, p.content),
        stop_reason: if protocol == Protocol::ChatCompletions && p.stop_reason == Some(
            CanonicalStopReason::StopSequence,
        ) {
            Some(CanonicalStopReason::EndTurn)
        } else {
            p.stop_reason
        },
        usage: match (protocol, p.usage) {
            (Protocol::AnthropicMessages, Some(u)) => Some(
                CanonicalUsage { total_tokens: None, ..u },
            ),
            _ => p.usage,
        },
        ..p
    }
}

proof fn chat_calls_survive(s: Seq<BlockView>)
    ensures
        requested_calls(openai_calls(s)) == chat_calls(s),
    decreases s.len(),
{
    if s.len() > 0 {
        call_keys();
        chat_calls_survive(s.drop_last());
        let before = openai_calls(s.drop_last());
        match s.last() {
            BlockView::ToolUse { id, name, input } => {
                let after = openai_calls(s);
                let v = after.last();
                let f = function_call(name, input);
                assert(after.drop_last() =~= before);
                assert(v.str_at("id"@) == Some(id));
                assert(v.get("function"@) == Some(f));
                assert(f.str_at("name"@) == Some(name));
                assert(f.get("arguments"@) == Some(JsonView::Str(json_text(input))));
            },
            _ => {},
        }
    }
}

proof fn chat_answer_survives(s: Seq<BlockView>)
    ensures
        answer_content(answer_message(s)) == surviving_content(Protocol::ChatCompletions, s),
{
    message_fields();
    chat_calls_survive(s);
    let m = answer_message(s);
    let calls = openai_calls(s);
    let seen = visible_texts(s);
    assert(items_at(m, "tool_calls"@) =~= calls);
    assert(m.get("reasoning_content"@) is None);
    assert(m.get("reasoning"@) is None);
    assert(m.get("thinking"@) is None);
    if seen.len() > 0 {
        assert(m.str_at("content"@) == Some(joined(seen, "\n\n"@)));
    } else {
        reveal_strlit("");
        assert(m.text_at("content"@).len() == 0);
        assert(m.text_at("content"@) =~= joined(seen, "\n\n"@));
    }
    assert(chat_calls(s) + Seq::<BlockView>::empty() =~= chat_calls(s));
}

proof fn chat_response_survives(p: ResponseView)
    ensures
        chat_completions::response_of(chat_completions::openai_response(p)) == surviving_response(
            Protocol::ChatCompletions,
            p,
        ),
{
    chat_response_keys();
    choice_keys();
    chat_usage_keys();
    finish_names();
    chat_answer_survives(p.content);
    let body = chat_completions::openai_response(p);
    assert(body.str_at("id"@) == Some(p.id));
    assert(body.str_at("model"@) == Some(p.model));
    let choices = items_at(body, "choices"@);
    assert(choices.len() == 1);
    let choice = choices[0];
    assert(choice.get("message"@) == Some(answer_message(p.content)));
    match p.stop_reason {
        Some(reason) => {
            assert(choice.str_at("finish_reason"@) == Some(chat_completions::finish_name(reason)));
        },
        None => {
            assert(choice.get("finish_reason"@) is None);
        },
    }
    match p.usage {
        Some(u) => {
            let v = chat_completions::openai_usage(u);
            assert(body.get("usage"@) == Some(v));
            assert(v.u64_at("prompt_tokens"@) == Some(u.input_tokens));
            assert(v.u64_at("completion_tokens"@) == Some(u.output_tokens));
            assert(v.u64_at("total_tokens"@) == u.total_tokens);
        },
        None => {
            assert(body.get("usage"@) is None);
        },
    }
}

proof fn outputs_append(a: Seq<JsonView>, b: Seq<JsonView>)
    ensures
        responses::outputs_content(a + b) == responses::outputs_content(a)
            + responses::outputs_content(b),
    decreases b.len(),
{
    let first = responses::outputs_content(a);
    if b.len() == 0 {
        assert(a + b =~= a);
        assert(first + responses::outputs_content(b) =~= first);
    } else {
        outputs_append(a, b.drop_last());
        assert((a + b).drop_last() =~= a + b.drop_last());
        assert(responses::outputs_content(a + b) =~= first + responses::outputs_content(b));
    }
}

proof fn one_part(v: JsonView)
    ensures
        responses::parts_of(seq![v]) == (match responses::part_of(v) {
            Some(b) => seq![b],
            None => Seq::<BlockView>::empty(),
        }),
{
    reveal_with_fuel(responses::parts_of, 2);
    let s = seq![v];
    assert(s.drop_last() =~= Seq::<JsonView>::empty());
    assert(responses::parts_of(s) =~= (match responses::part_of(v) {
        Some(b) => seq![b],
        None => Seq::<BlockView>::empty(),
    }));
}

proof fn singles_survive(s: Seq<BlockView>)
    ensures
        responses::outputs_content(responses::single_items(s)) == shown_singles(s),
    decreases s.len(),
{
    if s.len() > 0 {
        output_keys();
        output_kinds();
        singles_survive(s.drop_last());
        let before = responses::single_items(s.drop_last());
        let after = responses::single_items(s);
        match s.last() {
            BlockView::Reasoning { text } => {
                let item = responses::reasoning_item(text);
                let part = items_at(item, "summary"@)[0];
                assert(after.drop_last() =~= before);
                assert(item.str_at("type"@) == Some("reasoning"@));
                assert(items_at(item, "summary"@) =~= seq![part]);
                assert(item.get("content"@) is None);
                assert(part.str_at("type"@) == Some("reasoning_text"@));
                assert(part.str_at("text"@) == Some(text));
                one_part(part);
                assert(responses::outputs_content(after) =~= shown_singles(s));
            },
            BlockView::Image { source } => {
                let item = responses::image_item(source);
                let part = items_at(item, "content"@)[0];
                assert(after.drop_last() =~= before);
                assert(item.str_at("type"@) == Some("message"@));
                assert(items_at(item, "content"@) =~= seq![part]);
                assert(part.str_at("type"@) == Some("input_image"@));
                assert(part.str_at("image_url"@) is Some);
                one_part(part);
                assert(responses::outputs_content(after) =~= shown_singles(s));
            },
            _ => {},
        }
    }
}

proof fn texts_survive(s: Seq<BlockView>)
    ensures
        responses::parts_of(responses::text_parts(s)) == shown_texts(s),
    decreases s.len(),
{
    if s.len() > 0 {
        output_keys();
        output_kinds();
        texts_survive(s.drop_last());
        let before = responses::text_parts(s.drop_last());
        let after = responses::text_parts(s);
        match s.last() {
            BlockView::Text { text } => {
                let part = responses::text_part(text);
                assert(after.drop_last() =~= before);
                assert(part.str_at("type"@) == Some("output_text"@));
                assert(part.str_at("text"@) == Some(text));
                assert(responses::parts_of(after) =~= shown_texts(s));
            },
            _ => {},
        }
    }
}

proof fn calls_survive(s: Seq<BlockView>)
    ensures
        responses::outputs_content(responses::output_calls(s)) == shown_calls(s),
    decreases s.len(),
{
    if s.len() > 0 {
        output_keys();
        output_kinds();
        calls_survive(s.drop_last());
        let before = responses::output_calls(s.drop_last());
        let after = responses::output_calls(s);
        match s.last() {
            BlockView::ToolUse { id, name, input } => {
                let item = responses::output_call(id, name, input);
                assert(after.drop_last() =~= before);
                assert(item.str_at("type"@) == Some("function_call"@));
                assert(item.str_at("id"@) == Some(id));
                assert(item.str_at("call_id"@) == Some(id));
                assert(item.str_at("name"@) == Some(name));
                assert(item.str_at("arguments"@) == Some(json_text(input)));
                assert(responses::arguments_of(item) == reparsed(input));
                assert(responses::outputs_content(after) =~= shown_calls(s));
            },
            _ => {},
        }
    }
}

proof fn responses_content_survives(s: Seq<BlockView>)
    ensures
        responses::outputs_content(responses::output_items(s)) == surviving_content(
            Protocol::Responses,
            s,
        ),
{
    output_keys();
    output_kinds();
    singles_survive(s);
    texts_survive(s);
    calls_survive(s);
    let singles = responses::single_items(s);
    let parts = responses::text_parts(s);
    let calls = responses::output_calls(s);
    let item = JsonView::object().with("type"@, JsonView::Str("message"@)).with(
        "content"@,
        JsonView::Array(parts),
    );
    let texts = if parts.len() == 0 {
        Seq::empty()
    } else {
        seq![item]
    };
    if parts.len() == 0 {
        assert(responses::parts_of(parts) =~= Seq::<BlockView>::empty());
    } else {
        reveal_with_fuel(responses::outputs_content, 2);
        assert(texts.drop_last() =~= Seq::<JsonView>::empty());
        assert(item.str_at("type"@) == Some("message"@));
        assert(items_at(item, "content"@) == parts);
        assert(responses::outputs_content(texts) =~= shown_texts(s));
    }
    outputs_append(singles, texts);
    outputs_append(singles + texts, calls);
}

proof fn responses_response_survives(p: ResponseView)
    ensures
        responses::response_of(responses::responses_response(p)) == surviving_response(
            Protocol::Responses,
            p,
        ),
{
    responses_response_keys();
    usage_keys();
    responses_stops();
    statuses();
    responses_content_survives(p.content);
    let body = responses::responses_response(p);
    assert(body.str_at("id"@) == Some(p.id));
    assert(body.str_at("model"@) == Some(p.model));
    let items = items_at(body, "output"@);
    assert(items == responses::output_items(p.content));
    match p.stop_reason {
        Some(reason) => {
            assert(body.str_at("status"@) == Some("completed"@));
            assert(body.str_at("stop_reason"@) == Some(responses::stop_name(reason)));
            reveal_strlit("end_turn");
            reveal_strlit("max_output_tokens");
            reveal_strlit("stop_sequence");
            reveal_strlit("tool_calls");
            assert(responses::stop_of(
                "completed"@,
                responses::stop_name(reason),
                responses::any_call(items),
            ) == Some(reason));
        },
        None => {
            assert(body.str_at("status"@) == Some("in_progress"@));
        },
    }
    match p.usage {
        Some(u) => {
            let v = body.at("usage"@);
            assert(v.u64_at("input_tokens"@) == Some(u.input_tokens));
            assert(v.u64_at("output_tokens"@) == Some(u.output_tokens));
            assert(v.u64_at("total_tokens"@) == u.total_tokens);
            assert(responses::usage_of(body) == Some(u));
        },
        None => {
            assert(body.get("usage"@) is None);
        },
    }
    assert(responses::response_of(body).stop_reason == p.stop_reason);
}

proof fn anthropic_block_survives(b: BlockView)
    ensures
        anthropic::item_content(anthropic::anthropic_block(b)) == said(b),
    decreases b,
{
    said_keys();
    said_kinds();
    let v = anthropic::anthropic_block(b);
    match b {
        BlockView::Text { text } => {
            assert(v.str_at("type"@) == Some("text"@));
            assert(v.str_at("text"@) == Some(text));
        },
        BlockView::Reasoning { text } => {
            assert(v.str_at("type"@) == Some("thinking"@));
            assert(v.str_at("thinking"@) == Some(text));
        },
        BlockView::Image { source } => {
            let src = anthropic::anthropic_image(source);
            assert(v.str_at("type"@) == Some("image"@));
            assert(v.get("source"@) == Some(src));
        },
        BlockView::ToolUse { id, name, input } => {
            assert(v.str_at("type"@) == Some("tool_use"@));
            assert(v.str_at("id"@) == Some(id));
            assert(v.str_at("name"@) == Some(name));
            assert(v.get("input"@) == Some(input));
        },
        BlockView::ToolResult { tool_use_id, content } => {
            let items = anthropic::anthropic_blocks(content);
            assert(v.str_at("type"@) == Some("tool_result"@));
            assert(v.str_at("tool_use_id"@) == Some(tool_use_id));
            assert(v.get("content"@) == Some(content_field(items)));
            anthropic_content_survives(content, content.len() as int);
            assert(items.take(content.len() as int) =~= items);
            assert(content.take(content.len() as int) =~= content);
            if items.len() == 1 && items[0].str_at("type"@) == Some("text"@) {
                lone_item_survives(content);
            }
        },
    }
}

proof fn lone_item_survives(content: Seq<BlockView>)
    requires
        content.len() == 1,
        anthropic::anthropic_blocks(content)[0].str_at("type"@) == Some("text"@),
    ensures
        content[0] is Text,
        content_field(anthropic::anthropic_blocks(content)) == JsonView::Str(content[0]->Text_text),
        said_all(content) == text_content(content[0]->Text_text),
{
    said_keys();
    said_kinds();
    let b = content[0];
    let v = anthropic::anthropic_block(b);
    assert(anthropic::anthropic_blocks(content)[0] == v);
    match b {
        BlockView::Text { text } => {
            assert(v.get("text"@) == Some(JsonView::Str(text)));
            reveal_with_fuel(said_all, 2);
            assert(content.drop_last() =~= Seq::<BlockView>::empty());
            assert(said_all(content) =~= text_content(text));
        },
        BlockView::Reasoning { text } => {
            assert(v.str_at("type"@) == Some("thinking"@));
        },
        BlockView::Image { source } => {
            assert(v.str_at("type"@) == Some("image"@));
        },
        BlockView::ToolUse { id, name, input } => {
            assert(v.str_at("type"@) == Some("tool_use"@));
        },
        BlockView::ToolResult { tool_use_id, content } => {
            assert(v.str_at("type"@) == Some("tool_result"@));
        },
    }
}

proof fn anthropic_content_survives(s: Seq<BlockView>, n: int)
    requires
        0 <= n <= s.len(),
    ensures
        anthropic::items_content(anthropic::anthropic_blocks(s).take(n)) == said_all(s.take(n)),
    decreases s, n,
{
    let items = anthropic::anthropic_blocks(s);
    if n == 0 {
        assert(items.take(0) =~= Seq::<JsonView>::empty());
        assert(s.take(0) =~= Seq::<BlockView>::empty());
    } else {
        anthropic_content_survives(s, n - 1);
        anthropic_block_survives(s[n - 1]);
        assert(items.take(n).drop_last() =~= items.take(n - 1));
        assert(items[n - 1] == anthropic::anthropic_block(s[n - 1]));
        assert(s.take(n).drop_last() =~= s.take(n - 1));
    }
}

proof fn anthropic_response_survives(p: ResponseView)
    ensures
        anthropic::response_of(anthropic::anthropic_response(p)) == surviving_response(
            Protocol::AnthropicMessages,
            p,
        ),
{
    anthropic_response_keys();
    usage_keys();
    anthropic_stops();
    let body = anthropic::anthropic_response(p);
    assert(body.str_at("id"@) == Some(p.id));
    assert(body.str_at("model"@) == Some(p.model));
    let items = items_at(body, "content"@);
    assert(items == anthropic::anthropic_blocks(p.content));
    anthropic_content_survives(p.content, p.content.len() as int);
    assert(items.take(p.content.len() as int) =~= items);
    assert(p.content.take(p.content.len() as int) =~= p.content);
    match p.stop_reason {
        Some(reason) => {
            assert(body.str_at("stop_reason"@) == Some(anthropic::stop_name(reason)));
        },
        None => {
            assert(body.get("stop_reason"@) is None);
        },
    }
    match p.usage {
        Some(u) => {
            let v = body.at("usage"@);
            assert(v.u64_at("input_tokens"@) == Some(u.input_tokens));
            assert(v.u64_at("output_tokens"@) == Some(u.output_tokens));
        },
        None => {
            assert(body.get("usage"@) is None);
        },
    }
}

/// Every response survives conversion as far as the protocol can say it: what is written is read
/// back the same, but for what `surviving_response` tells.
pub proof fn responses_survive(protocol: Protocol, p: ResponseView)
    ensures
        read_response(protocol, write_response(protocol, p)) == surviving_response(protocol, p),
{
    match protocol {
        Protocol::ChatCompletions => chat_response_survives(p),
        Protocol::Responses => responses_response_survives(p),
        Protocol::AnthropicMessages => anthropic_response_survives(p),
    }
}

/// A response that is a text keeps it in every protocol.
pub proof fn text_responses_survive(protocol: Protocol, p: ResponseView)
    requires
        lone_text(p.content),
    ensures
        read_response(protocol, write_response(protocol, p)).content == p.content,
{
    responses_survive(protocol, p);
    let s = p.content;
    let t = s[0]->Text_text;
    lone_text_facts(s);
    reveal_with_fuel(chat_calls, 2);
    reveal_with_fuel(shown_singles, 2);
    reveal_with_fuel(shown_texts, 2);
    reveal_with_fuel(shown_calls, 2);
    reveal_with_fuel(said_all, 2);
    assert(s.drop_last() =~= Seq::<BlockView>::empty());
    assert(surviving_content(protocol, s) =~= s);
}

/// A response of blocks that say something keeps all of them in Anthropic's protocol.
pub proof fn said_responses_survive(p: ResponseView)
    requires
        forall|i: int| 0 <= i < p.content.len() ==> says_something(#[trigger] p.content[i]),
    ensures
        read_response(
            Protocol::AnthropicMessages,
            write_response(Protocol::AnthropicMessages, p),
        ).content == p.content,
{
    responses_survive(Protocol::AnthropicMessages, p);
    all_is_said(p.content, p.content.len() as int);
    assert(p.content.take(p.content.len() as int) =~= p.content);
}

proof fn all_is_said(s: Seq<BlockView>, n: int)
    requires
        0 <= n <= s.len(),
        forall|i: int| 0 <= i < s.len() ==> says_something(#[trigger] s[i]),
    ensures
        said_all(s.take(n)) == s.take(n),
    decreases s, n,
{
    if n == 0 {
        assert(s.take(0) =~= Seq::<BlockView>::empty());
    } else {
        all_is_said(s, n - 1);
        assert(s.take(n).drop_last() =~= s.take(n - 1));
        assert(says_something(s[n - 1]));
        match s[n - 1] {
            BlockView::ToolResult { tool_use_id, content } => {
                all_is_said(content, content.len() as int);
                assert(content.take(content.len() as int) =~= content);
            },
            _ => {},
        }
        assert(said(s[n - 1]) =~= seq![s[n - 1]]);
        assert(s.take(n) =~= s.take(n - 1) + seq![s[n - 1]]);
    }
}

} // verus!
