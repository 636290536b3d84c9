//! Events that are written in a protocol are read back as the same events.
use crate::json::{JsonView};
use crate::transform::anthropic::stop_name;
use crate::transform::canonical::CanonicalStopReason;
use crate::transform::chat_completions::{finish_name, items_at, some_text_at};
use crate::transform::emit::{
    block_start_frame, call_delta, chunk, closing, input_frame, openai_chunk, responses_body,
    text_frame, thinking_frame, tool_block,
};
use crate::transform::stream::{
    anthropic_event, delta_call, first_delta_call, numbered_tool, openai_event, responses_event,
    StreamView,
};
use vstd::prelude::*;

verus! {

/// The events that a Chat Completions stream keeps as they are. A stop at a stop sequence is
/// not among them, since the protocol does not tell it from an ordinary end; nor is the start of
/// a tool call, whose arguments become text.
pub open spec fn kept_by_openai(e: StreamView) -> bool {
    match e {
        StreamView::TextDelta { text } => text.len() > 0,
        StreamView::ReasoningDelta { text } => text.len() > 0,
        StreamView::ToolInputDelta { tool_use_id, index, input_chunk } => tool_use_id.len() > 0
            && index is Some && input_chunk.len() > 0,
        StreamView::Stop { reason } => reason != CanonicalStopReason::StopSequence,
        _ => false,
    }
}

proof fn choice_keys()
    ensures
        "index"@ != "delta"@,
        "index"@ != "finish_reason"@,
        "delta"@ != "finish_reason"@,
{
    reveal_strlit("index");
    reveal_strlit("delta");
    reveal_strlit("finish_reason");
    assert("index"@[0] == 'i');
    assert("delta"@[0] == 'd');
    assert("finish_reason"@.len() == 13);
    assert("index"@.len() == 5);
    assert("delta"@.len() == 5);
}

proof fn chunk_is_read(delta: JsonView, finish: JsonView)
    ensures
        ({
            let choice = items_at(chunk(delta, finish), "choices"@)[0];
            &&& items_at(chunk(delta, finish), "choices"@).len() == 1
            &&& choice.get("delta"@) == Some(delta)
            &&& choice.get("finish_reason"@) == Some(finish)
        }),
{
    choice_keys();
}

/// What a Chat Completions stream keeps is read back as it was.
pub proof fn openai_keeps(e: StreamView)
    requires
        kept_by_openai(e),
    ensures
        openai_chunk(e) is Some,
        openai_event(openai_chunk(e)->Some_0) == e,
{
    reveal_strlit("content");
    reveal_strlit("reasoning_content");
    reveal_strlit("reasoning");
    reveal_strlit("thinking");
    reveal_strlit("tool_calls");
    reveal_strlit("index");
    reveal_strlit("id");
    reveal_strlit("type");
    reveal_strlit("function");
    reveal_strlit("name");
    reveal_strlit("arguments");
    reveal_strlit("stop");
    reveal_strlit("length");
    reveal_strlit("content_filter");
    assert("content"@.len() == 7 && "reasoning_content"@.len() == 17 && "reasoning"@.len() == 9
        && "thinking"@.len() == 8 && "tool_calls"@.len() == 10 && "index"@.len() == 5 && "id"@.len()
        == 2 && "type"@.len() == 4 && "function"@.len() == 8 && "name"@.len() == 4
        && "arguments"@.len() == 9 && "stop"@.len() == 4 && "length"@.len() == 6
        && "content_filter"@.len() == 14);
    match e {
        StreamView::TextDelta { text } => {
            let delta = JsonView::object().with("content"@, JsonView::Str(text));
            chunk_is_read(delta, JsonView::Null);
        },
        StreamView::ReasoningDelta { text } => {
            let delta = JsonView::object().with("reasoning_content"@, JsonView::Str(text));
            chunk_is_read(delta, JsonView::Null);
        },
        StreamView::ToolInputDelta { tool_use_id, index, input_chunk } => {
            let function = JsonView::object().with("arguments"@, JsonView::Str(input_chunk));
            let delta = call_delta(index, JsonView::Str(tool_use_id), function);
            chunk_is_read(delta, JsonView::Null);
            let calls = items_at(delta, "tool_calls"@);
            let call = calls[0];
            assert(calls.len() == 1);
            assert(call.get("function"@) == Some(function));
            assert(call.str_at("id"@) == Some(tool_use_id));
            assert(call.u64_at("index"@) == index);
            assert(some_text_at(function, "name"@) is None);
            assert(some_text_at(function, "arguments"@) == Some(input_chunk));
            assert(delta_call(call) == Some(e));
            assert(first_delta_call(calls) == Some(e));
        },
        StreamView::Stop { reason } => {
            chunk_is_read(JsonView::object(), JsonView::Str(finish_name(reason)));
        },
        _ => {},
    }
}

/// The events that a Responses stream keeps as they are. Of the ends only the ordinary one is
/// read back.
pub open spec fn kept_by_responses(e: StreamView) -> bool {
    match e {
        StreamView::TextDelta { text } => text.len() > 0,
        StreamView::ReasoningDelta { text } => text.len() > 0,
        StreamView::ToolInputDelta { tool_use_id, index, input_chunk } => input_chunk.len() > 0,
        StreamView::Stop { reason } => reason == CanonicalStopReason::EndTurn,
        _ => false,
    }
}

/// What a Responses stream keeps is read back as it was.
pub proof fn responses_keep(e: StreamView)
    requires
        kept_by_responses(e),
    ensures
        responses_body(e) is Some,
        responses_event(responses_body(e)->Some_0) == Some(e),
{
    reveal_strlit("event");
    reveal_strlit("type");
    reveal_strlit("delta");
    reveal_strlit("index");
    reveal_strlit("id");
    reveal_strlit("call_id");
    reveal_strlit("item_id");
    reveal_strlit("response");
    reveal_strlit("done");
    reveal_strlit("stop_reason");
    reveal_strlit("output");
    assert("event"@.len() == 5 && "type"@.len() == 4 && "delta"@.len() == 5 && "index"@.len() == 5
        && "id"@.len() == 2 && "call_id"@.len() == 7 && "item_id"@.len() == 7 && "response"@.len()
        == 8 && "done"@.len() == 4 && "stop_reason"@.len() == 11 && "output"@.len() == 6);
    assert("event"@[0] == 'e' && "delta"@[0] == 'd' && "index"@[0] == 'i' && "call_id"@[0] == 'c'
        && "item_id"@[0] == 'i' && "type"@[0] == 't' && "done"@[0] == 'd');
    response_kinds_differ();
    let v = responses_body(e)->Some_0;
    match e {
        StreamView::TextDelta { text } => {
            assert(v.str_at("type"@) == Some("response.output_text.delta"@));
            assert(v.str_at("delta"@) == Some(text));
        },
        StreamView::ReasoningDelta { text } => {
            assert(v.str_at("type"@) == Some("response.reasoning.delta"@));
            assert(v.str_at("delta"@) == Some(text));
        },
        StreamView::ToolInputDelta { tool_use_id, index, input_chunk } => {
            assert(v.str_at("type"@) == Some("response.function_call.parameter_delta"@));
            assert(v.str_at("delta"@) == Some(input_chunk));
            assert(v.get("call_id"@) is None);
            assert(v.str_at("id"@) == Some(tool_use_id));
            assert(v.u64_at("index"@) == index);
        },
        StreamView::Stop { reason } => {
            assert(v.str_at("type"@) == Some("response.done"@));
            assert(v.get("response"@) == Some(JsonView::object()));
        },
        _ => {},
    }
}

proof fn response_kinds_differ()
    ensures
        "response.done"@.len() == 13,
        "response.text.delta"@.len() == 19,
        "response.output_text.delta"@.len() == 26,
        "response.reasoning.delta"@.len() == 24,
        "response.reasoning_text.delta"@.len() == 29,
        "response.output_reasoning.delta"@.len() == 31,
        "response.function_call.parameter_delta"@.len() == 38,
        "response.function_call_arguments.delta"@.len() == 38,
        "response.function_call.completed"@.len() == 32,
        "response.output_item.added"@.len() == 26,
        "response.output_item.done"@.len() == 25,
        "response.output_item.delta"@.len() == 26,
{
    reveal_strlit("response.done");
    reveal_strlit("response.text.delta");
    reveal_strlit("response.output_text.delta");
    reveal_strlit("response.reasoning.delta");
    reveal_strlit("response.reasoning_text.delta");
    reveal_strlit("response.output_reasoning.delta");
    reveal_strlit("response.function_call.parameter_delta");
    reveal_strlit("response.function_call_arguments.delta");
    reveal_strlit("response.function_call.completed");
    reveal_strlit("response.output_item.added");
    reveal_strlit("response.output_item.done");
    reveal_strlit("response.output_item.delta");
    assert("response.done"@.len() == 13);
    assert("response.text.delta"@.len() == 19);
    assert("response.output_text.delta"@.len() == 26);
    assert("response.reasoning.delta"@.len() == 24);
    assert("response.reasoning_text.delta"@.len() == 29);
    assert("response.output_reasoning.delta"@.len() == 31);
    assert("response.function_call.parameter_delta"@.len() == 38);
    assert("response.function_call_arguments.delta"@.len() == 38);
    assert("response.function_call.completed"@.len() == 32);
    assert("response.output_item.added"@.len() == 26);
    assert("response.output_item.done"@.len() == 25);
    assert("response.output_item.delta"@.len() == 26);
}

/// More text, as an Anthropic stream carries it, is read back as it was.
pub proof fn anthropic_keeps_text(text: Seq<char>)
    requires
        text.len() > 0,
    ensures
        anthropic_event("content_block_delta"@, text_frame(text).body) == Some(
            StreamView::TextDelta { text },
        ),
        anthropic_event("content_block_delta"@, thinking_frame(text).body) == Some(
            StreamView::ReasoningDelta { text },
        ),
{
    block_keys();
    let a = text_frame(text).body;
    let b = thinking_frame(text).body;
    assert(a.at("delta"@).str_at("type"@) == Some("text_delta"@));
    assert(a.at("delta"@).str_at("text"@) == Some(text));
    assert(b.at("delta"@).str_at("type"@) == Some("thinking_delta"@));
    assert(b.at("delta"@).str_at("thinking"@) == Some(text));
}

/// More arguments of a numbered tool call, as an Anthropic stream carries them, are read back
/// as they were.
pub proof fn anthropic_keeps_input(n: u64, piece: Seq<char>)
    requires
        piece.len() > 0,
    ensures
        anthropic_event("content_block_delta"@, input_frame(Some(n), piece).body) == Some(
            StreamView::ToolInputDelta {
                tool_use_id: numbered_tool(n),
                index: Some(n),
                input_chunk: piece,
            },
        ),
{
    block_keys();
    let a = input_frame(Some(n), piece).body;
    assert(a.at("delta"@).str_at("type"@) == Some("input_json_delta"@));
    assert(a.at("delta"@).str_at("partial_json"@) == Some(piece));
    assert(a.u64_at("index"@) == Some(n));
}

/// The start of a numbered tool call, as an Anthropic stream carries it, is read back as it
/// was.
pub proof fn anthropic_keeps_tool_start(id: Seq<char>, n: u64, name: Seq<char>, input: JsonView)
    ensures
        anthropic_event(
            "content_block_start"@,
            block_start_frame(n, tool_block(id, name, input)).body,
        ) == Some(StreamView::ToolUseStart { id, index: Some(n), name, input }),
{
    block_keys();
    let a = block_start_frame(n, tool_block(id, name, input)).body;
    let b = a.at("content_block"@);
    assert(b == tool_block(id, name, input));
    assert(b.str_at("type"@) == Some("tool_use"@));
    assert(b.str_at("id"@) == Some(id));
    assert(b.str_at("name"@) == Some(name));
    assert(b.get("input"@) == Some(input));
    assert(a.u64_at("index"@) == Some(n));
}

/// The end of an Anthropic stream tells why it ended.
pub proof fn anthropic_keeps_stop(last_index: u64, reason: CanonicalStopReason)
    ensures
        anthropic_event("message_delta"@, closing(last_index, reason)[1].body) == Some(
            StreamView::Stop { reason },
        ),
{
    block_keys();
    reveal_strlit("message_delta");
    reveal_strlit("content_block_delta");
    reveal_strlit("content_block_start");
    assert("message_delta"@.len() == 13 && "content_block_delta"@.len() == 19
        && "content_block_start"@.len() == 19);
    reveal_strlit("end_turn");
    reveal_strlit("max_tokens");
    reveal_strlit("stop_sequence");
    reveal_strlit("tool_use");
    reveal_strlit("stop_reason");
    reveal_strlit("usage");
    reveal_strlit("delta");
    assert("end_turn"@.len() == 8 && "max_tokens"@.len() == 10 && "stop_sequence"@.len() == 13
        && "tool_use"@.len() == 8 && "stop_reason"@.len() == 11 && "usage"@.len() == 5);
    assert("end_turn"@[0] == 'e' && "tool_use"@[0] == 't');
    assert("usage"@[0] == 'u' && "delta"@[0] == 'd');
    let body = closing(last_index, reason)[1].body;
    let delta = body.at("delta"@);
    assert(delta.str_at("stop_reason"@) == Some(stop_name(reason)));
}

proof fn block_keys()
    ensures
        "type"@ != "index"@,
        "type"@ != "delta"@,
        "index"@ != "delta"@,
        "type"@ != "text"@,
        "type"@ != "thinking"@,
        "type"@ != "partial_json"@,
        "type"@ != "content_block"@,
        "index"@ != "content_block"@,
        "type"@ != "id"@,
        "type"@ != "name"@,
        "type"@ != "input"@,
        "id"@ != "name"@,
        "id"@ != "input"@,
        "name"@ != "input"@,
        "text_delta"@ != "thinking_delta"@,
        "text_delta"@ != "input_json_delta"@,
        "thinking_delta"@ != "input_json_delta"@,
        "content_block_start"@ != "content_block_delta"@,
{
    reveal_strlit("type");
    reveal_strlit("index");
    reveal_strlit("delta");
    reveal_strlit("text");
    reveal_strlit("thinking");
    reveal_strlit("partial_json");
    reveal_strlit("content_block");
    reveal_strlit("id");
    reveal_strlit("name");
    reveal_strlit("input");
    reveal_strlit("text_delta");
    reveal_strlit("thinking_delta");
    reveal_strlit("input_json_delta");
    reveal_strlit("content_block_start");
    reveal_strlit("content_block_delta");
    assert("type"@[0] == 't' && "type"@[1] == 'y' && "type"@.len() == 4);
    assert("index"@[0] == 'i' && "index"@.len() == 5);
    assert("delta"@[0] == 'd' && "delta"@.len() == 5);
    assert("text"@[1] == 'e' && "text"@.len() == 4);
    assert("thinking"@.len() == 8 && "partial_json"@.len() == 12 && "content_block"@.len() == 13);
    assert("id"@.len() == 2 && "name"@.len() == 4 && "name"@[0] == 'n' && "input"@.len() == 5);
    assert("text_delta"@.len() == 10 && "thinking_delta"@.len() == 14 && "input_json_delta"@.len()
        == 16);
    assert("content_block_start"@[14] == 's' && "content_block_delta"@[14] == 'd');
}

} // verus!
