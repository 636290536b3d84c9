//! What the events of a stream mean: which event is read from which message, and which message is
//! written for which event.
use crate::codec::{json_parse, json_text};
use crate::json::JsonView;
use crate::laws::{has_no_text, number_at, says, says_nothing};
use crate::text::numeral;
use crate::transform::canonical::CanonicalStopReason;
use crate::transform::emit::{
    openai_chunk, openai_sse, responses_body, responses_sse, wrapped, FrameKind,
    WrapperView,
};
use crate::transform::stream::{
    all_converted, anthropic_event, calls_function, converted, cut_off, end_of, first_delta_call,
    from_openai, openai_event, responses_event, EventParser, SseView, StreamView,
};
use crate::transform::chat_completions::items_at;
use vstd::prelude::*;

verus! {

/// Whether a chunk of a Chat Completions stream holds a delta and no finish reason.
pub open spec fn holds_delta(json: JsonView, delta: JsonView) -> bool {
    match json.get("choices"@) {
        Some(JsonView::Array(a)) => a.len() > 0 && has_no_text(a[0], "finish_reason"@) && a[0].get(
            "delta"@,
        ) == Some(delta),
        _ => false,
    }
}

/// Whether a delta holds neither text nor reasoning.
pub open spec fn is_wordless(delta: JsonView) -> bool {
    says_nothing(delta, "content"@) && says_nothing(delta, "reasoning_content"@) && says_nothing(
        delta,
        "reasoning"@,
    ) && says_nothing(delta, "thinking"@)
}

/// Whether a tool call in a delta has neither a name nor arguments.
pub open spec fn is_mute_call(call: JsonView) -> bool {
    match call.get("function"@) {
        Some(f) => says_nothing(f, "name"@) && says_nothing(f, "arguments"@),
        None => true,
    }
}

/// Whether the first tool call of a delta that says anything is the given one.
pub open spec fn speaks_first(delta: JsonView, call: JsonView) -> bool {
    match delta.get("tool_calls"@) {
        Some(JsonView::Array(a)) => exists|i: int|
            0 <= i < a.len() && #[trigger] a[i] == call && forall|j: int|
                0 <= j < i ==> is_mute_call(#[trigger] a[j]),
        _ => false,
    }
}

/// Whether an identifier is that of a tool call: its own, else one made of its number, else
/// nothing.
pub open spec fn identifies(id: Seq<char>, call: JsonView) -> bool {
    if says_nothing(call, "id"@) {
        match number_at(call, "index"@) {
            Some(n) => id == "tool_"@ + numeral(n as nat),
            None => id.len() == 0,
        }
    } else {
        call.get("id"@) == Some(JsonView::Str(id))
    }
}

proof fn first_speaker(a: Seq<JsonView>, i: int)
    requires
        0 <= i < a.len(),
        !is_mute_call(a[i]),
        forall|j: int| 0 <= j < i ==> is_mute_call(#[trigger] a[j]),
    ensures
        first_delta_call(a) == first_delta_call(seq![a[i]]),
    decreases i,
{
    if i == 0 {
        reveal_with_fuel(first_delta_call, 2);
        assert(seq![a[0]].skip(1) =~= Seq::<JsonView>::empty());
    } else {
        let t = a.skip(1);
        assert(is_mute_call(a[0]));
        assert forall|j: int| 0 <= j < i - 1 implies is_mute_call(#[trigger] t[j]) by {
            assert(is_mute_call(a[j + 1]));
        }
        first_speaker(t, i - 1);
    }
}

/// A piece of the arguments of a tool call is read as just that piece, with the number of the
/// call, whether or not the call carries an identifier: without one it gets one made of the number.
pub proof fn chat_arguments_are_read(json: JsonView, delta: JsonView, call: JsonView, piece: Seq<char>)
    requires
        holds_delta(json, delta),
        is_wordless(delta),
        speaks_first(delta, call),
        call.get("function"@) is Some,
        says_nothing(call.get("function"@)->Some_0, "name"@),
        says(call.get("function"@)->Some_0, "arguments"@, piece),
    ensures
        ({
            let e = openai_event(json);
            &&& e is ToolInputDelta
            &&& e->ToolInputDelta_input_chunk == piece
            &&& e->ToolInputDelta_index == number_at(call, "index"@)
            &&& identifies(e->tool_use_id, call)
        }),
{
    let a = delta.get("tool_calls"@)->Some_0->Array_0;
    let i = choose|i: int|
        0 <= i < a.len() && #[trigger] a[i] == call && forall|j: int|
            0 <= j < i ==> is_mute_call(#[trigger] a[j]);
    first_speaker(a, i);
    reveal_with_fuel(first_delta_call, 2);
    assert(seq![call][0] == call);
}

/// A tool call that is named starts with that name, its number, its identifier, and with the
/// arguments that its text denotes, none where it denotes none.
pub proof fn chat_calls_start(json: JsonView, delta: JsonView, call: JsonView, name: Seq<char>)
    requires
        holds_delta(json, delta),
        is_wordless(delta),
        speaks_first(delta, call),
        call.get("function"@) is Some,
        says(call.get("function"@)->Some_0, "name"@, name),
    ensures
        ({
            let f = call.get("function"@)->Some_0;
            let e = openai_event(json);
            &&& e is ToolUseStart
            &&& e->ToolUseStart_name == name
            &&& e->ToolUseStart_index == number_at(call, "index"@)
            &&& identifies(e->ToolUseStart_id, call)
            &&& e->ToolUseStart_input == match f.get("arguments"@) {
                Some(JsonView::Str(t)) => match json_parse(t) {
                    Some(v) => v,
                    None => JsonView::object(),
                },
                _ => JsonView::object(),
            }
        }),
{
    let a = delta.get("tool_calls"@)->Some_0->Array_0;
    let i = choose|i: int|
        0 <= i < a.len() && #[trigger] a[i] == call && forall|j: int|
            0 <= j < i ==> is_mute_call(#[trigger] a[j]);
    first_speaker(a, i);
    reveal_with_fuel(first_delta_call, 2);
    assert(seq![call][0] == call);
}

/// A text in a delta is read as just that text, and reasoning under any of its three names as
/// just that reasoning where there is no text.
pub proof fn chat_words_are_read(json: JsonView, delta: JsonView, t: Seq<char>)
    requires
        holds_delta(json, delta),
    ensures
        says(delta, "content"@, t) ==> openai_event(json) == (StreamView::TextDelta { text: t }),
        says_nothing(delta, "content"@) && says(delta, "reasoning_content"@, t) ==> openai_event(json)
            == (StreamView::ReasoningDelta { text: t }),
        says_nothing(delta, "content"@) && says_nothing(delta, "reasoning_content"@) && says(
            delta,
            "reasoning"@,
            t,
        ) ==> openai_event(json) == (StreamView::ReasoningDelta { text: t }),
        says_nothing(delta, "content"@) && says_nothing(delta, "reasoning_content"@) && says_nothing(
            delta,
            "reasoning"@,
        ) && says(delta, "thinking"@, t) ==> openai_event(json) == (StreamView::ReasoningDelta {
            text: t,
        }),
{
}

/// A finish reason ends a Chat Completions stream, whatever else the chunk holds: a limit as a
/// limit, a tool call as a tool call, anything else as an ordinary end.
pub proof fn chat_ends_are_read(json: JsonView, a: Seq<JsonView>, reason: Seq<char>)
    requires
        json.get("choices"@) == Some(JsonView::Array(a)),
        a.len() > 0,
        a[0].get("finish_reason"@) == Some(JsonView::Str(reason)),
    ensures
        openai_event(json) is Stop,
        openai_event(json)->Stop_reason == CanonicalStopReason::MaxTokens <==> reason == "length"@,
        openai_event(json)->Stop_reason == CanonicalStopReason::ToolUse <==> reason == "tool_calls"@,
        openai_event(json)->Stop_reason != CanonicalStopReason::StopSequence,
{
    reveal_strlit("length");
    reveal_strlit("tool_calls");
    reveal_strlit("stop");
    reveal_strlit("content_filter");
    assert("length"@.len() == 6);
    assert("tool_calls"@.len() == 10);
    assert("stop"@.len() == 4);
    assert("content_filter"@.len() == 14);
}

/// A count, zero where there is none.
pub open spec fn count(n: Option<u64>) -> u64 {
    match n {
        Some(x) => x,
        None => 0,
    }
}

/// Token counts are read where a chunk holds no choice, each from its own name.
pub proof fn chat_counts_are_read(json: JsonView, usage: JsonView)
    requires
        match json.get("choices"@) {
            Some(JsonView::Array(a)) => a.len() == 0,
            _ => true,
        },
        json.get("usage"@) == Some(usage),
    ensures
        openai_event(json) is Usage,
        openai_event(json)->Usage_input_tokens == count(number_at(usage, "prompt_tokens"@)),
        openai_event(json)->Usage_output_tokens == count(number_at(usage, "completion_tokens"@)),
{
}

/// A server-sent event of a Chat Completions stream is read from its data alone; the end mark and
/// what is no JSON are passed on as they came.
pub proof fn chat_data_is_read(e: SseView)
    ensures
        from_openai(e) == match (e.data == "[DONE]"@, json_parse(e.data)) {
            (false, Some(v)) => openai_event(v),
            _ => StreamView::Raw { event: e.event, data: e.data },
        },
{
}

/// Every server-sent event of a Chat Completions or Responses stream yields one event, in its
/// place.
pub proof fn events_are_read_one_by_one(kind: EventParser, s: Seq<SseView>)
    requires
        kind != EventParser::Anthropic,
    ensures
        all_converted(kind, s).len() == s.len(),
        forall|i: int| 0 <= i < s.len() ==> #[trigger] all_converted(kind, s)[i] == converted(kind, s[i]),
    decreases s.len(),
{
    if s.len() > 0 {
        events_are_read_one_by_one(kind, s.drop_last());
        let t = all_converted(kind, s.drop_last());
        assert forall|i: int| 0 <= i < s.len() implies #[trigger] all_converted(kind, s)[i]
            == converted(kind, s[i]) by {
            if i < s.len() - 1 {
                assert(all_converted(kind, s)[i] == t[i]);
                assert(s.drop_last()[i] == s[i]);
            }
        }
    }
}

/// An event of an Anthropic stream that does not only mark a boundary is read, in its place; one
/// that does adds nothing.
pub proof fn anthropic_events_are_read(s: Seq<SseView>, e: SseView)
    ensures
        e.event == Some("ping"@) || e.event == Some("content_block_stop"@) || e.event == Some(
            "message_stop"@,
        ) ==> all_converted(EventParser::Anthropic, s.push(e)) == all_converted(EventParser::Anthropic, s),
        !(e.event == Some("ping"@) || e.event == Some("content_block_stop"@) || e.event == Some(
            "message_stop"@,
        )) ==> all_converted(EventParser::Anthropic, s.push(e)) == all_converted(
            EventParser::Anthropic,
            s,
        ).push(converted(EventParser::Anthropic, e)),
{
    assert(s.push(e).drop_last() =~= s);
}

/// The arguments of a tool call, piece by piece.
pub open spec fn arguments_of(events: Seq<StreamView>) -> Seq<char>
    decreases events.len(),
{
    if events.len() == 0 {
        Seq::empty()
    } else {
        arguments_of(events.drop_last()) + match events.last() {
            StreamView::ToolInputDelta { tool_use_id, index, input_chunk } => input_chunk,
            _ => Seq::empty(),
        }
    }
}

/// The texts of a row, put together.
pub open spec fn all_of(s: Seq<Seq<char>>) -> Seq<char>
    decreases s.len(),
{
    if s.len() == 0 {
        Seq::empty()
    } else {
        all_of(s.drop_last()) + s.last()
    }
}

/// Whether a chunk of a Chat Completions stream carries a piece of arguments.
pub open spec fn carries_arguments(json: JsonView, piece: Seq<char>) -> bool {
    exists|delta: JsonView, call: JsonView|
        {
            &&& #[trigger] holds_delta(json, delta)
            &&& is_wordless(delta)
            &&& #[trigger] speaks_first(delta, call)
            &&& call.get("function"@) is Some
            &&& says_nothing(call.get("function"@)->Some_0, "name"@)
            &&& says(call.get("function"@)->Some_0, "arguments"@, piece)
        }
}

/// The pieces of arguments of a Chat Completions stream, put together, are the arguments that its
/// events carry.
pub proof fn chat_arguments_add_up(chunks: Seq<JsonView>, pieces: Seq<Seq<char>>)
    requires
        chunks.len() == pieces.len(),
        forall|i: int| 0 <= i < chunks.len() ==> carries_arguments(#[trigger] chunks[i], pieces[i]),
    ensures
        arguments_of(chunks.map_values(|c: JsonView| openai_event(c))) == all_of(pieces),
    decreases chunks.len(),
{
    let events = chunks.map_values(|c: JsonView| openai_event(c));
    if chunks.len() > 0 {
        let c = chunks.drop_last();
        let p = pieces.drop_last();
        assert forall|i: int| 0 <= i < c.len() implies carries_arguments(#[trigger] c[i], p[i]) by {
            assert(carries_arguments(chunks[i], pieces[i]));
        }
        chat_arguments_add_up(c, p);
        assert(events.drop_last() =~= c.map_values(|c: JsonView| openai_event(c)));
        let n = chunks.len() - 1;
        assert(carries_arguments(chunks[n], pieces[n]));
        let (delta, call) = choose|delta: JsonView, call: JsonView|
            {
                &&& #[trigger] holds_delta(chunks[n], delta)
                &&& is_wordless(delta)
                &&& #[trigger] speaks_first(delta, call)
                &&& call.get("function"@) is Some
                &&& says_nothing(call.get("function"@)->Some_0, "name"@)
                &&& says(call.get("function"@)->Some_0, "arguments"@, pieces[n])
            };
        chat_arguments_are_read(chunks[n], delta, call, pieces[n]);
    }
}

/// What a delta of a content block of an Anthropic stream adds: text, reasoning or arguments, just
/// as they stand, the arguments for the block that the message names.
pub proof fn anthropic_deltas_are_read(json: JsonView, delta: JsonView, t: Seq<char>)
    requires
        json.get("delta"@) == Some(delta),
    ensures
        delta.get("type"@) == Some(JsonView::Str("text_delta"@)) && says(delta, "text"@, t)
            ==> anthropic_event("content_block_delta"@, json) == Some(StreamView::TextDelta { text: t }),
        delta.get("type"@) == Some(JsonView::Str("thinking_delta"@)) && says(delta, "thinking"@, t)
            ==> anthropic_event("content_block_delta"@, json) == Some(
            StreamView::ReasoningDelta { text: t },
        ),
        delta.get("type"@) == Some(JsonView::Str("input_json_delta"@)) && says(
            delta,
            "partial_json"@,
            t,
        ) ==> anthropic_event("content_block_delta"@, json) == Some(
            StreamView::ToolInputDelta {
                tool_use_id: "tool_"@ + numeral(count(number_at(json, "index"@)) as nat),
                index: Some(count(number_at(json, "index"@))),
                input_chunk: t,
            },
        ),
{
    reveal_strlit("text_delta");
    reveal_strlit("thinking_delta");
    reveal_strlit("input_json_delta");
    reveal_strlit("content_block_delta");
    reveal_strlit("content_block_start");
    reveal_strlit("message_delta");
    assert("text_delta"@.len() == 10);
    assert("thinking_delta"@.len() == 14);
    assert("input_json_delta"@.len() == 16);
    assert("content_block_delta"@.len() == 19);
    assert("content_block_start"@.len() == 19);
    assert("message_delta"@.len() == 13);
    assert("content_block_delta"@[14] == 'd' && "content_block_start"@[14] == 's');
}

/// The start of a tool use in an Anthropic stream gives its identifier, name, input and number; the
/// start of another block gives nothing.
pub proof fn anthropic_starts_are_read(json: JsonView, block: JsonView, id: Seq<char>, name: Seq<char>)
    requires
        json.get("content_block"@) == Some(block),
    ensures
        block.get("type"@) == Some(JsonView::Str("tool_use"@)) && block.get("id"@) == Some(
            JsonView::Str(id),
        ) && block.get("name"@) == Some(JsonView::Str(name)) ==> ({
            let e = anthropic_event("content_block_start"@, json);
            &&& e is Some && e->Some_0 is ToolUseStart
            &&& e->Some_0->ToolUseStart_id == id && e->Some_0->ToolUseStart_name == name
            &&& e->Some_0->ToolUseStart_index == number_at(json, "index"@)
            &&& e->Some_0->ToolUseStart_input == match block.get("input"@) {
                Some(v) => v,
                None => JsonView::object(),
            }
        }),
        block.get("type"@) != Some(JsonView::Str("tool_use"@)) ==> anthropic_event(
            "content_block_start"@,
            json,
        ) is None,
{
    reveal_strlit("content_block_delta");
    reveal_strlit("content_block_start");
    reveal_strlit("message_delta");
    reveal_strlit("tool_use");
    assert("content_block_delta"@.len() == 19);
    assert("content_block_start"@.len() == 19);
    assert("message_delta"@.len() == 13);
    assert("tool_use"@.len() == 8);
    assert("content_block_delta"@[14] == 'd' && "content_block_start"@[14] == 's');
}

/// The end of an Anthropic stream is read from its stop reason, which stands in the delta of the
/// message or beside it.
pub proof fn anthropic_ends_are_read(json: JsonView, reason: Seq<char>)
    requires
        match json.get("delta"@) {
            Some(d) => d.get("stop_reason"@) == Some(JsonView::Str(reason)) || (d.get("stop_reason"@) is None
                && json.get("stop_reason"@) == Some(JsonView::Str(reason))),
            None => json.get("stop_reason"@) == Some(JsonView::Str(reason)),
        },
    ensures
        ({
            let e = anthropic_event("message_delta"@, json);
            &&& e is Some && e->Some_0 is Stop
            &&& e->Some_0->Stop_reason == CanonicalStopReason::MaxTokens <==> reason == "max_tokens"@
            &&& e->Some_0->Stop_reason == CanonicalStopReason::StopSequence <==> reason == "stop_sequence"@
            &&& e->Some_0->Stop_reason == CanonicalStopReason::ToolUse <==> reason == "tool_use"@
        }),
{
    reveal_strlit("content_block_delta");
    reveal_strlit("content_block_start");
    reveal_strlit("message_delta");
    reveal_strlit("end_turn");
    reveal_strlit("max_tokens");
    reveal_strlit("stop_sequence");
    reveal_strlit("tool_use");
    assert("content_block_delta"@.len() == 19);
    assert("content_block_start"@.len() == 19);
    assert("message_delta"@.len() == 13);
    assert("end_turn"@.len() == 8);
    assert("max_tokens"@.len() == 10);
    assert("stop_sequence"@.len() == 13);
    assert("tool_use"@.len() == 8);
    assert("content_block_delta"@[14] == 'd' && "content_block_start"@[14] == 's');
    assert("message_delta"@[0] == 'm' && "stop_sequence"@[0] == 's');
    assert("end_turn"@[0] == 'e' && "tool_use"@[0] == 't');
}

/// Texts and reasoning of a Responses stream are read just as they stand.
pub proof fn responses_words_are_read(json: JsonView, kind: Seq<char>, t: Seq<char>)
    requires
        json.get("type"@) == Some(JsonView::Str(kind)),
        says(json, "delta"@, t),
    ensures
        kind == "response.output_text.delta"@ || kind == "response.text.delta"@ ==> responses_event(json)
            == Some(StreamView::TextDelta { text: t }),
        kind == "response.reasoning.delta"@ || kind == "response.reasoning_text.delta"@ || kind
            == "response.output_reasoning.delta"@ ==> responses_event(json) == Some(
            StreamView::ReasoningDelta { text: t },
        ),
{
    reveal_strlit("response.output_text.delta");
    reveal_strlit("response.text.delta");
    reveal_strlit("response.reasoning.delta");
    reveal_strlit("response.reasoning_text.delta");
    reveal_strlit("response.output_reasoning.delta");
    assert("response.output_text.delta"@.len() == 26);
    assert("response.text.delta"@.len() == 19);
    assert("response.reasoning.delta"@.len() == 24);
    assert("response.reasoning_text.delta"@.len() == 29);
    assert("response.output_reasoning.delta"@.len() == 31);
}

/// A piece of arguments of a Responses stream is read just as it stands, for the call that the
/// message names.
pub proof fn responses_arguments_are_read(json: JsonView, kind: Seq<char>, t: Seq<char>, id: Seq<char>)
    requires
        json.get("type"@) == Some(JsonView::Str(kind)),
        kind == "response.function_call_arguments.delta"@ || kind
            == "response.function_call.parameter_delta"@,
        says(json, "delta"@, t),
        json.get("call_id"@) == Some(JsonView::Str(id)) || (json.get("call_id"@) is None && json.get(
            "id"@,
        ) == Some(JsonView::Str(id))) || (json.get("call_id"@) is None && json.get("id"@) is None
            && json.get("item_id"@) == Some(JsonView::Str(id))),
    ensures
        ({
            let e = responses_event(json);
            &&& e is Some && e->Some_0 is ToolInputDelta
            &&& e->Some_0->ToolInputDelta_input_chunk == t
            &&& e->Some_0->tool_use_id == id
            &&& json.get("index"@) is Some ==> e->Some_0->ToolInputDelta_index == number_at(
                json,
                "index"@,
            )
            &&& kind == "response.function_call_arguments.delta"@ && json.get("index"@) is None
                ==> e->Some_0->ToolInputDelta_index == number_at(json, "output_index"@)
        }),
{
    reveal_strlit("response.output_text.delta");
    reveal_strlit("response.text.delta");
    reveal_strlit("response.reasoning.delta");
    reveal_strlit("response.reasoning_text.delta");
    reveal_strlit("response.output_reasoning.delta");
    reveal_strlit("response.function_call_arguments.delta");
    reveal_strlit("response.function_call.parameter_delta");
    assert("response.output_text.delta"@.len() == 26);
    assert("response.text.delta"@.len() == 19);
    assert("response.reasoning.delta"@.len() == 24);
    assert("response.reasoning_text.delta"@.len() == 29);
    assert("response.output_reasoning.delta"@.len() == 31);
    assert("response.function_call_arguments.delta"@.len() == 38);
    assert("response.function_call.parameter_delta"@.len() == 38);
    assert("response.function_call_arguments.delta"@[22] == '_' && "response.function_call.parameter_delta"@[22] == '.');
}

/// A function call that is added to a Responses stream starts under its call identifier, with its
/// name, its arguments and its place in the output; another item that is added says nothing.
pub proof fn responses_calls_start(json: JsonView, item: JsonView, id: Seq<char>, name: Seq<char>)
    requires
        json.get("type"@) == Some(JsonView::Str("response.output_item.added"@)),
        json.get("item"@) == Some(item),
        item.get("call_id"@) == Some(JsonView::Str(id)) || (item.get("call_id"@) is None && item.get(
            "id"@,
        ) == Some(JsonView::Str(id))),
        item.get("name"@) == Some(JsonView::Str(name)),
    ensures
        item.get("type"@) == Some(JsonView::Str("function_call"@)) ==> ({
            let e = responses_event(json);
            &&& e is Some && e->Some_0 is ToolUseStart
            &&& e->Some_0->ToolUseStart_id == id && e->Some_0->ToolUseStart_name == name
            &&& e->Some_0->ToolUseStart_input == match item.get("arguments"@) {
                Some(v) => v,
                None => JsonView::object(),
            }
            &&& json.get("output_index"@) is Some ==> e->Some_0->ToolUseStart_index == number_at(
                json,
                "output_index"@,
            )
        }),
        item.get("type"@) != Some(JsonView::Str("function_call"@)) ==> responses_event(json) is None,
{
    reveal_strlit("response.output_text.delta");
    reveal_strlit("response.text.delta");
    reveal_strlit("response.reasoning.delta");
    reveal_strlit("response.reasoning_text.delta");
    reveal_strlit("response.output_reasoning.delta");
    reveal_strlit("response.function_call_arguments.delta");
    reveal_strlit("response.function_call.parameter_delta");
    reveal_strlit("response.function_call.completed");
    reveal_strlit("response.output_item.added");
    assert("response.output_text.delta"@.len() == 26);
    assert("response.text.delta"@.len() == 19);
    assert("response.reasoning.delta"@.len() == 24);
    assert("response.reasoning_text.delta"@.len() == 29);
    assert("response.output_reasoning.delta"@.len() == 31);
    assert("response.function_call_arguments.delta"@.len() == 38);
    assert("response.function_call.parameter_delta"@.len() == 38);
    assert("response.function_call.completed"@.len() == 32);
    assert("response.output_item.added"@.len() == 26);
    assert("response.output_text.delta"@[16] == 't' && "response.output_item.added"@[16] == 'i');
    assert("response.function_call_arguments.delta"@[22] == '_' && "response.function_call.parameter_delta"@[22] == '.');
}

/// Whether an item of a finished response is a message that was cut off.
pub open spec fn is_cut_off(item: JsonView) -> bool {
    item.get("type"@) == Some(JsonView::Str("message"@)) && item.get("status"@) == Some(
        JsonView::Str("incomplete"@),
    )
}

/// Whether an item of a finished response is a function call.
pub open spec fn is_function_call(item: JsonView) -> bool {
    item.get("type"@) == Some(JsonView::Str("function_call"@))
}

/// The end of a Responses stream is a limit where a message was cut off or the stop reason names
/// one, and else a tool call where the stop reason names one, or none, and a function is called.
pub proof fn responses_ends_are_read(json: JsonView, response: JsonView, output: Seq<JsonView>)
    requires
        json.get("type"@) == Some(JsonView::Str("response.completed"@)) || json.get("type"@) == Some(
            JsonView::Str("response.done"@),
        ),
        json.get("response"@) == Some(response),
        response.get("output"@) == Some(JsonView::Array(output)),
    ensures
        ({
            let e = responses_event(json);
            let reason = e->Some_0->Stop_reason;
            &&& e is Some && e->Some_0 is Stop
            &&& (exists|i: int| 0 <= i < output.len() && is_cut_off(#[trigger] output[i])) ==> reason
                == CanonicalStopReason::MaxTokens
            &&& (forall|i: int| 0 <= i < output.len() ==> !is_cut_off(#[trigger] output[i])) ==> ({
                &&& response.get("stop_reason"@) == Some(JsonView::Str("max_output_tokens"@)) ==> reason
                    == CanonicalStopReason::MaxTokens
                &&& response.get("stop_reason"@) == Some(JsonView::Str("stop_sequence"@)) ==> reason
                    == CanonicalStopReason::StopSequence
                &&& response.get("stop_reason"@) == Some(JsonView::Str("tool_calls"@)) ==> reason
                    == CanonicalStopReason::ToolUse
                &&& has_no_text(response, "stop_reason"@) ==> (reason == CanonicalStopReason::ToolUse
                    <==> exists|i: int| 0 <= i < output.len() && is_function_call(#[trigger] output[i]))
                &&& has_no_text(response, "stop_reason"@) ==> reason == CanonicalStopReason::ToolUse
                    || reason == CanonicalStopReason::EndTurn
            })
        }),
{
    reveal_strlit("response.output_text.delta");
    reveal_strlit("response.text.delta");
    reveal_strlit("response.reasoning.delta");
    reveal_strlit("response.reasoning_text.delta");
    reveal_strlit("response.output_reasoning.delta");
    reveal_strlit("response.function_call_arguments.delta");
    reveal_strlit("response.function_call.parameter_delta");
    reveal_strlit("response.function_call.completed");
    reveal_strlit("response.output_item.added");
    reveal_strlit("response.output_item.done");
    reveal_strlit("response.output_item.delta");
    reveal_strlit("response.completed");
    reveal_strlit("response.done");
    assert("response.output_text.delta"@.len() == 26);
    assert("response.text.delta"@.len() == 19);
    assert("response.reasoning.delta"@.len() == 24);
    assert("response.reasoning_text.delta"@.len() == 29);
    assert("response.output_reasoning.delta"@.len() == 31);
    assert("response.function_call_arguments.delta"@.len() == 38);
    assert("response.function_call.parameter_delta"@.len() == 38);
    assert("response.function_call.completed"@.len() == 32);
    assert("response.output_item.added"@.len() == 26);
    assert("response.output_item.done"@.len() == 25);
    assert("response.output_item.delta"@.len() == 26);
    assert("response.completed"@.len() == 18);
    assert("response.done"@.len() == 13);
    assert("response.output_text.delta"@[16] == 't' && "response.output_item.added"@[16] == 'i');
    assert("response.output_text.delta"@[16] == 't' && "response.output_item.delta"@[16] == 'i');
    assert("response.function_call_arguments.delta"@[22] == '_' && "response.function_call.parameter_delta"@[22] == '.');
    assert("response.output_item.added"@[21] == 'a' && "response.output_item.delta"@[21] == 'd');
    reveal_strlit("max_output_tokens");
    reveal_strlit("stop_sequence");
    reveal_strlit("tool_calls");
    reveal_strlit("tool_use");
    reveal_strlit("function_call");
    reveal_strlit("max_tokens");
    assert("max_output_tokens"@.len() == 17);
    assert("stop_sequence"@.len() == 13);
    assert("tool_calls"@.len() == 10);
    assert("tool_use"@.len() == 8);
    assert("function_call"@.len() == 13);
    assert("max_tokens"@.len() == 10);
    assert("stop_sequence"@[0] == 's' && "function_call"@[0] == 'f');
    assert("tool_calls"@[0] == 't' && "max_tokens"@[0] == 'm');
    let items = items_at(response, "output"@);
    assert(items == output);
    assert forall|i: int| 0 <= i < output.len() implies (is_cut_off(#[trigger] output[i]) <==> cut_off(
        items[i],
    )) && (is_function_call(output[i]) <==> calls_function(items[i])) by {
    }
    assert(responses_event(json) == Some(StreamView::Stop { reason: end_of(response) }));
    if exists|i: int| 0 <= i < items.len() && cut_off(#[trigger] items[i]) {
        let i = choose|i: int| 0 <= i < items.len() && cut_off(#[trigger] items[i]);
        assert(is_cut_off(output[i]));
    }
    if exists|i: int| 0 <= i < output.len() && is_cut_off(#[trigger] output[i]) {
        let i = choose|i: int| 0 <= i < output.len() && is_cut_off(#[trigger] output[i]);
        assert(cut_off(items[i]));
        assert(end_of(response) == CanonicalStopReason::MaxTokens);
    } else {
        assert(has_no_text(response, "stop_reason"@) ==> end_of(response) == CanonicalStopReason::ToolUse
            || end_of(response) == CanonicalStopReason::EndTurn);
    }
    if exists|i: int| 0 <= i < items.len() && calls_function(#[trigger] items[i]) {
        let i = choose|i: int| 0 <= i < items.len() && calls_function(#[trigger] items[i]);
        assert(is_function_call(output[i]));
    }
    if exists|i: int| 0 <= i < output.len() && is_function_call(#[trigger] output[i]) {
        let i = choose|i: int| 0 <= i < output.len() && is_function_call(#[trigger] output[i]);
        assert(calls_function(items[i]));
    }
}

/// Whether a chunk of a Chat Completions stream that is written holds a delta, with a finish reason
/// or null.
pub open spec fn is_chunk(v: JsonView, delta: JsonView, finish: JsonView) -> bool {
    &&& v.get("object"@) == Some(JsonView::Str("chat.completion.chunk"@))
    &&& v.get("choices"@) is Some && v.get("choices"@)->Some_0 is Array
    &&& v.get("choices"@)->Some_0->Array_0.len() == 1
    &&& v.get("choices"@)->Some_0->Array_0[0].get("delta"@) == Some(delta)
    &&& v.get("choices"@)->Some_0->Array_0[0].get("finish_reason"@) == Some(finish)
}

/// Whether a delta that is written holds one tool call.
pub open spec fn is_call_delta(delta: JsonView, index: u64, id: JsonView, function: JsonView) -> bool {
    &&& delta.get("tool_calls"@) is Some && delta.get("tool_calls"@)->Some_0 is Array
    &&& delta.get("tool_calls"@)->Some_0->Array_0.len() == 1
    &&& delta.get("tool_calls"@)->Some_0->Array_0[0].get("index"@) == Some(JsonView::uint(index))
    &&& delta.get("tool_calls"@)->Some_0->Array_0[0].get("id"@) == Some(id)
    &&& delta.get("tool_calls"@)->Some_0->Array_0[0].get("function"@) == Some(function)
}

/// What a Chat Completions stream says for an event: texts and reasoning as they are, tool calls
/// with their number, identifier, name and arguments, ends with their reason and the end mark, and
/// nothing for token counts.
pub proof fn chat_events_are_written(e: StreamView)
    ensures
        match e {
            StreamView::TextDelta { text } => exists|v: JsonView, d: JsonView|
                #[trigger] is_chunk(v, d, JsonView::Null) && d.get("content"@) == Some(
                    JsonView::Str(text),
                ) && openai_sse(e) == "data: "@ + json_text(v) + "\n\n"@,
            StreamView::ReasoningDelta { text } => exists|v: JsonView, d: JsonView|
                #[trigger] is_chunk(v, d, JsonView::Null) && d.get("reasoning_content"@) == Some(
                    JsonView::Str(text),
                ) && d.get("content"@) is None && openai_sse(e) == "data: "@ + json_text(v) + "\n\n"@,
            StreamView::ToolUseStart { id, index, name, input } => exists|
                v: JsonView,
                d: JsonView,
                f: JsonView,
            |
                #[trigger] is_chunk(v, d, JsonView::Null) && #[trigger] is_call_delta(
                    d,
                    count(index),
                    JsonView::Str(id),
                    f,
                ) && f.get("name"@) == Some(JsonView::Str(name)) && (input is Object ==> f.get(
                    "arguments"@,
                ) == Some(JsonView::Str(json_text(input)))) && openai_sse(e) == "data: "@ + json_text(v)
                    + "\n\n"@,
            StreamView::ToolInputDelta { tool_use_id, index, input_chunk } => exists|
                v: JsonView,
                d: JsonView,
                id: JsonView,
                f: JsonView,
            |
                #[trigger] is_chunk(v, d, JsonView::Null) && #[trigger] is_call_delta(
                    d,
                    count(index),
                    id,
                    f,
                ) && (tool_use_id.len() > 0 ==> id == JsonView::Str(tool_use_id)) && f.get("name"@) is None
                    && f.get("arguments"@) == Some(JsonView::Str(input_chunk)) && openai_sse(e)
                    == "data: "@ + json_text(v) + "\n\n"@,
            StreamView::Stop { reason } => exists|v: JsonView, d: JsonView, t: Seq<char>|
                #[trigger] is_chunk(v, d, JsonView::Str(t)) && (reason == CanonicalStopReason::MaxTokens
                    ==> t == "length"@) && (reason == CanonicalStopReason::ToolUse ==> t == "tool_calls"@)
                    && (reason == CanonicalStopReason::EndTurn || reason
                    == CanonicalStopReason::StopSequence ==> t == "stop"@) && openai_sse(e) == "data: "@
                    + json_text(v) + "\n\n"@ + "data: [DONE]\n\n"@,
            StreamView::Usage { input_tokens, output_tokens } => openai_sse(e).len() == 0,
            StreamView::Raw { event, data } => if data == "[DONE]"@ {
                openai_sse(e) == "data: [DONE]\n\n"@
            } else {
                openai_sse(e).len() == 0
            },
        },
{
    reveal_strlit("id");
    reveal_strlit("object");
    reveal_strlit("created");
    reveal_strlit("model");
    reveal_strlit("choices");
    reveal_strlit("index");
    reveal_strlit("delta");
    reveal_strlit("finish_reason");
    reveal_strlit("content");
    reveal_strlit("reasoning_content");
    reveal_strlit("tool_calls");
    reveal_strlit("type");
    reveal_strlit("function");
    reveal_strlit("name");
    reveal_strlit("arguments");
    assert("id"@.len() == 2);
    assert("object"@.len() == 6);
    assert("created"@.len() == 7);
    assert("model"@.len() == 5);
    assert("choices"@.len() == 7);
    assert("index"@.len() == 5);
    assert("delta"@.len() == 5);
    assert("finish_reason"@.len() == 13);
    assert("content"@.len() == 7);
    assert("reasoning_content"@.len() == 17);
    assert("tool_calls"@.len() == 10);
    assert("type"@.len() == 4);
    assert("function"@.len() == 8);
    assert("name"@.len() == 4);
    assert("arguments"@.len() == 9);
    assert("created"@[1] == 'r' && "choices"@[1] == 'h');
    assert("created"@[1] == 'r' && "content"@[1] == 'o');
    assert("model"@[0] == 'm' && "index"@[0] == 'i');
    assert("model"@[0] == 'm' && "delta"@[0] == 'd');
    assert("choices"@[1] == 'h' && "content"@[1] == 'o');
    assert("index"@[0] == 'i' && "delta"@[0] == 'd');
    assert("type"@[0] == 't' && "name"@[0] == 'n');
    match openai_chunk(e) {
        Some(v) => {
            let c = v.get("choices"@)->Some_0->Array_0[0];
            let d = c.get("delta"@)->Some_0;
            let finish = c.get("finish_reason"@)->Some_0;
            assert(is_chunk(v, d, finish));
            match e {
                StreamView::ToolUseStart { id, index, name, input } => {
                    let call = d.get("tool_calls"@)->Some_0->Array_0[0];
                    let n = count(index);
                    assert(is_call_delta(d, n, JsonView::Str(id), call.get("function"@)->Some_0));
                },
                StreamView::ToolInputDelta { tool_use_id, index, input_chunk } => {
                    let call = d.get("tool_calls"@)->Some_0->Array_0[0];
                    let n = count(index);
                    assert(is_call_delta(d, n, call.get("id"@)->Some_0, call.get("function"@)->Some_0));
                },
                _ => {},
            }
        },
        None => {},
    }
}

/// What a Responses stream says for an event: texts, reasoning, tool calls, arguments and the end,
/// each under its own kind, with what it carries.
pub proof fn responses_events_are_written(e: StreamView)
    ensures
        !(e is Raw) ==> responses_body(e) is Some && responses_sse(e) == "data: "@ + json_text(
            responses_body(e)->Some_0,
        ) + "\n\n"@,
        e is Raw ==> responses_sse(e).len() == 0,
        !(e is Raw) ==> ({
            let v = responses_body(e)->Some_0;
            match e {
                StreamView::TextDelta { text } => v.get("type"@) == Some(
                    JsonView::Str("response.output_text.delta"@),
                ) && v.get("delta"@) == Some(JsonView::Str(text)),
                StreamView::ReasoningDelta { text } => v.get("type"@) == Some(
                    JsonView::Str("response.reasoning.delta"@),
                ) && v.get("delta"@) == Some(JsonView::Str(text)),
                StreamView::ToolUseStart { id, index, name, input } => v.get("type"@) == Some(
                    JsonView::Str("response.function_call.completed"@),
                ) && v.get("id"@) == Some(JsonView::Str(id)) && v.get("name"@) == Some(
                    JsonView::Str(name),
                ) && (input is Object ==> v.get("arguments"@) == Some(JsonView::Str(json_text(input)))),
                StreamView::ToolInputDelta { tool_use_id, index, input_chunk } => v.get("type"@) == Some(
                    JsonView::Str("response.function_call.parameter_delta"@),
                ) && v.get("id"@) == Some(JsonView::Str(tool_use_id)) && v.get("delta"@) == Some(
                    JsonView::Str(input_chunk),
                ) && number_at(v, "index"@) == index,
                StreamView::Stop { reason } => v.get("type"@) == Some(JsonView::Str("response.done"@))
                    && v.get("stop_reason"@) == Some(
                    JsonView::Str(
                        match reason {
                            CanonicalStopReason::EndTurn => "end_turn"@,
                            CanonicalStopReason::MaxTokens => "max_output_tokens"@,
                            CanonicalStopReason::StopSequence => "stop_sequence"@,
                            CanonicalStopReason::ToolUse => "tool_calls"@,
                        },
                    ),
                ),
                StreamView::Usage { input_tokens, output_tokens } => v.get("usage"@) is Some && number_at(
                    v.get("usage"@)->Some_0,
                    "input_tokens"@,
                ) == Some(input_tokens) && number_at(v.get("usage"@)->Some_0, "output_tokens"@) == Some(
                    output_tokens,
                ),
                _ => true,
            }
        }),
{
    reveal_strlit("event");
    reveal_strlit("type");
    reveal_strlit("delta");
    reveal_strlit("index");
    reveal_strlit("id");
    reveal_strlit("name");
    reveal_strlit("arguments");
    reveal_strlit("response");
    reveal_strlit("done");
    reveal_strlit("stop_reason");
    reveal_strlit("usage");
    reveal_strlit("input_tokens");
    reveal_strlit("output_tokens");
    assert("event"@.len() == 5);
    assert("type"@.len() == 4);
    assert("delta"@.len() == 5);
    assert("index"@.len() == 5);
    assert("id"@.len() == 2);
    assert("name"@.len() == 4);
    assert("arguments"@.len() == 9);
    assert("response"@.len() == 8);
    assert("done"@.len() == 4);
    assert("stop_reason"@.len() == 11);
    assert("usage"@.len() == 5);
    assert("input_tokens"@.len() == 12);
    assert("output_tokens"@.len() == 13);
    assert("event"@[0] == 'e' && "delta"@[0] == 'd');
    assert("event"@[0] == 'e' && "index"@[0] == 'i');
    assert("event"@[0] == 'e' && "usage"@[0] == 'u');
    assert("type"@[0] == 't' && "name"@[0] == 'n');
    assert("type"@[0] == 't' && "done"@[0] == 'd');
    assert("delta"@[0] == 'd' && "index"@[0] == 'i');
    assert("delta"@[0] == 'd' && "usage"@[0] == 'u');
    assert("index"@[0] == 'i' && "usage"@[0] == 'u');
    assert("name"@[0] == 'n' && "done"@[0] == 'd');
}

/// What an Anthropic stream says for an event, behind the starts that it needs: texts and reasoning
/// as they are, tool calls with their number, identifier, name and input, arguments with their
/// number, and the end with the number of the block that was started last.
pub proof fn anthropic_events_are_written(w: WrapperView, e: StreamView)
    ensures
        ({
            let (u, frames) = wrapped(w, e);
            let last = frames.last();
            &&& match e {
                StreamView::TextDelta { text } => frames.len() > 0 && last.kind is BlockDelta && last.body.get(
                    "delta"@,
                ) is Some && last.body.get("delta"@)->Some_0.get("type"@) == Some(
                    JsonView::Str("text_delta"@),
                ) && last.body.get("delta"@)->Some_0.get("text"@) == Some(JsonView::Str(text)),
                StreamView::ReasoningDelta { text } => frames.len() > 0 && last.kind is BlockDelta
                    && last.body.get("delta"@) is Some && last.body.get("delta"@)->Some_0.get("type"@)
                    == Some(JsonView::Str("thinking_delta"@)) && last.body.get("delta"@)->Some_0.get(
                    "thinking"@,
                ) == Some(JsonView::Str(text)),
                StreamView::ToolUseStart { id, index, name, input } => frames.len() > 0
                    && last.kind is BlockStart && last.body.get("content_block"@) is Some && ({
                    let b = last.body.get("content_block"@)->Some_0;
                    &&& b.get("type"@) == Some(JsonView::Str("tool_use"@))
                    &&& b.get("id"@) == Some(JsonView::Str(id))
                    &&& b.get("name"@) == Some(JsonView::Str(name))
                    &&& b.get("input"@) == Some(input)
                }) && number_at(last.body, "index"@) == Some(count(index)) && u.last_index == count(index),
                StreamView::ToolInputDelta { tool_use_id, index, input_chunk } => frames.len() == 1
                    && last.kind is BlockDelta && last.body.get("delta"@) is Some && last.body.get(
                    "delta"@,
                )->Some_0.get("type"@) == Some(JsonView::Str("input_json_delta"@)) && last.body.get(
                    "delta"@,
                )->Some_0.get("partial_json"@) == Some(JsonView::Str(input_chunk)) && number_at(last.body, "index"@)
                    == Some(count(index)),
                StreamView::Stop { reason } => frames.len() == 3 && frames[0].kind is BlockStop && number_at(
                    frames[0].body,
                    "index"@,
                ) == Some(w.last_index) && frames[1].kind is MessageDelta && frames[1].body.get("delta"@) is Some
                    && frames[1].body.get("delta"@)->Some_0.get("stop_reason"@) == Some(
                    JsonView::Str(
                        match reason {
                            CanonicalStopReason::EndTurn => if w.saw_tool_use {
                                "tool_use"@
                            } else {
                                "end_turn"@
                            },
                            CanonicalStopReason::MaxTokens => "max_tokens"@,
                            CanonicalStopReason::StopSequence => "stop_sequence"@,
                            CanonicalStopReason::ToolUse => "tool_use"@,
                        },
                    ),
                ) && frames[2].kind is MessageStop && u.stopped,
                _ => frames.len() == 0 && u == w,
            }
            &&& forall|i: int|
                0 <= i < frames.len() ==> (#[trigger] frames[i]).body.get("type"@) == Some(
                    JsonView::Str(
                        match frames[i].kind {
                            FrameKind::MessageStart => "message_start"@,
                            FrameKind::BlockStart => "content_block_start"@,
                            FrameKind::BlockDelta => "content_block_delta"@,
                            FrameKind::BlockStop => "content_block_stop"@,
                            FrameKind::MessageDelta => "message_delta"@,
                            FrameKind::MessageStop => "message_stop"@,
                        },
                    ),
                )
            &&& u.saw_tool_use <==> w.saw_tool_use || e is ToolUseStart || e is ToolInputDelta
            &&& u.stopped <==> w.stopped || e is Stop
        }),
{
    reveal_strlit("type");
    reveal_strlit("index");
    reveal_strlit("delta");
    reveal_strlit("text");
    reveal_strlit("thinking");
    reveal_strlit("partial_json");
    reveal_strlit("content_block");
    reveal_strlit("id");
    reveal_strlit("name");
    reveal_strlit("input");
    reveal_strlit("stop_reason");
    reveal_strlit("stop_sequence");
    reveal_strlit("usage");
    reveal_strlit("message");
    assert("type"@.len() == 4);
    assert("index"@.len() == 5);
    assert("delta"@.len() == 5);
    assert("text"@.len() == 4);
    assert("thinking"@.len() == 8);
    assert("partial_json"@.len() == 12);
    assert("content_block"@.len() == 13);
    assert("id"@.len() == 2);
    assert("name"@.len() == 4);
    assert("input"@.len() == 5);
    assert("stop_reason"@.len() == 11);
    assert("stop_sequence"@.len() == 13);
    assert("usage"@.len() == 5);
    assert("message"@.len() == 7);
    assert("type"@[1] == 'y' && "text"@[1] == 'e');
    assert("type"@[0] == 't' && "name"@[0] == 'n');
    assert("index"@[0] == 'i' && "delta"@[0] == 'd');
    assert("index"@[2] == 'd' && "input"@[2] == 'p');
    assert("index"@[0] == 'i' && "usage"@[0] == 'u');
    assert("delta"@[0] == 'd' && "input"@[0] == 'i');
    assert("delta"@[0] == 'd' && "usage"@[0] == 'u');
    assert("text"@[0] == 't' && "name"@[0] == 'n');
    assert("content_block"@[0] == 'c' && "stop_sequence"@[0] == 's');
    assert("input"@[0] == 'i' && "usage"@[0] == 'u');
}

} // verus!
