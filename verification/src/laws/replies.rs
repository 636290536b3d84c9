//! What whole answers mean: what is read from the body of an answer, what is written for it, and
//! what a client gets.
use crate::codec::{json_parse, json_text};
use crate::handlers::chat::{client_body, full_choices, full_item, full_items, full_message, with_totals};
use crate::json::JsonView;
use crate::laws::events::count;
use crate::laws::outgoing::is_call_entry;
use crate::laws::requests::{calls_are_uses, is_list, is_use_of, is_word};
use crate::laws::{number_at, says, says_nothing};
use crate::text::joined;
use crate::transform::anthropic;
use crate::transform::answers::responses_survive;
use crate::transform::canonical::{BlockView, CanonicalStopReason, CanonicalUsage, ResponseView};
use crate::transform::chat_completions;
use crate::transform::chat_completions::{answer_message, items_at, visible_texts};
use crate::transform::responses;
use crate::transform::{read_response, write_response, Protocol};
use vstd::prelude::*;
use vstd::string::*;

verus! {

/// The message of the first choice of a Chat Completions answer.
pub open spec fn is_answer(body: JsonView, choice: JsonView, message: JsonView) -> bool {
    match body.get("choices"@) {
        Some(JsonView::Array(a)) => a.len() > 0 && a[0] == choice && choice.get("message"@) == Some(message),
        _ => false,
    }
}

/// A Chat Completions answer is read with its tool calls, its reasoning and its text, all of them
/// where all are there.
pub proof fn chat_answers_are_read(
    body: JsonView,
    choice: JsonView,
    message: JsonView,
    a: Seq<JsonView>,
    thought: Seq<char>,
    t: Seq<char>,
)
    requires
        is_answer(body, choice, message),
        forall|i: int| 0 <= i < a.len() ==> (#[trigger] a[i]).get("function"@) is Some,
        is_list(message.get("tool_calls"@), a) || (message.get("tool_calls"@) is None && a.len() == 0),
    ensures
        ({
            let p = read_response(Protocol::ChatCompletions, body);
            let c = p.content;
            let silent = says_nothing(message, "reasoning_content"@) && says_nothing(
                message,
                "reasoning"@,
            ) && says_nothing(message, "thinking"@);
            &&& forall|i: int| 0 <= i < a.len() ==> is_use_of(#[trigger] c[i], a[i])
            &&& says(message, "content"@, t) && silent ==> c.len() == a.len() + 1 && c.last() == (BlockView::Text {
                text: t,
            })
            &&& says_nothing(message, "content"@) && silent ==> c.len() == a.len()
            &&& says(message, "content"@, t) && says(message, "reasoning_content"@, thought) ==> c.len()
                == a.len() + 2 && c.last() == (BlockView::Text { text: t }) && c[c.len() - 2]
                == (BlockView::Reasoning { text: thought })
            &&& says_nothing(message, "content"@) && says(message, "reasoning_content"@, thought) ==> c.len()
                == a.len() + 1 && c.last() == (BlockView::Reasoning { text: thought })
        }),
{
    calls_are_uses(a);
    let u = chat_completions::requested_calls(a);
    assert(items_at(message, "tool_calls"@) =~= a);
    let c = read_response(Protocol::ChatCompletions, body).content;
    assert(c == chat_completions::answer_content(message));
    assert forall|i: int| 0 <= i < a.len() implies is_use_of(#[trigger] c[i], a[i]) by {
        assert(c[i] == u[i]);
    }
}

/// The rest of a Chat Completions answer is read field by field.
pub proof fn chat_answers_tell(body: JsonView, choice: JsonView, message: JsonView, id: Seq<char>, model: Seq<char>)
    requires
        is_answer(body, choice, message),
    ensures
        ({
            let p = read_response(Protocol::ChatCompletions, body);
            &&& is_word(body.get("id"@), id) ==> p.id == id
            &&& is_word(body.get("model"@), model) ==> p.model == model
            &&& p.stop_reason == Some(CanonicalStopReason::MaxTokens) <==> is_word(
                choice.get("finish_reason"@),
                "length"@,
            )
            &&& p.stop_reason == Some(CanonicalStopReason::ToolUse) <==> is_word(
                choice.get("finish_reason"@),
                "tool_calls"@,
            )
            &&& p.stop_reason == Some(CanonicalStopReason::EndTurn) <==> is_word(
                choice.get("finish_reason"@),
                "stop"@,
            ) || is_word(choice.get("finish_reason"@), "content_filter"@)
            &&& p.stop_reason != Some(CanonicalStopReason::StopSequence)
            &&& match body.get("usage"@) {
                Some(u) => p.usage == Some(
                    CanonicalUsage {
                        input_tokens: count(number_at(u, "prompt_tokens"@)),
                        output_tokens: count(number_at(u, "completion_tokens"@)),
                        total_tokens: number_at(u, "total_tokens"@),
                    },
                ),
                None => p.usage is None,
            }
        }),
{
    reveal_strlit("length");
    reveal_strlit("tool_calls");
    reveal_strlit("stop");
    reveal_strlit("content_filter");
    assert("length"@.len() == 6);
    assert("tool_calls"@.len() == 10);
    assert("stop"@.len() == 4);
    assert("content_filter"@.len() == 14);
}

/// An Anthropic answer is read field by field, its content item by item.
pub proof fn anthropic_answers_tell(body: JsonView, a: Seq<JsonView>, id: Seq<char>, model: Seq<char>)
    ensures
        ({
            let p = read_response(Protocol::AnthropicMessages, body);
            &&& is_word(body.get("id"@), id) ==> p.id == id
            &&& is_word(body.get("model"@), model) ==> p.model == model
            &&& is_list(body.get("content"@), a) ==> p.content == anthropic::items_content(a)
            &&& p.stop_reason == Some(CanonicalStopReason::MaxTokens) <==> is_word(
                body.get("stop_reason"@),
                "max_tokens"@,
            )
            &&& p.stop_reason == Some(CanonicalStopReason::ToolUse) <==> is_word(
                body.get("stop_reason"@),
                "tool_use"@,
            )
            &&& p.stop_reason == Some(CanonicalStopReason::EndTurn) <==> is_word(
                body.get("stop_reason"@),
                "end_turn"@,
            )
            &&& p.stop_reason == Some(CanonicalStopReason::StopSequence) <==> is_word(
                body.get("stop_reason"@),
                "stop_sequence"@,
            )
            &&& match body.get("usage"@) {
                Some(u) => p.usage == Some(
                    CanonicalUsage {
                        input_tokens: count(number_at(u, "input_tokens"@)),
                        output_tokens: count(number_at(u, "output_tokens"@)),
                        total_tokens: None,
                    },
                ),
                None => p.usage is None,
            }
        }),
{
    reveal_strlit("end_turn");
    reveal_strlit("max_tokens");
    reveal_strlit("stop_sequence");
    reveal_strlit("tool_use");
    assert("end_turn"@.len() == 8);
    assert("max_tokens"@.len() == 10);
    assert("stop_sequence"@.len() == 13);
    assert("tool_use"@.len() == 8);
    assert("end_turn"@[0] == 'e' && "tool_use"@[0] == 't');
}

/// The output of a Responses answer is read item by item: the pieces of messages, function calls
/// with their arguments, and reasoning.
pub proof fn responses_answers_are_read(
    body: JsonView,
    a: Seq<JsonView>,
    v: JsonView,
    id: Seq<char>,
    name: Seq<char>,
    t: Seq<char>,
)
    requires
        body is Object,
    ensures
        ({
            let before = read_response(Protocol::Responses, body.with("output"@, JsonView::Array(a)));
            let after = read_response(Protocol::Responses, body.with("output"@, JsonView::Array(a.push(v))));
            &&& is_word(v.get("type"@), "message"@) && v.get("content"@) is Some && v.get(
                "content"@,
            )->Some_0 is Array ==> after.content == before.content + responses::parts_of(
                v.get("content"@)->Some_0->Array_0,
            )
            &&& is_word(v.get("type"@), "function_call"@) && says(v, "call_id"@, id) && is_word(
                v.get("name"@),
                name,
            ) && is_word(v.get("arguments"@), t) && json_parse(t) is Some ==> after.content
                == before.content.push(BlockView::ToolUse { id, name, input: json_parse(t)->Some_0 })
            &&& is_word(v.get("type"@), "function_call"@) && says_nothing(v, "call_id"@) && says(v, "id"@, id)
                && is_word(v.get("name"@), name) && is_word(v.get("arguments"@), t) && json_parse(t) is Some
                ==> after.content == before.content.push(
                BlockView::ToolUse { id, name, input: json_parse(t)->Some_0 },
            )
            &&& is_word(v.get("type"@), "reasoning"@) && v.get("summary"@) is Some && v.get(
                "summary"@,
            )->Some_0 is Array && v.get("content"@) is None ==> after.content == before.content
                + responses::parts_of(v.get("summary"@)->Some_0->Array_0)
            &&& is_word(v.get("type"@), "reasoning"@) && v.get("summary"@) is Some && v.get(
                "summary"@,
            )->Some_0 is Array && v.get("content"@) is Some && v.get("content"@)->Some_0 is Array ==> after.content
                == before.content + responses::parts_of(v.get("summary"@)->Some_0->Array_0) + responses::parts_of(
                v.get("content"@)->Some_0->Array_0,
            )
        }),
{
    reveal_strlit("message");
    reveal_strlit("function_call");
    reveal_strlit("reasoning");
    assert("message"@.len() == 7);
    assert("function_call"@.len() == 13);
    assert("reasoning"@.len() == 9);
    let b1 = body.with("output"@, JsonView::Array(a));
    let b2 = body.with("output"@, JsonView::Array(a.push(v)));
    assert(items_at(b1, "output"@) == a && items_at(b2, "output"@) == a.push(v));
    assert(a.push(v).drop_last() =~= a);
    let c = responses::outputs_content(a);
    if is_word(v.get("type"@), "function_call"@) && (says(v, "call_id"@, id) || (says_nothing(v, "call_id"@)
        && says(v, "id"@, id))) && is_word(v.get("name"@), name) && is_word(v.get("arguments"@), t)
        && json_parse(t) is Some {
        let b = BlockView::ToolUse { id, name, input: json_parse(t)->Some_0 };
        assert(responses::output_content(v) =~= seq![b]);
        assert(c + seq![b] =~= c.push(b));
    }
    let r = responses::parts_of(items_at(v, "summary"@));
    let x = responses::parts_of(items_at(v, "content"@));
    assert(c + (r + x) =~= c + r + x);
    if is_word(v.get("type"@), "reasoning"@) && v.get("content"@) is None {
        assert(responses::parts_of(Seq::empty()) =~= Seq::<BlockView>::empty());
        assert(r + Seq::<BlockView>::empty() =~= r);
    }
}

/// The rest of a Responses answer is read field by field: an answer in progress has no end, an
/// incomplete one has reached its limit.
pub proof fn responses_answers_tell(body: JsonView, id: Seq<char>, model: Seq<char>)
    ensures
        ({
            let p = read_response(Protocol::Responses, body);
            let finished = !is_word(body.get("status"@), "in_progress"@) && !is_word(
                body.get("status"@),
                "incomplete"@,
            );
            &&& is_word(body.get("id"@), id) ==> p.id == id
            &&& is_word(body.get("model"@), model) ==> p.model == model
            &&& p.stop_reason is None <==> is_word(body.get("status"@), "in_progress"@)
            &&& is_word(body.get("status"@), "incomplete"@) ==> p.stop_reason == Some(
                CanonicalStopReason::MaxTokens,
            )
            &&& finished && is_word(body.get("stop_reason"@), "max_output_tokens"@) ==> p.stop_reason == Some(
                CanonicalStopReason::MaxTokens,
            )
            &&& finished && is_word(body.get("stop_reason"@), "stop_sequence"@) ==> p.stop_reason == Some(
                CanonicalStopReason::StopSequence,
            )
            &&& finished && is_word(body.get("stop_reason"@), "tool_calls"@) ==> p.stop_reason == Some(
                CanonicalStopReason::ToolUse,
            )
            &&& finished && is_word(body.get("stop_reason"@), "end_turn"@) ==> p.stop_reason == Some(
                CanonicalStopReason::EndTurn,
            )
            &&& finished && says_nothing(body, "stop_reason"@) ==> (p.stop_reason == Some(
                CanonicalStopReason::ToolUse,
            ) <==> exists|i: int|
                0 <= i < items_at(body, "output"@).len() && is_word(
                    (#[trigger] items_at(body, "output"@)[i]).get("type"@),
                    "function_call"@,
                ))
            &&& match body.get("usage"@) {
                Some(u) => p.usage == Some(
                    CanonicalUsage {
                        input_tokens: count(number_at(u, "input_tokens"@)),
                        output_tokens: count(number_at(u, "output_tokens"@)),
                        total_tokens: number_at(u, "total_tokens"@),
                    },
                ),
                None => p.usage is None,
            }
        }),
{
    reveal_strlit("in_progress");
    reveal_strlit("incomplete");
    reveal_strlit("completed");
    assert("in_progress"@.len() == 11);
    assert("incomplete"@.len() == 10);
    assert("completed"@.len() == 9);
    reveal_strlit("end_turn");
    reveal_strlit("max_output_tokens");
    reveal_strlit("max_tokens");
    reveal_strlit("stop_sequence");
    reveal_strlit("tool_calls");
    reveal_strlit("function_call");
    assert("end_turn"@.len() == 8);
    assert("max_output_tokens"@.len() == 17);
    assert("max_tokens"@.len() == 10);
    assert("stop_sequence"@.len() == 13);
    assert("tool_calls"@.len() == 10);
    assert("function_call"@.len() == 13);
    assert("max_tokens"@[0] == 'm' && "tool_calls"@[0] == 't');
    assert("stop_sequence"@[0] == 's' && "function_call"@[0] == 'f');
    let a = items_at(body, "output"@);
    assert forall|i: int| 0 <= i < a.len() implies (responses::is_call(#[trigger] a[i]) <==> is_word(
        a[i].get("type"@),
        "function_call"@,
    )) by {
    }
    if exists|i: int| 0 <= i < a.len() && responses::is_call(#[trigger] a[i]) {
        let i = choose|i: int| 0 <= i < a.len() && responses::is_call(#[trigger] a[i]);
        assert(is_word(a[i].get("type"@), "function_call"@));
    }
    if exists|i: int| 0 <= i < a.len() && is_word((#[trigger] a[i]).get("type"@), "function_call"@) {
        let i = choose|i: int| 0 <= i < a.len() && is_word((#[trigger] a[i]).get("type"@), "function_call"@);
        assert(responses::is_call(a[i]));
    }
}

/// The message that a Chat Completions answer is written with.
pub open spec fn written_message(p: ResponseView) -> JsonView {
    items_at(write_response(Protocol::ChatCompletions, p), "choices"@)[0].at("message"@)
}

proof fn written_message_is(p: ResponseView)
    ensures
        items_at(write_response(Protocol::ChatCompletions, p), "choices"@).len() == 1,
        written_message(p) == answer_message(p.content),
{
    reveal_strlit("id");
    reveal_strlit("model");
    reveal_strlit("choices");
    reveal_strlit("usage");
    reveal_strlit("index");
    reveal_strlit("message");
    reveal_strlit("finish_reason");
    assert("id"@.len() == 2);
    assert("model"@.len() == 5);
    assert("choices"@.len() == 7);
    assert("usage"@.len() == 5);
    assert("index"@.len() == 5);
    assert("message"@.len() == 7);
    assert("finish_reason"@.len() == 13);
    assert("model"@[0] == 'm' && "usage"@[0] == 'u');
    assert("model"@[0] == 'm' && "index"@[0] == 'i');
    assert("choices"@[0] == 'c' && "message"@[0] == 'm');
    assert("usage"@[0] == 'u' && "index"@[0] == 'i');
}

/// A Chat Completions answer grows with its content: a text is put behind what can be read, with a
/// blank line between, and a tool call is put behind the others.
pub proof fn chat_answers_grow(p: ResponseView, t: Seq<char>, id: Seq<char>, name: Seq<char>, input: JsonView)
    ensures
        ({
            let before = written_message(p);
            let spoken = written_message(
                ResponseView { content: p.content.push(BlockView::Text { text: t }), ..p },
            );
            let thought = written_message(
                ResponseView { content: p.content.push(BlockView::Reasoning { text: t }), ..p },
            );
            let called = written_message(
                ResponseView { content: p.content.push(BlockView::ToolUse { id, name, input }), ..p },
            );
            let seen = visible_texts(p.content).len() > 0;
            &&& seen ==> before.get("content"@) is Some && before.get("content"@)->Some_0 is Str
            &&& seen ==> is_word(
                spoken.get("content"@),
                before.get("content"@)->Some_0->Str_0 + "\n\n"@ + t,
            )
            &&& !seen ==> is_word(spoken.get("content"@), t)
            &&& !seen ==> is_word(thought.get("content"@), "<think>\n"@ + t + "\n</think>"@)
            &&& items_at(spoken, "tool_calls"@) == items_at(before, "tool_calls"@)
            &&& seen ==> called.get("content"@) == before.get("content"@)
            &&& items_at(called, "tool_calls"@).len() == items_at(before, "tool_calls"@).len() + 1
            &&& items_at(called, "tool_calls"@).drop_last() == items_at(before, "tool_calls"@)
            &&& is_call_entry(items_at(called, "tool_calls"@).last(), id, name, input)
        }),
        forall|q: ResponseView|
            #![trigger written_message(q)]
            q.content.len() == 0 ==> visible_texts(q.content).len() == 0 && items_at(
                written_message(q),
                "tool_calls"@,
            ).len() == 0,
{
    reveal_strlit("role");
    reveal_strlit("content");
    reveal_strlit("tool_calls");
    assert("role"@.len() == 4);
    assert("content"@.len() == 7);
    assert("tool_calls"@.len() == 10);
    reveal_strlit("id");
    reveal_strlit("type");
    reveal_strlit("function");
    reveal_strlit("name");
    reveal_strlit("arguments");
    assert("id"@.len() == 2);
    assert("type"@.len() == 4);
    assert("function"@.len() == 8);
    assert("name"@.len() == 4);
    assert("arguments"@.len() == 9);
    assert("type"@[0] == 't' && "name"@[0] == 'n');
    let s = p.content;
    let text = BlockView::Text { text: t };
    let thought = BlockView::Reasoning { text: t };
    let call = BlockView::ToolUse { id, name, input };
    written_message_is(p);
    written_message_is(ResponseView { content: s.push(text), ..p });
    written_message_is(ResponseView { content: s.push(thought), ..p });
    written_message_is(ResponseView { content: s.push(call), ..p });
    assert(s.push(text).drop_last() =~= s);
    assert(s.push(thought).drop_last() =~= s);
    assert(s.push(call).drop_last() =~= s);
    let seen = visible_texts(s);
    assert(seen.push(t).drop_last() =~= seen);
    let calls = chat_completions::openai_calls(s);
    assert(calls.len() == 0 ==> calls =~= Seq::<JsonView>::empty());
    assert(items_at(answer_message(s), "tool_calls"@) =~= calls);
    assert(items_at(answer_message(s.push(text)), "tool_calls"@) =~= calls);
    let more = chat_completions::openai_calls(s.push(call));
    assert(items_at(answer_message(s.push(call)), "tool_calls"@) =~= more);
    assert(more.drop_last() =~= calls);
    assert forall|q: ResponseView| #![trigger written_message(q)] q.content.len() == 0 implies visible_texts(
        q.content,
    ).len() == 0 && items_at(written_message(q), "tool_calls"@).len() == 0 by {
        written_message_is(q);
        assert(chat_completions::openai_calls(q.content).len() == 0);
        assert(answer_message(q.content).get("tool_calls"@) is None);
    }
}

/// The rest of an answer is written field by field, in the names of each protocol.
pub proof fn answers_tell(p: ResponseView)
    ensures
        ({
            let body = write_response(Protocol::ChatCompletions, p);
            let choice = items_at(body, "choices"@)[0];
            &&& is_word(body.get("id"@), p.id) && is_word(body.get("model"@), p.model)
            &&& match p.stop_reason {
                Some(r) => is_word(
                    choice.get("finish_reason"@),
                    match r {
                        CanonicalStopReason::MaxTokens => "length"@,
                        CanonicalStopReason::ToolUse => "tool_calls"@,
                        _ => "stop"@,
                    },
                ),
                None => choice.get("finish_reason"@) is None,
            }
            &&& match p.usage {
                Some(u) => body.get("usage"@) is Some && number_at(body.get("usage"@)->Some_0, "prompt_tokens"@)
                    == Some(u.input_tokens) && number_at(body.get("usage"@)->Some_0, "completion_tokens"@)
                    == Some(u.output_tokens) && number_at(body.get("usage"@)->Some_0, "total_tokens"@)
                    == u.total_tokens,
                None => body.get("usage"@) is None,
            }
        }),
        ({
            let body = write_response(Protocol::AnthropicMessages, p);
            &&& is_word(body.get("id"@), p.id) && is_word(body.get("model"@), p.model)
            &&& is_word(body.get("type"@), "message"@)
            &&& is_list(
                body.get("content"@),
                p.content.map_values(|b: BlockView| anthropic::anthropic_block(b)),
            )
            &&& match p.stop_reason {
                Some(r) => is_word(
                    body.get("stop_reason"@),
                    match r {
                        CanonicalStopReason::EndTurn => "end_turn"@,
                        CanonicalStopReason::MaxTokens => "max_tokens"@,
                        CanonicalStopReason::StopSequence => "stop_sequence"@,
                        CanonicalStopReason::ToolUse => "tool_use"@,
                    },
                ),
                None => body.get("stop_reason"@) is None,
            }
            &&& match p.usage {
                Some(u) => body.get("usage"@) is Some && number_at(body.get("usage"@)->Some_0, "input_tokens"@)
                    == Some(u.input_tokens) && number_at(body.get("usage"@)->Some_0, "output_tokens"@)
                    == Some(u.output_tokens),
                None => body.get("usage"@) is None,
            }
        }),
        ({
            let body = write_response(Protocol::Responses, p);
            &&& is_word(body.get("id"@), p.id) && is_word(body.get("model"@), p.model)
            &&& is_word(
                body.get("status"@),
                if p.stop_reason is Some {
                    "completed"@
                } else {
                    "in_progress"@
                },
            )
            &&& match p.stop_reason {
                Some(r) => is_word(
                    body.get("stop_reason"@),
                    match r {
                        CanonicalStopReason::EndTurn => "end_turn"@,
                        CanonicalStopReason::MaxTokens => "max_output_tokens"@,
                        CanonicalStopReason::StopSequence => "stop_sequence"@,
                        CanonicalStopReason::ToolUse => "tool_calls"@,
                    },
                ),
                None => body.get("stop_reason"@) is None,
            }
            &&& match p.usage {
                Some(u) => body.get("usage"@) is Some && number_at(body.get("usage"@)->Some_0, "input_tokens"@)
                    == Some(u.input_tokens) && number_at(body.get("usage"@)->Some_0, "output_tokens"@)
                    == Some(u.output_tokens) && number_at(body.get("usage"@)->Some_0, "total_tokens"@)
                    == u.total_tokens,
                None => body.get("usage"@) is None,
            }
        }),
{
    reveal_strlit("id");
    reveal_strlit("model");
    reveal_strlit("choices");
    reveal_strlit("usage");
    reveal_strlit("index");
    reveal_strlit("message");
    reveal_strlit("finish_reason");
    reveal_strlit("content");
    reveal_strlit("type");
    reveal_strlit("stop_reason");
    reveal_strlit("output");
    reveal_strlit("status");
    assert("id"@.len() == 2);
    assert("model"@.len() == 5);
    assert("choices"@.len() == 7);
    assert("usage"@.len() == 5);
    assert("index"@.len() == 5);
    assert("message"@.len() == 7);
    assert("finish_reason"@.len() == 13);
    assert("content"@.len() == 7);
    assert("type"@.len() == 4);
    assert("stop_reason"@.len() == 11);
    assert("output"@.len() == 6);
    assert("status"@.len() == 6);
    assert("model"@[0] == 'm' && "usage"@[0] == 'u');
    assert("model"@[0] == 'm' && "index"@[0] == 'i');
    assert("choices"@[0] == 'c' && "message"@[0] == 'm');
    assert("choices"@[1] == 'h' && "content"@[1] == 'o');
    assert("usage"@[0] == 'u' && "index"@[0] == 'i');
    assert("message"@[0] == 'm' && "content"@[0] == 'c');
    assert("output"@[0] == 'o' && "status"@[0] == 's');
    reveal_strlit("prompt_tokens");
    reveal_strlit("completion_tokens");
    reveal_strlit("total_tokens");
    reveal_strlit("input_tokens");
    reveal_strlit("output_tokens");
    assert("prompt_tokens"@.len() == 13);
    assert("completion_tokens"@.len() == 17);
    assert("total_tokens"@.len() == 12);
    assert("input_tokens"@.len() == 12);
    assert("output_tokens"@.len() == 13);
    assert("prompt_tokens"@[0] == 'p' && "output_tokens"@[0] == 'o');
    assert("total_tokens"@[0] == 't' && "input_tokens"@[0] == 'i');
    assert(anthropic::anthropic_blocks(p.content) =~= p.content.map_values(
        |b: BlockView| anthropic::anthropic_block(b),
    ));
}

/// Whether an output item of a Responses answer is a message with one piece of text.
pub open spec fn is_text_message(v: JsonView, t: Seq<char>) -> bool {
    &&& is_word(v.get("type"@), "message"@)
    &&& items_at(v, "content"@).len() == 1
    &&& is_word(items_at(v, "content"@)[0].get("type"@), "output_text"@)
    &&& is_word(items_at(v, "content"@)[0].get("text"@), t)
}

/// Whether an output item of a Responses answer is a function call.
pub open spec fn is_output_call(v: JsonView, id: Seq<char>, name: Seq<char>, input: JsonView) -> bool {
    &&& is_word(v.get("type"@), "function_call"@)
    &&& is_word(v.get("call_id"@), id)
    &&& is_word(v.get("name"@), name)
    &&& is_word(v.get("arguments"@), json_text(input))
}

proof fn calls_are_outputs(t: Seq<char>, s: Seq<BlockView>)
    requires
        forall|i: int| 0 <= i < s.len() ==> #[trigger] s[i] is ToolUse,
    ensures
        ({
            let all = seq![BlockView::Text { text: t }] + s;
            let r = responses::output_calls(all);
            &&& responses::single_items(all).len() == 0
            &&& responses::text_parts(all) == seq![responses::text_part(t)]
            &&& r.len() == s.len()
            &&& forall|i: int|
                0 <= i < s.len() ==> is_output_call(
                    #[trigger] r[i],
                    s[i]->ToolUse_id,
                    s[i]->ToolUse_name,
                    s[i]->ToolUse_input,
                )
        }),
    decreases s.len(),
{
    reveal_strlit("type");
    reveal_strlit("id");
    reveal_strlit("call_id");
    reveal_strlit("name");
    reveal_strlit("arguments");
    assert("type"@.len() == 4);
    assert("id"@.len() == 2);
    assert("call_id"@.len() == 7);
    assert("name"@.len() == 4);
    assert("arguments"@.len() == 9);
    assert("type"@[0] == 't' && "name"@[0] == 'n');
    let one = seq![BlockView::Text { text: t }];
    let all = one + s;
    if s.len() == 0 {
        reveal_with_fuel(responses::single_items, 2);
        reveal_with_fuel(responses::text_parts, 2);
        reveal_with_fuel(responses::output_calls, 2);
        assert(all =~= one);
        assert(one.drop_last() =~= Seq::<BlockView>::empty());
        assert(responses::text_parts(one) =~= seq![responses::text_part(t)]);
    } else {
        let u = s.drop_last();
        assert forall|i: int| 0 <= i < u.len() implies #[trigger] u[i] is ToolUse by {
            assert(s[i] is ToolUse);
        }
        calls_are_outputs(t, u);
        assert(s[s.len() - 1] is ToolUse);
        assert(all.drop_last() =~= one + u);
        let r = responses::output_calls(all);
        let before = responses::output_calls(one + u);
        assert forall|i: int| 0 <= i < s.len() implies is_output_call(
            #[trigger] r[i],
            s[i]->ToolUse_id,
            s[i]->ToolUse_name,
            s[i]->ToolUse_input,
        ) by {
            if i < u.len() {
                assert(r[i] == before[i]);
                assert(u[i] == s[i]);
            }
        }
    }
}

/// A Responses answer with a text and tool calls holds a message with that text and one function
/// call for each of them behind it, in their order.
pub proof fn responses_answers_are_written(p: ResponseView, t: Seq<char>, s: Seq<BlockView>)
    requires
        forall|i: int| 0 <= i < s.len() ==> #[trigger] s[i] is ToolUse,
        p.content == seq![BlockView::Text { text: t }] + s,
    ensures
        ({
            let out = items_at(write_response(Protocol::Responses, p), "output"@);
            &&& out.len() == s.len() + 1
            &&& is_text_message(out[0], t)
            &&& forall|i: int|
                0 <= i < s.len() ==> is_output_call(
                    #[trigger] out[i + 1],
                    s[i]->ToolUse_id,
                    s[i]->ToolUse_name,
                    s[i]->ToolUse_input,
                )
        }),
{
    reveal_strlit("id");
    reveal_strlit("model");
    reveal_strlit("output");
    reveal_strlit("status");
    reveal_strlit("stop_reason");
    reveal_strlit("usage");
    assert("id"@.len() == 2);
    assert("model"@.len() == 5);
    assert("output"@.len() == 6);
    assert("status"@.len() == 6);
    assert("stop_reason"@.len() == 11);
    assert("usage"@.len() == 5);
    assert("model"@[0] == 'm' && "usage"@[0] == 'u');
    assert("output"@[0] == 'o' && "status"@[0] == 's');
    reveal_strlit("type");
    reveal_strlit("content");
    reveal_strlit("text");
    assert("type"@.len() == 4);
    assert("content"@.len() == 7);
    assert("text"@.len() == 4);
    assert("type"@[1] == 'y' && "text"@[1] == 'e');
    calls_are_outputs(t, s);
    let out = items_at(write_response(Protocol::Responses, p), "output"@);
    assert(out == responses::output_items(p.content));
    let r = responses::output_calls(p.content);
    assert(responses::single_items(p.content) =~= Seq::<JsonView>::empty());
    assert forall|i: int| 0 <= i < s.len() implies is_output_call(
        #[trigger] out[i + 1],
        s[i]->ToolUse_id,
        s[i]->ToolUse_name,
        s[i]->ToolUse_input,
    ) by {
        assert(out[i + 1] == r[i]);
    }
}

proof fn full_items_say_the_same(s: Seq<JsonView>)
    ensures
        responses::outputs_content(full_items(s)) == responses::outputs_content(s),
        responses::any_call(full_items(s)) == responses::any_call(s),
    decreases s.len(),
{
    reveal_strlit("role");
    reveal_strlit("type");
    reveal_strlit("content");
    reveal_strlit("call_id");
    reveal_strlit("id");
    reveal_strlit("name");
    reveal_strlit("arguments");
    reveal_strlit("summary");
    reveal_strlit("message");
    reveal_strlit("function_call");
    reveal_strlit("reasoning");
    assert("role"@.len() == 4);
    assert("type"@.len() == 4);
    assert("content"@.len() == 7);
    assert("call_id"@.len() == 7);
    assert("id"@.len() == 2);
    assert("name"@.len() == 4);
    assert("arguments"@.len() == 9);
    assert("summary"@.len() == 7);
    assert("message"@.len() == 7);
    assert("function_call"@.len() == 13);
    assert("reasoning"@.len() == 9);
    assert("role"@[0] == 'r' && "type"@[0] == 't');
    assert("role"@[0] == 'r' && "name"@[0] == 'n');
    assert("type"@[0] == 't' && "name"@[0] == 'n');
    assert("content"@[1] == 'o' && "call_id"@[1] == 'a');
    assert("content"@[0] == 'c' && "summary"@[0] == 's');
    assert("content"@[0] == 'c' && "message"@[0] == 'm');
    assert("call_id"@[0] == 'c' && "summary"@[0] == 's');
    assert("call_id"@[0] == 'c' && "message"@[0] == 'm');
    assert("arguments"@[0] == 'a' && "reasoning"@[0] == 'r');
    assert("summary"@[0] == 's' && "message"@[0] == 'm');
    let f = full_items(s);
    assert forall|i: int| 0 <= i < s.len() implies (responses::is_call(#[trigger] f[i]) <==> responses::is_call(
        s[i],
    )) by {
        assert(f[i] == full_item(s[i]));
        assert(f[i].get("type"@) == s[i].get("type"@));
    }
    if responses::any_call(s) {
        let i = choose|i: int| 0 <= i < s.len() && responses::is_call(#[trigger] s[i]);
        assert(responses::is_call(f[i]));
    }
    if responses::any_call(f) {
        let i = choose|i: int| 0 <= i < f.len() && responses::is_call(#[trigger] f[i]);
        assert(responses::is_call(s[i]));
    }
    if s.len() > 0 {
        full_items_say_the_same(s.drop_last());
        assert(f.drop_last() =~= full_items(s.drop_last()));
        let v = s.last();
        assert(f.last() == full_item(v));
        assert(full_item(v).get("type"@) == v.get("type"@));
        assert(full_item(v).get("content"@) == v.get("content"@));
        assert(full_item(v).get("summary"@) == v.get("summary"@));
        assert(full_item(v).get("call_id"@) == v.get("call_id"@));
        assert(full_item(v).get("id"@) == v.get("id"@));
        assert(full_item(v).get("name"@) == v.get("name"@));
        assert(full_item(v).get("arguments"@) == v.get("arguments"@));
        assert(responses::output_content(f.last()) == responses::output_content(v));
    }
}

/// A client's answer keeps what the bare conversion says: it is read with the same content, end,
/// identifier and model, whatever the upstream answered.
pub proof fn answers_keep_what_is_said(entry: Protocol, target: Protocol, body: JsonView)
    requires
        entry != target,
    ensures
        ({
            let bare = read_response(entry, write_response(entry, read_response(target, body)));
            let got = read_response(entry, client_body(entry, target, body));
            &&& got.content == bare.content
            &&& got.stop_reason == bare.stop_reason
            &&& got.id == bare.id && got.model == bare.model
        }),
        entry == Protocol::ChatCompletions && visible_texts(read_response(target, body).content).len() > 0
            ==> is_word(
            items_at(client_body(entry, target, body), "choices"@)[0].at("message"@).get("content"@),
            joined(visible_texts(read_response(target, body).content), "\n\n"@),
        ),
{
    let p = read_response(target, body);
    let q = with_totals(p);
    let w = write_response(entry, q);
    let c = client_body(entry, target, body);
    responses_survive(entry, p);
    responses_survive(entry, q);
    assert(q.content == p.content && q.stop_reason == p.stop_reason);
    match entry {
        Protocol::ChatCompletions => {
            reveal_strlit("id");
            reveal_strlit("model");
            reveal_strlit("choices");
            reveal_strlit("usage");
            reveal_strlit("index");
            reveal_strlit("message");
            reveal_strlit("finish_reason");
            reveal_strlit("object");
            assert("id"@.len() == 2);
            assert("model"@.len() == 5);
            assert("choices"@.len() == 7);
            assert("usage"@.len() == 5);
            assert("index"@.len() == 5);
            assert("message"@.len() == 7);
            assert("finish_reason"@.len() == 13);
            assert("object"@.len() == 6);
            assert("model"@[0] == 'm' && "usage"@[0] == 'u');
            assert("model"@[0] == 'm' && "index"@[0] == 'i');
            assert("choices"@[0] == 'c' && "message"@[0] == 'm');
            assert("usage"@[0] == 'u' && "index"@[0] == 'i');
            reveal_strlit("role");
            reveal_strlit("content");
            reveal_strlit("tool_calls");
            reveal_strlit("reasoning_content");
            reveal_strlit("reasoning");
            reveal_strlit("thinking");
            assert("role"@.len() == 4);
            assert("content"@.len() == 7);
            assert("tool_calls"@.len() == 10);
            assert("reasoning_content"@.len() == 17);
            assert("reasoning"@.len() == 9);
            assert("thinking"@.len() == 8);
            written_message_is(q);
            let a = items_at(w, "choices"@);
            let b = items_at(c, "choices"@);
            assert(b == full_choices(a));
            assert(b.len() == 1);
            let m = answer_message(p.content);
            assert(a[0].at("message"@) == m);
            assert(a[0] is Object);
            assert(b[0].get("message"@) == Some(full_message(m)));
            assert(b[0].get("finish_reason"@) == a[0].get("finish_reason"@));
            assert(c.get("id"@) == w.get("id"@) && c.get("model"@) == w.get("model"@));
            assert(full_message(m).get("tool_calls"@) == m.get("tool_calls"@));
            assert(full_message(m).get("reasoning_content"@) == m.get("reasoning_content"@));
            assert(full_message(m).get("reasoning"@) == m.get("reasoning"@));
            assert(full_message(m).get("thinking"@) == m.get("thinking"@));
            assert(full_message(m).text_at("content"@) == m.text_at("content"@));
            assert(a[0].get("message"@) == Some(m));
        },
        Protocol::Responses => {
            reveal_strlit("id");
            reveal_strlit("model");
            reveal_strlit("output");
            reveal_strlit("status");
            reveal_strlit("stop_reason");
            reveal_strlit("usage");
            reveal_strlit("object");
            assert("id"@.len() == 2);
            assert("model"@.len() == 5);
            assert("output"@.len() == 6);
            assert("status"@.len() == 6);
            assert("stop_reason"@.len() == 11);
            assert("usage"@.len() == 5);
            assert("object"@.len() == 6);
            assert("model"@[0] == 'm' && "usage"@[0] == 'u');
            assert("output"@[0] == 'o' && "status"@[0] == 's');
            assert("output"@[1] == 'u' && "object"@[1] == 'b');
            assert("status"@[0] == 's' && "object"@[0] == 'o');
            let a = items_at(w, "output"@);
            full_items_say_the_same(a);
            assert(items_at(c, "output"@) == full_items(a));
            assert(c.get("id"@) == w.get("id"@) && c.get("model"@) == w.get("model"@));
            assert(c.get("status"@) == w.get("status"@) && c.get("stop_reason"@) == w.get("stop_reason"@));
        },
        Protocol::AnthropicMessages => {
            reveal_strlit("id");
            reveal_strlit("model");
            reveal_strlit("content");
            reveal_strlit("type");
            reveal_strlit("stop_reason");
            reveal_strlit("usage");
            reveal_strlit("role");
            assert("id"@.len() == 2);
            assert("model"@.len() == 5);
            assert("content"@.len() == 7);
            assert("type"@.len() == 4);
            assert("stop_reason"@.len() == 11);
            assert("usage"@.len() == 5);
            assert("role"@.len() == 4);
            assert("model"@[0] == 'm' && "usage"@[0] == 'u');
            assert("type"@[0] == 't' && "role"@[0] == 'r');
            assert(c.get("id"@) == w.get("id"@) && c.get("model"@) == w.get("model"@));
            assert(c.get("content"@) == w.get("content"@) && c.get("stop_reason"@) == w.get("stop_reason"@));
        },
    }
}

/// A client is told how many tokens an answer took: as many as the upstream said, and their sum
/// where the upstream gives none.
pub proof fn answers_count_tokens(entry: Protocol, target: Protocol, body: JsonView)
    requires
        entry != target,
    ensures
        ({
            let got = read_response(entry, client_body(entry, target, body)).usage;
            match read_response(target, body).usage {
                Some(u) => {
                    &&& got is Some
                    &&& got->Some_0.input_tokens == u.input_tokens
                    &&& got->Some_0.output_tokens == u.output_tokens
                    &&& entry != Protocol::AnthropicMessages ==> (match u.total_tokens {
                        Some(n) => got->Some_0.total_tokens == Some(n),
                        None => u.input_tokens + u.output_tokens <= u64::MAX
                            ==> got->Some_0.total_tokens == Some((u.input_tokens + u.output_tokens) as u64),
                    })
                },
                None => got is None,
            }
        }),
{
    let p = read_response(target, body);
    let q = with_totals(p);
    let w = write_response(entry, q);
    let c = client_body(entry, target, body);
    responses_survive(entry, q);
    match entry {
        Protocol::ChatCompletions => {
            reveal_strlit("choices");
            reveal_strlit("usage");
            reveal_strlit("object");
            assert("choices"@.len() == 7);
            assert("usage"@.len() == 5);
            assert("object"@.len() == 6);
            written_message_is(q);
            assert(c.get("usage"@) == w.get("usage"@));
            assert(items_at(c, "choices"@) == full_choices(items_at(w, "choices"@)));
            assert(items_at(c, "choices"@)[0].get("message"@) is Some) by {
                assert(items_at(w, "choices"@)[0] is Object);
            }
            assert(items_at(w, "choices"@)[0].get("message"@) is Some) by {
                reveal_strlit("index");
                reveal_strlit("message");
                reveal_strlit("finish_reason");
                assert("index"@.len() == 5);
                assert("message"@.len() == 7);
                assert("finish_reason"@.len() == 13);
            }
        },
        Protocol::Responses => {
            reveal_strlit("output");
            reveal_strlit("usage");
            reveal_strlit("object");
            assert("output"@.len() == 6);
            assert("usage"@.len() == 5);
            assert("object"@.len() == 6);
            assert("output"@[1] == 'u' && "object"@[1] == 'b');
            assert(c.get("usage"@) == w.get("usage"@));
        },
        Protocol::AnthropicMessages => {
            reveal_strlit("usage");
            reveal_strlit("role");
            assert("usage"@.len() == 5);
            assert("role"@.len() == 4);
            assert(c.get("usage"@) == w.get("usage"@));
        },
    }
}

} // verus!
