//! What a stream that is gathered into one answer amounts to.
use crate::json::JsonView;
use crate::laws::replies::is_text_message;
use crate::laws::requests::is_word;
use crate::laws::{has_no_text, says};
use crate::text::numeral;
use crate::transform::chat_completions::items_at;
use crate::transform::drain::{
    call_index, gathered, gathered_output, outcome, CallView, DrainView,
};
use vstd::prelude::*;
use vstd::string::*;

verus! {

/// Whether a message is of a kind.
pub open spec fn is_kind(m: JsonView, kind: Seq<char>) -> bool {
    is_word(m.get("type"@), kind)
}

/// Whether a message brings more text.
pub open spec fn brings_text(m: JsonView) -> bool {
    is_kind(m, "response.output_text.delta"@) || is_kind(m, "response.text.delta"@)
}

/// Whether a message brings more reasoning.
pub open spec fn brings_reasoning(m: JsonView) -> bool {
    is_kind(m, "response.reasoning_summary_text.delta"@) || is_kind(m, "response.reasoning_text.delta"@) || is_kind(
        m,
        "response.reasoning.delta"@,
    ) || is_kind(m, "response.output_reasoning.delta"@)
}

/// Whether a message brings more arguments of a call.
pub open spec fn brings_arguments(m: JsonView) -> bool {
    is_kind(m, "response.function_call_arguments.delta"@) || is_kind(m, "response.function_call.parameter_delta"@)
}

/// Whether a message ends the answer.
pub open spec fn brings_the_end(m: JsonView) -> bool {
    is_kind(m, "response.completed"@) || is_kind(m, "response.done"@)
}

/// Text and reasoning grow by what a message brings and by nothing else, and such a message
/// changes nothing else.
pub proof fn words_grow(d: DrainView, m: JsonView, t: Seq<char>)
    ensures
        brings_text(m) && is_word(m.get("delta"@), t) ==> gathered(d, m) == (DrainView { text: d.text + t, ..d }),
        brings_reasoning(m) && is_word(m.get("delta"@), t) ==> gathered(d, m) == (DrainView {
            reasoning: d.reasoning + t,
            ..d
        }),
        !brings_text(m) ==> gathered(d, m).text == d.text,
        !brings_reasoning(m) ==> gathered(d, m).reasoning == d.reasoning,
{
    reveal_strlit("response.output_text.delta");
    reveal_strlit("response.text.delta");
    reveal_strlit("response.reasoning_summary_text.delta");
    reveal_strlit("response.reasoning_text.delta");
    reveal_strlit("response.reasoning.delta");
    reveal_strlit("response.output_reasoning.delta");
    reveal_strlit("response.output_item.added");
    reveal_strlit("response.output_item.done");
    reveal_strlit("response.function_call_arguments.delta");
    reveal_strlit("response.function_call.parameter_delta");
    reveal_strlit("response.completed");
    reveal_strlit("response.done");
    reveal_strlit("response.failed");
    assert("response.output_text.delta"@.len() == 26);
    assert("response.text.delta"@.len() == 19);
    assert("response.reasoning_summary_text.delta"@.len() == 37);
    assert("response.reasoning_text.delta"@.len() == 29);
    assert("response.reasoning.delta"@.len() == 24);
    assert("response.output_reasoning.delta"@.len() == 31);
    assert("response.output_item.added"@.len() == 26);
    assert("response.output_item.done"@.len() == 25);
    assert("response.function_call_arguments.delta"@.len() == 38);
    assert("response.function_call.parameter_delta"@.len() == 38);
    assert("response.completed"@.len() == 18);
    assert("response.done"@.len() == 13);
    assert("response.failed"@.len() == 15);
    assert("response.output_text.delta"@[16] == 't' && "response.output_item.added"@[16] == 'i');
    assert("response.function_call_arguments.delta"@[22] == '_' && "response.function_call.parameter_delta"@[22] == '.');
}

/// The finished items are those that messages have ended, in their order.
pub proof fn items_are_kept(d: DrainView, m: JsonView)
    ensures
        is_kind(m, "response.output_item.done"@) && m.get("item"@) is Some ==> gathered(d, m).items == d.items.push(
            m.get("item"@)->Some_0,
        ),
        !is_kind(m, "response.output_item.done"@) ==> gathered(d, m).items == d.items,
{
    reveal_strlit("response.output_text.delta");
    reveal_strlit("response.text.delta");
    reveal_strlit("response.reasoning_summary_text.delta");
    reveal_strlit("response.reasoning_text.delta");
    reveal_strlit("response.reasoning.delta");
    reveal_strlit("response.output_reasoning.delta");
    reveal_strlit("response.output_item.added");
    reveal_strlit("response.output_item.done");
    reveal_strlit("response.function_call_arguments.delta");
    reveal_strlit("response.function_call.parameter_delta");
    reveal_strlit("response.completed");
    reveal_strlit("response.done");
    reveal_strlit("response.failed");
    assert("response.output_text.delta"@.len() == 26);
    assert("response.text.delta"@.len() == 19);
    assert("response.reasoning_summary_text.delta"@.len() == 37);
    assert("response.reasoning_text.delta"@.len() == 29);
    assert("response.reasoning.delta"@.len() == 24);
    assert("response.output_reasoning.delta"@.len() == 31);
    assert("response.output_item.added"@.len() == 26);
    assert("response.output_item.done"@.len() == 25);
    assert("response.function_call_arguments.delta"@.len() == 38);
    assert("response.function_call.parameter_delta"@.len() == 38);
    assert("response.completed"@.len() == 18);
    assert("response.done"@.len() == 13);
    assert("response.failed"@.len() == 15);
    assert("response.output_text.delta"@[16] == 't' && "response.output_item.added"@[16] == 'i');
    assert("response.function_call_arguments.delta"@[22] == '_' && "response.function_call.parameter_delta"@[22] == '.');
}

/// Whether an item is a function call of an identifier.
pub open spec fn is_call_item(item: JsonView, id: Seq<char>) -> bool {
    &&& is_word(item.get("type"@), "function_call"@)
    &&& is_word(item.get("call_id"@), id) || item.get("call_id"@) is None && is_word(item.get("id"@), id)
    &&& id.len() > 0
}

/// Whether a call is among those that were gathered.
pub open spec fn knows(d: DrainView, id: Seq<char>) -> bool {
    exists|i: int| 0 <= i < d.calls.len() && (#[trigger] d.calls[i]).id == id
}

/// Whether the calls of two states are the same but for those of an identifier, which stay in
/// their places.
pub open spec fn differs_only_in(a: DrainView, b: DrainView, id: Seq<char>) -> bool {
    &&& a.calls.len() == b.calls.len()
    &&& forall|i: int| 0 <= i < a.calls.len() ==> (#[trigger] b.calls[i]).id == a.calls[i].id
    &&& forall|i: int| 0 <= i < a.calls.len() && a.calls[i].id != id ==> (#[trigger] b.calls[i]) == a.calls[i]
}

proof fn places_are_found(s: Seq<CallView>, id: Seq<char>)
    ensures
        match call_index(s, id) {
            Some(i) => 0 <= i < s.len() && s[i].id == id,
            None => forall|i: int| 0 <= i < s.len() ==> (#[trigger] s[i]).id != id,
        },
    decreases s.len(),
{
    if s.len() > 0 && s.last().id != id {
        let t = s.drop_last();
        places_are_found(t, id);
        if call_index(t, id) is None {
            assert forall|i: int| 0 <= i < s.len() implies (#[trigger] s[i]).id != id by {
                if i < s.len() - 1 {
                    assert(t[i].id != id);
                }
            }
        }
    }
}

/// A call that begins is put behind the others under its name and without arguments; one that is
/// known stays as it is. The item that it begins with stands for it from now on.
pub proof fn calls_begin(d: DrainView, m: JsonView, item: JsonView, id: Seq<char>, name: Seq<char>, other: Seq<char>)
    requires
        is_kind(m, "response.output_item.added"@),
        m.get("item"@) == Some(item),
        is_call_item(item, id),
        is_word(item.get("name"@), name),
    ensures
        !knows(d, id) ==> gathered(d, m).calls == d.calls.push(CallView { id, name, args: Seq::empty() }),
        knows(d, id) ==> gathered(d, m).calls == d.calls,
        is_word(item.get("id"@), other) && other != id ==> gathered(d, m).ids == d.ids.insert(
            other,
            JsonView::Str(id),
        ),
{
    reveal_strlit("response.output_text.delta");
    reveal_strlit("response.text.delta");
    reveal_strlit("response.reasoning_summary_text.delta");
    reveal_strlit("response.reasoning_text.delta");
    reveal_strlit("response.reasoning.delta");
    reveal_strlit("response.output_reasoning.delta");
    reveal_strlit("response.output_item.added");
    reveal_strlit("response.output_item.done");
    reveal_strlit("response.function_call_arguments.delta");
    reveal_strlit("response.function_call.parameter_delta");
    reveal_strlit("response.completed");
    reveal_strlit("response.done");
    reveal_strlit("response.failed");
    assert("response.output_text.delta"@.len() == 26);
    assert("response.text.delta"@.len() == 19);
    assert("response.reasoning_summary_text.delta"@.len() == 37);
    assert("response.reasoning_text.delta"@.len() == 29);
    assert("response.reasoning.delta"@.len() == 24);
    assert("response.output_reasoning.delta"@.len() == 31);
    assert("response.output_item.added"@.len() == 26);
    assert("response.output_item.done"@.len() == 25);
    assert("response.function_call_arguments.delta"@.len() == 38);
    assert("response.function_call.parameter_delta"@.len() == 38);
    assert("response.completed"@.len() == 18);
    assert("response.done"@.len() == 13);
    assert("response.failed"@.len() == 15);
    assert("response.output_text.delta"@[16] == 't' && "response.output_item.added"@[16] == 'i');
    assert("response.function_call_arguments.delta"@[22] == '_' && "response.function_call.parameter_delta"@[22] == '.');
    places_are_found(d.calls, id);
}

/// More arguments are put behind those of the call that they are for, which may be named by
/// itself or by its item; a message that names no known call changes nothing.
pub proof fn arguments_grow(d: DrainView, m: JsonView, reference: Seq<char>, id: Seq<char>, t: Seq<char>, i: int)
    requires
        brings_arguments(m),
        says(m, "item_id"@, reference),
        is_word(m.get("delta"@), t),
        0 <= i < d.calls.len(),
        d.calls[i].id == id,
        forall|j: int, k: int| 0 <= j < k < d.calls.len() ==> d.calls[j].id != d.calls[k].id,
    ensures
        reference == id || (!knows(d, reference) && d.ids.dom().contains(reference) && d.ids[reference]
            == JsonView::Str(id)) ==> {
            &&& differs_only_in(d, gathered(d, m), id)
            &&& gathered(d, m).calls[i].name == d.calls[i].name
            &&& gathered(d, m).calls[i].args == d.calls[i].args + t
        },
        !knows(d, reference) && !d.ids.dom().contains(reference) ==> gathered(d, m) == d,
{
    reveal_strlit("response.output_text.delta");
    reveal_strlit("response.text.delta");
    reveal_strlit("response.reasoning_summary_text.delta");
    reveal_strlit("response.reasoning_text.delta");
    reveal_strlit("response.reasoning.delta");
    reveal_strlit("response.output_reasoning.delta");
    reveal_strlit("response.output_item.added");
    reveal_strlit("response.output_item.done");
    reveal_strlit("response.function_call_arguments.delta");
    reveal_strlit("response.function_call.parameter_delta");
    reveal_strlit("response.completed");
    reveal_strlit("response.done");
    reveal_strlit("response.failed");
    assert("response.output_text.delta"@.len() == 26);
    assert("response.text.delta"@.len() == 19);
    assert("response.reasoning_summary_text.delta"@.len() == 37);
    assert("response.reasoning_text.delta"@.len() == 29);
    assert("response.reasoning.delta"@.len() == 24);
    assert("response.output_reasoning.delta"@.len() == 31);
    assert("response.output_item.added"@.len() == 26);
    assert("response.output_item.done"@.len() == 25);
    assert("response.function_call_arguments.delta"@.len() == 38);
    assert("response.function_call.parameter_delta"@.len() == 38);
    assert("response.completed"@.len() == 18);
    assert("response.done"@.len() == 13);
    assert("response.failed"@.len() == 15);
    assert("response.output_text.delta"@[16] == 't' && "response.output_item.added"@[16] == 'i');
    assert("response.function_call_arguments.delta"@[22] == '_' && "response.function_call.parameter_delta"@[22] == '.');
    places_are_found(d.calls, reference);
    places_are_found(d.calls, id);
    let k = call_index(d.calls, id)->Some_0;
    assert(k == i) by {
        if k < i {
            assert(d.calls[k].id != d.calls[i].id);
        } else if i < k {
            assert(d.calls[i].id != d.calls[k].id);
        }
    }
}

/// A call that is finished keeps what is known of it; what is not known comes from the item.
pub proof fn calls_are_finished(
    d: DrainView,
    m: JsonView,
    item: JsonView,
    id: Seq<char>,
    name: Seq<char>,
    args: Seq<char>,
    i: int,
)
    requires
        is_kind(m, "response.output_item.done"@),
        m.get("item"@) == Some(item),
        is_call_item(item, id),
        is_word(item.get("name"@), name),
        is_word(item.get("arguments"@), args),
        forall|j: int, k: int| 0 <= j < k < d.calls.len() ==> d.calls[j].id != d.calls[k].id,
    ensures
        !knows(d, id) ==> gathered(d, m).calls == d.calls.push(CallView { id, name, args }),
        0 <= i < d.calls.len() && d.calls[i].id == id ==> {
            let c = gathered(d, m).calls[i];
            &&& differs_only_in(d, gathered(d, m), id)
            &&& d.calls[i].name.len() > 0 ==> c.name == d.calls[i].name
            &&& d.calls[i].name.len() == 0 ==> c.name == name
            &&& d.calls[i].args.len() > 0 ==> c.args == d.calls[i].args
            &&& d.calls[i].args.len() == 0 ==> c.args == args
        },
{
    reveal_strlit("response.output_text.delta");
    reveal_strlit("response.text.delta");
    reveal_strlit("response.reasoning_summary_text.delta");
    reveal_strlit("response.reasoning_text.delta");
    reveal_strlit("response.reasoning.delta");
    reveal_strlit("response.output_reasoning.delta");
    reveal_strlit("response.output_item.added");
    reveal_strlit("response.output_item.done");
    reveal_strlit("response.function_call_arguments.delta");
    reveal_strlit("response.function_call.parameter_delta");
    reveal_strlit("response.completed");
    reveal_strlit("response.done");
    reveal_strlit("response.failed");
    assert("response.output_text.delta"@.len() == 26);
    assert("response.text.delta"@.len() == 19);
    assert("response.reasoning_summary_text.delta"@.len() == 37);
    assert("response.reasoning_text.delta"@.len() == 29);
    assert("response.reasoning.delta"@.len() == 24);
    assert("response.output_reasoning.delta"@.len() == 31);
    assert("response.output_item.added"@.len() == 26);
    assert("response.output_item.done"@.len() == 25);
    assert("response.function_call_arguments.delta"@.len() == 38);
    assert("response.function_call.parameter_delta"@.len() == 38);
    assert("response.completed"@.len() == 18);
    assert("response.done"@.len() == 13);
    assert("response.failed"@.len() == 15);
    assert("response.output_text.delta"@[16] == 't' && "response.output_item.added"@[16] == 'i');
    assert("response.function_call_arguments.delta"@[22] == '_' && "response.function_call.parameter_delta"@[22] == '.');
    places_are_found(d.calls, id);
    if 0 <= i < d.calls.len() && d.calls[i].id == id {
        let k = call_index(d.calls, id)->Some_0;
        assert(k == i) by {
            if k < i {
                assert(d.calls[k].id != d.calls[i].id);
            } else if i < k {
                assert(d.calls[i].id != d.calls[k].id);
            }
        }
    }
}

/// Calls change only with messages about them.
pub proof fn calls_change_with_messages(d: DrainView, m: JsonView)
    ensures
        !is_kind(m, "response.output_item.added"@) && !is_kind(m, "response.output_item.done"@)
            && !brings_arguments(m) ==> gathered(d, m).calls == d.calls,
        !is_kind(m, "response.output_item.added"@) ==> gathered(d, m).ids == d.ids,
        !brings_the_end(m) ==> gathered(d, m).completed == d.completed && gathered(d, m).usage == d.usage
            && gathered(d, m).status == d.status,
        !is_kind(m, "response.failed"@) ==> gathered(d, m).error == d.error,
{
    reveal_strlit("response.output_text.delta");
    reveal_strlit("response.text.delta");
    reveal_strlit("response.reasoning_summary_text.delta");
    reveal_strlit("response.reasoning_text.delta");
    reveal_strlit("response.reasoning.delta");
    reveal_strlit("response.output_reasoning.delta");
    reveal_strlit("response.output_item.added");
    reveal_strlit("response.output_item.done");
    reveal_strlit("response.function_call_arguments.delta");
    reveal_strlit("response.function_call.parameter_delta");
    reveal_strlit("response.completed");
    reveal_strlit("response.done");
    reveal_strlit("response.failed");
    assert("response.output_text.delta"@.len() == 26);
    assert("response.text.delta"@.len() == 19);
    assert("response.reasoning_summary_text.delta"@.len() == 37);
    assert("response.reasoning_text.delta"@.len() == 29);
    assert("response.reasoning.delta"@.len() == 24);
    assert("response.output_reasoning.delta"@.len() == 31);
    assert("response.output_item.added"@.len() == 26);
    assert("response.output_item.done"@.len() == 25);
    assert("response.function_call_arguments.delta"@.len() == 38);
    assert("response.function_call.parameter_delta"@.len() == 38);
    assert("response.completed"@.len() == 18);
    assert("response.done"@.len() == 13);
    assert("response.failed"@.len() == 15);
    assert("response.output_text.delta"@[16] == 't' && "response.output_item.added"@[16] == 'i');
    assert("response.function_call_arguments.delta"@[22] == '_' && "response.function_call.parameter_delta"@[22] == '.');
}

/// What the end of an answer tells: the answer itself with its counts and its status, or the
/// counts alone. A failure tells its message.
pub proof fn ends_are_kept(d: DrainView, m: JsonView, t: Seq<char>)
    ensures
        brings_the_end(m) && m.get("response"@) is Some ==> ({
            let r = m.get("response"@)->Some_0;
            let e = gathered(d, m);
            &&& e.completed == Some(r)
            &&& r.get("usage"@) is Some ==> e.usage == r.get("usage"@)
            &&& r.get("usage"@) is None ==> e.usage == d.usage
            &&& is_word(r.get("status"@), t) ==> e.status == t
            &&& has_no_text(r, "status"@) ==> e.status == d.status
        }),
        brings_the_end(m) && m.get("response"@) is None ==> ({
            let e = gathered(d, m);
            &&& e.completed == d.completed && e.status == d.status
            &&& m.get("usage"@) is Some ==> e.usage == m.get("usage"@)
            &&& m.get("usage"@) is None ==> e.usage == d.usage
        }),
        is_kind(m, "response.failed"@) ==> gathered(d, m).error is Some,
        is_kind(m, "response.failed"@) && is_word(m.at("response"@).at("error"@).get("message"@), t) ==> gathered(
            d,
            m,
        ).error == Some(t),
        is_kind(m, "response.failed"@) && has_no_text(m.at("response"@).at("error"@), "message"@) ==> gathered(
            d,
            m,
        ).error == Some("Upstream error"@),
{
    reveal_strlit("response.output_text.delta");
    reveal_strlit("response.text.delta");
    reveal_strlit("response.reasoning_summary_text.delta");
    reveal_strlit("response.reasoning_text.delta");
    reveal_strlit("response.reasoning.delta");
    reveal_strlit("response.output_reasoning.delta");
    reveal_strlit("response.output_item.added");
    reveal_strlit("response.output_item.done");
    reveal_strlit("response.function_call_arguments.delta");
    reveal_strlit("response.function_call.parameter_delta");
    reveal_strlit("response.completed");
    reveal_strlit("response.done");
    reveal_strlit("response.failed");
    assert("response.output_text.delta"@.len() == 26);
    assert("response.text.delta"@.len() == 19);
    assert("response.reasoning_summary_text.delta"@.len() == 37);
    assert("response.reasoning_text.delta"@.len() == 29);
    assert("response.reasoning.delta"@.len() == 24);
    assert("response.output_reasoning.delta"@.len() == 31);
    assert("response.output_item.added"@.len() == 26);
    assert("response.output_item.done"@.len() == 25);
    assert("response.function_call_arguments.delta"@.len() == 38);
    assert("response.function_call.parameter_delta"@.len() == 38);
    assert("response.completed"@.len() == 18);
    assert("response.done"@.len() == 13);
    assert("response.failed"@.len() == 15);
    assert("response.output_text.delta"@[16] == 't' && "response.output_item.added"@[16] == 'i');
    assert("response.function_call_arguments.delta"@[22] == '_' && "response.function_call.parameter_delta"@[22] == '.');
}

/// Whether an output item is a gathered call; one without arguments has none to show.
pub open spec fn is_gathered_call(v: JsonView, c: CallView) -> bool {
    &&& is_word(v.get("type"@), "function_call"@)
    &&& is_word(v.get("call_id"@), c.id)
    &&& is_word(v.get("name"@), c.name)
    &&& c.args.len() > 0 ==> is_word(v.get("arguments"@), c.args)
    &&& c.args.len() == 0 ==> is_word(v.get("arguments"@), "{}"@)
}

/// Whether an output item is reasoning with one piece of text.
pub open spec fn is_reasoning(v: JsonView, t: Seq<char>) -> bool {
    &&& is_word(v.get("type"@), "reasoning"@)
    &&& items_at(v, "summary"@).len() == 1
    &&& is_word(items_at(v, "summary"@)[0].get("text"@), t)
}

/// What was gathered is put out as the finished items where there are any, else as the
/// reasoning, the text and the calls, each where there is any.
pub proof fn output_is_what_was_gathered(d: DrainView)
    ensures
        d.items.len() > 0 ==> gathered_output(d) == d.items,
        d.items.len() == 0 ==> ({
            let s = gathered_output(d);
            let r = if d.reasoning.len() > 0 {
                1int
            } else {
                0
            };
            let t = if d.text.len() > 0 {
                1int
            } else {
                0
            };
            &&& s.len() == r + t + d.calls.len()
            &&& d.reasoning.len() > 0 ==> is_reasoning(s[0], d.reasoning)
            &&& d.text.len() > 0 ==> is_text_message(s[r], d.text) && is_word(s[r].get("role"@), "assistant"@)
            &&& forall|i: int| 0 <= i < d.calls.len() ==> is_gathered_call(#[trigger] s[r + t + i], d.calls[i])
        }),
{
    reveal_strlit("type");
    reveal_strlit("role");
    reveal_strlit("content");
    reveal_strlit("summary");
    reveal_strlit("text");
    assert("type"@.len() == 4);
    assert("role"@.len() == 4);
    assert("content"@.len() == 7);
    assert("summary"@.len() == 7);
    assert("text"@.len() == 4);
    assert("type"@[0] == 't' && "role"@[0] == 'r');
    assert("type"@[1] == 'y' && "text"@[1] == 'e');
    assert("role"@[0] == 'r' && "text"@[0] == 't');
    assert("content"@[0] == 'c' && "summary"@[0] == 's');
    reveal_strlit("call_id");
    reveal_strlit("name");
    reveal_strlit("arguments");
    assert("call_id"@.len() == 7);
    assert("name"@.len() == 4);
    assert("arguments"@.len() == 9);
    if d.items.len() == 0 {
        let s = gathered_output(d);
        let r = if d.reasoning.len() > 0 {
            1int
        } else {
            0
        };
        let t = if d.text.len() > 0 {
            1int
        } else {
            0
        };
        let c = crate::transform::drain::call_items(d.calls);
        assert forall|i: int| 0 <= i < d.calls.len() implies is_gathered_call(#[trigger] s[r + t + i], d.calls[i]) by {
            assert(s[r + t + i] == c[i]);
        }
    }
}

/// What a whole stream amounts to: the answer that it ended with, its output and its counts
/// filled in where it lacks them; else an answer made of what was gathered; else an error.
pub proof fn streams_amount_to_answers(d: DrainView, model: Seq<char>, now: u64, r: JsonView, key: Seq<char>)
    ensures
        d.completed == Some(r) && r is Object ==> (match outcome(d, Some(model), now) {
            Ok(v) => {
                &&& key != "output"@ && key != "usage"@ ==> v.get(key) == r.get(key)
                &&& items_at(r, "output"@).len() > 0 ==> v.get("output"@) == r.get("output"@)
                &&& items_at(r, "output"@).len() == 0 ==> v.get("output"@) == Some(
                    JsonView::Array(gathered_output(d)),
                )
                &&& r.get("usage"@) is Some ==> v.get("usage"@) == r.get("usage"@)
                &&& r.get("usage"@) is None ==> v.get("usage"@) == d.usage
            },
            Err(_) => false,
        }),
        d.completed is None && (d.text.len() > 0 || d.reasoning.len() > 0 || d.calls.len() > 0 || d.items.len() > 0)
            ==> (match outcome(d, Some(model), now) {
            Ok(v) => {
                &&& is_word(v.get("id"@), "resp_"@ + numeral(now as nat))
                &&& is_word(v.get("object"@), "response"@)
                &&& is_word(v.get("model"@), model)
                &&& is_word(v.get("status"@), d.status)
                &&& v.get("created_at"@) == Some(JsonView::uint(now))
                &&& v.get("output"@) == Some(JsonView::Array(gathered_output(d)))
                &&& d.usage is Some ==> v.get("usage"@) == d.usage
                &&& d.usage is None ==> v.at("usage"@).get("input_tokens"@) == Some(JsonView::uint(0)) && v.at(
                    "usage"@,
                ).get("output_tokens"@) == Some(JsonView::uint(0)) && v.at("usage"@).get("total_tokens"@) == Some(
                    JsonView::uint(0),
                )
            },
            Err(_) => false,
        }),
        d.completed is None && d.text.len() == 0 && d.reasoning.len() == 0 && d.calls.len() == 0 && d.items.len() == 0
            ==> (match outcome(d, Some(model), now) {
            Ok(_) => false,
            Err(e) => d.error is Some ==> e == d.error->Some_0,
        }),
{
    reveal_strlit("output");
    reveal_strlit("usage");
    reveal_strlit("id");
    reveal_strlit("object");
    reveal_strlit("created_at");
    reveal_strlit("status");
    reveal_strlit("model");
    assert("output"@.len() == 6);
    assert("usage"@.len() == 5);
    assert("id"@.len() == 2);
    assert("object"@.len() == 6);
    assert("created_at"@.len() == 10);
    assert("status"@.len() == 6);
    assert("model"@.len() == 5);
    assert("output"@[1] == 'u' && "object"@[1] == 'b');
    assert("output"@[0] == 'o' && "status"@[0] == 's');
    assert("usage"@[0] == 'u' && "model"@[0] == 'm');
    assert("object"@[0] == 'o' && "status"@[0] == 's');
    reveal_strlit("input_tokens");
    reveal_strlit("output_tokens");
    reveal_strlit("total_tokens");
    assert("input_tokens"@.len() == 12);
    assert("output_tokens"@.len() == 13);
    assert("total_tokens"@.len() == 12);
    assert("input_tokens"@[0] == 'i' && "total_tokens"@[0] == 't');
}

/// Nothing has been gathered at first, and the answer counts as complete.
pub proof fn gathering_starts_empty()
    ensures
        ({
            let d = DrainView::fresh();
            &&& d.text.len() == 0 && d.reasoning.len() == 0 && d.calls.len() == 0 && d.items.len() == 0
            &&& d.completed is None && d.error is None && d.usage is None
            &&& d.status == "completed"@
            &&& forall|id: Seq<char>| !#[trigger] d.ids.dom().contains(id)
        }),
{
}

} // verus!
