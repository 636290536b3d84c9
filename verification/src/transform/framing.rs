//! Server-sent events are read as they were written.
use crate::text::{is_space, trimmed, trimmed_start};
use crate::transform::emit::{data_frame, named_frame};
use crate::transform::stream::{fed, line_step, pieces_do_not_matter, ParserView, SseView};
use crate::codec::{json_text, one_line, written_well};
use crate::json::JsonView;
use vstd::prelude::*;

verus! {

/// A parser that has read nothing, or only whole events.
pub open spec fn idle() -> ParserView {
    ParserView { line: Seq::empty(), event: None }
}

proof fn line_is_gathered(p: ParserView, s: Seq<char>)
    requires
        one_line(s),
    ensures
        fed(p, s) == (
            ParserView { line: p.line + s, event: p.event },
            Seq::<SseView>::empty(),
        ),
    decreases s.len(),
{
    if s.len() == 0 {
        assert(p.line + s =~= p.line);
    } else {
        let t = s.drop_last();
        assert forall|i: int| 0 <= i < t.len() implies #[trigger] t[i] != '\n' by {
            assert(s[i] != '\n');
        }
        line_is_gathered(p, t);
        assert(s[s.len() - 1] != '\n');
        assert((p.line + t).push(s.last()) =~= p.line + s);
    }
}

/// A whole line is read in one step.
pub proof fn line_is_read(event: Option<Seq<char>>, s: Seq<char>)
    requires
        one_line(s),
    ensures
        fed(ParserView { line: Seq::empty(), event }, s.push('\n')) == (
            ParserView { line: Seq::empty(), event: line_step(event, s).0 },
            match line_step(event, s).1 {
                Some(e) => seq![e],
                None => Seq::<SseView>::empty(),
            },
        ),
{
    let p = ParserView { line: Seq::empty(), event };
    line_is_gathered(p, s);
    assert(s.push('\n').drop_last() =~= s);
    assert(p.line + s =~= s);
    assert(Seq::<SseView>::empty().push(line_step(event, s).1->Some_0) =~= seq![
        line_step(event, s).1->Some_0,
    ]);
}

proof fn blank_is_dropped(s: Seq<char>)
    requires
        s.len() > 0,
        !is_space(s[0]),
        !is_space(s.last()),
    ensures
        trimmed(seq![' '] + s) == s,
{
    let t = seq![' '] + s;
    assert(is_space(t[0]));
    assert(t.skip(1) =~= s);
    assert(trimmed_start(t) == trimmed_start(s));
}

proof fn data_line(event: Option<Seq<char>>, s: Seq<char>)
    requires
        s.len() > 0,
        !is_space(s[0]),
        !is_space(s.last()),
    ensures
        line_step(event, "data: "@ + s) == (None::<Seq<char>>, Some(SseView { event, data: s })),
{
    reveal_strlit("data: ");
    reveal_strlit("data:");
    reveal_strlit("event:");
    let line = "data: "@ + s;
    assert(line[0] == 'd');
    assert("event:"@[0] == 'e');
    if "event:"@.is_prefix_of(line) {
        assert(line.subrange(0, 6)[0] == line[0]);
    }
    assert("data:"@ =~= line.subrange(0, 5));
    assert(line.skip(5) =~= seq![' '] + s);
    blank_is_dropped(s);
}

proof fn event_line(event: Option<Seq<char>>, s: Seq<char>)
    requires
        s.len() > 0,
        !is_space(s[0]),
        !is_space(s.last()),
    ensures
        line_step(event, "event: "@ + s) == (Some(s), None::<SseView>),
{
    reveal_strlit("event: ");
    reveal_strlit("event:");
    let line = "event: "@ + s;
    assert("event:"@ =~= line.subrange(0, 6));
    assert(line.skip(6) =~= seq![' '] + s);
    blank_is_dropped(s);
}

proof fn empty_line(event: Option<Seq<char>>)
    ensures
        line_step(event, Seq::empty()) == (None::<Seq<char>>, None::<SseView>),
{
    reveal_strlit("data:");
    reveal_strlit("event:");
    assert("event:"@.len() == 6);
    assert("data:"@.len() == 5);
}

/// A written event without a name is read as one event with the written text.
pub proof fn data_frame_is_read(v: JsonView, rest: Seq<char>)
    requires
        written_well(v),
    ensures
        fed(idle(), data_frame(v) + rest) == ({
            let (p, more) = fed(idle(), rest);
            (p, seq![SseView { event: None, data: json_text(v) }] + more)
        }),
{
    data_text_is_read(json_text(v), rest);
}

/// A text in an event without a name is read as that text.
pub proof fn data_text_is_read(t: Seq<char>, rest: Seq<char>)
    requires
        is_event_name(t),
    ensures
        fed(idle(), "data: "@ + t + "\n\n"@ + rest) == ({
            let (p, more) = fed(idle(), rest);
            (p, seq![SseView { event: None, data: t }] + more)
        }),
{
    reveal_strlit("data: ");
    reveal_strlit("\n\n");
    let line = "data: "@ + t;
    assert("data: "@.len() == 6);
    assert forall|i: int| 0 <= i < line.len() implies #[trigger] line[i] != '\n' by {
        if i >= 6 {
            assert(t[i - 6] != '\n');
        } else {
            assert(line[i] == "data: "@[i]);
        }
    }
    let whole = "data: "@ + t + "\n\n"@;
    let first = line.push('\n');
    let second = seq!['\n'];
    assert(whole =~= first + second);
    assert("\n\n"@ =~= seq!['\n', '\n']);
    line_is_read(None, line);
    data_line(None, t);
    let e = SseView { event: None, data: t };
    assert(fed(idle(), first) == (idle(), seq![e]));
    assert(second =~= Seq::<char>::empty().push('\n'));
    line_is_read(None, Seq::empty());
    empty_line(None);
    pieces_do_not_matter(idle(), first, second);
    assert(seq![e] + Seq::<SseView>::empty() =~= seq![e]);
    assert(fed(idle(), whole) == (idle(), seq![e]));
    pieces_do_not_matter(idle(), whole, rest);
}

/// Whether a text can be the name or the data of an event.
pub open spec fn is_event_name(s: Seq<char>) -> bool {
    s.len() > 0 && one_line(s) && !is_space(s[0]) && !is_space(s.last())
}

/// A written event with a name is read as one event with that name and the written text.
pub proof fn named_frame_is_read(name: Seq<char>, v: JsonView, rest: Seq<char>)
    requires
        is_event_name(name),
        written_well(v),
    ensures
        fed(idle(), named_frame(name, v) + rest) == ({
            let (p, more) = fed(idle(), rest);
            (p, seq![SseView { event: Some(name), data: json_text(v) }] + more)
        }),
{
    let t = json_text(v);
    reveal_strlit("event: ");
    reveal_strlit("data: ");
    reveal_strlit("\ndata: ");
    reveal_strlit("\n\n");
    let head = "event: "@ + name;
    let line = "data: "@ + t;
    assert("data: "@.len() == 6);
    assert("event: "@.len() == 7);
    assert forall|i: int| 0 <= i < line.len() implies #[trigger] line[i] != '\n' by {
        if i >= 6 {
            assert(t[i - 6] != '\n');
        } else {
            assert(line[i] == "data: "@[i]);
        }
    }
    assert forall|i: int| 0 <= i < head.len() implies #[trigger] head[i] != '\n' by {
        if i >= 7 {
            assert(name[i - 7] != '\n');
        } else {
            assert(head[i] == "event: "@[i]);
        }
    }
    let whole = named_frame(name, v);
    let a = head.push('\n');
    let b = line.push('\n');
    let c = seq!['\n'];
    assert("\n\n"@ =~= seq!['\n', '\n']);
    assert("\ndata: "@ =~= seq!['\n'] + "data: "@);
    assert(whole =~= a + (b + c));
    let named = ParserView { line: Seq::empty(), event: Some(name) };
    let none = Seq::<SseView>::empty();
    let e = SseView { event: Some(name), data: t };
    line_is_read(None, head);
    event_line(None, name);
    assert(fed(idle(), a) == (named, none));
    line_is_read(Some(name), line);
    data_line(Some(name), t);
    assert(fed(named, b) == (idle(), seq![e]));
    assert(c =~= Seq::<char>::empty().push('\n'));
    line_is_read(None, Seq::empty());
    empty_line(None);
    pieces_do_not_matter(named, b, c);
    assert(seq![e] + none =~= seq![e]);
    assert(fed(named, b + c) == (idle(), seq![e]));
    pieces_do_not_matter(idle(), a, b + c);
    assert(none + seq![e] =~= seq![e]);
    assert(fed(idle(), whole) == (idle(), seq![e]));
    pieces_do_not_matter(idle(), whole, rest);
}

} // verus!
