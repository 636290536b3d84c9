//! The conversion of a whole response stream: bytes of one protocol in, server-sent events of
//! another out.
use crate::seqs::{take_ends, take_step};
use crate::text::texts;
use crate::transform::emit::{
    all_wrapped, canonical_to_openai_sse, canonical_to_responses_sse, frame_texts, openai_sse,
    responses_sse, wrapped, AnthropicSseWrapper, WrapperView,
};
use crate::transform::stream::{
    all_converted, all_texts, byte_pieces_do_not_matter, fed_bytes, parse_stream_events, put_together,
    result_view, result_views, CanonicalStreamEvent, EventParser, ParserView, ProtocolStream, SseView, StreamView,
};
use crate::transform::Protocol;
use vstd::prelude::*;
use vstd::string::*;
use vstd::utf8::*;

verus! {

/// The view of a piece of output.
pub open spec fn output_view(r: Result<String, String>) -> Result<Seq<char>, Seq<char>> {
    match r {
        Ok(s) => Ok(s@),
        Err(m) => Err(m@),
    }
}

/// The views of a sequence of pieces of output.
pub open spec fn output_views(s: Seq<Result<String, String>>) -> Seq<Result<Seq<char>, Seq<char>>> {
    s.map_values(|r: Result<String, String>| output_view(r))
}

/// Texts as pieces of output.
pub open spec fn successes(s: Seq<Seq<char>>) -> Seq<Result<Seq<char>, Seq<char>>> {
    Seq::new(s.len(), |i: int| Ok(s[i]))
}

/// What is written for one event, and the state of the Anthropic writer after it. For
/// Anthropic nothing follows a stop; for the others empty texts are left out.
pub open spec fn emitted(to: Protocol, w: WrapperView, r: Result<StreamView, Seq<char>>) -> (
    WrapperView,
    Seq<Result<Seq<char>, Seq<char>>>,
) {
    match (to, r) {
        (Protocol::AnthropicMessages, Ok(e)) => if w.stopped {
            (w, Seq::empty())
        } else {
            (wrapped(w, e).0, successes(frame_texts(wrapped(w, e).1)))
        },
        (Protocol::AnthropicMessages, Err(m)) => if w.stopped {
            (w, Seq::empty())
        } else {
            (w, seq![Err(m)])
        },
        (Protocol::ChatCompletions, Ok(e)) => (w, unless_blank(openai_sse(e))),
        (Protocol::Responses, Ok(e)) => (w, unless_blank(responses_sse(e))),
        (_, Err(m)) => (w, seq![Err(m)]),
    }
}

/// A text as output, nothing for the empty text.
pub open spec fn unless_blank(s: Seq<char>) -> Seq<Result<Seq<char>, Seq<char>>> {
    if s.len() == 0 {
        Seq::empty()
    } else {
        seq![Ok(s)]
    }
}

/// What is written for a sequence of events.
pub open spec fn all_emitted(to: Protocol, w: WrapperView, s: Seq<Result<StreamView, Seq<char>>>) -> (
    WrapperView,
    Seq<Result<Seq<char>, Seq<char>>>,
)
    decreases s.len(),
{
    if s.len() == 0 {
        (w, Seq::empty())
    } else {
        let (v, before) = all_emitted(to, w, s.drop_last());
        let (u, more) = emitted(to, v, s.last());
        (u, before + more)
    }
}

/// Once an Anthropic stream has stopped, nothing more is written to it.
pub proof fn nothing_follows_a_stop(w: WrapperView, s: Seq<Result<StreamView, Seq<char>>>)
    requires
        w.stopped,
    ensures
        all_emitted(Protocol::AnthropicMessages, w, s) == (
            w,
            Seq::<Result<Seq<char>, Seq<char>>>::empty(),
        ),
    decreases s.len(),
{
    if s.len() > 0 {
        nothing_follows_a_stop(w, s.drop_last());
    }
}

/// Events as the results of reading them.
pub open spec fn readings(s: Seq<StreamView>) -> Seq<Result<StreamView, Seq<char>>> {
    s.map_values(|e: StreamView| Ok::<StreamView, Seq<char>>(e))
}

/// What is written to an Anthropic stream for events that could be read are the messages of its
/// writer, up to and with the first stop.
pub proof fn anthropic_output_is_wrapped(w: WrapperView, s: Seq<StreamView>)
    ensures
        all_emitted(Protocol::AnthropicMessages, w, readings(s)) == (
            all_wrapped(w, s).0,
            successes(frame_texts(all_wrapped(w, s).1)),
        ),
    decreases s.len(),
{
    if s.len() == 0 {
        assert(successes(frame_texts(all_wrapped(w, s).1)) =~= Seq::empty());
    } else {
        anthropic_output_is_wrapped(w, s.drop_last());
        assert(readings(s).drop_last() =~= readings(s.drop_last()));
        assert(readings(s).last() == Ok::<StreamView, Seq<char>>(s.last()));
        let (v, frames) = all_wrapped(w, s.drop_last());
        let before = successes(frame_texts(frames));
        if v.stopped {
            assert(before + Seq::<Result<Seq<char>, Seq<char>>>::empty() =~= before);
        } else {
            let more = wrapped(v, s.last()).1;
            assert(successes(frame_texts(frames + more)) =~= before + successes(frame_texts(more)));
        }
    }
}

/// Events may be written in any portions.
pub proof fn portions_do_not_matter(
    to: Protocol,
    w: WrapperView,
    a: Seq<Result<StreamView, Seq<char>>>,
    b: Seq<Result<StreamView, Seq<char>>>,
)
    ensures
        all_emitted(to, w, a + b) == ({
            let (v, first) = all_emitted(to, w, a);
            let (u, second) = all_emitted(to, v, b);
            (u, first + second)
        }),
    decreases b.len(),
{
    let (v, first) = all_emitted(to, w, a);
    if b.len() == 0 {
        assert(a + b =~= a);
        assert(first + Seq::<Result<Seq<char>, Seq<char>>>::empty() =~= first);
    } else {
        portions_do_not_matter(to, w, a, b.drop_last());
        assert((a + b).drop_last() =~= a + b.drop_last());
        let (t, second) = all_emitted(to, v, b.drop_last());
        let more = emitted(to, t, b.last()).1;
        assert((first + second) + more =~= first + (second + more));
    }
}

/// What converting a piece of a stream does to the parser and the writer, and what is written.
pub open spec fn conversion(
    kind: EventParser,
    to: Protocol,
    p: ParserView,
    w: WrapperView,
    data: Seq<u8>,
) -> (ParserView, WrapperView, Seq<Result<Seq<char>, Seq<char>>>) {
    let (q, events) = fed_bytes(p, data);
    let (v, out) = all_emitted(to, w, all_converted(kind, events));
    (q, v, out)
}

/// A stream is converted to the same output in whatever pieces it comes, as long as none parts
/// a character.
pub proof fn stream_pieces_do_not_matter(
    kind: EventParser,
    to: Protocol,
    p: ParserView,
    w: WrapperView,
    a: Seq<u8>,
    b: Seq<u8>,
)
    requires
        valid_utf8(a),
        valid_utf8(b),
    ensures
        conversion(kind, to, p, w, a + b) == ({
            let (q, v, first) = conversion(kind, to, p, w, a);
            let (r, u, second) = conversion(kind, to, q, v, b);
            (r, u, first + second)
        }),
{
    byte_pieces_do_not_matter(p, a, b);
    let (q, first) = fed_bytes(p, a);
    let second = fed_bytes(q, b).1;
    converting_distributes(kind, first, second);
    portions_do_not_matter(to, w, all_converted(kind, first), all_converted(kind, second));
}

proof fn converting_distributes(kind: EventParser, a: Seq<SseView>, b: Seq<SseView>)
    ensures
        all_converted(kind, a + b) == all_converted(kind, a) + all_converted(kind, b),
    decreases b.len(),
{
    let first = all_converted(kind, a);
    if b.len() == 0 {
        assert(a + b =~= a);
        assert(first + all_converted(kind, b) =~= first);
    } else {
        converting_distributes(kind, a, b.drop_last());
        assert((a + b).drop_last() =~= a + b.drop_last());
        assert(all_converted(kind, a + b) =~= first + all_converted(kind, b));
    }
}

/// What converting the pieces of a stream does, one after the other.
pub open spec fn conversions(
    kind: EventParser,
    to: Protocol,
    p: ParserView,
    w: WrapperView,
    s: Seq<Seq<u8>>,
) -> (ParserView, WrapperView, Seq<Result<Seq<char>, Seq<char>>>)
    decreases s.len(),
{
    if s.len() == 0 {
        (p, w, Seq::empty())
    } else {
        let (q, v, first) = conversions(kind, to, p, w, s.drop_last());
        let (r, u, second) = conversion(kind, to, q, v, s.last());
        (r, u, first + second)
    }
}

/// The pieces of a stream are converted to the same output as the whole of it, as long as none
/// parts a character.
pub proof fn pieces_convert_the_whole(
    kind: EventParser,
    to: Protocol,
    p: ParserView,
    w: WrapperView,
    s: Seq<Seq<u8>>,
)
    requires
        all_texts(s),
    ensures
        valid_utf8(put_together(s)),
        conversions(kind, to, p, w, s) == conversion(kind, to, p, w, put_together(s)),
    decreases s.len(),
{
    if s.len() == 0 {
        assert(decode_utf8(put_together(s)) =~= Seq::<char>::empty());
        assert(all_converted(kind, Seq::empty()) =~= Seq::<Result<StreamView, Seq<char>>>::empty());
    } else {
        let t = s.drop_last();
        assert forall|i: int| 0 <= i < t.len() implies valid_utf8(#[trigger] t[i]) by {
            assert(valid_utf8(s[i]));
        }
        assert(valid_utf8(s[s.len() - 1]));
        pieces_convert_the_whole(kind, to, p, w, t);
        valid_utf8_concat(put_together(t), s.last());
        stream_pieces_do_not_matter(kind, to, p, w, put_together(t), s.last());
    }
}

/// Whether an event says nothing to a chat client: token counts, and what is not understood.
pub open spec fn is_unseen(e: StreamView) -> bool {
    match e {
        StreamView::Usage { input_tokens, output_tokens } => true,
        StreamView::Raw { event, data } => data != "[DONE]"@,
        _ => false,
    }
}

/// The events that say something to a chat client.
pub open spec fn seen(s: Seq<StreamView>) -> Seq<StreamView>
    decreases s.len(),
{
    if s.len() == 0 {
        Seq::empty()
    } else if is_unseen(s.last()) {
        seen(s.drop_last())
    } else {
        seen(s.drop_last()).push(s.last())
    }
}

/// What is written to a chat stream: for each event that says something to the client its own
/// piece of output, and nothing else.
pub proof fn chat_output_is_what_is_seen(w: WrapperView, s: Seq<StreamView>)
    ensures
        all_emitted(Protocol::ChatCompletions, w, readings(s)) == (
            w,
            seen(s).map_values(|e: StreamView| Ok::<Seq<char>, Seq<char>>(openai_sse(e))),
        ),
    decreases s.len(),
{
    let line = |e: StreamView| Ok::<Seq<char>, Seq<char>>(openai_sse(e));
    if s.len() == 0 {
        assert(seen(s).map_values(line) =~= Seq::empty());
    } else {
        let t = s.drop_last();
        let e = s.last();
        chat_output_is_what_is_seen(w, t);
        assert(readings(s).drop_last() =~= readings(t));
        assert(readings(s).last() == Ok::<StreamView, Seq<char>>(e));
        let before = seen(t).map_values(line);
        reveal_strlit("data: ");
        reveal_strlit("data: [DONE]\n\n");
        assert("data: "@.len() == 6 && "data: [DONE]\n\n"@.len() == 14);
        if is_unseen(e) {
            assert(openai_sse(e) =~= Seq::<char>::empty());
            assert(before + Seq::<Result<Seq<char>, Seq<char>>>::empty() =~= before);
        } else {
            assert(openai_sse(e).len() > 0);
            assert(seen(s).map_values(line) =~= before + seq![line(e)]);
        }
    }
}

/// Converts the stream of a response from one protocol to another.
#[derive(Debug)]
pub struct StreamConversion {
    source: ProtocolStream,
    to: Protocol,
    wrapper: AnthropicSseWrapper,
}

impl StreamConversion {
    /// The protocol that is read.
    pub closed spec fn kind(self) -> EventParser {
        self.source.kind()
    }

    /// The protocol that is written.
    pub closed spec fn target(self) -> Protocol {
        self.to
    }

    /// The state of the parser of server-sent events.
    pub closed spec fn parser(self) -> ParserView {
        self.source.parser()
    }

    /// The state of the Anthropic writer.
    pub closed spec fn writer(self) -> WrapperView {
        self.wrapper@
    }

    /// Whether the output is complete although the input may go on.
    pub fn is_ended(&self) -> (r: bool)
        ensures
            r == (self.target() == Protocol::AnthropicMessages && self.writer().stopped),
    {
        self.to == Protocol::AnthropicMessages && self.wrapper.is_stopped()
    }

    /// Writes one event.
    fn push(&mut self, item: Result<CanonicalStreamEvent, String>, out: &mut Vec<Result<String, String>>)
        ensures
            final(self).kind() == old(self).kind(),
            final(self).target() == old(self).target(),
            final(self).parser() == old(self).parser(),
            final(self).writer() == emitted(old(self).target(), old(self).writer(), result_view(item)).0,
            output_views(final(out)@) == output_views(old(out)@) + emitted(
                old(self).target(),
                old(self).writer(),
                result_view(item),
            ).1,
    {
        let ghost before = output_views(out@);
        let ghost w = self.writer();
        let ghost to = self.target();
        assert(before + Seq::<Result<Seq<char>, Seq<char>>>::empty() =~= before);
        if self.is_ended() {
            return ;
        }
        match item {
            Err(m) => {
                out.push(Err(m));
                assert(output_views(out@) =~= before + seq![
                    Err::<Seq<char>, Seq<char>>(m@),
                ]);
            },
            Ok(e) => {
                let written = match self.to {
                    Protocol::AnthropicMessages => {
                        let parts = match self.wrapper.convert(&e) {
                            Ok(v) => v,
                            Err(_) => Vec::new(),
                        };
                        let ghost frames = frame_texts(wrapped(w, e@).1);
                        let mut i: usize = 0;
                        assert(frames.take(0) =~= Seq::<Seq<char>>::empty());
                        assert(before + successes(frames.take(0)) =~= before);
                        while i < parts.len()
                            invariant
                                i <= parts@.len(),
                                texts(parts@) == frames,
                                output_views(out@) == before + successes(frames.take(i as int)),
                            decreases parts@.len() - i,
                        {
                            let ghost done = out@;
                            proof {
                                take_step(frames, i as int);
                                assert(frames[i as int] == parts@[i as int]@);
                            }
                            out.push(Ok(parts[i].clone()));
                            assert(output_views(out@) =~= output_views(done).push(
                                Ok(frames[i as int]),
                            ));
                            assert(output_views(out@) =~= before + successes(frames.take(i + 1)));
                            i += 1;
                        }
                        assert(frames.take(i as int) =~= frames);
                        return ;
                    },
                    Protocol::ChatCompletions => canonical_to_openai_sse(&e),
                    Protocol::Responses => canonical_to_responses_sse(&e),
                };
                if let Ok(s) = written {
                    if !s.as_str().is_empty() {
                        out.push(Ok(s));
                        assert(output_views(out@) =~= before + seq![
                            Ok::<Seq<char>, Seq<char>>(s@),
                        ]);
                    }
                }
            },
        }
    }

    /// Reads a piece of the input stream and returns what is written for it.
    pub fn feed(&mut self, data: &[u8]) -> (r: Vec<Result<String, String>>)
        ensures
            final(self).kind() == old(self).kind(),
            final(self).target() == old(self).target(),
            (final(self).parser(), final(self).writer(), output_views(r@)) == conversion(
                old(self).kind(),
                old(self).target(),
                old(self).parser(),
                old(self).writer(),
                data@,
            ),
    {
        let ghost w = self.writer();
        let ghost to = self.target();
        let ghost kind = self.kind();
        let events = self.source.feed(data);
        let ghost all = result_views(events@);
        let ghost parser = self.parser();
        let mut out: Vec<Result<String, String>> = Vec::new();
        proof {
            take_ends(all);
            assert(output_views(out@) =~= all_emitted(to, w, all.take(0)).1);
        }
        for item in it: events
            invariant
                it.seq().len() == all.len(),
                result_views(it.seq()) == all,
                self.kind() == kind,
                self.target() == to,
                self.parser() == parser,
                (self.writer(), output_views(out@)) == all_emitted(to, w, all.take(it.index@ as int)),
        {
            proof {
                take_step(all, it.index@ as int);
                assert(all[it.index@ as int] == result_view(item));
            }
            self.push(item, &mut out);
        }
        proof {
            take_ends(all);
        }
        out
    }
}

/// Converts the stream of a response from one protocol to another. This is the bare step: what a
/// client expects in front of the stream is given by `handlers::chat::stream_opening`.
pub fn convert_stream_sse(from: Protocol, to: Protocol) -> (r: StreamConversion)
    ensures
        r.kind() == EventParser::of(from),
        r.target() == to,
        r.parser() == (ParserView { line: Seq::empty(), event: None }),
        r.writer() == WrapperView::fresh(),
{
    StreamConversion {
        source: parse_stream_events(from),
        to,
        wrapper: AnthropicSseWrapper::new(),
    }
}

} // verus!
