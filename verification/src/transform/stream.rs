//! Server-sent events of the three protocols, read into events of the canonical form.
use crate::codec::{json_parse, json_text};
use crate::seqs::{take_ends, take_step};
use crate::json::{views, views_are, Json, JsonView};
use crate::text::{
    cat, chars_of, copy, is_text, numeral, numeral_of, opt_str, opt_text, same, strip_prefix,
    stripped, trim, trimmed,
};
use crate::transform::canonical::CanonicalStopReason;
use crate::transform::chat_completions::{
    count_at, items_at, parse_count, parse_reasoning_text, parse_some_text, reasoning_of, some_text_at,
};
use crate::transform::Protocol;
use vstd::prelude::*;
use vstd::string::*;
use vstd::utf8::*;

verus! {

/// A server-sent event.
#[derive(Debug, PartialEq)]
pub struct SseEvent {
    pub event: Option<String>,
    pub data: String,
}

/// A server-sent event as a mathematical value.
pub struct SseView {
    pub event: Option<Seq<char>>,
    pub data: Seq<char>,
}

impl SseEvent {
    pub open spec fn view(self) -> SseView {
        SseView { event: opt_text(self.event), data: self.data@ }
    }
}

/// The views of a sequence of server-sent events.
pub open spec fn sse_views(s: Seq<SseEvent>) -> Seq<SseView> {
    s.map_values(|e: SseEvent| e@)
}

/// An event of a response that comes in pieces.
#[derive(Debug, PartialEq)]
pub enum CanonicalStreamEvent {
    /// More text.
    TextDelta { text: String },
    /// More reasoning.
    ReasoningDelta { text: String },
    /// A tool call begins.
    ToolUseStart { id: String, index: Option<u64>, name: String, input: Json },
    /// More of the arguments of a tool call.
    ToolInputDelta { tool_use_id: String, index: Option<u64>, input_chunk: String },
    /// The response ends.
    Stop { reason: CanonicalStopReason },
    /// Token counts.
    Usage { input_tokens: u64, output_tokens: u64 },
    /// Anything else, as it came.
    Raw { event: Option<String>, data: String },
}

/// An event of a response that comes in pieces, as a mathematical value.
pub enum StreamView {
    TextDelta { text: Seq<char> },
    ReasoningDelta { text: Seq<char> },
    ToolUseStart { id: Seq<char>, index: Option<u64>, name: Seq<char>, input: JsonView },
    ToolInputDelta { tool_use_id: Seq<char>, index: Option<u64>, input_chunk: Seq<char> },
    Stop { reason: CanonicalStopReason },
    Usage { input_tokens: u64, output_tokens: u64 },
    Raw { event: Option<Seq<char>>, data: Seq<char> },
}

impl CanonicalStreamEvent {
    pub open spec fn view(self) -> StreamView {
        match self {
            CanonicalStreamEvent::TextDelta { text } => StreamView::TextDelta { text: text@ },
            CanonicalStreamEvent::ReasoningDelta { text } => StreamView::ReasoningDelta {
                text: text@,
            },
            CanonicalStreamEvent::ToolUseStart { id, index, name, input } => StreamView::ToolUseStart {
                id: id@,
                index,
                name: name@,
                input: input@,
            },
            CanonicalStreamEvent::ToolInputDelta { tool_use_id, index, input_chunk } => StreamView::ToolInputDelta {
                tool_use_id: tool_use_id@,
                index,
                input_chunk: input_chunk@,
            },
            CanonicalStreamEvent::Stop { reason } => StreamView::Stop { reason },
            CanonicalStreamEvent::Usage { input_tokens, output_tokens } => StreamView::Usage {
                input_tokens,
                output_tokens,
            },
            CanonicalStreamEvent::Raw { event, data } => StreamView::Raw {
                event: opt_text(event),
                data: data@,
            },
        }
    }
}

/// Reads server-sent events from text that comes in pieces.
#[derive(Debug)]
pub struct SseParser {
    buffer: String,
    current_event: Option<String>,
}

/// What a parser of server-sent events holds between two pieces: the line that is not yet
/// complete, and the name that the next event has.
pub struct ParserView {
    pub line: Seq<char>,
    pub event: Option<Seq<char>>,
}

/// What a complete line does: the name that the next event then has, and the event that it
/// completes.
pub open spec fn line_step(event: Option<Seq<char>>, line: Seq<char>) -> (
    Option<Seq<char>>,
    Option<SseView>,
) {
    match (stripped(line, "event:"@), stripped(line, "data:"@)) {
        (Some(name), _) => (Some(trimmed(name)), None),
        (None, Some(data)) => if trimmed(data).len() > 0 {
            (None, Some(SseView { event, data: trimmed(data) }))
        } else {
            (event, None)
        },
        (None, None) => if line.len() == 0 {
            (None, None)
        } else {
            (event, None)
        },
    }
}

/// What reading a text does: the state after it, and the events that it completes.
pub open spec fn fed(p: ParserView, s: Seq<char>) -> (ParserView, Seq<SseView>)
    decreases s.len(),
{
    if s.len() == 0 {
        (p, Seq::empty())
    } else {
        let (q, events) = fed(p, s.drop_last());
        if s.last() == '\n' {
            let (event, done) = line_step(q.event, q.line);
            (
                ParserView { line: Seq::empty(), event },
                match done {
                    Some(e) => events.push(e),
                    None => events,
                },
            )
        } else {
            (ParserView { line: q.line.push(s.last()), event: q.event }, events)
        }
    }
}

/// Text may come in any pieces: reading `a` and then `b` leaves the same state and yields the
/// same events as reading both at once.
pub proof fn pieces_do_not_matter(p: ParserView, a: Seq<char>, b: Seq<char>)
    ensures
        fed(p, a + b) == ({
            let (q, first) = fed(p, a);
            let (r, second) = fed(q, b);
            (r, first + second)
        }),
    decreases b.len(),
{
    let (q, first) = fed(p, a);
    if b.len() == 0 {
        assert(a + b =~= a);
        assert(first + Seq::<SseView>::empty() =~= first);
    } else {
        pieces_do_not_matter(p, a, b.drop_last());
        assert((a + b).drop_last() =~= a + b.drop_last());
        let (r, second) = fed(q, b.drop_last());
        let (_, done) = line_step(r.event, r.line);
        if done is Some {
            assert(first + second.push(done->Some_0) =~= (first + second).push(done->Some_0));
        }
    }
}

/// `std::str::from_utf8`: the text that the bytes encode, where they are well-formed UTF-8.
#[verifier::external_body]
pub(crate) fn utf8_text(data: &[u8]) -> (r: Option<&str>)
    ensures
        match r {
            Some(t) => valid_utf8(data@) && t@ == decode_utf8(data@),
            None => !valid_utf8(data@),
        },
{
    std::str::from_utf8(data).ok()
}

/// What reading a piece of bytes does. A piece that is no text is passed over.
pub open spec fn fed_bytes(p: ParserView, data: Seq<u8>) -> (ParserView, Seq<SseView>) {
    if valid_utf8(data) {
        fed(p, decode_utf8(data))
    } else {
        (p, Seq::empty())
    }
}

/// Bytes may come in any pieces that do not part a character.
pub proof fn byte_pieces_do_not_matter(p: ParserView, a: Seq<u8>, b: Seq<u8>)
    requires
        valid_utf8(a),
        valid_utf8(b),
    ensures
        fed_bytes(p, a + b) == ({
            let (q, first) = fed_bytes(p, a);
            let (r, second) = fed_bytes(q, b);
            (r, first + second)
        }),
{
    valid_utf8_concat(a, b);
    decoding_distributes(a, b);
    pieces_do_not_matter(p, decode_utf8(a), decode_utf8(b));
}

/// The pieces of a stream put together.
pub open spec fn put_together(s: Seq<Seq<u8>>) -> Seq<u8>
    decreases s.len(),
{
    if s.len() == 0 {
        Seq::empty()
    } else {
        put_together(s.drop_last()) + s.last()
    }
}

/// Whether every piece is text, so that none parts a character.
pub open spec fn all_texts(s: Seq<Seq<u8>>) -> bool {
    forall|i: int| 0 <= i < s.len() ==> valid_utf8(#[trigger] s[i])
}

proof fn decoding_distributes(a: Seq<u8>, b: Seq<u8>)
    requires
        valid_utf8(a),
        valid_utf8(b),
        valid_utf8(a + b),
    ensures
        decode_utf8(a + b) == decode_utf8(a) + decode_utf8(b),
    decreases a.len(),
{
    if a.len() == 0 {
        assert(a + b =~= b);
        assert(decode_utf8(a) + decode_utf8(b) =~= decode_utf8(b));
    } else {
        let t = pop_first_scalar(a);
        assert(pop_first_scalar(a + b) =~= t + b);
        valid_utf8_concat(t, b);
        decoding_distributes(t, b);
        assert(decode_first_scalar(a + b) == decode_first_scalar(a));
        assert(decode_utf8(a + b) =~= decode_utf8(a) + decode_utf8(b));
    }
}

impl SseParser {
    /// The state.
    pub closed spec fn view(self) -> ParserView {
        ParserView { line: self.buffer@, event: opt_text(self.current_event) }
    }

    /// A parser that has read nothing.
    pub fn new() -> (r: SseParser)
        ensures
            r@ == (ParserView { line: Seq::empty(), event: None }),
    {
        SseParser { buffer: String::new(), current_event: None }
    }

    /// Reads a complete line.
    fn end_line(&mut self, events: &mut Vec<SseEvent>)
        ensures
            final(self)@ == (ParserView {
                line: Seq::empty(),
                event: line_step(old(self)@.event, old(self)@.line).0,
            }),
            sse_views(final(events)@) == match line_step(old(self)@.event, old(self)@.line).1 {
                Some(e) => sse_views(old(events)@).push(e),
                None => sse_views(old(events)@),
            },
    {
        let mut line = String::new();
        core::mem::swap(&mut line, &mut self.buffer);
        if let Some(name) = strip_prefix(&line, "event:") {
            self.current_event = Some(copy(trim(name)));
        } else if let Some(data) = strip_prefix(&line, "data:") {
            let data = trim(data);
            if !data.is_empty() {
                let mut event: Option<String> = None;
                core::mem::swap(&mut event, &mut self.current_event);
                let ghost before = events@;
                let e = SseEvent { event, data: copy(data) };
                events.push(e);
                assert(sse_views(events@) =~= sse_views(before).push(e@));
            }
        } else if line.as_str().is_empty() {
            self.current_event = None;
        }
    }

    /// Reads a piece of bytes and returns the events that it completes. Only complete lines
    /// count; an incomplete one waits for the next piece. A piece that is no UTF-8 is passed
    /// over.
    pub fn feed(&mut self, data: &[u8]) -> (r: Vec<SseEvent>)
        ensures
            (final(self)@, sse_views(r@)) == fed_bytes(old(self)@, data@),
    {
        let mut events: Vec<SseEvent> = Vec::new();
        assert(sse_views(events@) =~= Seq::<SseView>::empty());
        let text = match utf8_text(data) {
            Some(t) => t,
            None => return events,
        };
        let chars = chars_of(text);
        let mut i: usize = 0;
        let ghost start = self@;
        assert(chars@.take(0) =~= Seq::<char>::empty());
        while i < chars.len()
            invariant
                i <= chars@.len(),
                (self@, sse_views(events@)) == fed(start, chars@.take(i as int)),
            decreases chars@.len() - i,
        {
            assert(chars@.take(i + 1).drop_last() =~= chars@.take(i as int));
            if chars[i] == '\n' {
                self.end_line(&mut events);
            } else {
                self.buffer.push(chars[i]);
            }
            i += 1;
        }
        assert(chars@.take(i as int) =~= chars@);
        events
    }
}

/// The views of the result of reading an event.
pub open spec fn result_view(r: Result<CanonicalStreamEvent, String>) -> Result<StreamView, Seq<char>> {
    match r {
        Ok(e) => Ok(e@),
        Err(m) => Err(m@),
    }
}

/// The view of an optional event.
pub open spec fn opt_stream(r: Option<CanonicalStreamEvent>) -> Option<StreamView> {
    match r {
        Some(e) => Some(e@),
        None => None,
    }
}

/// A server-sent event as it came.
pub open spec fn raw(e: SseView) -> StreamView {
    StreamView::Raw { event: e.event, data: e.data }
}

/// The name of a tool call that has only a number.
pub open spec fn numbered_tool(n: u64) -> Seq<char> {
    "tool_"@ + numeral(n as nat)
}

/// The text of a string, nothing for any other value.
pub open spec fn text_of(v: JsonView) -> Seq<char> {
    match v.as_str() {
        Some(t) => t,
        None => Seq::empty(),
    }
}

/// The value under `a`, or else under `b`, or null.
pub open spec fn either(v: JsonView, a: Seq<char>, b: Seq<char>) -> JsonView {
    match v.get(a) {
        Some(x) => x,
        None => v.at(b),
    }
}

/// The stop reason of a finish reason in a stream.
pub open spec fn stream_finish(name: Seq<char>) -> CanonicalStopReason {
    if name == "stop"@ || name == "content_filter"@ {
        CanonicalStopReason::EndTurn
    } else if name == "length"@ {
        CanonicalStopReason::MaxTokens
    } else if name == "tool_calls"@ {
        CanonicalStopReason::ToolUse
    } else {
        CanonicalStopReason::EndTurn
    }
}

/// The identifier of a tool call in a delta: its own, or one made of its number.
pub open spec fn delta_call_id(call: JsonView) -> Seq<char> {
    if call.text_at("id"@).len() > 0 {
        call.text_at("id"@)
    } else {
        match call.u64_at("index"@) {
            Some(n) => numbered_tool(n),
            None => Seq::empty(),
        }
    }
}

/// The arguments that a tool call starts with.
pub open spec fn initial_arguments(func: JsonView) -> JsonView {
    match func.str_at("arguments"@) {
        Some(text) => match json_parse(text) {
            Some(v) => v,
            None => JsonView::object(),
        },
        None => JsonView::object(),
    }
}

/// The event that a tool call in a delta holds: a start where it is named, else more arguments.
pub open spec fn delta_call(call: JsonView) -> Option<StreamView> {
    match call.get("function"@) {
        None => None,
        Some(func) => match (some_text_at(func, "name"@), some_text_at(func, "arguments"@)) {
            (Some(name), _) => Some(
                StreamView::ToolUseStart {
                    id: delta_call_id(call),
                    index: call.u64_at("index"@),
                    name,
                    input: initial_arguments(func),
                },
            ),
            (None, Some(chunk)) => Some(
                StreamView::ToolInputDelta {
                    tool_use_id: delta_call_id(call),
                    index: call.u64_at("index"@),
                    input_chunk: chunk,
                },
            ),
            (None, None) => None,
        },
    }
}

/// The first event among the tool calls of a delta.
pub open spec fn first_delta_call(calls: Seq<JsonView>) -> Option<StreamView>
    decreases calls.len(),
{
    if calls.len() == 0 {
        None
    } else {
        match delta_call(calls[0]) {
            Some(e) => Some(e),
            None => first_delta_call(calls.skip(1)),
        }
    }
}

/// The event that a delta holds: text, reasoning or a tool call, in this order.
pub open spec fn delta_event(delta: JsonView) -> Option<StreamView> {
    match (some_text_at(delta, "content"@), reasoning_of(delta)) {
        (Some(text), _) => Some(StreamView::TextDelta { text }),
        (None, Some(text)) => Some(StreamView::ReasoningDelta { text }),
        (None, None) => first_delta_call(items_at(delta, "tool_calls"@)),
    }
}

/// The event that a choice holds; its end comes before anything else.
pub open spec fn choice_event(choice: JsonView) -> Option<StreamView> {
    match choice.str_at("finish_reason"@) {
        Some(name) => Some(StreamView::Stop { reason: stream_finish(name) }),
        None => match choice.get("delta"@) {
            Some(delta) => delta_event(delta),
            None => None,
        },
    }
}

/// The event that a chunk of a Chat Completions stream holds.
pub open spec fn openai_event(json: JsonView) -> StreamView {
    let choices = items_at(json, "choices"@);
    let first = if choices.len() > 0 {
        choice_event(choices[0])
    } else {
        None
    };
    match (first, json.get("usage"@)) {
        (Some(e), _) => e,
        (None, Some(u)) => StreamView::Usage {
            input_tokens: count_at(u, "prompt_tokens"@),
            output_tokens: count_at(u, "completion_tokens"@),
        },
        (None, None) => StreamView::Raw { event: None, data: json_text(json) },
    }
}

/// The event that a server-sent event of a Chat Completions stream holds.
pub open spec fn from_openai(e: SseView) -> StreamView {
    if e.data == "[DONE]"@ {
        raw(e)
    } else {
        match json_parse(e.data) {
            Some(json) => openai_event(json),
            None => raw(e),
        }
    }
}

/// The value under `a`, or else under `b`, or null.
pub fn parse_either(v: &Json, a: &str, b: &str) -> (r: Json)
    ensures
        r@ == either(v@, a@, b@),
{
    match v.get(a) {
        Some(x) => x.copy(),
        None => v.at(b),
    }
}

/// The text of a string, nothing for any other value.
pub fn parse_text(v: &Json) -> (r: String)
    ensures
        r@ == text_of(v@),
{
    match v.as_str() {
        Some(t) => copy(t),
        None => String::new(),
    }
}

/// An equal event, as it came.
fn make_raw(sse: &SseEvent) -> (r: CanonicalStreamEvent)
    ensures
        r@ == raw(sse@),
{
    CanonicalStreamEvent::Raw { event: sse.event.clone(), data: sse.data.clone() }
}

/// The event that a tool call in a delta holds.
fn parse_delta_call(call: &Json) -> (r: Option<CanonicalStreamEvent>)
    ensures
        opt_stream(r) == delta_call(call@),
{
    let index = call.u64_at("index");
    let mut id = call.text_at("id");
    if id.as_str().is_empty() {
        if let Some(n) = index {
            let digits = numeral_of(n);
            id = cat("tool_", &digits);
        }
    }
    assert(id@ =~= delta_call_id(call@));
    let func = match call.get("function") {
        Some(f) => f,
        None => return None,
    };
    if let Some(name) = parse_some_text(func, "name") {
        let input = match func.str_at("arguments") {
            Some(text) => match Json::parse(text) {
                Some(v) => v,
                None => Json::object(),
            },
            None => Json::object(),
        };
        return Some(CanonicalStreamEvent::ToolUseStart { id, index, name, input });
    }
    if let Some(chunk) = parse_some_text(func, "arguments") {
        return Some(
            CanonicalStreamEvent::ToolInputDelta { tool_use_id: id, index, input_chunk: chunk },
        );
    }
    None
}

/// The first event among the tool calls of a delta.
fn parse_delta_calls(calls: &Vec<Json>) -> (r: Option<CanonicalStreamEvent>)
    ensures
        opt_stream(r) == first_delta_call(views(calls@)),
{
    let mut i: usize = 0;
    let ghost all = views(calls@);
    broadcast use views_are;

    assert(all.skip(0) =~= all);
    while i < calls.len()
        invariant
            i <= calls@.len(),
            all == views(calls@),
            first_delta_call(all) == first_delta_call(all.skip(i as int)),
        decreases calls@.len() - i,
    {
        assert(all.skip(i as int)[0] == calls@[i as int]@);
        assert(all.skip(i as int).skip(1) =~= all.skip(i + 1));
        if let Some(e) = parse_delta_call(&calls[i]) {
            return Some(e);
        }
        i += 1;
    }
    None
}

/// The event that a delta holds.
fn parse_delta(delta: &Json) -> (r: Option<CanonicalStreamEvent>)
    ensures
        opt_stream(r) == delta_event(delta@),
{
    if let Some(text) = parse_some_text(delta, "content") {
        return Some(CanonicalStreamEvent::TextDelta { text });
    }
    if let Some(text) = parse_reasoning_text(delta) {
        return Some(CanonicalStreamEvent::ReasoningDelta { text });
    }
    match delta.array_at("tool_calls") {
        Some(calls) => parse_delta_calls(calls),
        None => None,
    }
}

/// The stop reason of a finish reason in a stream.
fn parse_stream_finish(name: &str) -> (r: CanonicalStopReason)
    ensures
        r == stream_finish(name@),
{
    if same(name, "stop") || same(name, "content_filter") {
        CanonicalStopReason::EndTurn
    } else if same(name, "length") {
        CanonicalStopReason::MaxTokens
    } else if same(name, "tool_calls") {
        CanonicalStopReason::ToolUse
    } else {
        CanonicalStopReason::EndTurn
    }
}

/// The event that a choice holds.
fn parse_choice(choice: &Json) -> (r: Option<CanonicalStreamEvent>)
    ensures
        opt_stream(r) == choice_event(choice@),
{
    match choice.str_at("finish_reason") {
        Some(name) => Some(CanonicalStreamEvent::Stop { reason: parse_stream_finish(name) }),
        None => match choice.get("delta") {
            Some(delta) => parse_delta(delta),
            None => None,
        },
    }
}

/// The event that a chunk of a Chat Completions stream holds. It never fails.
pub fn parse_openai_event(json: &Json) -> (r: Result<CanonicalStreamEvent, String>)
    ensures
        r is Ok,
        r->Ok_0@ == openai_event(json@),
{
    broadcast use views_are;

    if let Some(choices) = json.array_at("choices") {
        if choices.len() > 0 {
            if let Some(e) = parse_choice(&choices[0]) {
                return Ok(e);
            }
        }
    }
    if let Some(usage) = json.get("usage") {
        return Ok(
            CanonicalStreamEvent::Usage {
                input_tokens: parse_count(usage, "prompt_tokens"),
                output_tokens: parse_count(usage, "completion_tokens"),
            },
        );
    }
    Ok(CanonicalStreamEvent::Raw { event: None, data: json.text() })
}

/// The event that a server-sent event of a Chat Completions stream holds. It never fails.
pub fn convert_openai_event(sse: &SseEvent) -> (r: Result<CanonicalStreamEvent, String>)
    ensures
        r is Ok,
        r->Ok_0@ == from_openai(sse@),
{
    if same(&sse.data, "[DONE]") {
        return Ok(make_raw(sse));
    }
    match Json::parse(&sse.data) {
        Some(json) => parse_openai_event(&json),
        None => Ok(make_raw(sse)),
    }
}

/// The event that a delta of a content block holds.
pub open spec fn block_delta(json: JsonView) -> Option<StreamView> {
    let delta = json.at("delta"@);
    let kind = delta.text_at("type"@);
    if kind == "text_delta"@ {
        match some_text_at(delta, "text"@) {
            Some(text) => Some(StreamView::TextDelta { text }),
            None => None,
        }
    } else if kind == "thinking_delta"@ {
        match some_text_at(delta, "thinking"@) {
            Some(text) => Some(StreamView::ReasoningDelta { text }),
            None => None,
        }
    } else if kind == "input_json_delta"@ {
        match some_text_at(delta, "partial_json"@) {
            Some(chunk) => Some(
                StreamView::ToolInputDelta {
                    tool_use_id: numbered_tool(count_at(json, "index"@)),
                    index: Some(count_at(json, "index"@)),
                    input_chunk: chunk,
                },
            ),
            None => None,
        }
    } else {
        None
    }
}

/// The event that the start of a content block holds: only tool uses matter.
pub open spec fn block_start(json: JsonView) -> Option<StreamView> {
    let block = json.at("content_block"@);
    if block.text_at("type"@) == "tool_use"@ {
        Some(
            StreamView::ToolUseStart {
                id: block.text_at("id"@),
                index: json.u64_at("index"@),
                name: block.text_at("name"@),
                input: match block.get("input"@) {
                    Some(i) => i,
                    None => JsonView::object(),
                },
            },
        )
    } else {
        None
    }
}

/// The stop reason of a message delta, which stands in its `delta` or beside it.
pub open spec fn message_delta_reason(json: JsonView) -> Option<Seq<char>> {
    match json.at("delta"@).get("stop_reason"@) {
        Some(v) => v.as_str(),
        None => json.str_at("stop_reason"@),
    }
}

/// The stop reason that a name in an Anthropic stream stands for.
pub open spec fn stream_stop(name: Seq<char>) -> CanonicalStopReason {
    if name == "end_turn"@ {
        CanonicalStopReason::EndTurn
    } else if name == "max_tokens"@ {
        CanonicalStopReason::MaxTokens
    } else if name == "stop_sequence"@ {
        CanonicalStopReason::StopSequence
    } else if name == "tool_use"@ {
        CanonicalStopReason::ToolUse
    } else {
        CanonicalStopReason::EndTurn
    }
}

/// The event that a message of an Anthropic stream holds, if any.
pub open spec fn anthropic_event(name: Seq<char>, json: JsonView) -> Option<StreamView> {
    if name == "content_block_delta"@ {
        block_delta(json)
    } else if name == "content_block_start"@ {
        block_start(json)
    } else if name == "message_delta"@ {
        match message_delta_reason(json) {
            Some(reason) => Some(StreamView::Stop { reason: stream_stop(reason) }),
            None => None,
        }
    } else {
        None
    }
}

/// The name of an event, nothing where it has none.
pub open spec fn event_name(e: Option<Seq<char>>) -> Seq<char> {
    match e {
        Some(n) => n,
        None => Seq::empty(),
    }
}

/// The event that a server-sent event of an Anthropic stream holds; none where the message
/// means nothing to other protocols.
pub open spec fn from_anthropic(e: SseView) -> Option<StreamView> {
    match json_parse(e.data) {
        Some(json) => anthropic_event(event_name(e.event), json),
        None => if e.event is Some || e.data.len() > 0 {
            Some(raw(e))
        } else {
            None
        },
    }
}

/// The event that a delta of a content block holds.
fn parse_block_delta(json: &Json) -> (r: Option<CanonicalStreamEvent>)
    ensures
        opt_stream(r) == block_delta(json@),
{
    let delta = json.at("delta");
    let kind = delta.text_at("type");
    if same(&kind, "text_delta") {
        match parse_some_text(&delta, "text") {
            Some(text) => Some(CanonicalStreamEvent::TextDelta { text }),
            None => None,
        }
    } else if same(&kind, "thinking_delta") {
        match parse_some_text(&delta, "thinking") {
            Some(text) => Some(CanonicalStreamEvent::ReasoningDelta { text }),
            None => None,
        }
    } else if same(&kind, "input_json_delta") {
        match parse_some_text(&delta, "partial_json") {
            Some(chunk) => {
                let index: u64 = parse_count(json, "index");
                let digits = numeral_of(index);
                Some(
                    CanonicalStreamEvent::ToolInputDelta {
                        tool_use_id: cat("tool_", &digits),
                        index: Some(index),
                        input_chunk: chunk,
                    },
                )
            },
            None => None,
        }
    } else {
        None
    }
}

/// The event that the start of a content block holds.
fn parse_block_start(json: &Json) -> (r: Option<CanonicalStreamEvent>)
    ensures
        opt_stream(r) == block_start(json@),
{
    let block = json.at("content_block");
    let kind = block.text_at("type");
    if same(&kind, "tool_use") {
        let input = match block.get("input") {
            Some(i) => i.copy(),
            None => Json::object(),
        };
        Some(
            CanonicalStreamEvent::ToolUseStart {
                id: block.text_at("id"),
                index: json.u64_at("index"),
                name: block.text_at("name"),
                input,
            },
        )
    } else {
        None
    }
}

/// The stop reason that a name in an Anthropic stream stands for.
fn parse_stream_stop(name: &str) -> (r: CanonicalStopReason)
    ensures
        r == stream_stop(name@),
{
    if same(name, "end_turn") {
        CanonicalStopReason::EndTurn
    } else if same(name, "max_tokens") {
        CanonicalStopReason::MaxTokens
    } else if same(name, "stop_sequence") {
        CanonicalStopReason::StopSequence
    } else if same(name, "tool_use") {
        CanonicalStopReason::ToolUse
    } else {
        CanonicalStopReason::EndTurn
    }
}

/// The event that a message of an Anthropic stream holds, if any. It never fails.
pub fn parse_anthropic_event(event_name: Option<&str>, json: &Json) -> (r: Result<
    Option<CanonicalStreamEvent>,
    String,
>)
    ensures
        r is Ok,
        opt_stream(r->Ok_0) == anthropic_event(self::event_name(opt_str(event_name)), json@),
{
    let empty = String::new();
    let name = match event_name {
        Some(n) => n,
        None => empty.as_str(),
    };
    if same(name, "content_block_delta") {
        Ok(parse_block_delta(json))
    } else if same(name, "content_block_start") {
        Ok(parse_block_start(json))
    } else if same(name, "message_delta") {
        let delta = json.at("delta");
        let reason = match delta.get("stop_reason") {
            Some(v) => v.as_str(),
            None => json.str_at("stop_reason"),
        };
        match reason {
            Some(n) => Ok(Some(CanonicalStreamEvent::Stop { reason: parse_stream_stop(n) })),
            None => Ok(None),
        }
    } else {
        Ok(None)
    }
}

/// The event that a server-sent event of an Anthropic stream holds, if any.
pub fn convert_anthropic_event(sse: &SseEvent) -> (r: Option<Result<CanonicalStreamEvent, String>>)
    ensures
        match r {
            Some(x) => x is Ok && from_anthropic(sse@) == Some(x->Ok_0@),
            None => from_anthropic(sse@) is None,
        },
{
    match Json::parse(&sse.data) {
        Some(json) => {
            let name = match &sse.event {
                Some(n) => Some(n.as_str()),
                None => None,
            };
            match parse_anthropic_event(name, &json) {
                Ok(Some(e)) => Some(Ok(e)),
                Ok(None) => None,
                Err(e) => Some(Err(e)),
            }
        },
        None => if sse.event.is_some() || !sse.data.as_str().is_empty() {
            Some(Ok(make_raw(sse)))
        } else {
            None
        },
    }
}

/// The first value under `a`, `b` or `c`, or null.
pub open spec fn any_of(v: JsonView, a: Seq<char>, b: Seq<char>, c: Seq<char>) -> JsonView {
    match v.get(a) {
        Some(x) => x,
        None => either(v, b, c),
    }
}

/// More arguments for the call `id`, where there are any.
pub open spec fn more_input(id: JsonView, index: Option<u64>, chunk: Option<Seq<char>>) -> Option<
    StreamView,
> {
    match chunk {
        Some(c) => if c.len() == 0 {
            None
        } else {
            Some(
                StreamView::ToolInputDelta { tool_use_id: text_of(id), index, input_chunk: c },
            )
        },
        None => None,
    }
}

/// The start of the tool call that `item` describes.
pub open spec fn call_start(item: JsonView, index: Option<u64>) -> StreamView {
    StreamView::ToolUseStart {
        id: text_of(either(item, "call_id"@, "id"@)),
        index,
        name: item.text_at("name"@),
        input: match item.get("arguments"@) {
            Some(a) => a,
            None => JsonView::object(),
        },
    }
}

/// The event that a delta of an output item holds.
pub open spec fn item_delta(json: JsonView) -> Option<StreamView> {
    let item = json.at("item"@);
    if item.str_at("type"@) == Some("message"@) {
        match (some_text_at(json, "delta"@), some_text_at(item, "content_delta"@)) {
            (Some(text), _) => Some(StreamView::TextDelta { text }),
            (None, Some(text)) => Some(StreamView::TextDelta { text }),
            (None, None) => None,
        }
    } else if item.str_at("type"@) == Some("function_call"@) {
        more_input(
            either(item, "call_id"@, "id"@),
            either(json, "output_index"@, "index"@).as_u64(),
            either(item, "arguments_delta"@, "arguments"@).as_str(),
        )
    } else {
        None
    }
}

/// The stop reason that a name in a Responses stream stands for.
pub open spec fn responses_stop(name: Seq<char>) -> CanonicalStopReason {
    if name == "tool_use"@ || name == "tool_calls"@ || name == "function_call"@ {
        CanonicalStopReason::ToolUse
    } else if name == "max_output_tokens"@ || name == "max_tokens"@ {
        CanonicalStopReason::MaxTokens
    } else if name == "stop_sequence"@ {
        CanonicalStopReason::StopSequence
    } else {
        CanonicalStopReason::EndTurn
    }
}

/// Whether an output item calls a function.
pub open spec fn calls_function(item: JsonView) -> bool {
    item.str_at("type"@) == Some("function_call"@)
}

/// Whether an output item is a message that was cut off.
pub open spec fn cut_off(item: JsonView) -> bool {
    item.str_at("type"@) == Some("message"@) && item.str_at("status"@) == Some("incomplete"@)
}

/// Why a response ended: for want of tokens where a message was cut off, else as it says, and
/// for a tool's sake where it says nothing but that it ended and calls a function.
pub open spec fn end_of(response: JsonView) -> CanonicalStopReason {
    let output = items_at(response, "output"@);
    let said = match response.str_at("stop_reason"@) {
        Some(name) => responses_stop(name),
        None => CanonicalStopReason::EndTurn,
    };
    let reason = if exists|i: int| 0 <= i < output.len() && cut_off(#[trigger] output[i]) {
        CanonicalStopReason::MaxTokens
    } else {
        said
    };
    if reason == CanonicalStopReason::EndTurn && exists|i: int|
        0 <= i < output.len() && calls_function(#[trigger] output[i]) {
        CanonicalStopReason::ToolUse
    } else {
        reason
    }
}

/// The event that a message of a Responses stream holds, if any.
pub open spec fn responses_event(json: JsonView) -> Option<StreamView> {
    let kind = json.text_at("type"@);
    if kind == "response.text.delta"@ || kind == "response.output_text.delta"@ {
        match some_text_at(json, "delta"@) {
            Some(text) => Some(StreamView::TextDelta { text }),
            None => None,
        }
    } else if kind == "response.reasoning.delta"@ || kind == "response.reasoning_text.delta"@ || kind
        == "response.output_reasoning.delta"@ {
        match some_text_at(json, "delta"@) {
            Some(text) => Some(StreamView::ReasoningDelta { text }),
            None => None,
        }
    } else if kind == "response.function_call.parameter_delta"@ {
        more_input(
            any_of(json, "call_id"@, "id"@, "item_id"@),
            json.u64_at("index"@),
            json.str_at("delta"@),
        )
    } else if kind == "response.function_call_arguments.delta"@ {
        more_input(
            any_of(json, "call_id"@, "id"@, "item_id"@),
            either(json, "index"@, "output_index"@).as_u64(),
            json.str_at("delta"@),
        )
    } else if kind == "response.function_call.completed"@ {
        Some(call_start(json, json.u64_at("index"@)))
    } else if kind == "response.output_item.added"@ {
        if calls_function(json.at("item"@)) {
            Some(call_start(json.at("item"@), either(json, "output_index"@, "index"@).as_u64()))
        } else {
            None
        }
    } else if kind == "response.output_item.done"@ {
        None
    } else if kind == "response.output_item.delta"@ {
        item_delta(json)
    } else if kind == "response.done"@ || kind == "response.completed"@ {
        Some(
            StreamView::Stop {
                reason: end_of(
                    match json.get("response"@) {
                        Some(x) => x,
                        None => json,
                    },
                ),
            },
        )
    } else {
        Some(StreamView::Raw { event: None, data: json_text(json) })
    }
}

/// The event that a server-sent event of a Responses stream holds.
pub open spec fn from_responses(e: SseView) -> StreamView {
    match json_parse(e.data) {
        Some(json) => match responses_event(json) {
            Some(x) => x,
            None => raw(e),
        },
        None => raw(e),
    }
}

/// The first value under `a`, `b` or `c`, or null.
pub fn parse_any_of(v: &Json, a: &str, b: &str, c: &str) -> (r: Json)
    ensures
        r@ == any_of(v@, a@, b@, c@),
{
    match v.get(a) {
        Some(x) => x.copy(),
        None => parse_either(v, b, c),
    }
}

/// More arguments for the call `id`, where there are any.
fn make_more_input(id: &Json, index: Option<u64>, chunk: Option<&str>) -> (r: Option<
    CanonicalStreamEvent,
>)
    ensures
        opt_stream(r) == more_input(id@, index, opt_str(chunk)),
{
    match chunk {
        Some(c) => if c.is_empty() {
            None
        } else {
            Some(
                CanonicalStreamEvent::ToolInputDelta {
                    tool_use_id: parse_text(id),
                    index,
                    input_chunk: copy(c),
                },
            )
        },
        None => None,
    }
}

/// The start of the tool call that `item` describes.
fn make_call_start(item: &Json, index: Option<u64>) -> (r: CanonicalStreamEvent)
    ensures
        r@ == call_start(item@, index),
{
    let id = parse_either(item, "call_id", "id");
    let input = match item.get("arguments") {
        Some(a) => a.copy(),
        None => Json::object(),
    };
    CanonicalStreamEvent::ToolUseStart {
        id: parse_text(&id),
        index,
        name: item.text_at("name"),
        input,
    }
}

/// The event that a delta of an output item holds.
fn parse_item_delta(json: &Json) -> (r: Option<CanonicalStreamEvent>)
    ensures
        opt_stream(r) == item_delta(json@),
{
    let item = json.at("item");
    if is_text(item.str_at("type"), "message") {
        if let Some(text) = parse_some_text(json, "delta") {
            return Some(CanonicalStreamEvent::TextDelta { text });
        }
        match parse_some_text(&item, "content_delta") {
            Some(text) => Some(CanonicalStreamEvent::TextDelta { text }),
            None => None,
        }
    } else if is_text(item.str_at("type"), "function_call") {
        let id = parse_either(&item, "call_id", "id");
        let index = parse_either(json, "output_index", "index").as_u64();
        let chunk = parse_either(&item, "arguments_delta", "arguments");
        make_more_input(&id, index, chunk.as_str())
    } else {
        None
    }
}

/// The stop reason that a name in a Responses stream stands for.
fn parse_responses_stop(name: &str) -> (r: CanonicalStopReason)
    ensures
        r == responses_stop(name@),
{
    if same(name, "tool_use") || same(name, "tool_calls") || same(name, "function_call") {
        CanonicalStopReason::ToolUse
    } else if same(name, "max_output_tokens") || same(name, "max_tokens") {
        CanonicalStopReason::MaxTokens
    } else if same(name, "stop_sequence") {
        CanonicalStopReason::StopSequence
    } else {
        CanonicalStopReason::EndTurn
    }
}

/// Why a response ended.
fn parse_end(response: &Json) -> (r: CanonicalStopReason)
    ensures
        r == end_of(response@),
{
    broadcast use views_are;

    let mut reason = match response.str_at("stop_reason") {
        Some(name) => parse_responses_stop(name),
        None => CanonicalStopReason::EndTurn,
    };
    let ghost said = reason;
    let mut calls = false;
    let ghost all = items_at(response@, "output"@);
    if let Some(output) = response.array_at("output") {
        let mut i: usize = 0;
        while i < output.len()
            invariant
                i <= output@.len(),
                all == views(output@),
                calls == exists|j: int| 0 <= j < i && calls_function(#[trigger] all[j]),
                reason == (if exists|j: int| 0 <= j < i && cut_off(#[trigger] all[j]) {
                    CanonicalStopReason::MaxTokens
                } else {
                    said
                }),
            decreases output@.len() - i,
        {
            let item = &output[i];
            assert(all[i as int] == item@);
            if is_text(item.str_at("type"), "function_call") {
                calls = true;
                assert(calls_function(all[i as int]));
            }
            if is_text(item.str_at("type"), "message") && is_text(item.str_at("status"), "incomplete") {
                reason = CanonicalStopReason::MaxTokens;
                assert(cut_off(all[i as int]));
            }
            i += 1;
        }
    }
    if calls && reason == CanonicalStopReason::EndTurn {
        reason = CanonicalStopReason::ToolUse;
    }
    reason
}

/// The event that a message of a Responses stream holds, if any. It never fails.
pub fn parse_responses_event(json: &Json) -> (r: Result<Option<CanonicalStreamEvent>, String>)
    ensures
        r is Ok,
        opt_stream(r->Ok_0) == responses_event(json@),
{
    let kind = json.text_at("type");
    if same(&kind, "response.text.delta") || same(&kind, "response.output_text.delta") {
        match parse_some_text(json, "delta") {
            Some(text) => Ok(Some(CanonicalStreamEvent::TextDelta { text })),
            None => Ok(None),
        }
    } else if same(&kind, "response.reasoning.delta") || same(&kind, "response.reasoning_text.delta")
        || same(&kind, "response.output_reasoning.delta") {
        match parse_some_text(json, "delta") {
            Some(text) => Ok(Some(CanonicalStreamEvent::ReasoningDelta { text })),
            None => Ok(None),
        }
    } else if same(&kind, "response.function_call.parameter_delta") {
        let id = parse_any_of(json, "call_id", "id", "item_id");
        Ok(make_more_input(&id, json.u64_at("index"), json.str_at("delta")))
    } else if same(&kind, "response.function_call_arguments.delta") {
        let id = parse_any_of(json, "call_id", "id", "item_id");
        let index = parse_either(json, "index", "output_index").as_u64();
        Ok(make_more_input(&id, index, json.str_at("delta")))
    } else if same(&kind, "response.function_call.completed") {
        Ok(Some(make_call_start(json, json.u64_at("index"))))
    } else if same(&kind, "response.output_item.added") {
        let item = json.at("item");
        if is_text(item.str_at("type"), "function_call") {
            let index = parse_either(json, "output_index", "index").as_u64();
            Ok(Some(make_call_start(&item, index)))
        } else {
            Ok(None)
        }
    } else if same(&kind, "response.output_item.done") {
        Ok(None)
    } else if same(&kind, "response.output_item.delta") {
        Ok(parse_item_delta(json))
    } else if same(&kind, "response.done") || same(&kind, "response.completed") {
        let reason = match json.get("response") {
            Some(x) => parse_end(x),
            None => parse_end(json),
        };
        Ok(Some(CanonicalStreamEvent::Stop { reason }))
    } else {
        Ok(Some(CanonicalStreamEvent::Raw { event: None, data: json.text() }))
    }
}

/// The event that a server-sent event of a Responses stream holds. It never fails.
pub fn convert_responses_event(sse: &SseEvent) -> (r: Result<CanonicalStreamEvent, String>)
    ensures
        r is Ok,
        r->Ok_0@ == from_responses(sse@),
{
    match Json::parse(&sse.data) {
        Some(json) => match parse_responses_event(&json) {
            Ok(Some(e)) => Ok(e),
            Ok(None) => Ok(make_raw(sse)),
            Err(e) => Err(e),
        },
        None => Ok(make_raw(sse)),
    }
}

/// Which protocol the events of a stream are in.
#[derive(Debug, Clone, Copy, PartialEq, Eq, Structural)]
pub enum EventParser {
    OpenAI,
    Anthropic,
    Responses,
}

impl EventParser {
    /// The way to read the events of a protocol.
    pub open spec fn of(protocol: Protocol) -> EventParser {
        match protocol {
            Protocol::ChatCompletions => EventParser::OpenAI,
            Protocol::AnthropicMessages => EventParser::Anthropic,
            Protocol::Responses => EventParser::Responses,
        }
    }
}

/// Whether an Anthropic event only marks a boundary and is passed over.
pub open spec fn is_marker(e: SseView) -> bool {
    e.event == Some("ping"@) || e.event == Some("content_block_stop"@) || e.event == Some(
        "message_stop"@,
    )
}

/// The canonical event for a server-sent event that is not passed over.
pub open spec fn converted(kind: EventParser, e: SseView) -> Result<StreamView, Seq<char>> {
    match kind {
        EventParser::OpenAI => Ok(from_openai(e)),
        EventParser::Responses => Ok(from_responses(e)),
        EventParser::Anthropic => match from_anthropic(e) {
            Some(x) => Ok(x),
            None => if e.data.len() > 0 {
                Ok(raw(e))
            } else {
                Err("unexpected skipped event"@)
            },
        },
    }
}

/// The canonical events for a sequence of server-sent events.
pub open spec fn all_converted(kind: EventParser, s: Seq<SseView>) -> Seq<Result<StreamView, Seq<char>>>
    decreases s.len(),
{
    if s.len() == 0 {
        Seq::empty()
    } else {
        let before = all_converted(kind, s.drop_last());
        if kind == EventParser::Anthropic && is_marker(s.last()) {
            before
        } else {
            before.push(converted(kind, s.last()))
        }
    }
}

/// The views of a sequence of results.
pub open spec fn result_views(s: Seq<Result<CanonicalStreamEvent, String>>) -> Seq<
    Result<StreamView, Seq<char>>,
> {
    s.map_values(|r: Result<CanonicalStreamEvent, String>| result_view(r))
}

/// Turns the bytes of a response stream of one protocol into canonical events.
#[derive(Debug)]
pub struct ProtocolStream {
    sse_parser: SseParser,
    parser_kind: EventParser,
}

impl ProtocolStream {
    /// The state of the parser of server-sent events.
    pub closed spec fn parser(self) -> ParserView {
        self.sse_parser@
    }

    /// The protocol.
    pub closed spec fn kind(self) -> EventParser {
        self.parser_kind
    }

    /// A stream that has read nothing.
    pub fn new(parser_kind: EventParser) -> (r: ProtocolStream)
        ensures
            r.kind() == parser_kind,
            r.parser() == (ParserView { line: Seq::empty(), event: None }),
    {
        ProtocolStream { sse_parser: SseParser::new(), parser_kind }
    }

    /// The canonical event for a server-sent event that is not passed over.
    pub fn convert_event(&self, sse: &SseEvent) -> (r: Result<CanonicalStreamEvent, String>)
        ensures
            result_view(r) == converted(self.kind(), sse@),
    {
        match self.parser_kind {
            EventParser::OpenAI => convert_openai_event(sse),
            EventParser::Responses => convert_responses_event(sse),
            EventParser::Anthropic => match convert_anthropic_event(sse) {
                Some(x) => x,
                None => if !sse.data.as_str().is_empty() {
                    Ok(make_raw(sse))
                } else {
                    Err(copy("unexpected skipped event"))
                },
            },
        }
    }

    /// Reads a piece of bytes and returns the canonical events that it completes.
    pub fn feed(&mut self, data: &[u8]) -> (r: Vec<Result<CanonicalStreamEvent, String>>)
        ensures
            final(self).kind() == old(self).kind(),
            final(self).parser() == fed_bytes(old(self).parser(), data@).0,
            result_views(r@) == all_converted(
                old(self).kind(),
                fed_bytes(old(self).parser(), data@).1,
            ),
    {
        let events = self.sse_parser.feed(data);
        let ghost all = sse_views(events@);
        let mut out: Vec<Result<CanonicalStreamEvent, String>> = Vec::new();
        let mut i: usize = 0;
        proof {
            take_ends(all);
            assert(result_views(out@) =~= all_converted(self.kind(), all.take(0)));
        }
        while i < events.len()
            invariant
                i <= events@.len(),
                all == sse_views(events@),
                result_views(out@) == all_converted(self.kind(), all.take(i as int)),
            decreases events@.len() - i,
        {
            proof {
                take_step(all, i as int);
            }
            let sse = &events[i];
            assert(all[i as int] == sse@);
            let name = match &sse.event {
                Some(n) => Some(n.as_str()),
                None => None,
            };
            if self.parser_kind == EventParser::Anthropic && (is_text(name, "ping") || is_text(
                name,
                "content_block_stop",
            ) || is_text(name, "message_stop")) {
            } else {
                let ghost before = out@;
                let e = self.convert_event(sse);
                out.push(e);
                assert(result_views(out@) =~= result_views(before).push(result_view(e)));
            }
            i += 1;
        }
        proof {
            take_ends(all);
        }
        out
    }
}

/// Reads the response stream of a protocol into canonical events.
pub fn parse_stream_events(protocol: Protocol) -> (r: ProtocolStream)
    ensures
        r.kind() == EventParser::of(protocol),
        r.parser() == (ParserView { line: Seq::empty(), event: None }),
{
    let kind = match protocol {
        Protocol::ChatCompletions => EventParser::OpenAI,
        Protocol::AnthropicMessages => EventParser::Anthropic,
        Protocol::Responses => EventParser::Responses,
    };
    ProtocolStream::new(kind)
}

/// A stream of bytes together with the parser that reads its server-sent events; `T` is what
/// the events are turned into.
#[derive(Debug)]
pub struct StreamConverter<F, T> {
    parser: SseParser,
    inner: F,
    output: core::marker::PhantomData<T>,
}

impl<F, T> StreamConverter<F, T> {
    /// The state of the parser.
    pub closed spec fn parser(self) -> ParserView {
        self.parser@
    }

    /// The stream.
    pub closed spec fn stream(self) -> F {
        self.inner
    }

    /// A converter that has read nothing of a stream.
    pub fn new(stream: F) -> (r: StreamConverter<F, T>)
        ensures
            r.stream() == stream,
            r.parser() == (ParserView { line: Seq::empty(), event: None }),
    {
        StreamConverter { parser: SseParser::new(), inner: stream, output: core::marker::PhantomData }
    }
}

} // verus!
