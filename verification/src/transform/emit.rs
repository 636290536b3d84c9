//! Events of the canonical form, written as server-sent events of the three protocols.
use crate::codec::{empty_is_plain, json_text, plain, single_is_plain, with_is_plain, written_well};
use crate::json::{opt_json, views, views_are, Json, JsonView};
use crate::text::{cat3, copy, same, texts, texts_push};
use crate::transform::anthropic::{stop_name, stop_reason_to_anthropic};
use crate::transform::canonical::CanonicalStopReason;
use crate::transform::chat_completions::{finish_name, stop_reason_to_openai};
use crate::transform::framing::{
    data_frame_is_read, data_text_is_read, idle, is_event_name, named_frame_is_read,
};
use crate::transform::readback::{kept_by_openai, kept_by_responses, openai_keeps, responses_keep};
use crate::transform::responses::stop_reason_to_responses;
use crate::transform::stream::{fed, from_openai, from_responses, CanonicalStreamEvent, SseView, StreamView};
use vstd::prelude::*;
use vstd::string::*;

verus! {

/// A nameless server-sent event that carries a value.
pub open spec fn data_frame(v: JsonView) -> Seq<char> {
    "data: "@ + json_text(v) + "\n\n"@
}

/// A named server-sent event that carries a value.
pub open spec fn named_frame(name: Seq<char>, v: JsonView) -> Seq<char> {
    "event: "@ + name + "\ndata: "@ + json_text(v) + "\n\n"@
}

/// A nameless server-sent event that carries a value.
pub fn make_data_frame(v: &Json) -> (r: String)
    ensures
        r@ == data_frame(v@),
        v@ is Object && plain(v@, 127) ==> written_well(v@),
{
    let text = v.text();
    cat3("data: ", &text, "\n\n")
}

/// A named server-sent event that carries a value.
fn make_named_frame(name: &str, v: &Json) -> (r: String)
    ensures
        r@ == named_frame(name@, v@),
        v@ is Object && plain(v@, 127) ==> written_well(v@),
{
    let text = v.text();
    let mut s = cat3("event: ", name, "\ndata: ");
    s.append(&text);
    s.append("\n\n");
    s
}

/// The arguments of a tool call as text.
pub open spec fn arguments_text(input: JsonView) -> Seq<char> {
    match input {
        JsonView::Null => "{}"@,
        JsonView::Str(s) => s,
        _ => json_text(input),
    }
}

/// The arguments of a tool call as text.
pub fn tool_input_as_arguments(input: &Json) -> (r: String)
    ensures
        r@ == arguments_text(input@),
{
    match input {
        Json::Null => copy("{}"),
        Json::Str(s) => s.clone(),
        other => other.text(),
    }
}

/// A chunk of a Chat Completions stream.
pub open spec fn chunk(delta: JsonView, finish: JsonView) -> JsonView {
    JsonView::object().with("id"@, JsonView::Str("chatcmpl-temp"@)).with(
        "object"@,
        JsonView::Str("chat.completion.chunk"@),
    ).with("created"@, JsonView::uint(0)).with("model"@, JsonView::Str(""@)).with(
        "choices"@,
        JsonView::Array(
            seq![
                JsonView::object().with("index"@, JsonView::uint(0)).with("delta"@, delta).with(
                    "finish_reason"@,
                    finish,
                ),
            ],
        ),
    )
}

/// A number, zero where there is none.
pub open spec fn or_zero(n: Option<u64>) -> u64 {
    match n {
        Some(x) => x,
        None => 0,
    }
}

/// A delta of a Chat Completions stream with one tool call.
pub open spec fn call_delta(index: Option<u64>, id: JsonView, function: JsonView) -> JsonView {
    JsonView::object().with(
        "tool_calls"@,
        JsonView::Array(
            seq![
                JsonView::object().with("index"@, JsonView::uint(or_zero(index))).with(
                    "id"@,
                    id,
                ).with("type"@, JsonView::Str("function"@)).with("function"@, function),
            ],
        ),
    )
}

/// The chunk of a Chat Completions stream for an event.
pub open spec fn openai_chunk(e: StreamView) -> Option<JsonView> {
    match e {
        StreamView::TextDelta { text } => Some(
            chunk(JsonView::object().with("content"@, JsonView::Str(text)), JsonView::Null),
        ),
        StreamView::ReasoningDelta { text } => Some(
            chunk(
                JsonView::object().with("reasoning_content"@, JsonView::Str(text)),
                JsonView::Null,
            ),
        ),
        StreamView::ToolUseStart { id, index, name, input } => Some(
            chunk(
                call_delta(
                    index,
                    JsonView::Str(id),
                    JsonView::object().with("name"@, JsonView::Str(name)).with(
                        "arguments"@,
                        JsonView::Str(arguments_text(input)),
                    ),
                ),
                JsonView::Null,
            ),
        ),
        StreamView::ToolInputDelta { tool_use_id, index, input_chunk } => Some(
            chunk(
                call_delta(
                    index,
                    if tool_use_id.len() == 0 {
                        JsonView::Null
                    } else {
                        JsonView::Str(tool_use_id)
                    },
                    JsonView::object().with("arguments"@, JsonView::Str(input_chunk)),
                ),
                JsonView::Null,
            ),
        ),
        StreamView::Stop { reason } => Some(
            chunk(JsonView::object(), JsonView::Str(finish_name(reason))),
        ),
        _ => None,
    }
}

/// What a Chat Completions stream carries for an event: its chunk, and the end mark behind
/// the last chunk. Token counts and what is not understood are left out.
pub open spec fn openai_sse(e: StreamView) -> Seq<char> {
    match (openai_chunk(e), e) {
        (Some(c), StreamView::Stop { reason }) => data_frame(c) + "data: [DONE]\n\n"@,
        (Some(c), _) => data_frame(c),
        (None, StreamView::Raw { event, data }) => if data == "[DONE]"@ {
            "data: [DONE]\n\n"@
        } else {
            Seq::empty()
        },
        (None, _) => Seq::empty(),
    }
}

/// A server-sent event without a name.
pub open spec fn unnamed(data: Seq<char>) -> SseView {
    SseView { event: None, data }
}

/// The server-sent events that a Chat Completions stream carries for an event.
pub open spec fn openai_events(e: StreamView) -> Seq<SseView> {
    match (openai_chunk(e), e) {
        (Some(c), StreamView::Stop { reason }) => seq![unnamed(json_text(c)), unnamed("[DONE]"@)],
        (Some(c), _) => seq![unnamed(json_text(c))],
        (None, StreamView::Raw { event, data }) => if data == "[DONE]"@ {
            seq![unnamed("[DONE]"@)]
        } else {
            Seq::empty()
        },
        (None, _) => Seq::empty(),
    }
}

proof fn chunks_are_plain(e: StreamView)
    ensures
        openai_chunk(e) is Some ==> openai_chunk(e)->Some_0 is Object && plain(
            openai_chunk(e)->Some_0,
            127,
        ),
{
    broadcast use {empty_is_plain, with_is_plain, single_is_plain};

}

proof fn end_mark_is_read(rest: Seq<char>)
    ensures
        fed(idle(), "data: [DONE]\n\n"@ + rest) == ({
            let (p, more) = fed(idle(), rest);
            (p, seq![unnamed("[DONE]"@)] + more)
        }),
{
    reveal_strlit("data: [DONE]\n\n");
    reveal_strlit("[DONE]");
    reveal_strlit("data: ");
    reveal_strlit("\n\n");
    assert("data: [DONE]\n\n"@ =~= "data: "@ + "[DONE]"@ + "\n\n"@);
    data_text_is_read("[DONE]"@, rest);
}

proof fn nothing_is_read()
    ensures
        fed(idle(), Seq::empty()) == (idle(), Seq::<SseView>::empty()),
{
}

/// What is written for a Chat Completions stream is valid: it consists of whole server-sent
/// events, which are those that were meant.
proof fn openai_sse_is_read(e: StreamView)
    requires
        openai_chunk(e) is Some ==> written_well(openai_chunk(e)->Some_0),
    ensures
        fed(idle(), openai_sse(e)) == (idle(), openai_events(e)),
        kept_by_openai(e) ==> from_openai(openai_events(e)[0]) == e,
{
    let none = Seq::<char>::empty();
    let nothing = Seq::<SseView>::empty();
    nothing_is_read();
    end_mark_is_read(none);
    assert("data: [DONE]\n\n"@ + none =~= "data: [DONE]\n\n"@);
    assert(seq![unnamed("[DONE]"@)] + nothing =~= seq![unnamed("[DONE]"@)]);
    if let Some(c) = openai_chunk(e) {
        data_frame_is_read(c, none);
        assert(data_frame(c) + none =~= data_frame(c));
        assert(seq![unnamed(json_text(c))] + nothing =~= seq![unnamed(json_text(c))]);
        data_frame_is_read(c, "data: [DONE]\n\n"@);
        assert(seq![unnamed(json_text(c))] + seq![unnamed("[DONE]"@)] =~= seq![
            unnamed(json_text(c)),
            unnamed("[DONE]"@),
        ]);
        if kept_by_openai(e) {
            openai_keeps(e);
            reveal_strlit("[DONE]");
            assert("[DONE]"@[0] == '[');
            assert(json_text(c)[0] == '{');
        }
    }
}

/// A chunk of a Chat Completions stream.
pub fn make_chunk(delta: Json, finish: Json) -> (r: Json)
    ensures
        r@ == chunk(delta@, finish@),
{
    let choice = Json::object().with("index", Json::uint(0)).with("delta", delta).with(
        "finish_reason",
        finish,
    );
    Json::object().with("id", Json::str("chatcmpl-temp")).with(
        "object",
        Json::str("chat.completion.chunk"),
    ).with("created", Json::uint(0)).with("model", Json::str("")).with(
        "choices",
        Json::single(choice),
    )
}

/// A number, zero where there is none.
fn make_or_zero(n: &Option<u64>) -> (r: u64)
    ensures
        r == or_zero(*n),
{
    match n {
        Some(x) => *x,
        None => 0,
    }
}

/// A delta of a Chat Completions stream with one tool call.
fn make_call_delta(index: &Option<u64>, id: Json, function: Json) -> (r: Json)
    ensures
        r@ == call_delta(*index, id@, function@),
{
    let call = Json::object().with("index", Json::uint(make_or_zero(index))).with("id", id).with(
        "type",
        Json::str("function"),
    ).with("function", function);
    Json::object().with("tool_calls", Json::single(call))
}

/// The chunk of a Chat Completions stream for an event.
fn make_openai_chunk(event: &CanonicalStreamEvent) -> (r: Option<Json>)
    ensures
        opt_json(r) == openai_chunk(event@),
{
    match event {
        CanonicalStreamEvent::TextDelta { text } => Some(
            make_chunk(Json::object().with("content", Json::str(text)), Json::Null),
        ),
        CanonicalStreamEvent::ReasoningDelta { text } => Some(
            make_chunk(Json::object().with("reasoning_content", Json::str(text)), Json::Null),
        ),
        CanonicalStreamEvent::ToolUseStart { id, index, name, input } => {
            let function = Json::object().with("name", Json::str(name)).with(
                "arguments",
                Json::Str(tool_input_as_arguments(input)),
            );
            Some(make_chunk(make_call_delta(index, Json::str(id), function), Json::Null))
        },
        CanonicalStreamEvent::ToolInputDelta { tool_use_id, index, input_chunk } => {
            let id = if tool_use_id.as_str().is_empty() {
                Json::Null
            } else {
                Json::str(tool_use_id)
            };
            let function = Json::object().with("arguments", Json::str(input_chunk));
            Some(make_chunk(make_call_delta(index, id, function), Json::Null))
        },
        CanonicalStreamEvent::Stop { reason } => Some(
            make_chunk(Json::object(), Json::str(stop_reason_to_openai(reason))),
        ),
        _ => None,
    }
}

/// Writes an event for a Chat Completions stream. It never fails. What is written consists of
/// whole server-sent events, and an event that the protocol keeps is read back as it was.
pub fn canonical_to_openai_sse(event: &CanonicalStreamEvent) -> (r: Result<String, String>)
    ensures
        r is Ok,
        r->Ok_0@ == openai_sse(event@),
        fed(idle(), r->Ok_0@) == (idle(), openai_events(event@)),
        kept_by_openai(event@) ==> from_openai(openai_events(event@)[0]) == event@,
{
    proof {
        chunks_are_plain(event@);
        if openai_chunk(event@) is None {
            openai_sse_is_read(event@);
        }
    }
    match make_openai_chunk(event) {
        Some(c) => {
            let mut s = make_data_frame(&c);
            proof {
                openai_sse_is_read(event@);
            }
            if let CanonicalStreamEvent::Stop { reason } = event {
                s.append("data: [DONE]\n\n");
            }
            Ok(s)
        },
        None => {
            if let CanonicalStreamEvent::Raw { event: _, data } = event {
                if same(data, "[DONE]") {
                    return Ok(copy("data: [DONE]\n\n"));
                }
            }
            Ok(String::new())
        },
    }
}

/// The value that a Responses stream carries for an event.
pub open spec fn responses_body(e: StreamView) -> Option<JsonView> {
    match e {
        StreamView::TextDelta { text } => Some(
            tagged("response.output_text.delta"@).with("delta"@, JsonView::Str(text)).with(
                "index"@,
                JsonView::uint(0),
            ),
        ),
        StreamView::ReasoningDelta { text } => Some(
            tagged("response.reasoning.delta"@).with("delta"@, JsonView::Str(text)).with(
                "index"@,
                JsonView::uint(0),
            ),
        ),
        StreamView::ToolUseStart { id, index, name, input } => Some(
            tagged("response.function_call.completed"@).with("id"@, JsonView::Str(id)).with(
                "name"@,
                JsonView::Str(name),
            ).with("arguments"@, JsonView::Str(arguments_text(input))),
        ),
        StreamView::ToolInputDelta { tool_use_id, index, input_chunk } => Some(
            tagged("response.function_call.parameter_delta"@).with(
                "id"@,
                JsonView::Str(tool_use_id),
            ).with("index"@, JsonView::opt_uint(index)).with("delta"@, JsonView::Str(input_chunk)),
        ),
        StreamView::Stop { reason } => Some(
            tagged("response.done"@).with("response"@, JsonView::object()).with(
                "done"@,
                JsonView::Bool(true),
            ).with("stop_reason"@, JsonView::Str(crate::transform::responses::stop_name(reason))),
        ),
        StreamView::Usage { input_tokens, output_tokens } => Some(
            tagged("response.done"@).with("response"@, JsonView::object()).with(
                "usage"@,
                JsonView::object().with("input_tokens"@, JsonView::uint(input_tokens)).with(
                    "output_tokens"@,
                    JsonView::uint(output_tokens),
                ),
            ),
        ),
        StreamView::Raw { event, data } => None,
    }
}

/// The two fields that name a message of a Responses stream.
pub open spec fn tagged(name: Seq<char>) -> JsonView {
    JsonView::object().with("event"@, JsonView::Str(name)).with("type"@, JsonView::Str(name))
}

/// What a Responses stream carries for an event.
pub open spec fn responses_sse(e: StreamView) -> Seq<char> {
    match responses_body(e) {
        Some(v) => data_frame(v),
        None => Seq::empty(),
    }
}

/// The server-sent events that a Responses stream carries for an event.
pub open spec fn responses_events(e: StreamView) -> Seq<SseView> {
    match responses_body(e) {
        Some(v) => seq![unnamed(json_text(v))],
        None => Seq::empty(),
    }
}

proof fn bodies_are_plain(e: StreamView)
    ensures
        responses_body(e) is Some ==> responses_body(e)->Some_0 is Object && plain(
            responses_body(e)->Some_0,
            127,
        ),
{
    broadcast use {empty_is_plain, with_is_plain, single_is_plain};

}

/// What is written for a Responses stream is valid: it consists of whole server-sent events,
/// which are those that were meant.
proof fn responses_sse_is_read(e: StreamView)
    requires
        responses_body(e) is Some ==> written_well(responses_body(e)->Some_0),
    ensures
        fed(idle(), responses_sse(e)) == (idle(), responses_events(e)),
        kept_by_responses(e) ==> from_responses(responses_events(e)[0]) == e,
{
    let none = Seq::<char>::empty();
    nothing_is_read();
    if let Some(v) = responses_body(e) {
        data_frame_is_read(v, none);
        assert(data_frame(v) + none =~= data_frame(v));
        assert(seq![unnamed(json_text(v))] + Seq::<SseView>::empty() =~= seq![unnamed(json_text(v))]);
        if kept_by_responses(e) {
            responses_keep(e);
        }
    }
}

/// The two fields that name a message of a Responses stream.
fn make_tagged(name: &str) -> (r: Json)
    ensures
        r@ == tagged(name@),
{
    Json::object().with("event", Json::str(name)).with("type", Json::str(name))
}

/// Writes an event for a Responses stream. It never fails. What is written consists of whole
/// server-sent events, and an event that the protocol keeps is read back as it was.
pub fn canonical_to_responses_sse(event: &CanonicalStreamEvent) -> (r: Result<String, String>)
    ensures
        r is Ok,
        r->Ok_0@ == responses_sse(event@),
        fed(idle(), r->Ok_0@) == (idle(), responses_events(event@)),
        kept_by_responses(event@) ==> from_responses(responses_events(event@)[0]) == event@,
{
    proof {
        bodies_are_plain(event@);
        if responses_body(event@) is None {
            responses_sse_is_read(event@);
        }
    }
    let body = match event {
        CanonicalStreamEvent::TextDelta { text } => make_tagged("response.output_text.delta").with(
            "delta",
            Json::str(text),
        ).with("index", Json::uint(0)),
        CanonicalStreamEvent::ReasoningDelta { text } => make_tagged("response.reasoning.delta").with(
            "delta",
            Json::str(text),
        ).with("index", Json::uint(0)),
        CanonicalStreamEvent::ToolUseStart { id, index, name, input } => make_tagged(
            "response.function_call.completed",
        ).with("id", Json::str(id)).with("name", Json::str(name)).with(
            "arguments",
            Json::Str(tool_input_as_arguments(input)),
        ),
        CanonicalStreamEvent::ToolInputDelta { tool_use_id, index, input_chunk } => make_tagged(
            "response.function_call.parameter_delta",
        ).with("id", Json::str(tool_use_id)).with("index", Json::opt_uint(*index)).with(
            "delta",
            Json::str(input_chunk),
        ),
        CanonicalStreamEvent::Stop { reason } => make_tagged("response.done").with(
            "response",
            Json::object(),
        ).with("done", Json::Bool(true)).with(
            "stop_reason",
            Json::str(stop_reason_to_responses(reason)),
        ),
        CanonicalStreamEvent::Usage { input_tokens, output_tokens } => make_tagged(
            "response.done",
        ).with("response", Json::object()).with(
            "usage",
            Json::object().with("input_tokens", Json::uint(*input_tokens)).with(
                "output_tokens",
                Json::uint(*output_tokens),
            ),
        ),
        CanonicalStreamEvent::Raw { event: _, data } => return Ok(String::new()),
    };
    assert(responses_body(event@) == Some(body@));
    let written = make_data_frame(&body);
    proof {
        responses_sse_is_read(event@);
    }
    Ok(written)
}

/// The kinds of messages of an Anthropic stream.
pub enum FrameKind {
    MessageStart,
    BlockStart,
    BlockDelta,
    BlockStop,
    MessageDelta,
    MessageStop,
}

/// A message of an Anthropic stream.
pub struct FrameView {
    pub kind: FrameKind,
    pub body: JsonView,
}

impl FrameKind {
    /// The name of the kind.
    pub open spec fn name(self) -> Seq<char> {
        match self {
            FrameKind::MessageStart => "message_start"@,
            FrameKind::BlockStart => "content_block_start"@,
            FrameKind::BlockDelta => "content_block_delta"@,
            FrameKind::BlockStop => "content_block_stop"@,
            FrameKind::MessageDelta => "message_delta"@,
            FrameKind::MessageStop => "message_stop"@,
        }
    }
}

impl FrameView {
    /// The server-sent event that carries the message. The name stands in the message too.
    pub open spec fn text(self) -> Seq<char> {
        named_frame(self.kind.name(), self.body)
    }
}

/// The texts of a sequence of messages.
pub open spec fn frame_texts(s: Seq<FrameView>) -> Seq<Seq<char>> {
    s.map_values(|f: FrameView| f.text())
}

/// The server-sent events that messages are carried by.
pub open spec fn frame_events(s: Seq<FrameView>) -> Seq<SseView> {
    s.map_values(|f: FrameView| SseView { event: Some(f.kind.name()), data: json_text(f.body) })
}

/// Texts, one after the other.
pub open spec fn run_of(s: Seq<Seq<char>>) -> Seq<char>
    decreases s.len(),
{
    if s.len() == 0 {
        Seq::empty()
    } else {
        s[0] + run_of(s.skip(1))
    }
}

/// Whether the messages are written so that they can be read.
pub open spec fn well_framed(s: Seq<FrameView>) -> bool {
    forall|i: int| 0 <= i < s.len() ==> written_well((#[trigger] s[i]).body)
}

proof fn frame_names(kind: FrameKind)
    ensures
        is_event_name(kind.name()),
{
    reveal_strlit("message_start");
    reveal_strlit("content_block_start");
    reveal_strlit("content_block_delta");
    reveal_strlit("content_block_stop");
    reveal_strlit("message_delta");
    reveal_strlit("message_stop");
}

/// Messages that are written one after the other are read as they were meant.
pub proof fn frames_are_read(s: Seq<FrameView>)
    requires
        well_framed(s),
    ensures
        fed(idle(), run_of(frame_texts(s))) == (idle(), frame_events(s)),
    decreases s.len(),
{
    if s.len() == 0 {
        nothing_is_read();
        assert(frame_events(s) =~= Seq::<SseView>::empty());
        assert(run_of(frame_texts(s)) =~= Seq::<char>::empty());
    } else {
        let rest = s.skip(1);
        assert forall|i: int| 0 <= i < rest.len() implies written_well((#[trigger] rest[i]).body) by {
            assert(rest[i] == s[i + 1]);
        }
        frames_are_read(rest);
        assert(frame_texts(s).skip(1) =~= frame_texts(rest));
        frame_names(s[0].kind);
        named_frame_is_read(s[0].kind.name(), s[0].body, run_of(frame_texts(rest)));
        assert(frame_events(s) =~= seq![
            SseView { event: Some(s[0].kind.name()), data: json_text(s[0].body) },
        ] + frame_events(rest));
    }
}

/// The texts of two sequences of messages, one after the other.
proof fn frame_texts_append(a: Seq<FrameView>, b: Seq<FrameView>)
    ensures
        frame_texts(a + b) == frame_texts(a) + frame_texts(b),
{
    assert(frame_texts(a + b) =~= frame_texts(a) + frame_texts(b));
}

/// The text of a single message.
proof fn frame_texts_single(f: FrameView)
    ensures
        frame_texts(seq![f]) == seq![f.text()],
{
    assert(frame_texts(seq![f]) =~= seq![f.text()]);
}

/// An object that names its kind.
pub open spec fn typed(name: Seq<char>) -> JsonView {
    JsonView::object().with("type"@, JsonView::Str(name))
}

/// More content for the block `index`.
pub open spec fn block_delta_frame(index: u64, delta: JsonView) -> FrameView {
    FrameView {
        kind: FrameKind::BlockDelta,
        body: typed("content_block_delta"@).with("index"@, JsonView::uint(index)).with(
            "delta"@,
            delta,
        ),
    }
}

/// More text.
pub open spec fn text_frame(text: Seq<char>) -> FrameView {
    block_delta_frame(0, typed("text_delta"@).with("text"@, JsonView::Str(text)))
}

/// More reasoning.
pub open spec fn thinking_frame(text: Seq<char>) -> FrameView {
    block_delta_frame(0, typed("thinking_delta"@).with("thinking"@, JsonView::Str(text)))
}

/// More of the arguments of a tool call.
pub open spec fn input_frame(index: Option<u64>, piece: Seq<char>) -> FrameView {
    block_delta_frame(
        or_zero(index),
        typed("input_json_delta"@).with("partial_json"@, JsonView::Str(piece)),
    )
}

/// The start of the block `index`.
pub open spec fn block_start_frame(index: u64, block: JsonView) -> FrameView {
    FrameView {
        kind: FrameKind::BlockStart,
        body: typed("content_block_start"@).with("index"@, JsonView::uint(index)).with(
            "content_block"@,
            block,
        ),
    }
}

/// The block of a tool call.
pub open spec fn tool_block(id: Seq<char>, name: Seq<char>, input: JsonView) -> JsonView {
    typed("tool_use"@).with("id"@, JsonView::Str(id)).with("name"@, JsonView::Str(name)).with(
        "input"@,
        input,
    )
}

/// The start of a message.
pub open spec fn message_start_frame() -> FrameView {
    FrameView {
        kind: FrameKind::MessageStart,
        body: typed("message_start"@).with(
            "message"@,
            JsonView::object().with("id"@, JsonView::Str("msg_001"@)).with(
                "type"@,
                JsonView::Str("message"@),
            ).with("role"@, JsonView::Str("assistant"@)).with(
                "content"@,
                JsonView::Array(Seq::empty()),
            ).with("model"@, JsonView::Str(""@)).with("stop_sequence"@, JsonView::Null).with(
                "usage"@,
                JsonView::object().with("input_tokens"@, JsonView::uint(0)).with(
                    "output_tokens"@,
                    JsonView::uint(0),
                ),
            ),
        ),
    }
}

/// What an Anthropic stream carries for an event that stands alone: no starts are put before
/// it.
pub open spec fn anthropic_sse(e: StreamView) -> Seq<char> {
    match e {
        StreamView::TextDelta { text } => text_frame(text).text(),
        StreamView::ReasoningDelta { text } => thinking_frame(text).text(),
        StreamView::ToolUseStart { id, index, name, input } => block_start_frame(
            or_zero(index),
            tool_block(id, name, input),
        ).text(),
        StreamView::ToolInputDelta { tool_use_id, index, input_chunk } => input_frame(
            index,
            input_chunk,
        ).text(),
        StreamView::Stop { reason } => named_frame(
            "message_delta"@,
            typed("message_delta"@).with("stop_reason"@, JsonView::Str(stop_name(reason))).with(
                "stop_sequence"@,
                JsonView::Null,
            ),
        ) + message_stop_frame().text(),
        _ => Seq::empty(),
    }
}

/// The end of a message.
pub open spec fn message_stop_frame() -> FrameView {
    FrameView { kind: FrameKind::MessageStop, body: typed("message_stop"@) }
}

/// An object that names its kind.
fn make_typed(name: &str) -> (r: Json)
    ensures
        r@ == typed(name@),
{
    Json::object().with("type", Json::str(name))
}

/// More content for the block `index`.
fn make_block_delta(index: u64, delta: Json) -> (r: String)
    ensures
        r@ == block_delta_frame(index, delta@).text(),
        plain(delta@, 126) ==> written_well(block_delta_frame(index, delta@).body),
{
    broadcast use {empty_is_plain, with_is_plain, single_is_plain};

    let body = make_typed("content_block_delta").with("index", Json::uint(index)).with(
        "delta",
        delta,
    );
    make_named_frame("content_block_delta", &body)
}

/// More text.
fn make_text_frame(text: &str) -> (r: String)
    ensures
        r@ == text_frame(text@).text(),
        written_well(text_frame(text@).body),
{
    broadcast use {empty_is_plain, with_is_plain, single_is_plain};

    make_block_delta(0, make_typed("text_delta").with("text", Json::str(text)))
}

/// More reasoning.
fn make_thinking_frame(text: &str) -> (r: String)
    ensures
        r@ == thinking_frame(text@).text(),
        written_well(thinking_frame(text@).body),
{
    broadcast use {empty_is_plain, with_is_plain, single_is_plain};

    make_block_delta(0, make_typed("thinking_delta").with("thinking", Json::str(text)))
}

/// More of the arguments of a tool call.
fn make_input_frame(index: &Option<u64>, piece: &str) -> (r: String)
    ensures
        r@ == input_frame(*index, piece@).text(),
        written_well(input_frame(*index, piece@).body),
{
    broadcast use {empty_is_plain, with_is_plain, single_is_plain};

    make_block_delta(
        make_or_zero(index),
        make_typed("input_json_delta").with("partial_json", Json::str(piece)),
    )
}

/// The start of the block `index`.
fn make_block_start(index: u64, block: Json) -> (r: String)
    ensures
        r@ == block_start_frame(index, block@).text(),
        plain(block@, 126) ==> written_well(block_start_frame(index, block@).body),
{
    broadcast use {empty_is_plain, with_is_plain, single_is_plain};

    let body = make_typed("content_block_start").with("index", Json::uint(index)).with(
        "content_block",
        block,
    );
    make_named_frame("content_block_start", &body)
}

/// The block of a tool call.
fn make_tool_block(id: &str, name: &str, input: &Json) -> (r: Json)
    ensures
        r@ == tool_block(id@, name@, input@),
{
    make_typed("tool_use").with("id", Json::str(id)).with("name", Json::str(name)).with(
        "input",
        input.copy(),
    )
}

/// The start of a message.
fn make_message_start() -> (r: String)
    ensures
        r@ == message_start_frame().text(),
        written_well(message_start_frame().body),
{
    broadcast use {empty_is_plain, with_is_plain, single_is_plain};

    let none: Vec<Json> = Vec::new();
    broadcast use views_are;

    assert(views(none@) =~= Seq::<JsonView>::empty());
    assert(plain(JsonView::Array(Seq::empty()), 125));
    let usage = Json::object().with("input_tokens", Json::uint(0)).with(
        "output_tokens",
        Json::uint(0),
    );
    let message = Json::object().with("id", Json::str("msg_001")).with(
        "type",
        Json::str("message"),
    ).with("role", Json::str("assistant")).with("content", Json::Array(none)).with(
        "model",
        Json::str(""),
    ).with("stop_sequence", Json::Null).with("usage", usage);
    let body = make_typed("message_start").with("message", message);
    make_named_frame("message_start", &body)
}

/// The end of a message.
fn make_message_stop() -> (r: String)
    ensures
        r@ == message_stop_frame().text(),
        written_well(message_stop_frame().body),
{
    broadcast use {empty_is_plain, with_is_plain, single_is_plain};

    make_named_frame("message_stop", &make_typed("message_stop"))
}

/// Writes an event that stands alone for an Anthropic stream. It never fails.
pub fn canonical_to_anthropic_sse(event: &CanonicalStreamEvent) -> (r: Result<String, String>)
    ensures
        r is Ok,
        r->Ok_0@ == anthropic_sse(event@),
{
    match event {
        CanonicalStreamEvent::TextDelta { text } => Ok(make_text_frame(text)),
        CanonicalStreamEvent::ReasoningDelta { text } => Ok(make_thinking_frame(text)),
        CanonicalStreamEvent::ToolUseStart { id, index, name, input } => Ok(
            make_block_start(make_or_zero(index), make_tool_block(id, name, input)),
        ),
        CanonicalStreamEvent::ToolInputDelta { tool_use_id, index, input_chunk } => Ok(
            make_input_frame(index, input_chunk),
        ),
        CanonicalStreamEvent::Stop { reason } => {
            let body = make_typed("message_delta").with(
                "stop_reason",
                Json::str(stop_reason_to_anthropic(reason)),
            ).with("stop_sequence", Json::Null);
            let mut s = make_named_frame("message_delta", &body);
            let end = make_message_stop();
            s.append(&end);
            Ok(s)
        },
        _ => Ok(String::new()),
    }
}

/// What the writer of an Anthropic stream remembers.
pub struct WrapperView {
    pub sent_message_start: bool,
    pub sent_content_start: bool,
    pub last_index: u64,
    pub stopped: bool,
    pub saw_tool_use: bool,
}

impl WrapperView {
    /// A writer that has written nothing.
    pub open spec fn fresh() -> WrapperView {
        WrapperView {
            sent_message_start: false,
            sent_content_start: false,
            last_index: 0,
            stopped: false,
            saw_tool_use: false,
        }
    }
}

/// The start of the message, where it has not been written.
pub open spec fn message_head(w: WrapperView) -> Seq<FrameView> {
    if w.sent_message_start {
        Seq::empty()
    } else {
        seq![message_start_frame()]
    }
}

/// The start of a content block of the given kind, where none has been written.
pub open spec fn block_head(w: WrapperView, kind: Seq<char>) -> Seq<FrameView> {
    if w.sent_content_start {
        Seq::empty()
    } else {
        seq![block_start_frame(0, typed(kind))]
    }
}

/// The writer after a piece of text or reasoning.
pub open spec fn after_content(w: WrapperView) -> WrapperView {
    WrapperView {
        sent_message_start: true,
        sent_content_start: true,
        last_index: if w.sent_content_start {
            w.last_index
        } else {
            0
        },
        ..w
    }
}

/// The reason that is written for a stop: an ordinary end after a tool call is the tool's.
pub open spec fn effective_reason(w: WrapperView, reason: CanonicalStopReason) -> CanonicalStopReason {
    if reason == CanonicalStopReason::EndTurn && w.saw_tool_use {
        CanonicalStopReason::ToolUse
    } else {
        reason
    }
}

/// The messages that end a stream.
pub open spec fn closing(last_index: u64, reason: CanonicalStopReason) -> Seq<FrameView> {
    seq![
        FrameView {
            kind: FrameKind::BlockStop,
            body: typed("content_block_stop"@).with("index"@, JsonView::uint(last_index)),
        },
        FrameView {
            kind: FrameKind::MessageDelta,
            body: typed("message_delta"@).with(
                "delta"@,
                JsonView::object().with("stop_reason"@, JsonView::Str(stop_name(reason))).with(
                    "stop_sequence"@,
                    JsonView::Null,
                ),
            ).with("usage"@, JsonView::object().with("output_tokens"@, JsonView::uint(0))),
        },
        message_stop_frame(),
    ]
}

/// What writing an event does: the writer after it, and the messages that are written.
pub open spec fn wrapped(w: WrapperView, e: StreamView) -> (WrapperView, Seq<FrameView>) {
    match e {
        StreamView::TextDelta { text } => (
            after_content(w),
            message_head(w) + block_head(w, "text"@) + seq![text_frame(text)],
        ),
        StreamView::ReasoningDelta { text } => (
            after_content(w),
            message_head(w) + block_head(w, "thinking"@) + seq![thinking_frame(text)],
        ),
        StreamView::ToolUseStart { id, index, name, input } => (
            WrapperView {
                sent_message_start: true,
                sent_content_start: true,
                last_index: or_zero(index),
                stopped: w.stopped,
                saw_tool_use: true,
            },
            message_head(w) + seq![block_start_frame(or_zero(index), tool_block(id, name, input))],
        ),
        StreamView::ToolInputDelta { tool_use_id, index, input_chunk } => (
            WrapperView { saw_tool_use: true, ..w },
            seq![input_frame(index, input_chunk)],
        ),
        StreamView::Stop { reason } => (
            WrapperView { stopped: true, ..w },
            closing(w.last_index, effective_reason(w, reason)),
        ),
        _ => (w, Seq::empty()),
    }
}

/// What writing a sequence of events does. Nothing is written behind the end.
pub open spec fn all_wrapped(w: WrapperView, s: Seq<StreamView>) -> (WrapperView, Seq<FrameView>)
    decreases s.len(),
{
    if s.len() == 0 {
        (w, Seq::empty())
    } else {
        let (v, frames) = all_wrapped(w, s.drop_last());
        if v.stopped {
            (v, frames)
        } else {
            let (u, more) = wrapped(v, s.last());
            (u, frames + more)
        }
    }
}

/// Whether the message starts among the frames.
pub open spec fn starts_message(s: Seq<FrameView>) -> bool {
    exists|i: int| 0 <= i < s.len() && #[trigger] s[i].kind is MessageStart
}

/// Whether a message starts at most once among the frames.
pub open spec fn starts_at_most_once(s: Seq<FrameView>) -> bool {
    forall|i: int, j: int|
        0 <= i < j < s.len() && #[trigger] s[i].kind is MessageStart ==> !(#[trigger] s[j].kind is MessageStart)
}

/// Whether in front of every start of a block there is a start of the message.
pub open spec fn blocks_start_inside(s: Seq<FrameView>) -> bool {
    forall|j: int|
        0 <= j < s.len() && #[trigger] s[j].kind is BlockStart ==> starts_message(s.take(j))
}

proof fn wrapped_shape(w: WrapperView, e: StreamView)
    ensures
        ({
            let (u, more) = wrapped(w, e);
            &&& more.len() <= 3
            &&& forall|k: int| 0 < k < more.len() ==> !(#[trigger] more[k].kind is MessageStart)
            &&& (w.sent_message_start && more.len() > 0 ==> !(more[0].kind is MessageStart))
            &&& (!w.sent_message_start && u.sent_message_start ==> more.len() > 0
                && more[0].kind is MessageStart)
            &&& (!u.sent_message_start ==> forall|k: int|
                0 <= k < more.len() ==> !(#[trigger] more[k].kind is MessageStart)
                    && !(more[k].kind is BlockStart))
            &&& (w.sent_message_start ==> u.sent_message_start)
            &&& (w.sent_content_start ==> w.sent_message_start) ==> (u.sent_content_start
                ==> u.sent_message_start)
        }),
{
    let (u, more) = wrapped(w, e);
    assert(forall|k: int| 0 < k < more.len() ==> !(#[trigger] more[k].kind is MessageStart));
}

/// A message starts at most once, and no block starts before the message has, whatever the
/// events are.
pub proof fn message_starts_once_and_first(s: Seq<StreamView>)
    ensures
        ({
            let (w, frames) = all_wrapped(WrapperView::fresh(), s);
            &&& starts_at_most_once(frames)
            &&& blocks_start_inside(frames)
            &&& w.sent_message_start <==> starts_message(frames)
            &&& w.sent_content_start ==> w.sent_message_start
        }),
    decreases s.len(),
{
    if s.len() > 0 {
        message_starts_once_and_first(s.drop_last());
        let (v, old_frames) = all_wrapped(WrapperView::fresh(), s.drop_last());
        if !v.stopped {
            let (u, more) = wrapped(v, s.last());
            wrapped_shape(v, s.last());
            appended_frames(v.sent_message_start, u.sent_message_start, old_frames, more);
        }
    }
}

proof fn appended_frames(was: bool, now: bool, a: Seq<FrameView>, more: Seq<FrameView>)
    requires
        starts_at_most_once(a),
        blocks_start_inside(a),
        was <==> starts_message(a),
        was ==> now,
        forall|k: int| 0 < k < more.len() ==> !(#[trigger] more[k].kind is MessageStart),
        was && more.len() > 0 ==> !(more[0].kind is MessageStart),
        !was && now ==> more.len() > 0 && more[0].kind is MessageStart,
        !now ==> forall|k: int|
            0 <= k < more.len() ==> !(#[trigger] more[k].kind is MessageStart) && !(
            more[k].kind is BlockStart),
    ensures
        starts_at_most_once(a + more),
        blocks_start_inside(a + more),
        now <==> starts_message(a + more),
{
    let f = a + more;
    let n = a.len() as int;
    assert forall|i: int, j: int|
        0 <= i < j < f.len() && #[trigger] f[i].kind is MessageStart implies !(
    #[trigger] f[j].kind is MessageStart) by {
        if j < n {
            assert(a[i].kind is MessageStart);
            assert(!(a[j].kind is MessageStart));
        } else {
            assert(f[j] == more[j - n]);
            if i < n {
                assert(a[i].kind is MessageStart);
            }
        }
    }
    if was {
        let k = choose|k: int| 0 <= k < a.len() && #[trigger] a[k].kind is MessageStart;
        assert(f[k].kind is MessageStart);
    }
    if !was && now {
        assert(f[n].kind is MessageStart);
    }
    if starts_message(f) {
        let i = choose|i: int| 0 <= i < f.len() && #[trigger] f[i].kind is MessageStart;
        if i < n {
            assert(a[i].kind is MessageStart);
        } else {
            assert(f[i] == more[i - n]);
        }
    }
    assert forall|j: int| 0 <= j < f.len() && #[trigger] f[j].kind is BlockStart implies starts_message(
        f.take(j),
    ) by {
        if j < n {
            assert(a[j].kind is BlockStart);
            assert(f.take(j) =~= a.take(j));
        } else {
            assert(f[j] == more[j - n]);
            if was {
                let k = choose|k: int| 0 <= k < a.len() && #[trigger] a[k].kind is MessageStart;
                assert(f.take(j)[k].kind is MessageStart);
            } else {
                assert(f.take(j)[n].kind is MessageStart);
            }
        }
    }
}

/// What writing one event after the other does, whether or not a stop is among them.
pub open spec fn written(w: WrapperView, s: Seq<StreamView>) -> (WrapperView, Seq<FrameView>)
    decreases s.len(),
{
    if s.len() == 0 {
        (w, Seq::empty())
    } else {
        let (v, frames) = written(w, s.drop_last());
        let (u, more) = wrapped(v, s.last());
        (u, frames + more)
    }
}

/// Whether a block starts among the frames.
pub open spec fn starts_block(s: Seq<FrameView>) -> bool {
    exists|i: int| 0 <= i < s.len() && #[trigger] s[i].kind is BlockStart
}

/// Whether an event opens the content of a message.
pub open spec fn opens_content(e: StreamView) -> bool {
    e is TextDelta || e is ReasoningDelta || e is ToolUseStart
}

proof fn opening_shape(w: WrapperView, e: StreamView)
    ensures
        ({
            let (u, more) = wrapped(w, e);
            &&& (u.sent_content_start <==> w.sent_content_start || starts_block(more))
            &&& (w.sent_message_start ==> u.sent_message_start && forall|k: int|
                0 <= k < more.len() ==> !(#[trigger] more[k].kind is MessageStart))
        }),
{
    let (u, more) = wrapped(w, e);
    if e is TextDelta || e is ReasoningDelta {
        if !w.sent_content_start {
            assert(more[message_head(w).len() as int].kind is BlockStart);
        }
    } else if e is ToolUseStart {
        assert(more[message_head(w).len() as int].kind is BlockStart);
    }
}

proof fn starts_are_noted(s: Seq<StreamView>)
    ensures
        ({
            let (w, frames) = written(WrapperView::fresh(), s);
            w.sent_content_start <==> starts_block(frames)
        }),
    decreases s.len(),
{
    if s.len() > 0 {
        starts_are_noted(s.drop_last());
        let (v, before) = written(WrapperView::fresh(), s.drop_last());
        let more = wrapped(v, s.last()).1;
        opening_shape(v, s.last());
        let all = before + more;
        if starts_block(before) {
            let i = choose|i: int| 0 <= i < before.len() && #[trigger] before[i].kind is BlockStart;
            assert(all[i].kind is BlockStart);
        }
        if starts_block(more) {
            let i = choose|i: int| 0 <= i < more.len() && #[trigger] more[i].kind is BlockStart;
            assert(all[before.len() + i].kind is BlockStart);
        }
        if starts_block(all) {
            let i = choose|i: int| 0 <= i < all.len() && #[trigger] all[i].kind is BlockStart;
            if i < before.len() {
                assert(before[i].kind is BlockStart);
            } else {
                assert(more[i - before.len()].kind is BlockStart);
            }
        }
    }
}

/// Where the first event opens content, a message start and a block start come before anything
/// else, so that every delta follows both, and the message starts just once, whatever the other
/// events are.
pub proof fn openings_come_first(s: Seq<StreamView>)
    requires
        s.len() > 0,
        opens_content(s[0]),
    ensures
        ({
            let (w, frames) = written(WrapperView::fresh(), s);
            &&& w.sent_message_start
            &&& frames.len() >= 2
            &&& frames[0] == message_start_frame()
            &&& frames[1].kind is BlockStart
            &&& forall|i: int| 0 < i < frames.len() ==> !(#[trigger] frames[i].kind is MessageStart)
            &&& forall|i: int| 0 <= i < frames.len() && #[trigger] frames[i].kind is BlockDelta ==> i >= 2
        }),
    decreases s.len(),
{
    let fresh = WrapperView::fresh();
    let t = s.drop_last();
    let (v, before) = written(fresh, t);
    let more = wrapped(v, s.last()).1;
    let frames = before + more;
    if t.len() == 0 {
        assert(before + more =~= more);
    } else {
        assert(t[0] == s[0]);
        openings_come_first(t);
        opening_shape(v, s.last());
        assert forall|i: int| 0 < i < frames.len() implies !(#[trigger] frames[i].kind is MessageStart) by {
            if i < before.len() {
                assert(!(before[i].kind is MessageStart));
            } else {
                assert(frames[i] == more[i - before.len()]);
            }
        }
        assert(frames[0] == before[0] && frames[1] == before[1]);
    }
}

/// A piece of text or of reasoning starts a block just where none was started before, whatever
/// was written, and it always ends with its own delta.
pub proof fn text_starts_a_block_once(s: Seq<StreamView>, text: Seq<char>, reasoning: bool)
    ensures
        ({
            let (w, before) = written(WrapperView::fresh(), s);
            let e = if reasoning {
                StreamView::ReasoningDelta { text }
            } else {
                StreamView::TextDelta { text }
            };
            let more = wrapped(w, e).1;
            &&& starts_block(more) <==> !starts_block(before)
            &&& more.len() > 0
            &&& more.last() == (if reasoning {
                thinking_frame(text)
            } else {
                text_frame(text)
            })
            &&& forall|i: int| 0 <= i < more.len() - 1 ==> !(#[trigger] more[i].kind is BlockDelta)
        }),
{
    starts_are_noted(s);
    let w = written(WrapperView::fresh(), s).0;
    let e = if reasoning {
        StreamView::ReasoningDelta { text }
    } else {
        StreamView::TextDelta { text }
    };
    let more = wrapped(w, e).1;
    if !w.sent_content_start {
        assert(more[message_head(w).len() as int].kind is BlockStart);
    }
}

/// A stream that ends with its first stop holds what writing the events up to that stop gives.
pub proof fn a_stop_cuts_the_stream(w: WrapperView, s: Seq<StreamView>) -> (k: int)
    requires
        !w.stopped,
    ensures
        0 <= k <= s.len(),
        s.len() > 0 ==> k > 0,
        all_wrapped(w, s) == written(w, s.take(k)),
        !all_wrapped(w, s).0.stopped ==> k == s.len(),
    decreases s.len(),
{
    if s.len() == 0 {
        assert(s.take(0) =~= s);
        0
    } else {
        let t = s.drop_last();
        let k = a_stop_cuts_the_stream(w, t);
        if all_wrapped(w, t).0.stopped {
            assert(s.take(k) =~= t.take(k));
            k
        } else {
            assert(t.take(k) =~= t);
            assert(s.take(s.len() as int) =~= s);
            s.len() as int
        }
    }
}

/// The same order holds of a stream that ends with its first stop.
pub proof fn streams_open_first(s: Seq<StreamView>)
    requires
        s.len() > 0,
        opens_content(s[0]),
    ensures
        ({
            let frames = all_wrapped(WrapperView::fresh(), s).1;
            &&& frames.len() >= 2
            &&& frames[0] == message_start_frame()
            &&& frames[1].kind is BlockStart
            &&& forall|i: int| 0 < i < frames.len() ==> !(#[trigger] frames[i].kind is MessageStart)
            &&& forall|i: int| 0 <= i < frames.len() && #[trigger] frames[i].kind is BlockDelta ==> i >= 2
        }),
{
    let k = a_stop_cuts_the_stream(WrapperView::fresh(), s);
    assert(s.take(k)[0] == s[0]);
    openings_come_first(s.take(k));
}

/// A stop ends the stream: its three closing messages are the last ones, and no later event
/// adds to them.
pub proof fn stop_is_final(w: WrapperView, s: Seq<StreamView>, k: int)
    requires
        !w.stopped,
        0 <= k < s.len(),
        s[k] is Stop,
        forall|i: int| 0 <= i < k ==> !(#[trigger] s[i] is Stop),
    ensures
        ({
            let (before, frames) = all_wrapped(w, s.take(k));
            &&& !before.stopped
            &&& all_wrapped(w, s) == (
                WrapperView { stopped: true, ..before },
                frames + closing(before.last_index, effective_reason(before, s[k]->reason)),
            )
        }),
    decreases s.len(),
{
    if k == s.len() - 1 {
        assert(s.take(k) =~= s.drop_last());
        not_stopped_before(w, s.drop_last());
    } else {
        let t = s.drop_last();
        assert forall|i: int| 0 <= i < k implies !(#[trigger] t[i] is Stop) by {
            assert(!(s[i] is Stop));
        }
        stop_is_final(w, t, k);
        assert(t.take(k) =~= s.take(k));
    }
}

proof fn not_stopped_before(w: WrapperView, s: Seq<StreamView>)
    requires
        !w.stopped,
        forall|i: int| 0 <= i < s.len() ==> !(#[trigger] s[i] is Stop),
    ensures
        !all_wrapped(w, s).0.stopped,
    decreases s.len(),
{
    if s.len() > 0 {
        let t = s.drop_last();
        assert forall|i: int| 0 <= i < t.len() implies !(#[trigger] t[i] is Stop) by {
            assert(!(s[i] is Stop));
        }
        not_stopped_before(w, t);
        assert(!(s[s.len() - 1] is Stop));
    }
}

proof fn well_framed_append(a: Seq<FrameView>, b: Seq<FrameView>)
    requires
        well_framed(a),
        well_framed(b),
    ensures
        well_framed(a + b),
{
    let c = a + b;
    assert forall|i: int| 0 <= i < c.len() implies written_well((#[trigger] c[i]).body) by {
        if i < a.len() {
            assert(c[i] == a[i]);
        } else {
            assert(c[i] == b[i - a.len()]);
        }
    }
}

proof fn well_framed_single(f: FrameView)
    requires
        written_well(f.body),
    ensures
        well_framed(seq![f]),
{
}

proof fn tool_blocks_are_plain(id: Seq<char>, name: Seq<char>, input: JsonView)
    requires
        plain(input, 125),
    ensures
        plain(tool_block(id, name, input), 126),
{
    broadcast use {empty_is_plain, with_is_plain, single_is_plain};

}

proof fn typed_is_plain(name: Seq<char>)
    ensures
        plain(typed(name), 126),
{
    broadcast use {empty_is_plain, with_is_plain, single_is_plain};

}

proof fn closing_is_plain(last_index: u64, reason: CanonicalStopReason)
    ensures
        ({
            let s = closing(last_index, reason);
            &&& s[0].body is Object && plain(s[0].body, 127)
            &&& s[1].body is Object && plain(s[1].body, 127)
        }),
{
    broadcast use {empty_is_plain, with_is_plain, single_is_plain};

}

/// Whether the arguments that an event carries as a value, if any, hold no double and are not
/// nested too deep to be read.
pub open spec fn has_plain_input(e: StreamView) -> bool {
    match e {
        StreamView::ToolUseStart { id, index, name, input } => plain(input, 125),
        _ => true,
    }
}

/// Writes canonical events as an Anthropic stream. Clients expect a message to start, then a
/// block to start, then content; where the events hold no starts, they are put in front.
#[derive(Debug)]
pub struct AnthropicSseWrapper {
    sent_message_start: bool,
    sent_content_start: bool,
    last_index: u64,
    stopped: bool,
    saw_tool_use: bool,
}

impl AnthropicSseWrapper {
    pub closed spec fn view(self) -> WrapperView {
        WrapperView {
            sent_message_start: self.sent_message_start,
            sent_content_start: self.sent_content_start,
            last_index: self.last_index,
            stopped: self.stopped,
            saw_tool_use: self.saw_tool_use,
        }
    }

    /// A writer that has written nothing.
    pub fn new() -> (r: AnthropicSseWrapper)
        ensures
            r@ == WrapperView::fresh(),
    {
        AnthropicSseWrapper {
            sent_message_start: false,
            sent_content_start: false,
            last_index: 0,
            stopped: false,
            saw_tool_use: false,
        }
    }

    /// Whether a stop has been written.
    pub fn is_stopped(&self) -> (r: bool)
        ensures
            r == self@.stopped,
    {
        self.stopped
    }

    /// Writes an event as server-sent events. It never fails. What is written consists of whole
    /// server-sent events, which are those that were meant.
    pub fn convert(&mut self, event: &CanonicalStreamEvent) -> (r: Result<Vec<String>, String>)
        ensures
            r is Ok,
            final(self)@ == wrapped(old(self)@, event@).0,
            texts(r->Ok_0@) == frame_texts(wrapped(old(self)@, event@).1),
            has_plain_input(event@) ==> fed(idle(), run_of(texts(r->Ok_0@))) == (
                idle(),
                frame_events(wrapped(old(self)@, event@).1),
            ),
    {
        let ghost w = self@;
        let ghost frames = wrapped(w, event@).1;
        let mut out: Vec<String> = Vec::new();
        broadcast use texts_push;

        assert(texts(out@) =~= Seq::<Seq<char>>::empty());
        match event {
            CanonicalStreamEvent::TextDelta { text } => {
                self.emit_headers("text", 0, &mut out);
                out.push(make_text_frame(text));
                proof {
                    frame_texts_append(message_head(w) + block_head(w, "text"@), seq![text_frame(text@)]);
                    frame_texts_single(text_frame(text@));
                    assert(texts(out@) =~= frame_texts(frames));
                    well_framed_single(text_frame(text@));
                    well_framed_append(
                        message_head(w) + block_head(w, "text"@),
                        seq![text_frame(text@)],
                    );
                }
            },
            CanonicalStreamEvent::ReasoningDelta { text } => {
                self.emit_headers("thinking", 0, &mut out);
                out.push(make_thinking_frame(text));
                proof {
                    frame_texts_append(
                        message_head(w) + block_head(w, "thinking"@),
                        seq![thinking_frame(text@)],
                    );
                    frame_texts_single(thinking_frame(text@));
                    assert(texts(out@) =~= frame_texts(frames));
                    well_framed_single(thinking_frame(text@));
                    well_framed_append(
                        message_head(w) + block_head(w, "thinking"@),
                        seq![thinking_frame(text@)],
                    );
                }
            },
            CanonicalStreamEvent::ToolUseStart { id, index, name, input } => {
                self.saw_tool_use = true;
                self.emit_message_start_if_needed(&mut out);
                let idx: u64 = make_or_zero(index);
                out.push(make_block_start(idx, make_tool_block(id, name, input)));
                self.sent_content_start = true;
                self.last_index = idx;
                proof {
                    let start = block_start_frame(idx, tool_block(id@, name@, input@));
                    frame_texts_append(message_head(w), seq![start]);
                    frame_texts_single(start);
                    assert(texts(out@) =~= frame_texts(frames));
                    if has_plain_input(event@) {
                        tool_blocks_are_plain(id@, name@, input@);
                        well_framed_single(start);
                        well_framed_append(message_head(w), seq![start]);
                    }
                }
            },
            CanonicalStreamEvent::ToolInputDelta { tool_use_id, index, input_chunk } => {
                self.saw_tool_use = true;
                out.push(make_input_frame(index, input_chunk));
                proof {
                    frame_texts_single(input_frame(*index, input_chunk@));
                    assert(texts(out@) =~= frame_texts(frames));
                    well_framed_single(input_frame(*index, input_chunk@));
                }
            },
            CanonicalStreamEvent::Stop { reason } => {
                self.stopped = true;
                let effective = if *reason == CanonicalStopReason::EndTurn && self.saw_tool_use {
                    CanonicalStopReason::ToolUse
                } else {
                    *reason
                };
                let end = make_typed("content_block_stop").with("index", Json::uint(self.last_index));
                out.push(make_named_frame("content_block_stop", &end));
                let delta = Json::object().with(
                    "stop_reason",
                    Json::str(stop_reason_to_anthropic(&effective)),
                ).with("stop_sequence", Json::Null);
                let body = make_typed("message_delta").with("delta", delta).with(
                    "usage",
                    Json::object().with("output_tokens", Json::uint(0)),
                );
                out.push(make_named_frame("message_delta", &body));
                out.push(make_message_stop());
                proof {
                    assert(texts(out@) =~= frame_texts(frames));
                    closing_is_plain(w.last_index, effective);
                    assert(frames[0].body == end@);
                    assert(frames[1].body == body@);
                    assert(well_framed(frames));
                }
            },
            _ => {
                assert(texts(out@) =~= frame_texts(frames));
            },
        }
        proof {
            if has_plain_input(event@) {
                frames_are_read(frames);
            }
        }
        Ok(out)
    }

    /// Writes the starts that are still missing in front of content.
    fn emit_headers(&mut self, block_type: &str, index: u64, outputs: &mut Vec<String>)
        requires
            index == 0,
        ensures
            final(self)@ == after_content(old(self)@),
            texts(final(outputs)@) == texts(old(outputs)@) + frame_texts(
                message_head(old(self)@) + block_head(old(self)@, block_type@),
            ),
            well_framed(message_head(old(self)@) + block_head(old(self)@, block_type@)),
    {
        let ghost w = self@;
        let ghost before = texts(outputs@);
        self.emit_message_start_if_needed(outputs);
        let ghost middle = texts(outputs@);
        proof {
            frame_texts_append(message_head(w), block_head(w, block_type@));
            frame_texts_single(block_start_frame(0, typed(block_type@)));
            typed_is_plain(block_type@);
        }
        if !self.sent_content_start {
            outputs.push(make_block_start(index, make_typed(block_type)));
            self.sent_content_start = true;
            self.last_index = index;
        }
        proof {
            assert(well_framed(block_head(w, block_type@)));
            well_framed_append(message_head(w), block_head(w, block_type@));
        }
        assert(texts(outputs@) =~= middle + frame_texts(block_head(w, block_type@)));
        assert(texts(outputs@) =~= before + frame_texts(
            message_head(w) + block_head(w, block_type@),
        ));
    }

    /// Writes the start of the message if it is still missing.
    fn emit_message_start_if_needed(&mut self, outputs: &mut Vec<String>)
        ensures
            final(self)@ == (WrapperView { sent_message_start: true, ..old(self)@ }),
            texts(final(outputs)@) == texts(old(outputs)@) + frame_texts(message_head(old(self)@)),
            well_framed(message_head(old(self)@)),
    {
        let ghost w = self@;
        let ghost before = texts(outputs@);
        if !self.sent_message_start {
            outputs.push(make_message_start());
            self.sent_message_start = true;
        }
        assert(texts(outputs@) =~= before + frame_texts(message_head(w)));
    }
}

} // verus!
