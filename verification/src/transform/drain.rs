//! A Responses stream gathered into one Responses body, for clients that asked for no stream.
use crate::codec::json_parse;
use crate::json::{opt_json, views, views_are, views_empty, views_push, Json, JsonObject, JsonView};
use crate::seqs::{take_ends, take_step};
use crate::text::{cat, copy, is_text, numeral, numeral_of, opt_str, opt_text, same};
use crate::transform::stream::{
    all_texts, any_of, byte_pieces_do_not_matter, calls_function, either, fed, fed_bytes, line_step,
    parse_any_of, parse_either, parse_text, put_together, sse_views, text_of, ParserView, SseParser,
    SseView,
};
use vstd::prelude::*;
use vstd::string::*;
use vstd::utf8::*;

verus! {

/// A function call that is being gathered.
#[derive(Debug)]
pub struct AggregatedToolCall {
    pub id: String,
    pub name: String,
    pub args: String,
}

/// A function call that is being gathered, as a mathematical value.
pub struct CallView {
    pub id: Seq<char>,
    pub name: Seq<char>,
    pub args: Seq<char>,
}

impl AggregatedToolCall {
    pub open spec fn view(self) -> CallView {
        CallView { id: self.id@, name: self.name@, args: self.args@ }
    }
}

/// The views of a sequence of calls.
pub open spec fn call_views(s: Seq<AggregatedToolCall>) -> Seq<CallView> {
    s.map_values(|c: AggregatedToolCall| c@)
}

/// What has been gathered so far.
pub struct DrainView {
    pub text: Seq<char>,
    pub reasoning: Seq<char>,
    /// The function calls, in the order in which they appeared.
    pub calls: Seq<CallView>,
    /// The call that an output item stands for, where their identifiers differ.
    pub ids: Map<Seq<char>, JsonView>,
    /// The finished output items.
    pub items: Seq<JsonView>,
    /// The response that the last message carried.
    pub completed: Option<JsonView>,
    pub error: Option<Seq<char>>,
    pub status: Seq<char>,
    pub usage: Option<JsonView>,
}

impl DrainView {
    /// Nothing has been gathered.
    pub open spec fn fresh() -> DrainView {
        DrainView {
            text: Seq::empty(),
            reasoning: Seq::empty(),
            calls: Seq::empty(),
            ids: Map::empty(),
            items: Seq::empty(),
            completed: None,
            error: None,
            status: "completed"@,
            usage: None,
        }
    }
}

/// The place of the call `id`.
pub open spec fn call_index(s: Seq<CallView>, id: Seq<char>) -> Option<int>
    decreases s.len(),
{
    if s.len() == 0 {
        None
    } else if s.last().id == id {
        Some(s.len() - 1)
    } else {
        call_index(s.drop_last(), id)
    }
}

/// The calls with the call `id` among them: as it is, or as given where it is new.
pub open spec fn with_call(s: Seq<CallView>, new: CallView) -> Seq<CallView> {
    match call_index(s, new.id) {
        Some(i) => s,
        None => s.push(new),
    }
}

/// The calls after the call `done` was finished: what was not known of it is filled in.
pub open spec fn with_finished(s: Seq<CallView>, done: CallView) -> Seq<CallView> {
    match call_index(s, done.id) {
        Some(i) => s.update(
            i,
            CallView {
                id: s[i].id,
                name: if s[i].name.len() == 0 {
                    done.name
                } else {
                    s[i].name
                },
                args: if s[i].args.len() == 0 {
                    done.args
                } else {
                    s[i].args
                },
            },
        ),
        None => s.push(done),
    }
}

/// The calls after more arguments of the call `id` came.
pub open spec fn with_input(s: Seq<CallView>, id: Seq<char>, more: Seq<char>) -> Seq<CallView> {
    match call_index(s, id) {
        Some(i) => s.update(
            i,
            CallView { id: s[i].id, name: s[i].name, args: s[i].args + more },
        ),
        None => s.push(CallView { id, name: Seq::empty(), args: more }),
    }
}

/// The identifier of the call that an item describes.
pub open spec fn item_call(item: JsonView) -> Seq<char> {
    text_of(either(item, "call_id"@, "id"@))
}

/// A new output item begins.
pub open spec fn item_added(d: DrainView, item: JsonView) -> DrainView {
    let id = item_call(item);
    if !calls_function(item) || id.len() == 0 {
        d
    } else {
        DrainView {
            calls: with_call(
                d.calls,
                CallView { id, name: item.text_at("name"@), args: Seq::empty() },
            ),
            ids: match item.str_at("id"@) {
                Some(item_id) => if item_id != id {
                    d.ids.insert(item_id, JsonView::Str(id))
                } else {
                    d.ids
                },
                None => d.ids,
            },
            ..d
        }
    }
}

/// An output item is finished.
pub open spec fn item_done(d: DrainView, item: JsonView) -> DrainView {
    let id = item_call(item);
    DrainView {
        items: d.items.push(item),
        calls: if !calls_function(item) || id.len() == 0 {
            d.calls
        } else {
            with_finished(
                d.calls,
                CallView { id, name: item.text_at("name"@), args: item.text_at("arguments"@) },
            )
        },
        ..d
    }
}

/// The call that a reference stands for: itself, or the call of the item of that name.
pub open spec fn referenced(d: DrainView, reference: Seq<char>) -> Option<Seq<char>> {
    if call_index(d.calls, reference) is Some {
        Some(reference)
    } else if d.ids.dom().contains(reference) {
        d.ids[reference].as_str()
    } else {
        None
    }
}

/// More arguments came.
pub open spec fn input_added(d: DrainView, json: JsonView) -> DrainView {
    let reference = text_of(any_of(json, "item_id"@, "call_id"@, "id"@));
    if reference.len() == 0 {
        d
    } else {
        match (referenced(d, reference), json.str_at("delta"@)) {
            (Some(id), Some(delta)) => DrainView { calls: with_input(d.calls, id, delta), ..d },
            _ => d,
        }
    }
}

/// The response is complete.
pub open spec fn completion(d: DrainView, json: JsonView) -> DrainView {
    match json.get("response"@) {
        Some(r) => DrainView {
            usage: match r.get("usage"@) {
                Some(u) => Some(u),
                None => d.usage,
            },
            status: match r.str_at("status"@) {
                Some(s) => s,
                None => d.status,
            },
            completed: Some(r),
            ..d
        },
        None => DrainView {
            usage: match json.get("usage"@) {
                Some(u) => Some(u),
                None => d.usage,
            },
            ..d
        },
    }
}

/// What a message of the stream adds.
pub open spec fn gathered(d: DrainView, json: JsonView) -> DrainView {
    let kind = json.text_at("type"@);
    if kind == "response.output_text.delta"@ || kind == "response.text.delta"@ {
        DrainView { text: d.text + json.text_at("delta"@), ..d }
    } else if kind == "response.reasoning_summary_text.delta"@ || kind == "response.reasoning_text.delta"@
        || kind == "response.reasoning.delta"@ || kind == "response.output_reasoning.delta"@ {
        DrainView { reasoning: d.reasoning + json.text_at("delta"@), ..d }
    } else if kind == "response.output_item.added"@ {
        match json.get("item"@) {
            Some(item) => item_added(d, item),
            None => d,
        }
    } else if kind == "response.output_item.done"@ {
        match json.get("item"@) {
            Some(item) => item_done(d, item),
            None => d,
        }
    } else if kind == "response.function_call_arguments.delta"@ || kind
        == "response.function_call.parameter_delta"@ {
        input_added(d, json)
    } else if kind == "response.completed"@ || kind == "response.done"@ {
        completion(d, json)
    } else if kind == "response.failed"@ {
        DrainView {
            error: Some(
                match json.at("response"@).at("error"@).str_at("message"@) {
                    Some(m) => m,
                    None => "Upstream error"@,
                },
            ),
            ..d
        }
    } else {
        d
    }
}

/// What the data of an event adds; data that is no JSON adds nothing.
pub open spec fn gathered_data(d: DrainView, data: Seq<char>) -> DrainView {
    match json_parse(data) {
        Some(json) => gathered(d, json),
        None => d,
    }
}

/// What a sequence of events adds.
pub open spec fn gathered_events(d: DrainView, s: Seq<SseView>) -> DrainView
    decreases s.len(),
{
    if s.len() == 0 {
        d
    } else {
        let before = gathered_events(d, s.drop_last());
        if s.last().data.len() > 0 {
            gathered_data(before, s.last().data)
        } else {
            before
        }
    }
}

/// Whether no call occurs twice.
pub open spec fn distinct_calls(s: Seq<CallView>) -> bool {
    forall|i: int, j: int| 0 <= i < j < s.len() ==> s[i].id != s[j].id
}

proof fn call_index_facts(s: Seq<CallView>, id: Seq<char>)
    ensures
        match call_index(s, id) {
            Some(i) => 0 <= i < s.len() && s[i].id == id,
            None => forall|i: int| 0 <= i < s.len() ==> s[i].id != id,
        },
    decreases s.len(),
{
    if s.len() > 0 && s.last().id != id {
        call_index_facts(s.drop_last(), id);
        if call_index(s.drop_last(), id) is None {
            assert forall|i: int| 0 <= i < s.len() implies s[i].id != id by {
                if i < s.len() - 1 {
                    assert(s.drop_last()[i].id != id);
                }
            }
        }
    }
}

/// No message of the stream makes a call occur twice.
pub proof fn calls_stay_distinct(d: DrainView, json: JsonView)
    requires
        distinct_calls(d.calls),
    ensures
        distinct_calls(gathered(d, json).calls),
{
    assert forall|id: Seq<char>| true implies match #[trigger] call_index(d.calls, id) {
        Some(i) => 0 <= i < d.calls.len() && d.calls[i].id == id,
        None => forall|i: int| 0 <= i < d.calls.len() ==> d.calls[i].id != id,
    } by {
        call_index_facts(d.calls, id);
    }
}

/// The output item for a gathered call.
pub open spec fn call_item(c: CallView) -> JsonView {
    JsonView::object().with("type"@, JsonView::Str("function_call"@)).with(
        "call_id"@,
        JsonView::Str(c.id),
    ).with("name"@, JsonView::Str(c.name)).with(
        "arguments"@,
        JsonView::Str(
            if c.args.len() == 0 {
                "{}"@
            } else {
                c.args
            },
        ),
    )
}

/// The output items for the gathered calls.
pub open spec fn call_items(s: Seq<CallView>) -> Seq<JsonView> {
    Seq::new(s.len(), |i: int| call_item(s[i]))
}

/// A list with one part that carries a text.
pub open spec fn single_part(kind: Seq<char>, text: Seq<char>) -> JsonView {
    JsonView::Array(
        seq![
            JsonView::object().with("type"@, JsonView::Str(kind)).with("text"@, JsonView::Str(text)),
        ],
    )
}

/// The output of the response: the finished items, or else what was gathered in pieces.
pub open spec fn gathered_output(d: DrainView) -> Seq<JsonView> {
    if d.items.len() > 0 {
        d.items
    } else {
        (if d.reasoning.len() == 0 {
            Seq::<JsonView>::empty()
        } else {
            seq![
                JsonView::object().with("type"@, JsonView::Str("reasoning"@)).with(
                    "summary"@,
                    single_part("reasoning_text"@, d.reasoning),
                ),
            ]
        }) + (if d.text.len() == 0 {
            Seq::<JsonView>::empty()
        } else {
            seq![
                JsonView::object().with("type"@, JsonView::Str("message"@)).with(
                    "role"@,
                    JsonView::Str("assistant"@),
                ).with("content"@, single_part("output_text"@, d.text)),
            ]
        }) + call_items(d.calls)
    }
}

/// Whether anything was gathered.
pub open spec fn gathered_any(d: DrainView) -> bool {
    d.text.len() > 0 || d.reasoning.len() > 0 || d.calls.len() > 0 || d.items.len() > 0
}

/// A complete response with its missing output and token counts filled in.
pub open spec fn filled(d: DrainView, response: JsonView) -> JsonView {
    let output = match response.array_at("output"@) {
        Some(a) => a.len() > 0,
        None => false,
    };
    let with_output = if output {
        response
    } else {
        response.with("output"@, JsonView::Array(gathered_output(d)))
    };
    if response.get("usage"@) is Some {
        with_output
    } else {
        with_output.with_some("usage"@, d.usage)
    }
}

/// A response made of what was gathered, `now` being the time in seconds.
pub open spec fn assembled(d: DrainView, model: Seq<char>, now: u64) -> JsonView {
    JsonView::object().with("id"@, JsonView::Str("resp_"@ + numeral(now as nat))).with(
        "object"@,
        JsonView::Str("response"@),
    ).with("created_at"@, JsonView::uint(now)).with("status"@, JsonView::Str(d.status)).with(
        "model"@,
        JsonView::Str(model),
    ).with("output"@, JsonView::Array(gathered_output(d))).with(
        "usage"@,
        match d.usage {
            Some(u) => u,
            None => JsonView::object().with("input_tokens"@, JsonView::uint(0)).with(
                "output_tokens"@,
                JsonView::uint(0),
            ).with("total_tokens"@, JsonView::uint(0)),
        },
    )
}

/// The response that the whole stream amounts to, or why there is none.
pub open spec fn outcome(d: DrainView, model: Option<Seq<char>>, now: u64) -> Result<
    JsonView,
    Seq<char>,
> {
    match (d.completed, d.error) {
        (Some(response), _) => Ok(filled(d, response)),
        (None, Some(message)) => if gathered_any(d) {
            Ok(assembled(d, or_nothing(model), now))
        } else {
            Err(message)
        },
        (None, None) => if gathered_any(d) {
            Ok(assembled(d, or_nothing(model), now))
        } else {
            Err("上游流未返回可聚合的响应内容"@)
        },
    }
}

/// A text, nothing where there is none.
pub open spec fn or_nothing(s: Option<Seq<char>>) -> Seq<char> {
    match s {
        Some(t) => t,
        None => Seq::empty(),
    }
}

/// What the pieces of a stream add, one after the other.
pub open spec fn gathered_pieces(p: ParserView, d: DrainView, s: Seq<Seq<u8>>) -> (ParserView, DrainView)
    decreases s.len(),
{
    if s.len() == 0 {
        (p, d)
    } else {
        let (q, e) = gathered_pieces(p, d, s.drop_last());
        let (r, events) = fed_bytes(q, s.last());
        (r, gathered_events(e, events))
    }
}

/// What the whole stream adds: its pieces, and a last line that was not ended.
pub open spec fn gathered_stream(p: ParserView, d: DrainView, s: Seq<Seq<u8>>) -> DrainView {
    let (q, e) = gathered_pieces(p, d, s);
    gathered_events(e, fed_bytes(q, seq![10u8]).1)
}

proof fn gathering_distributes(d: DrainView, a: Seq<SseView>, b: Seq<SseView>)
    ensures
        gathered_events(d, a + b) == gathered_events(gathered_events(d, a), b),
    decreases b.len(),
{
    if b.len() == 0 {
        assert(a + b =~= a);
    } else {
        gathering_distributes(d, a, b.drop_last());
        assert((a + b).drop_last() =~= a + b.drop_last());
    }
}

proof fn pieces_gather_the_whole(p: ParserView, d: DrainView, s: Seq<Seq<u8>>)
    requires
        all_texts(s),
    ensures
        valid_utf8(put_together(s)),
        gathered_pieces(p, d, s) == ({
            let (q, events) = fed_bytes(p, put_together(s));
            (q, gathered_events(d, events))
        }),
    decreases s.len(),
{
    if s.len() == 0 {
        assert(decode_utf8(put_together(s)) =~= Seq::<char>::empty());
    } else {
        let t = s.drop_last();
        assert forall|i: int| 0 <= i < t.len() implies valid_utf8(#[trigger] t[i]) by {
            assert(valid_utf8(s[i]));
        }
        assert(valid_utf8(s[s.len() - 1]));
        pieces_gather_the_whole(p, d, t);
        let a = put_together(t);
        valid_utf8_concat(a, s.last());
        byte_pieces_do_not_matter(p, a, s.last());
        let (q, first) = fed_bytes(p, a);
        gathering_distributes(d, first, fed_bytes(q, s.last()).1);
    }
}

/// A stream amounts to the same in whatever pieces it comes, as long as none parts a character.
pub proof fn drained_pieces_do_not_matter(
    p: ParserView,
    d: DrainView,
    a: Seq<Seq<u8>>,
    b: Seq<Seq<u8>>,
)
    requires
        all_texts(a),
        all_texts(b),
        put_together(a) == put_together(b),
    ensures
        gathered_stream(p, d, a) == gathered_stream(p, d, b),
{
    pieces_gather_the_whole(p, d, a);
    pieces_gather_the_whole(p, d, b);
}

/// A stream amounts to the same with and without a line break at its end.
pub proof fn a_last_line_break_does_not_matter(p: ParserView, d: DrainView, s: Seq<Seq<u8>>)
    ensures
        gathered_stream(p, d, s.push(seq![10u8])) == gathered_stream(p, d, s),
{
    let end = seq![10u8];
    let (q, e) = gathered_pieces(p, d, s);
    let t = s.push(end);
    assert(t.drop_last() =~= s);
    line_breaks_are_text();
    reveal_with_fuel(fed, 2);
    assert(seq!['\n'].drop_last() =~= Seq::<char>::empty());
    let (r, first) = fed_bytes(q, end);
    assert(r.line.len() == 0);
    reveal_strlit("event:");
    reveal_strlit("data:");
    assert("event:"@.len() == 6 && "data:"@.len() == 5);
    assert(line_step(r.event, r.line).1 is None);
    assert(fed_bytes(r, end).1 =~= Seq::<SseView>::empty());
}

proof fn line_breaks_are_text()
    ensures
        valid_utf8(seq![10u8]),
        decode_utf8(seq![10u8]) == seq!['\n'],
{
    let c = seq!['\n'];
    is_ascii_chars_encode_utf8(c);
    encode_utf8_valid_utf8(c);
    encode_utf8_decode_utf8(c);
    assert(encode_utf8(c) =~= seq![10u8]);
}

/// Gathers a Responses stream.
#[derive(Debug)]
pub struct ResponsesDrain {
    parser: SseParser,
    text_out: String,
    reasoning_out: String,
    tool_calls: Vec<AggregatedToolCall>,
    item_id_to_call_id: JsonObject,
    output_items: Vec<Json>,
    completed_response: Option<Json>,
    upstream_error: Option<String>,
    status: String,
    usage: Option<Json>,
}

impl ResponsesDrain {
    /// What has been gathered.
    pub closed spec fn view(self) -> DrainView {
        DrainView {
            text: self.text_out@,
            reasoning: self.reasoning_out@,
            calls: call_views(self.tool_calls@),
            ids: self.item_id_to_call_id@,
            items: views(self.output_items@),
            completed: opt_json(self.completed_response),
            error: opt_text(self.upstream_error),
            status: self.status@,
            usage: opt_json(self.usage),
        }
    }

    /// The state of the parser of server-sent events.
    pub closed spec fn parser(self) -> ParserView {
        self.parser@
    }

    /// A drain that has gathered nothing.
    pub fn new() -> (r: ResponsesDrain)
        ensures
            r@ == DrainView::fresh(),
            r.parser() == (ParserView { line: Seq::empty(), event: None }),
    {
        let tool_calls: Vec<AggregatedToolCall> = Vec::new();
        let output_items: Vec<Json> = Vec::new();
        proof {
            views_empty();
            assert(output_items@ =~= Seq::<Json>::empty());
            assert(call_views(tool_calls@) =~= Seq::<CallView>::empty());
        }
        ResponsesDrain {
            parser: SseParser::new(),
            text_out: String::new(),
            reasoning_out: String::new(),
            tool_calls,
            item_id_to_call_id: JsonObject::new(),
            output_items,
            completed_response: None,
            upstream_error: None,
            status: copy("completed"),
            usage: None,
        }
    }

    /// The place of the call `id`.
    fn find_call(&self, id: &str) -> (r: Option<usize>)
        ensures
            match r {
                Some(i) => call_index(self@.calls, id@) == Some(i as int) && i
                    < self.tool_calls@.len(),
                None => call_index(self@.calls, id@) is None,
            },
    {
        let ghost all = call_views(self.tool_calls@);
        let mut n: usize = self.tool_calls.len();
        proof {
            take_ends(all);
        }
        while n > 0
            invariant
                n <= self.tool_calls@.len(),
                all == call_views(self.tool_calls@),
                call_index(all, id@) == call_index(all.take(n as int), id@),
            decreases n,
        {
            proof {
                take_step(all, n - 1);
            }
            if same(&self.tool_calls[n - 1].id, id) {
                return Some(n - 1);
            }
            n -= 1;
        }
        None
    }

    /// Notes that a new output item begins.
    fn add_item(&mut self, item: &Json)
        ensures
            final(self)@ == item_added(old(self)@, item@),
            final(self).parser() == old(self).parser(),
    {
        if !is_text(item.str_at("type"), "function_call") {
            return ;
        }
        let id = parse_text(&parse_either(item, "call_id", "id"));
        if id.as_str().is_empty() {
            return ;
        }
        let ghost before = self.tool_calls@;
        if self.find_call(&id).is_none() {
            let call = AggregatedToolCall {
                id: id.clone(),
                name: item.text_at("name"),
                args: String::new(),
            };
            self.tool_calls.push(call);
            assert(call_views(self.tool_calls@) =~= call_views(before).push(call@));
        }
        if let Some(item_id) = item.str_at("id") {
            if !same(item_id, &id) {
                self.item_id_to_call_id.insert(item_id, Json::Str(id));
            }
        }
    }

    /// Notes that an output item is finished.
    fn finish_item(&mut self, item: &Json)
        ensures
            final(self)@ == item_done(old(self)@, item@),
            final(self).parser() == old(self).parser(),
    {
        broadcast use views_push;

        self.output_items.push(item.copy());
        if !is_text(item.str_at("type"), "function_call") {
            return ;
        }
        let id = parse_text(&parse_either(item, "call_id", "id"));
        if id.as_str().is_empty() {
            return ;
        }
        let name = item.text_at("name");
        let args = item.text_at("arguments");
        let ghost before = self.tool_calls@;
        let ghost done = CallView { id: id@, name: name@, args: args@ };
        match self.find_call(&id) {
            Some(i) => {
                proof {
                    call_index_facts(self@.calls, id@);
                }
                let known = &self.tool_calls[i];
                let call = AggregatedToolCall {
                    id: known.id.clone(),
                    name: if known.name.as_str().is_empty() {
                        name
                    } else {
                        known.name.clone()
                    },
                    args: if known.args.as_str().is_empty() {
                        args
                    } else {
                        known.args.clone()
                    },
                };
                self.tool_calls.set(i, call);
                assert(call_views(self.tool_calls@) =~= call_views(before).update(i as int, call@));
            },
            None => {
                let call = AggregatedToolCall { id, name, args };
                self.tool_calls.push(call);
                assert(call_views(self.tool_calls@) =~= call_views(before).push(call@));
            },
        }
    }

    /// Notes that more arguments came.
    fn add_input(&mut self, json: &Json)
        ensures
            final(self)@ == input_added(old(self)@, json@),
            final(self).parser() == old(self).parser(),
    {
        let reference = parse_text(&parse_any_of(json, "item_id", "call_id", "id"));
        if reference.as_str().is_empty() {
            return ;
        }
        let id = if self.find_call(&reference).is_some() {
            Some(reference)
        } else {
            match self.item_id_to_call_id.get(&reference) {
                Some(v) => match v.as_str() {
                    Some(t) => Some(copy(t)),
                    None => None,
                },
                None => None,
            }
        };
        let delta = match json.str_at("delta") {
            Some(d) => d,
            None => return ,
        };
        let id = match id {
            Some(x) => x,
            None => return ,
        };
        let ghost before = self.tool_calls@;
        match self.find_call(&id) {
            Some(i) => {
                proof {
                    call_index_facts(self@.calls, id@);
                }
                let known = &self.tool_calls[i];
                let call = AggregatedToolCall {
                    id: known.id.clone(),
                    name: known.name.clone(),
                    args: cat(&known.args, delta),
                };
                self.tool_calls.set(i, call);
                assert(call_views(self.tool_calls@) =~= call_views(before).update(i as int, call@));
            },
            None => {
                let call = AggregatedToolCall { id, name: String::new(), args: copy(delta) };
                self.tool_calls.push(call);
                assert(call_views(self.tool_calls@) =~= call_views(before).push(call@));
            },
        }
    }

    /// Notes that the response is complete.
    fn complete(&mut self, json: &Json)
        ensures
            final(self)@ == completion(old(self)@, json@),
            final(self).parser() == old(self).parser(),
    {
        match json.get("response") {
            Some(r) => {
                if let Some(u) = r.get("usage") {
                    self.usage = Some(u.copy());
                }
                if let Some(s) = r.str_at("status") {
                    self.status = copy(s);
                }
                self.completed_response = Some(r.copy());
            },
            None => {
                if let Some(u) = json.get("usage") {
                    self.usage = Some(u.copy());
                }
            },
        }
    }

    /// Adds what the data of an event holds.
    pub fn process_event_data(&mut self, data: &str)
        ensures
            final(self)@ == gathered_data(old(self)@, data@),
            final(self).parser() == old(self).parser(),
    {
        let json = match Json::parse(data) {
            Some(v) => v,
            None => return ,
        };
        let kind = json.text_at("type");
        if same(&kind, "response.output_text.delta") || same(&kind, "response.text.delta") {
            let delta = json.text_at("delta");
            self.text_out.append(&delta);
        } else if same(&kind, "response.reasoning_summary_text.delta") || same(
            &kind,
            "response.reasoning_text.delta",
        ) || same(&kind, "response.reasoning.delta") || same(
            &kind,
            "response.output_reasoning.delta",
        ) {
            let delta = json.text_at("delta");
            self.reasoning_out.append(&delta);
        } else if same(&kind, "response.output_item.added") {
            if let Some(item) = json.get("item") {
                self.add_item(item);
            }
        } else if same(&kind, "response.output_item.done") {
            if let Some(item) = json.get("item") {
                self.finish_item(item);
            }
        } else if same(&kind, "response.function_call_arguments.delta") || same(
            &kind,
            "response.function_call.parameter_delta",
        ) {
            self.add_input(&json);
        } else if same(&kind, "response.completed") || same(&kind, "response.done") {
            self.complete(&json);
        } else if same(&kind, "response.failed") {
            let error = json.at("response").at("error");
            let message = match error.str_at("message") {
                Some(m) => copy(m),
                None => copy("Upstream error"),
            };
            self.upstream_error = Some(message);
        }
    }

    /// Reads a piece of the stream.
    pub fn feed(&mut self, data: &[u8])
        ensures
            final(self).parser() == fed_bytes(old(self).parser(), data@).0,
            final(self)@ == gathered_events(old(self)@, fed_bytes(old(self).parser(), data@).1),
    {
        let ghost start = self@;
        let events = self.parser.feed(data);
        let ghost all = sse_views(events@);
        let ghost parser = self.parser@;
        let mut i: usize = 0;
        proof {
            take_ends(all);
        }
        while i < events.len()
            invariant
                i <= events@.len(),
                all == sse_views(events@),
                self.parser() == parser,
                self@ == gathered_events(start, all.take(i as int)),
            decreases events@.len() - i,
        {
            proof {
                take_step(all, i as int);
            }
            assert(all[i as int] == events@[i as int]@);
            if !events[i].data.as_str().is_empty() {
                self.process_event_data(&events[i].data);
            }
            i += 1;
        }
        proof {
            take_ends(all);
        }
    }

    /// Whether anything was gathered.
    fn any(&self) -> (r: bool)
        ensures
            r == gathered_any(self@),
    {
        broadcast use views_are;

        !self.text_out.as_str().is_empty() || !self.reasoning_out.as_str().is_empty()
            || self.tool_calls.len() > 0 || self.output_items.len() > 0
    }

    /// The output of the response.
    fn output(&self) -> (r: Vec<Json>)
        ensures
            views(r@) == gathered_output(self@),
    {
        broadcast use {views_are, views_push};

        if self.output_items.len() > 0 {
            return crate::json::copy_values(&self.output_items);
        }
        build_responses_output_from_aggregated(
            &self.reasoning_out,
            &self.text_out,
            &self.tool_calls,
        )
    }

    /// Ends the stream: the response that it amounts to, or why there is none. `now` is the
    /// time in seconds.
    pub fn finish(self, fallback_model: Option<&str>, now: u64) -> (r: Result<Json, String>)
        ensures
            match r {
                Ok(v) => outcome(
                    gathered_events(self@, fed_bytes(self.parser(), seq![10u8]).1),
                    opt_str(fallback_model),
                    now,
                ) == Ok::<JsonView, Seq<char>>(v@),
                Err(m) => outcome(
                    gathered_events(self@, fed_bytes(self.parser(), seq![10u8]).1),
                    opt_str(fallback_model),
                    now,
                ) == Err::<JsonView, Seq<char>>(m@),
            },
    {
        let mut drain = self;
        let end: Vec<u8> = vec![10u8];
        assert(end@ =~= seq![10u8]);
        drain.feed(end.as_slice());
        let output = drain.output();
        if let Some(response) = &drain.completed_response {
            broadcast use views_are;

            let has_output = match response.array_at("output") {
                Some(a) => a.len() > 0,
                None => false,
            };
            let counted = response.get("usage").is_some();
            let mut whole = response.copy();
            if !has_output {
                whole = whole.with("output", Json::Array(output));
            }
            if !counted {
                let usage = match &drain.usage {
                    Some(u) => Some(u.copy()),
                    None => None,
                };
                whole = whole.with_some("usage", usage);
            }
            return Ok(whole);
        }
        if !drain.any() {
            return match drain.upstream_error {
                Some(m) => Err(m),
                None => Err(copy("上游流未返回可聚合的响应内容")),
            };
        }
        let digits = numeral_of(now);
        let model = match fallback_model {
            Some(m) => copy(m),
            None => String::new(),
        };
        let usage = match &drain.usage {
            Some(u) => u.copy(),
            None => Json::object().with("input_tokens", Json::uint(0)).with(
                "output_tokens",
                Json::uint(0),
            ).with("total_tokens", Json::uint(0)),
        };
        Ok(
            Json::object().with("id", Json::Str(cat("resp_", &digits))).with(
                "object",
                Json::str("response"),
            ).with("created_at", Json::uint(now)).with("status", Json::str(&drain.status)).with(
                "model",
                Json::Str(model),
            ).with("output", Json::Array(output)).with("usage", usage),
        )
    }
}

/// A list with one part that carries a text.
fn make_single_part(kind: &str, text: &str) -> (r: Json)
    ensures
        r@ == single_part(kind@, text@),
{
    Json::single(Json::object().with("type", Json::str(kind)).with("text", Json::str(text)))
}

/// The output made of what was gathered in pieces.
pub fn build_responses_output_from_aggregated(
    reasoning: &str,
    text: &str,
    calls: &Vec<AggregatedToolCall>,
) -> (r: Vec<Json>)
    ensures
        views(r@) == gathered_output(
            (DrainView {
                reasoning: reasoning@,
                text: text@,
                calls: call_views(calls@),
                ..DrainView::fresh()
            }),
        ),
{
    broadcast use {views_are, views_push};

    let mut out: Vec<Json> = Vec::new();
    assert(views(out@) =~= Seq::<JsonView>::empty());
    if !reasoning.is_empty() {
        out.push(
            Json::object().with("type", Json::str("reasoning")).with(
                "summary",
                make_single_part("reasoning_text", reasoning),
            ),
        );
    }
    if !text.is_empty() {
        out.push(
            Json::object().with("type", Json::str("message")).with(
                "role",
                Json::str("assistant"),
            ).with("content", make_single_part("output_text", text)),
        );
    }
    let ghost head = views(out@);
    let ghost all = call_views(calls@);
    let mut i: usize = 0;
    assert(head =~= head + call_items(all.take(0)));
    while i < calls.len()
        invariant
            i <= calls@.len(),
            all == call_views(calls@),
            views(out@) == head + call_items(all.take(i as int)),
        decreases calls@.len() - i,
    {
        let c = &calls[i];
        let args = if c.args.as_str().is_empty() {
            "{}"
        } else {
            c.args.as_str()
        };
        out.push(
            Json::object().with("type", Json::str("function_call")).with(
                "call_id",
                Json::str(&c.id),
            ).with("name", Json::str(&c.name)).with("arguments", Json::str(args)),
        );
        proof {
            take_step(all, i as int);
            assert(all[i as int] == c@);
            let done = call_items(all.take(i as int));
            assert(call_items(all.take(i + 1)) =~= done.push(call_item(all[i as int])));
            assert((head + done).push(call_item(c@)) =~= head + done.push(call_item(c@)));
        }
        i += 1;
        assert(views(out@) =~= head + call_items(all.take(i as int)));
    }
    assert(all.take(i as int) =~= all);
    assert(views(out@) =~= gathered_output(
        (DrainView {
            reasoning: reasoning@,
            text: text@,
            calls: call_views(calls@),
            ..DrainView::fresh()
        }),
    ));
    out
}

/// The pieces of a stream as byte sequences.
pub open spec fn piece_views(s: Seq<Vec<u8>>) -> Seq<Seq<u8>> {
    s.map_values(|v: Vec<u8>| v@)
}

/// Gathers a whole Responses stream into one body. `now` is the time in seconds.
pub fn drain_responses_sse_bytes(
    stream: &Vec<Vec<u8>>,
    fallback_model: Option<&str>,
    now: u64,
) -> (r: Result<Json, String>)
    ensures
        match r {
            Ok(v) => outcome(
                gathered_stream(
                    ParserView { line: Seq::empty(), event: None },
                    DrainView::fresh(),
                    piece_views(stream@),
                ),
                opt_str(fallback_model),
                now,
            ) == Ok::<JsonView, Seq<char>>(v@),
            Err(m) => outcome(
                gathered_stream(
                    ParserView { line: Seq::empty(), event: None },
                    DrainView::fresh(),
                    piece_views(stream@),
                ),
                opt_str(fallback_model),
                now,
            ) == Err::<JsonView, Seq<char>>(m@),
        },
{
    let mut drain = ResponsesDrain::new();
    let ghost all = piece_views(stream@);
    let ghost p = drain.parser();
    let mut i: usize = 0;
    proof {
        take_ends(all);
    }
    while i < stream.len()
        invariant
            i <= stream@.len(),
            all == piece_views(stream@),
            (drain.parser(), drain@) == gathered_pieces(p, DrainView::fresh(), all.take(i as int)),
        decreases stream@.len() - i,
    {
        proof {
            take_step(all, i as int);
        }
        drain.feed(stream[i].as_slice());
        i += 1;
    }
    proof {
        take_ends(all);
    }
    drain.finish(fallback_model, now)
}

} // verus!
