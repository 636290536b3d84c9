//! Conversion between the protocols of language model services, through the canonical form.
use crate::json::{sorted_keys, Json, JsonView};
use crate::seqs::{take_ends, take_step};
use crate::text::{same, texts, texts_push};
use crate::transform::canonical::{
    CanonicalRequest, CanonicalResponse, ConvertError, RequestView, ResponseView,
};
use vstd::prelude::*;

pub mod answers;
pub mod anthropic;
pub mod canonical;
pub mod chat_completions;
pub mod drain;
pub mod emit;
pub mod framing;
pub mod image;
pub mod loss;
pub mod pump;
pub mod readback;
pub mod responses;
pub mod stream;
pub mod survival;

verus! {

/// A protocol of a language model service.
#[derive(Debug, Clone, Copy, PartialEq, Eq, Structural)]
pub enum Protocol {
    ChatCompletions,
    Responses,
    AnthropicMessages,
}

impl Protocol {
    /// The path that requests of the protocol go to.
    pub open spec fn path(self) -> Seq<char> {
        match self {
            Protocol::ChatCompletions => "/v1/chat/completions"@,
            Protocol::Responses => "/v1/responses"@,
            Protocol::AnthropicMessages => "/v1/messages"@,
        }
    }

    /// The protocol of the requests that come in under a path; Chat Completions where the path
    /// is none of the three.
    pub open spec fn of_path(path: Seq<char>) -> Protocol {
        if path == "/v1/chat/completions"@ {
            Protocol::ChatCompletions
        } else if path == "/v1/responses"@ {
            Protocol::Responses
        } else if path == "/v1/messages"@ {
            Protocol::AnthropicMessages
        } else {
            Protocol::ChatCompletions
        }
    }

    /// The protocols in the order in which they are tried for a request of `entry`: the same
    /// one first.
    pub open spec fn priority(entry: Protocol) -> Seq<Protocol> {
        match entry {
            Protocol::ChatCompletions => seq![
                Protocol::ChatCompletions,
                Protocol::Responses,
                Protocol::AnthropicMessages,
            ],
            Protocol::Responses => seq![
                Protocol::Responses,
                Protocol::ChatCompletions,
                Protocol::AnthropicMessages,
            ],
            Protocol::AnthropicMessages => seq![
                Protocol::AnthropicMessages,
                Protocol::ChatCompletions,
                Protocol::Responses,
            ],
        }
    }

    /// The protocol of the requests that come in under a path.
    pub fn from_endpoint(path: &str) -> (r: Protocol)
        ensures
            r == Protocol::of_path(path@),
    {
        if same(path, "/v1/chat/completions") {
            Protocol::ChatCompletions
        } else if same(path, "/v1/responses") {
            Protocol::Responses
        } else if same(path, "/v1/messages") {
            Protocol::AnthropicMessages
        } else {
            Protocol::ChatCompletions
        }
    }

    /// The path that requests of the protocol go to.
    pub fn to_upstream_path(&self) -> (r: &'static str)
        ensures
            r@ == self.path(),
    {
        match self {
            Protocol::ChatCompletions => "/v1/chat/completions",
            Protocol::Responses => "/v1/responses",
            Protocol::AnthropicMessages => "/v1/messages",
        }
    }

    /// The protocols in the order in which they are tried for a request of `entry`.
    pub fn selection_priority(entry: Protocol) -> (r: [Protocol; 3])
        ensures
            r@ == Protocol::priority(entry),
    {
        let r = match entry {
            Protocol::ChatCompletions => [
                Protocol::ChatCompletions,
                Protocol::Responses,
                Protocol::AnthropicMessages,
            ],
            Protocol::Responses => [
                Protocol::Responses,
                Protocol::ChatCompletions,
                Protocol::AnthropicMessages,
            ],
            Protocol::AnthropicMessages => [
                Protocol::AnthropicMessages,
                Protocol::ChatCompletions,
                Protocol::Responses,
            ],
        };
        assert(r@ =~= Protocol::priority(entry));
        r
    }
}

/// The path of a protocol leads back to the protocol.
pub proof fn path_names_protocol(p: Protocol)
    ensures
        Protocol::of_path(p.path()) == p,
{
    reveal_strlit("/v1/chat/completions");
    reveal_strlit("/v1/responses");
    reveal_strlit("/v1/messages");
    assert("/v1/chat/completions"@.len() == 20);
    assert("/v1/responses"@.len() == 13);
    assert("/v1/messages"@.len() == 12);
}

/// Every protocol is tried exactly once, the one of the request first.
pub proof fn priority_tries_all(entry: Protocol)
    ensures
        Protocol::priority(entry)[0] == entry,
        Protocol::priority(entry).len() == 3,
        Protocol::priority(entry).no_duplicates(),
        forall|p: Protocol| Protocol::priority(entry).contains(p),
{
    let s = Protocol::priority(entry);
    assert forall|p: Protocol| s.contains(p) by {
        assert(s[0] == p || s[1] == p || s[2] == p);
    }
}

/// The request that a body of a protocol holds.
pub open spec fn read_request(protocol: Protocol, body: JsonView) -> Result<RequestView, ConvertError> {
    match protocol {
        Protocol::ChatCompletions => chat_completions::request_of(body),
        Protocol::Responses => responses::request_of(body),
        Protocol::AnthropicMessages => anthropic::request_of(body),
    }
}

/// The body of a request in a protocol.
pub open spec fn write_request(protocol: Protocol, q: RequestView) -> JsonView {
    match protocol {
        Protocol::ChatCompletions => chat_completions::openai_request(q),
        Protocol::Responses => responses::responses_request(q),
        Protocol::AnthropicMessages => anthropic::anthropic_request(q),
    }
}

/// The response that a body of a protocol holds.
pub open spec fn read_response(protocol: Protocol, body: JsonView) -> ResponseView {
    match protocol {
        Protocol::ChatCompletions => chat_completions::response_of(body),
        Protocol::Responses => responses::response_of(body),
        Protocol::AnthropicMessages => anthropic::response_of(body),
    }
}

/// The body of a response in a protocol.
pub open spec fn write_response(protocol: Protocol, p: ResponseView) -> JsonView {
    match protocol {
        Protocol::ChatCompletions => chat_completions::openai_response(p),
        Protocol::Responses => responses::responses_response(p),
        Protocol::AnthropicMessages => anthropic::anthropic_response(p),
    }
}

/// Reads the body of a request.
pub fn request_to_canonical(protocol: Protocol, body: &Json) -> (r: Result<CanonicalRequest, ConvertError>)
    ensures
        match r {
            Ok(q) => read_request(protocol, body@) == Ok::<RequestView, ConvertError>(q@),
            Err(e) => read_request(protocol, body@) == Err::<RequestView, ConvertError>(e),
        },
{
    match protocol {
        Protocol::ChatCompletions => chat_completions::to_canonical_request(body),
        Protocol::Responses => responses::to_canonical_request(body),
        Protocol::AnthropicMessages => anthropic::to_canonical_request(body),
    }
}

/// Writes the body of a request. It never fails.
pub fn canonical_to_request(protocol: Protocol, canonical: &CanonicalRequest) -> (r: Result<
    Json,
    ConvertError,
>)
    ensures
        r is Ok,
        r->Ok_0@ == write_request(protocol, canonical@),
{
    match protocol {
        Protocol::ChatCompletions => chat_completions::from_canonical_request(canonical),
        Protocol::Responses => responses::from_canonical_request(canonical),
        Protocol::AnthropicMessages => anthropic::from_canonical_request(canonical),
    }
}

/// Reads the body of a response. It never fails.
pub fn response_to_canonical(protocol: Protocol, body: &Json) -> (r: Result<
    CanonicalResponse,
    ConvertError,
>)
    ensures
        r is Ok,
        r->Ok_0@ == read_response(protocol, body@),
{
    match protocol {
        Protocol::ChatCompletions => chat_completions::to_canonical_response(body),
        Protocol::Responses => responses::to_canonical_response(body),
        Protocol::AnthropicMessages => anthropic::to_canonical_response(body),
    }
}

/// Writes the body of a response. It never fails.
pub fn canonical_to_response(protocol: Protocol, canonical: &CanonicalResponse) -> (r: Result<
    Json,
    ConvertError,
>)
    ensures
        r is Ok,
        r->Ok_0@ == write_response(protocol, canonical@),
{
    match protocol {
        Protocol::ChatCompletions => chat_completions::from_canonical_response(canonical),
        Protocol::Responses => responses::from_canonical_response(canonical),
        Protocol::AnthropicMessages => anthropic::from_canonical_response(canonical),
    }
}

/// The fields of a request that are known in a protocol.
pub open spec fn known_fields(protocol: Protocol) -> Seq<Seq<char>> {
    match protocol {
        Protocol::ChatCompletions => seq![
            "model"@,
            "messages"@,
            "temperature"@,
            "top_p"@,
            "max_tokens"@,
            "stop"@,
            "stream"@,
            "stream_options"@,
            "tools"@,
            "tool_choice"@,
            "n"@,
            "user"@,
            "response_format"@,
            "frequency_penalty"@,
            "presence_penalty"@,
            "logit_bias"@,
            "logprobs"@,
            "top_logprobs"@,
            "modalities"@,
            "prediction"@,
            "reasoning_effort"@,
            "reasoning"@,
            "service_tier"@,
            "parallel_tool_calls"@,
            "store"@,
            "metadata"@,
            "annotations"@,
            "prompt_tags"@,
        ],
        Protocol::Responses => seq![
            "model"@,
            "input"@,
            "instructions"@,
            "temperature"@,
            "top_p"@,
            "max_output_tokens"@,
            "stop"@,
            "stream"@,
            "tools"@,
            "tool_choice"@,
            "truncation"@,
            "text"@,
            "output"@,
            "user"@,
            "metadata"@,
            "prompt_tags"@,
            "store"@,
            "replay"@,
            "reasoning"@,
            "reasoning_effort"@,
        ],
        Protocol::AnthropicMessages => seq![
            "model"@,
            "messages"@,
            "system"@,
            "temperature"@,
            "top_p"@,
            "max_tokens"@,
            "stop_sequences"@,
            "stream"@,
            "tools"@,
            "tool_choice"@,
            "metadata"@,
            "thinking"@,
            "output_config"@,
            "effort"@,
            "budget"@,
        ],
    }
}

/// The views of a list of string slices.
pub open spec fn strs(s: Seq<&'static str>) -> Seq<Seq<char>> {
    s.map_values(|x: &'static str| x@)
}

/// The fields of a request that are known in a protocol.
fn list_known_fields(protocol: Protocol) -> (r: Vec<&'static str>)
    ensures
        strs(r@) == known_fields(protocol),
{
    let r: Vec<&'static str> = match protocol {
        Protocol::ChatCompletions => vec![
            "model",
            "messages",
            "temperature",
            "top_p",
            "max_tokens",
            "stop",
            "stream",
            "stream_options",
            "tools",
            "tool_choice",
            "n",
            "user",
            "response_format",
            "frequency_penalty",
            "presence_penalty",
            "logit_bias",
            "logprobs",
            "top_logprobs",
            "modalities",
            "prediction",
            "reasoning_effort",
            "reasoning",
            "service_tier",
            "parallel_tool_calls",
            "store",
            "metadata",
            "annotations",
            "prompt_tags",
        ],
        Protocol::Responses => vec![
            "model",
            "input",
            "instructions",
            "temperature",
            "top_p",
            "max_output_tokens",
            "stop",
            "stream",
            "tools",
            "tool_choice",
            "truncation",
            "text",
            "output",
            "user",
            "metadata",
            "prompt_tags",
            "store",
            "replay",
            "reasoning",
            "reasoning_effort",
        ],
        Protocol::AnthropicMessages => vec![
            "model",
            "messages",
            "system",
            "temperature",
            "top_p",
            "max_tokens",
            "stop_sequences",
            "stream",
            "tools",
            "tool_choice",
            "metadata",
            "thinking",
            "output_config",
            "effort",
            "budget",
        ],
    };
    assert(strs(r@) =~= known_fields(protocol));
    r
}

/// Whether a text is among a list of string slices.
pub fn is_among(s: &str, list: &Vec<&'static str>) -> (r: bool)
    ensures
        r == strs(list@).contains(s@),
{
    let mut i: usize = 0;
    while i < list.len()
        invariant
            i <= list@.len(),
            forall|j: int| 0 <= j < i ==> list@[j]@ != s@,
        decreases list@.len() - i,
    {
        if same(list[i], s) {
            assert(strs(list@)[i as int] == s@);
            return true;
        }
        i += 1;
    }
    false
}

/// The texts that are not among `known`, in their order.
pub open spec fn others(s: Seq<Seq<char>>, known: Seq<Seq<char>>) -> Seq<Seq<char>>
    decreases s.len(),
{
    if s.len() == 0 {
        Seq::empty()
    } else if known.contains(s.last()) {
        others(s.drop_last(), known)
    } else {
        others(s.drop_last(), known).push(s.last())
    }
}

/// The fields of a body, in the order of their names, that are not known in its protocol.
pub open spec fn unmapped_fields(protocol: Protocol, body: JsonView) -> Seq<Seq<char>> {
    match body.as_object() {
        Some(m) => others(sorted_keys(m), known_fields(protocol)),
        None => Seq::empty(),
    }
}

/// Notes the fields of a body that are not known in its protocol.
pub fn detect_unmapped_fields(from: Protocol, body: &Json, canonical: &mut CanonicalRequest)
    ensures
        final(canonical)@ == (RequestView {
            unmapped: old(canonical)@.unmapped + unmapped_fields(from, body@),
            ..old(canonical)@
        }),
{
    let ghost start = canonical@.unmapped;
    let object = match body.as_object() {
        Some(o) => o,
        None => {
            assert(start + Seq::<Seq<char>>::empty() =~= start);
            return ;
        },
    };
    let known = list_known_fields(from);
    let n: usize = object.len();
    let ghost keys = sorted_keys(object@);
    let ghost fields = known_fields(from);
    let mut i: usize = 0;
    broadcast use texts_push;

    proof {
        take_ends(keys);
        assert(start + Seq::<Seq<char>>::empty() =~= start);
    }
    while i < n
        invariant
            i <= n,
            n == keys.len(),
            keys == sorted_keys(object@),
            fields == strs(known@),
            canonical@ == (RequestView {
                unmapped: start + others(keys.take(i as int), fields),
                ..old(canonical)@
            }),
        decreases n - i,
    {
        proof {
            take_step(keys, i as int);
        }
        let key = object.key_at(i);
        if !is_among(key, &known) {
            let ghost before = canonical.unmapped@;
            canonical.unmapped.push(key.clone());
            proof {
                let done = others(keys.take(i as int), fields);
                assert(texts(canonical.unmapped@) =~= texts(before).push(key@));
                assert((start + done).push(key@) =~= start + done.push(key@));
            }
        }
        i += 1;
    }
    proof {
        take_ends(keys);
    }
}

/// What a request of one protocol is in another.
pub open spec fn converted_request(from: Protocol, to: Protocol, body: JsonView) -> Result<
    JsonView,
    ConvertError,
> {
    match read_request(from, body) {
        Ok(q) => Ok(
            write_request(
                to,
                RequestView { unmapped: q.unmapped + unmapped_fields(from, body), ..q },
            ),
        ),
        Err(e) => Err(e),
    }
}

/// Turns a request of one protocol into one of another. This is the bare step: what the other
/// protocol cannot say is left out. `handlers::chat::plan_body` refuses such a request, and
/// completes the others to the form that upstreams expect.
pub fn convert_request(from: Protocol, to: Protocol, body: &Json) -> (r: Result<Json, ConvertError>)
    ensures
        match r {
            Ok(v) => converted_request(from, to, body@) == Ok::<JsonView, ConvertError>(v@),
            Err(e) => converted_request(from, to, body@) == Err::<JsonView, ConvertError>(e),
        },
{
    match request_to_canonical(from, body) {
        Ok(q) => {
            let mut canonical = q;
            detect_unmapped_fields(from, body, &mut canonical);
            canonical_to_request(to, &canonical)
        },
        Err(e) => Err(e),
    }
}

/// Turns a response of one protocol into one of another. It never fails. This is the bare step:
/// `handlers::chat::client_response` completes a response to the form that clients expect.
pub fn convert_response(from: Protocol, to: Protocol, body: &Json) -> (r: Result<Json, ConvertError>)
    ensures
        r is Ok,
        r->Ok_0@ == write_response(to, read_response(from, body@)),
{
    match response_to_canonical(from, body) {
        Ok(p) => canonical_to_response(to, &p),
        Err(e) => Err(e),
    }
}

} // verus!
