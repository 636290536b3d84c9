use llm_wrapper::transform::canonical::CanonicalStopReason;
use llm_wrapper::transform::drain::ResponsesDrain;
use llm_wrapper::transform::emit::{canonical_to_openai_sse, canonical_to_responses_sse, AnthropicSseWrapper};
use llm_wrapper::transform::pump::convert_stream_sse;
use llm_wrapper::transform::stream::{parse_stream_events, CanonicalStreamEvent, SseParser};
use llm_wrapper::transform::Protocol;
use serde_json::Value;

const CHAT: &str = "data: {\"choices\":[{\"delta\":{\"content\":\"He\"},\"index\":0}]}\n\n\
                    data: {\"choices\":[{\"delta\":{\"content\":\"llo\"},\"index\":0}]}\n\n\
                    data: {\"choices\":[{\"delta\":{},\"finish_reason\":\"stop\",\"index\":0}]}\n\n\
                    data: [DONE]\n\n";

fn joined(parts: Vec<Result<String, String>>) -> String {
    parts.into_iter().map(|p| p.unwrap()).collect()
}

fn data_lines(text: &str) -> Vec<Value> {
    text.lines()
        .filter_map(|l| l.strip_prefix("data: "))
        .filter_map(|l| serde_json::from_str(l).ok())
        .collect()
}

#[test]
fn pieces_of_a_stream_do_not_matter() {
    for to in [Protocol::ChatCompletions, Protocol::Responses, Protocol::AnthropicMessages] {
        let mut whole = convert_stream_sse(Protocol::ChatCompletions, to);
        let at_once = joined(whole.feed(CHAT.as_bytes()));
        for size in [1, 3, 17] {
            let mut c = convert_stream_sse(Protocol::ChatCompletions, to);
            let mut out = String::new();
            for piece in CHAT.as_bytes().chunks(size) {
                out.push_str(&joined(c.feed(piece)));
            }
            assert_eq!(out, at_once);
        }
    }
}

#[test]
fn a_piece_that_is_no_text_is_passed_over() {
    let mut p = SseParser::new();
    assert!(p.feed(b"data: \xc3").is_empty());
    assert!(p.feed(b"event: x\ndata: y").is_empty());
    let events = p.feed("é\n".as_bytes());
    assert_eq!(events.len(), 1);
    assert_eq!(events[0].event.as_deref(), Some("x"));
    assert_eq!(events[0].data, "yé");
}

#[test]
fn an_anthropic_stream_starts_once_and_stops_once() {
    let mut c = convert_stream_sse(Protocol::ChatCompletions, Protocol::AnthropicMessages);
    assert!(!c.is_ended());
    let out = joined(c.feed(CHAT.as_bytes()));
    assert!(c.is_ended());
    assert!(out.starts_with("event: message_start\n"));
    assert_eq!(out.matches("event: message_start\n").count(), 1);
    assert_eq!(out.matches("event: message_stop\n").count(), 1);
    let texts: String = data_lines(&out)
        .iter()
        .filter_map(|v| v["delta"]["text"].as_str().map(|s| s.to_string()))
        .collect();
    assert_eq!(texts, "Hello");
    assert_eq!(c.feed(CHAT.as_bytes()).len(), 0);
}

#[test]
fn written_streams_read_back() {
    let events = vec![
        CanonicalStreamEvent::TextDelta { text: "line\nbreak".to_string() },
        CanonicalStreamEvent::Stop { reason: CanonicalStopReason::EndTurn },
    ];
    for event in &events {
        let text = canonical_to_openai_sse(event).unwrap();
        let mut stream = parse_stream_events(Protocol::ChatCompletions);
        let back = stream.feed(text.as_bytes());
        assert!(back.contains(&Ok(clone_event(event))), "{:?}", back);
        let text = canonical_to_responses_sse(event).unwrap();
        let mut parser = SseParser::new();
        assert!(!parser.feed(text.as_bytes()).is_empty());
    }
}

fn clone_event(e: &CanonicalStreamEvent) -> CanonicalStreamEvent {
    match e {
        CanonicalStreamEvent::TextDelta { text } => CanonicalStreamEvent::TextDelta { text: text.clone() },
        CanonicalStreamEvent::Stop { reason } => CanonicalStreamEvent::Stop { reason: *reason },
        _ => unreachable!(),
    }
}

#[test]
fn a_writer_knows_that_it_has_stopped() {
    let mut w = AnthropicSseWrapper::new();
    let text = CanonicalStreamEvent::TextDelta { text: "a".to_string() };
    let stop = CanonicalStreamEvent::Stop { reason: CanonicalStopReason::EndTurn };
    let first: String = w.convert(&text).unwrap().concat();
    assert!(first.starts_with("event: message_start\n"));
    assert!(!w.is_stopped());
    let last: String = w.convert(&stop).unwrap().concat();
    assert!(last.ends_with("event: message_stop\ndata: {\"type\":\"message_stop\"}\n\n"));
    assert!(w.is_stopped());
}

#[test]
fn starts_come_before_deltas() {
    let kinds = |parts: &Vec<String>| -> Vec<String> {
        parts.iter().map(|p| p.lines().next().unwrap().replace("event: ", "")).collect()
    };
    let text = |t: &str| CanonicalStreamEvent::TextDelta { text: t.to_string() };
    let reasoning = CanonicalStreamEvent::ReasoningDelta { text: "hm".to_string() };
    let tool = CanonicalStreamEvent::ToolUseStart {
        id: "t".to_string(),
        index: Some(1),
        name: "f".to_string(),
        input: llm_wrapper::json::Json::object(),
    };
    for first in [&text("a"), &reasoning] {
        let mut w = AnthropicSseWrapper::new();
        assert_eq!(
            kinds(&w.convert(first).unwrap()),
            vec!["message_start", "content_block_start", "content_block_delta"]
        );
        assert_eq!(kinds(&w.convert(&text("b")).unwrap()), vec!["content_block_delta"]);
        assert_eq!(kinds(&w.convert(&tool).unwrap()), vec!["content_block_start"]);
    }
    let mut w = AnthropicSseWrapper::new();
    assert_eq!(kinds(&w.convert(&tool).unwrap()), vec!["message_start", "content_block_start"]);
    assert_eq!(kinds(&w.convert(&reasoning).unwrap()), vec!["content_block_delta"]);
}

#[test]
fn drained_pieces_do_not_matter_and_calls_stay_distinct() {
    let text = "data: {\"type\":\"response.output_item.added\",\"item\":{\"type\":\"function_call\",\"id\":\"i1\",\"call_id\":\"c1\",\"name\":\"f\"}}\n\n\
                data: {\"type\":\"response.output_item.added\",\"item\":{\"type\":\"function_call\",\"id\":\"i2\",\"call_id\":\"c2\",\"name\":\"g\"}}\n\n\
                data: {\"type\":\"response.function_call_arguments.delta\",\"item_id\":\"i2\",\"delta\":\"{}\"}\n\n\
                data: {\"type\":\"response.function_call_arguments.delta\",\"item_id\":\"i1\",\"delta\":\"[1]\"}\n\n";
    let mut d = ResponsesDrain::new();
    d.feed(text.as_bytes());
    let whole = d.finish(Some("m"), 5).unwrap();
    let mut d = ResponsesDrain::new();
    for b in text.as_bytes() {
        d.feed(&[*b]);
    }
    let pieces = d.finish(Some("m"), 5).unwrap();
    assert_eq!(whole, pieces);
    let mut d = ResponsesDrain::new();
    d.feed(text.trim_end().as_bytes());
    assert_eq!(d.finish(Some("m"), 5).unwrap(), whole);
    let v = llm_wrapper::codec::to_value(&whole);
    let calls: Vec<(String, String)> = v["output"]
        .as_array()
        .unwrap()
        .iter()
        .filter(|i| i["type"] == "function_call")
        .map(|i| {
            (i["call_id"].as_str().unwrap().to_string(), i["arguments"].as_str().unwrap().to_string())
        })
        .collect();
    assert_eq!(
        calls,
        vec![("c1".to_string(), "[1]".to_string()), ("c2".to_string(), "{}".to_string())]
    );
}
