#![allow(unused_imports, dead_code)]
use llm_wrapper::codec::{from_value, to_value};
use llm_wrapper::json::Json;
use llm_wrapper::transform::canonical::CanonicalStopReason;
use llm_wrapper::transform::drain;
use llm_wrapper::transform::emit::{
    canonical_to_anthropic_sse, canonical_to_openai_sse, canonical_to_responses_sse, AnthropicSseWrapper,
};
use llm_wrapper::transform::stream::{
    self, convert_openai_event, CanonicalStreamEvent, SseEvent, SseParser,
};
use serde_json::Value;

fn value(text: &str) -> Value {
    serde_json::from_str(text).unwrap()
}

fn data(text: &str) -> Json {
    Json::parse(text).unwrap()
}

fn with_response(response: Value) -> Value {
    let mut map = serde_json::Map::new();
    map.insert("type".to_string(), Value::from("response.completed"));
    map.insert("response".to_string(), response);
    Value::Object(map)
}

fn parse_openai_event(v: &Value) -> Result<CanonicalStreamEvent, String> {
    stream::parse_openai_event(&from_value(v))
}

fn parse_anthropic_event(name: Option<&str>, v: &Value) -> Result<Option<CanonicalStreamEvent>, String> {
    stream::parse_anthropic_event(name, &from_value(v))
}

fn parse_responses_event(v: &Value) -> Result<Option<CanonicalStreamEvent>, String> {
    stream::parse_responses_event(&from_value(v))
}

fn drain_responses_sse_bytes(chunks: Vec<Vec<u8>>, model: Option<&str>) -> Result<Value, String> {
    drain::drain_responses_sse_bytes(&chunks, model, 1_700_000_000).map(|v| to_value(&v))
}

#[test]
fn test_sse_parser_basic() {
    let mut parser = SseParser::new();
    let data = b"data: {\"test\": true}\n\n";
    let events = parser.feed(data);
    assert_eq!(events.len(), 1);
    assert_eq!(events[0].data, r#"{"test": true}"#);
    assert!(events[0].event.is_none());
}

#[test]
fn test_sse_parser_with_event() {
    let mut parser = SseParser::new();
    let data = b"event: content_block_delta\ndata: {\"text\": \"hello\"}\n\n";
    let events = parser.feed(data);
    assert_eq!(events.len(), 1);
    assert_eq!(events[0].event, Some("content_block_delta".to_string()));
}

#[test]
fn test_sse_parser_incomplete_line_across_chunks() {
    let mut parser = SseParser::new();

    // First chunk: data line split across TCP boundary (no trailing newline)
    let chunk1 = b"data: {\"choices\":[{\"delta\":{\"content\":\"";
    let events1 = parser.feed(chunk1);
    // Incomplete line should NOT be emitted as an event
    assert_eq!(events1.len(), 0);

    // Second chunk: completes the data line with newline
    let chunk2 = b"Hello\"}}]}\n\n";
    let events2 = parser.feed(chunk2);
    assert_eq!(events2.len(), 1);
    assert_eq!(
        events2[0].data,
        r#"{"choices":[{"delta":{"content":"Hello"}}]}"#
    );
}

#[test]
fn test_sse_parser_event_header_split_across_chunks() {
    let mut parser = SseParser::new();

    // First chunk: event header split
    let chunk1 = b"event: content_block";
    let events1 = parser.feed(chunk1);
    assert_eq!(events1.len(), 0);

    // Second chunk: completes event header + data line
    let chunk2 = b"_delta\ndata: {\"text\": \"hi\"}\n\n";
    let events2 = parser.feed(chunk2);
    assert_eq!(events2.len(), 1);
    assert_eq!(events2[0].event, Some("content_block_delta".to_string()));
    assert_eq!(events2[0].data, r#"{"text": "hi"}"#);
}

#[test]
fn test_canonical_to_openai_sse_text() {
    let event = CanonicalStreamEvent::TextDelta {
        text: "Hello".to_string(),
    };
    let output = canonical_to_openai_sse(&event).unwrap();
    assert!(output.starts_with("data:"));
    assert!(output.contains("Hello"));
}

#[test]
fn test_canonical_to_openai_sse_reasoning_content() {
    let event = CanonicalStreamEvent::ReasoningDelta {
        text: "thinking".to_string(),
    };
    let output = canonical_to_openai_sse(&event).unwrap();
    assert!(output.starts_with("data:"));
    assert!(output.contains("reasoning_content"));
    assert!(output.contains("thinking"));
}

#[test]
fn test_canonical_to_openai_sse_tool_call() {
    let start = CanonicalStreamEvent::ToolUseStart {
        id: "call_1".to_string(),
        index: Some(1),
        name: "search".to_string(),
        input: data(r#"{"q":"rust"}"#),
    };
    let start_out = canonical_to_openai_sse(&start).unwrap();
    assert!(start_out.contains("\"tool_calls\""));
    assert!(start_out.contains("\"name\":\"search\""));
    assert!(start_out.contains("\"id\":\"call_1\""));

    let delta = CanonicalStreamEvent::ToolInputDelta {
        tool_use_id: "call_1".to_string(),
        index: Some(1),
        input_chunk: "\"q\":\"r\"".to_string(),
    };
    let delta_out = canonical_to_openai_sse(&delta).unwrap();
    assert!(delta_out.contains("\"tool_calls\""));
    assert!(delta_out.contains("\"arguments\":\"\\\"q\\\":\\\"r\\\"\""));
}

#[test]
fn test_canonical_to_anthropic_sse_text() {
    let event = CanonicalStreamEvent::TextDelta {
        text: "Hello".to_string(),
    };
    let output = canonical_to_anthropic_sse(&event).unwrap();
    assert!(output.contains("content_block_delta"));
    assert!(output.contains("Hello"));
}

#[test]
fn test_canonical_to_anthropic_sse_tool_call() {
    let start = CanonicalStreamEvent::ToolUseStart {
        id: "toolu_1".to_string(),
        index: Some(2),
        name: "search".to_string(),
        input: data(r#"{"q":"rust"}"#),
    };
    let start_out = canonical_to_anthropic_sse(&start).unwrap();
    assert!(start_out.contains("content_block_start"));
    assert!(start_out.contains("\"type\":\"tool_use\""));
    assert!(start_out.contains("\"index\":2"));

    let delta = CanonicalStreamEvent::ToolInputDelta {
        tool_use_id: "toolu_1".to_string(),
        index: Some(2),
        input_chunk: "\"q\":\"r\"".to_string(),
    };
    let delta_out = canonical_to_anthropic_sse(&delta).unwrap();
    assert!(delta_out.contains("content_block_delta"));
    assert!(delta_out.contains("\"type\":\"input_json_delta\""));
}

#[test]
fn test_parse_openai_event_text() {
    let json = value(r#"{
        "choices": [{
            "delta": { "content": "Hello" }
        }]
    }"#);
    let event = parse_openai_event(&json).unwrap();
    match event {
        CanonicalStreamEvent::TextDelta { text } => assert_eq!(text, "Hello"),
        _ => panic!("expected TextDelta"),
    }
}

#[test]
fn test_parse_openai_event_reasoning_content() {
    let json = value(r#"{
        "choices": [{
            "delta": { "reasoning_content": "thinking" }
        }]
    }"#);
    let event = parse_openai_event(&json).unwrap();
    match event {
        CanonicalStreamEvent::ReasoningDelta { text } => assert_eq!(text, "thinking"),
        _ => panic!("expected ReasoningDelta"),
    }
}

#[test]
fn test_parse_openai_event_stop() {
    let json = value(r#"{
        "choices": [{
            "finish_reason": "stop"
        }]
    }"#);
    let event = parse_openai_event(&json).unwrap();
    match event {
        CanonicalStreamEvent::Stop { reason } => {
            assert_eq!(reason, CanonicalStopReason::EndTurn);
        }
        _ => panic!("expected Stop"),
    }
}

#[test]
fn test_parse_openai_event_tool_call() {
    let json = value(r#"{
        "choices": [{
            "delta": {
                "tool_calls": [{
                    "id": "call_123",
                    "function": { "name": "search", "arguments": "" }
                }]
            }
        }]
    }"#);
    let event = parse_openai_event(&json).unwrap();
    match event {
        CanonicalStreamEvent::ToolUseStart { id, name, .. } => {
            assert_eq!(id, "call_123");
            assert_eq!(name, "search");
        }
        _ => panic!("expected ToolUseStart"),
    }
}

#[test]
fn test_parse_openai_event_tool_call_with_arguments_in_same_chunk() {
    let json = value(r#"{
        "choices": [{
            "delta": {
                "tool_calls": [{
                    "id": "call_123",
                    "index": 0,
                    "function": { "name": "search", "arguments": "{\"q\":\"test\"}" }
                }]
            }
        }]
    }"#);
    let event = parse_openai_event(&json).unwrap();
    match event {
        CanonicalStreamEvent::ToolUseStart {
            id, name, input, ..
        } => {
            assert_eq!(id, "call_123");
            assert_eq!(name, "search");
            assert_eq!(to_value(&input), value(r#"{"q":"test"}"#));
        }
        _ => panic!("expected ToolUseStart with parsed input"),
    }
}

#[test]
fn test_parse_openai_event_tool_input_delta() {
    let json = value(r#"{
        "choices": [{
            "delta": {
                "tool_calls": [{
                    "id": "call_123",
                    "function": { "arguments": "{\"q\": \"test\"}" }
                }]
            }
        }]
    }"#);
    let event = parse_openai_event(&json).unwrap();
    match event {
        CanonicalStreamEvent::ToolInputDelta {
            tool_use_id,
            input_chunk,
            ..
        } => {
            assert_eq!(tool_use_id, "call_123");
            assert_eq!(input_chunk, "{\"q\": \"test\"}");
        }
        _ => panic!("expected ToolInputDelta"),
    }
}

#[test]
fn test_parse_openai_event_usage() {
    let json = value(r#"{
        "usage": {
            "prompt_tokens": 10,
            "completion_tokens": 20
        }
    }"#);
    let event = parse_openai_event(&json).unwrap();
    match event {
        CanonicalStreamEvent::Usage {
            input_tokens,
            output_tokens,
        } => {
            assert_eq!(input_tokens, 10);
            assert_eq!(output_tokens, 20);
        }
        _ => panic!("expected Usage"),
    }
}

#[test]
fn test_parse_anthropic_event_text_delta() {
    let json = value(r#"{
        "type": "content_block_delta",
        "index": 0,
        "delta": { "type": "text_delta", "text": "Hello" }
    }"#);
    let event = parse_anthropic_event(Some("content_block_delta"), &json).unwrap();
    match event {
        Some(CanonicalStreamEvent::TextDelta { text }) => assert_eq!(text, "Hello"),
        _ => panic!("expected Some(TextDelta)"),
    }
}

#[test]
fn test_parse_anthropic_event_thinking_delta() {
    let json = value(r#"{
        "type": "content_block_delta",
        "index": 0,
        "delta": { "type": "thinking_delta", "thinking": "thinking" }
    }"#);
    let event = parse_anthropic_event(Some("content_block_delta"), &json).unwrap();
    match event {
        Some(CanonicalStreamEvent::ReasoningDelta { text }) => assert_eq!(text, "thinking"),
        _ => panic!("expected Some(ReasoningDelta)"),
    }
}

#[test]
fn test_parse_anthropic_event_stop() {
    let json = value(r#"{
        "type": "message_delta",
        "stop_reason": "end_turn"
    }"#);
    let event = parse_anthropic_event(Some("message_delta"), &json).unwrap();
    match event {
        Some(CanonicalStreamEvent::Stop { reason }) => {
            assert_eq!(reason, CanonicalStopReason::EndTurn);
        }
        _ => panic!("expected Some(Stop)"),
    }
}

#[test]
fn test_parse_anthropic_event_tool_use() {
    let json = value(r#"{
        "type": "content_block_start",
        "index": 0,
        "content_block": {
            "type": "tool_use",
            "id": "toolu_123",
            "name": "search",
            "input": { "query": "test" }
        }
    }"#);
    let event = parse_anthropic_event(Some("content_block_start"), &json).unwrap();
    match event {
        Some(CanonicalStreamEvent::ToolUseStart { id, name, .. }) => {
            assert_eq!(id, "toolu_123");
            assert_eq!(name, "search");
        }
        _ => panic!("expected Some(ToolUseStart)"),
    }
}

#[test]
fn test_parse_anthropic_event_skip_ping() {
    let json = value(r#"{}"#);
    let event = parse_anthropic_event(Some("ping"), &json).unwrap();
    assert!(event.is_none());
}

#[test]
fn test_parse_anthropic_event_input_json_delta() {
    let json = value(r#"{
        "type": "content_block_delta",
        "index": 2,
        "delta": { "type": "input_json_delta", "partial_json": "\"query\"" }
    }"#);
    let event = parse_anthropic_event(Some("content_block_delta"), &json).unwrap();
    match event {
        Some(CanonicalStreamEvent::ToolInputDelta {
            tool_use_id,
            input_chunk,
            ..
        }) => {
            assert_eq!(tool_use_id, "tool_2");
            assert_eq!(input_chunk, "\"query\"");
        }
        _ => panic!("expected Some(ToolInputDelta)"),
    }
}

#[test]
fn test_parse_responses_event_text_delta() {
    let json = value(r#"{
        "type": "response.output_text.delta",
        "delta": "Hello"
    }"#);
    let event = parse_responses_event(&json).unwrap();
    match event {
        Some(CanonicalStreamEvent::TextDelta { text }) => assert_eq!(text, "Hello"),
        _ => panic!("expected Some(TextDelta)"),
    }
}

#[test]
fn test_parse_responses_event_reasoning_delta() {
    let json = value(r#"{
        "type": "response.reasoning.delta",
        "delta": "thinking"
    }"#);
    let event = parse_responses_event(&json).unwrap();
    match event {
        Some(CanonicalStreamEvent::ReasoningDelta { text }) => assert_eq!(text, "thinking"),
        _ => panic!("expected Some(ReasoningDelta)"),
    }
}

#[test]
fn test_canonical_to_responses_sse_tool_call() {
    let start = CanonicalStreamEvent::ToolUseStart {
        id: "call_1".to_string(),
        index: Some(0),
        name: "search".to_string(),
        input: data(r#"{"q":"rust"}"#),
    };
    let start_out = canonical_to_responses_sse(&start).unwrap();
    assert!(start_out.contains("response.function_call.completed"));
    assert!(start_out.contains("\"name\":\"search\""));

    let delta = CanonicalStreamEvent::ToolInputDelta {
        tool_use_id: "call_1".to_string(),
        index: Some(0),
        input_chunk: "{\"q\":\"".to_string(),
    };
    let delta_out = canonical_to_responses_sse(&delta).unwrap();
    assert!(delta_out.contains("response.function_call.parameter_delta"));
    assert!(delta_out.contains("\"id\":\"call_1\""));
}

#[test]
fn test_parse_responses_event_function_call_completed() {
    let json = value(r#"{
        "type": "response.function_call.completed",
        "id": "call_123",
        "name": "search",
        "arguments": "{\"query\": \"test\"}"
    }"#);
    let event = parse_responses_event(&json).unwrap();
    match event {
        Some(CanonicalStreamEvent::ToolUseStart { id, name, .. }) => {
            assert_eq!(id, "call_123");
            assert_eq!(name, "search");
        }
        _ => panic!("expected Some(ToolUseStart)"),
    }
}

#[test]
fn test_parse_responses_event_parameter_delta() {
    let json = value(r#"{
        "type": "response.function_call.parameter_delta",
        "id": "call_123",
        "delta": "{\"query\": \""
    }"#);
    let event = parse_responses_event(&json).unwrap();
    match event {
        Some(CanonicalStreamEvent::ToolInputDelta {
            tool_use_id,
            input_chunk,
            ..
        }) => {
            assert_eq!(tool_use_id, "call_123");
            assert_eq!(input_chunk, "{\"query\": \"");
        }
        _ => panic!("expected Some(ToolInputDelta)"),
    }
}

#[test]
fn test_parse_responses_event_function_call_arguments_delta() {
    let json = value(r#"{
        "type": "response.function_call_arguments.delta",
        "call_id": "call_456",
        "output_index": 1,
        "delta": "{\"city\":\"Sh"
    }"#);
    let event = parse_responses_event(&json).unwrap();
    match event {
        Some(CanonicalStreamEvent::ToolInputDelta {
            tool_use_id,
            index,
            input_chunk,
        }) => {
            assert_eq!(tool_use_id, "call_456");
            assert_eq!(index, Some(1));
            assert_eq!(input_chunk, "{\"city\":\"Sh");
        }
        _ => panic!("expected Some(ToolInputDelta)"),
    }
}

#[test]
fn test_parse_responses_event_output_item_added_function_call() {
    let json = value(r#"{
        "type": "response.output_item.added",
        "output_index": 0,
        "item": {
            "type": "function_call",
            "call_id": "call_789",
            "name": "get_weather",
            "arguments": "{\"city\":\"Shanghai\"}"
        }
    }"#);
    let event = parse_responses_event(&json).unwrap();
    match event {
        Some(CanonicalStreamEvent::ToolUseStart {
            id,
            index,
            name,
            input,
        }) => {
            assert_eq!(id, "call_789");
            assert_eq!(index, Some(0));
            assert_eq!(name, "get_weather");
            assert_eq!(to_value(&input), value(r#""{\"city\":\"Shanghai\"}""#));
        }
        _ => panic!("expected Some(ToolUseStart)"),
    }
}

#[test]
fn test_parse_responses_event_prefers_call_id_over_internal_id() {
    let json = value(r#"{
        "type": "response.output_item.added",
        "output_index": 0,
        "item": {
            "type": "function_call",
            "id": "fc_abc",
            "call_id": "call_xyz",
            "name": "get_weather",
            "arguments": "{\"city\":\"Tokyo\"}"
        }
    }"#);
    let event = parse_responses_event(&json).unwrap();
    match event {
        Some(CanonicalStreamEvent::ToolUseStart { id, .. }) => {
            assert_eq!(id, "call_xyz");
        }
        _ => panic!("expected Some(ToolUseStart)"),
    }
}

#[test]
fn test_parse_responses_event_output_item_delta_function_call() {
    let json = value(r#"{
        "type": "response.output_item.delta",
        "output_index": 2,
        "item": {
            "type": "function_call",
            "id": "call_999",
            "arguments_delta": "\"city\":\"Shang"
        }
    }"#);
    let event = parse_responses_event(&json).unwrap();
    match event {
        Some(CanonicalStreamEvent::ToolInputDelta {
            tool_use_id,
            index,
            input_chunk,
        }) => {
            assert_eq!(tool_use_id, "call_999");
            assert_eq!(index, Some(2));
            assert_eq!(input_chunk, "\"city\":\"Shang");
        }
        _ => panic!("expected Some(ToolInputDelta)"),
    }
}

#[test]
fn test_parse_responses_event_done() {
    let json = value(r#"{
        "type": "response.done",
        "usage": {
            "input_tokens": 10,
            "output_tokens": 20
        }
    }"#);
    let event = parse_responses_event(&json).unwrap();
    match event {
        Some(CanonicalStreamEvent::Stop { reason }) => {
            assert_eq!(reason, CanonicalStopReason::EndTurn);
        }
        _ => panic!("expected Some(Stop)"),
    }
}

#[test]
fn test_parse_responses_event_completed_with_function_call_is_tool_use() {
    let json = value(r#"{
        "type": "response.completed",
        "response": {
            "status": "completed",
            "output": [
                {
                    "type": "function_call",
                    "call_id": "call_1",
                    "name": "hello_tool",
                    "arguments": "{\"name\":\"world\"}"
                }
            ]
        }
    }"#);
    let event = parse_responses_event(&json).unwrap();
    match event {
        Some(CanonicalStreamEvent::Stop { reason }) => {
            assert_eq!(reason, CanonicalStopReason::ToolUse);
        }
        _ => panic!("expected Some(Stop)"),
    }
}

#[test]
fn test_parse_responses_event_output_item_done_ignored() {
    let json = value(r#"{
        "type": "response.output_item.done",
        "output_index": 0,
        "item": {
            "type": "function_call",
            "call_id": "call_1",
            "name": "hello_tool",
            "arguments": "{\"name\":\"world\"}"
        }
    }"#);
    let event = parse_responses_event(&json).unwrap();
    assert!(event.is_none());
}

#[test]
fn test_parse_responses_event_unknown_type() {
    let json = value(r#"{
        "type": "response.created",
        "id": "resp_123"
    }"#);
    let event = parse_responses_event(&json).unwrap();
    match event {
        Some(CanonicalStreamEvent::Raw { data, .. }) => {
            assert!(data.contains("resp_123"));
        }
        _ => panic!("expected Some(Raw)"),
    }
}

#[test]
fn test_openai_done_marker() {
    let sse = SseEvent {
        event: None,
        data: "[DONE]".to_string(),
    };
    let event = convert_openai_event(&sse).unwrap();
    match event {
        CanonicalStreamEvent::Raw { data, .. } => assert_eq!(data, "[DONE]"),
        _ => panic!("expected Raw [DONE]"),
    }
}

#[test]
fn test_drain_responses_sse_captures_completed_response() {
    let completed = value(r#"{
        "id": "resp_x",
        "object": "response",
        "status": "completed",
        "output": [{"type":"message","content":[{"type":"output_text","text":"hi"}]}],
        "usage": {"input_tokens": 3, "output_tokens": 1}
    }"#);
    let chunks = vec![
        br#"event: response.created
data: {"response":{"id":"resp_x"}}

"#
        .to_vec(),
        br#"event: response.output_text.delta
data: {"type":"response.output_text.delta","delta":"h"}

"#
        .to_vec(),
        br#"event: response.output_text.delta
data: {"type":"response.output_text.delta","delta":"i"}

"#
        .to_vec(),
        format!(
            "event: response.completed\ndata: {}\n\n",
            with_response(completed)
        )
        .into_bytes(),
    ];

    let out = drain_responses_sse_bytes(
        chunks,
        Some("gpt-5.5"),
    )
    .unwrap();
    assert_eq!(out["id"], "resp_x");
    assert_eq!(out["status"], "completed");
    assert_eq!(out["usage"]["input_tokens"], 3);
    assert_eq!(out["output"][0]["content"][0]["text"], "hi");
}

#[test]
fn test_drain_responses_sse_flushes_final_unterminated_line() {
    let completed = value(r#"{
        "response": {
            "id": "resp_short",
            "status": "completed",
            "output": [{"type":"message","content":[{"type":"output_text","text":"ok"}]}],
            "usage": {"input_tokens": 1, "output_tokens": 1}
        }
    }"#);
    let chunks = vec![
        br#"event: response.output_text.delta
data: {"type":"response.output_text.delta","delta":"ok"}

"#
        .to_vec(),
        format!(
            "event: response.completed\ndata: {}",
            with_response(completed["response"].clone())
        )
        .into_bytes(),
    ];

    let out = drain_responses_sse_bytes(
        chunks,
        Some("gpt-5.5"),
    )
    .unwrap();
    assert_eq!(out["id"], "resp_short");
    assert_eq!(out["status"], "completed");
    assert_eq!(out["output"][0]["content"][0]["text"], "ok");
}

#[test]
fn test_drain_responses_sse_item_id_differs_from_call_id() {
    let chunks = vec![
        br#"event: response.output_item.added
data: {"type":"response.output_item.added","item":{"id":"fc_abc","call_id":"call_xyz","type":"function_call","name":"get_weather"}}

"#
        .to_vec(),
        br#"event: response.function_call_arguments.delta
data: {"type":"response.function_call_arguments.delta","item_id":"fc_abc","delta":"{\"city\":\""}

"#
        .to_vec(),
        br#"event: response.function_call_arguments.delta
data: {"type":"response.function_call_arguments.delta","item_id":"fc_abc","delta":"Tokyo\"}"}

"#
        .to_vec(),
        br#"event: response.output_item.done
data: {"type":"response.output_item.done","item":{"id":"fc_abc","call_id":"call_xyz","type":"function_call","name":"get_weather","arguments":"{\"city\":\"Tokyo\"}"}}

"#
        .to_vec(),
        br#"event: response.completed
data: {"type":"response.completed","response":{"status":"completed"}}

"#
        .to_vec(),
    ];

    let out = drain_responses_sse_bytes(
        chunks,
        Some("gpt-5.5"),
    )
    .unwrap();
    let output = out["output"].as_array().unwrap();
    assert_eq!(output.len(), 1);
    assert_eq!(output[0]["type"], "function_call");
    assert_eq!(output[0]["call_id"], "call_xyz");
    assert_eq!(output[0]["arguments"], "{\"city\":\"Tokyo\"}");
}

#[test]
fn test_drain_responses_sse_aggregates_reasoning_and_tool_args_without_completed() {
    let chunks = vec![
        br#"event: response.reasoning_summary_text.delta
data: {"type":"response.reasoning_summary_text.delta","delta":"think "}

"#
        .to_vec(),
        br#"event: response.reasoning_summary_text.delta
data: {"type":"response.reasoning_summary_text.delta","delta":"more"}

"#
        .to_vec(),
        br#"event: response.output_item.added
data: {"type":"response.output_item.added","item":{"type":"function_call","call_id":"c1","name":"do_thing"}}

"#
        .to_vec(),
        br#"event: response.function_call_arguments.delta
data: {"type":"response.function_call_arguments.delta","item_id":"c1","delta":"{\"a\":"}

"#
        .to_vec(),
        br#"event: response.function_call_arguments.delta
data: {"type":"response.function_call_arguments.delta","item_id":"c1","delta":"1}"}

"#
        .to_vec(),
    ];

    let out = drain_responses_sse_bytes(
        chunks,
        Some("gpt-5.5"),
    )
    .unwrap();
    let output = out["output"].as_array().unwrap();
    assert_eq!(output[0]["type"], "reasoning");
    assert_eq!(output[0]["summary"][0]["text"], "think more");
    assert_eq!(output[1]["type"], "function_call");
    assert_eq!(output[1]["name"], "do_thing");
    assert_eq!(output[1]["arguments"], "{\"a\":1}");
}

#[test]
fn test_drain_responses_sse_surfaces_failed_error() {
    let chunks = vec![br#"event: response.failed
data: {"type":"response.failed","response":{"error":{"message":"boom"}}}

"#
    .to_vec()];

    let err = drain_responses_sse_bytes(
        chunks,
        Some("gpt-5.5"),
    )
    .unwrap_err();
    assert!(err.contains("boom"));
}
