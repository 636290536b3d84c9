#![allow(unused_imports, dead_code)]
use llm_wrapper::codec::{from_value, to_value};
use llm_wrapper::json::Json;
use llm_wrapper::number::Double;
use llm_wrapper::transform::canonical::{
    CanonicalContentBlock, CanonicalImageSource, CanonicalMessage, CanonicalRequest, CanonicalResponse,
    CanonicalRole, CanonicalStopReason, CanonicalTool, CanonicalUsage, ConvertError,
};
use llm_wrapper::transform::responses;
use serde_json::Value;

fn json(text: &str) -> Value {
    serde_json::from_str(text).unwrap()
}

fn data(text: &str) -> Json {
    Json::parse(text).unwrap()
}

fn double(text: &str) -> Double {
    match Json::parse(text) {
        Some(Json::Number(n)) => n.as_double(),
        _ => panic!("not a number"),
    }
}

fn to_canonical_request(body: &Value) -> Result<CanonicalRequest, ConvertError> {
    responses::to_canonical_request(&from_value(body))
}

fn from_canonical_request(canonical: &CanonicalRequest) -> Result<Value, ConvertError> {
    responses::from_canonical_request(canonical).map(|v| to_value(&v))
}

fn to_canonical_response(body: &Value) -> Result<CanonicalResponse, ConvertError> {
    responses::to_canonical_response(&from_value(body))
}

fn from_canonical_response(canonical: &CanonicalResponse) -> Result<Value, ConvertError> {
    responses::from_canonical_response(canonical).map(|v| to_value(&v))
}

#[test]
fn test_string_input_to_canonical() {
    let body = json(r#"{
        "model": "gpt-4",
        "input": "Hello, world!"
    }"#);
    let req = to_canonical_request(&body).unwrap();
    assert_eq!(req.model, "gpt-4");
    assert_eq!(req.messages.len(), 1);
    assert_eq!(req.messages[0].role, CanonicalRole::User);
    assert_eq!(req.messages[0].content.len(), 1);
    if let CanonicalContentBlock::Text { text } = &req.messages[0].content[0] {
        assert_eq!(text, "Hello, world!");
    } else {
        panic!("expected text block");
    }
}

#[test]
fn test_array_input_with_messages() {
    let body = json(r#"{
        "model": "gpt-4",
        "input": [
            {
                "type": "message",
                "role": "user",
                "content": "What is the weather?"
            },
            {
                "type": "message",
                "role": "assistant",
                "content": "Let me check."
            }
        ]
    }"#);
    let req = to_canonical_request(&body).unwrap();
    assert_eq!(req.messages.len(), 2);
    assert_eq!(req.messages[0].role, CanonicalRole::User);
    assert_eq!(req.messages[1].role, CanonicalRole::Assistant);
}

#[test]
fn test_instructions_to_system() {
    let body = json(r#"{
        "model": "gpt-4",
        "input": "Hello",
        "instructions": "You are a helpful assistant."
    }"#);
    let req = to_canonical_request(&body).unwrap();
    assert!(req.system.is_some());
    let sys = req.system.unwrap();
    assert_eq!(sys.len(), 1);
    if let CanonicalContentBlock::Text { text } = &sys[0] {
        assert_eq!(text, "You are a helpful assistant.");
    } else {
        panic!("expected text block");
    }
}

#[test]
fn test_max_output_tokens_mapping() {
    let body = json(r#"{
        "model": "gpt-4",
        "input": "Hello",
        "max_output_tokens": 100
    }"#);
    let req = to_canonical_request(&body).unwrap();
    assert_eq!(req.max_tokens, Some(100));
}

#[test]
fn test_tools_mapping() {
    let body = json(r#"{
        "model": "gpt-4",
        "input": "Hello",
        "tools": [
            {
                "type": "function",
                "name": "get_weather",
                "description": "Get weather info",
                "parameters": {
                    "type": "object",
                    "properties": {
                        "location": {"type": "string"}
                    }
                }
            }
        ]
    }"#);
    let req = to_canonical_request(&body).unwrap();
    assert!(req.tools.is_some());
    let tools = req.tools.unwrap();
    assert_eq!(tools.len(), 1);
    assert_eq!(tools[0].name, "get_weather");
    assert_eq!(tools[0].description, Some("Get weather info".to_string()));
}

#[test]
fn test_function_call_output_to_tool_result() {
    let body = json(r#"{
        "model": "gpt-4",
        "input": [
            {
                "type": "message",
                "role": "user",
                "content": "What is 2+2?"
            },
            {
                "type": "function_call_output",
                "call_id": "call_123",
                "output": "4"
            }
        ]
    }"#);
    let req = to_canonical_request(&body).unwrap();
    assert_eq!(req.messages.len(), 2);
    assert_eq!(req.messages[1].role, CanonicalRole::User);
    assert_eq!(req.messages[1].content.len(), 1);
    if let CanonicalContentBlock::ToolResult { tool_use_id, .. } = &req.messages[1].content[0] {
        assert_eq!(tool_use_id, "call_123");
    } else {
        panic!("expected tool result block");
    }
}

#[test]
fn test_from_canonical_request_rewrites_missing_tool_result_placeholder() {
    let canonical = CanonicalRequest {
        model: "gpt-4".to_string(),
        messages: vec![CanonicalMessage {
            role: CanonicalRole::User,
            content: vec![CanonicalContentBlock::ToolResult {
                tool_use_id: "call_abc".to_string(),
                content: vec![CanonicalContentBlock::Text {
                    text: "[Tool result missing due to internal error]".to_string(),
                }],
            }],
        }],
        system: None,
        temperature: None,
        top_p: None,
        max_tokens: None,
        stop_sequences: None,
        stream: false,
        tools: None,
        tool_choice: None,
        reasoning_effort: None,
        unmapped: vec![],
    };

    let result = from_canonical_request(&canonical).unwrap();
    let input = result["input"].as_array().unwrap();
    assert_eq!(input.len(), 1);
    assert_eq!(input[0]["type"], "function_call_output");
    assert_eq!(input[0]["call_id"], "call_abc");
    assert!(input[0]["output"]
        .as_str()
        .unwrap()
        .contains("Please retry the same tool call"));
}

#[test]
fn test_from_canonical_request_basic() {
    let canonical = CanonicalRequest {
        model: "gpt-4".to_string(),
        messages: vec![CanonicalMessage {
            role: CanonicalRole::User,
            content: vec![CanonicalContentBlock::Text {
                text: "Hello".to_string(),
            }],
        }],
        system: Some(vec![CanonicalContentBlock::Text {
            text: "You are helpful".to_string(),
        }]),
        temperature: Some(double("0.7")),
        top_p: None,
        max_tokens: Some(100),
        stop_sequences: None,
        stream: false,
        tools: None,
        tool_choice: None,
        reasoning_effort: None,
        unmapped: vec![],
    };

    let result = from_canonical_request(&canonical).unwrap();
    assert_eq!(result["model"], "gpt-4");
    assert_eq!(result["instructions"], "You are helpful");
    assert_eq!(result["max_output_tokens"], 100);
    assert_eq!(result["temperature"], 0.7);
}

#[test]
fn test_from_canonical_request_with_tool_use() {
    let canonical = CanonicalRequest {
        model: "gpt-4".to_string(),
        messages: vec![
            CanonicalMessage {
                role: CanonicalRole::User,
                content: vec![CanonicalContentBlock::Text {
                    text: "What is the weather?".to_string(),
                }],
            },
            CanonicalMessage {
                role: CanonicalRole::Assistant,
                content: vec![CanonicalContentBlock::ToolUse {
                    id: "call_abc".to_string(),
                    name: "get_weather".to_string(),
                    input: data(r#"{"location": "NYC"}"#),
                }],
            },
        ],
        system: None,
        temperature: None,
        top_p: None,
        max_tokens: None,
        stop_sequences: None,
        stream: false,
        tools: None,
        tool_choice: None,
        reasoning_effort: None,
        unmapped: vec![],
    };

    let result = from_canonical_request(&canonical).unwrap();
    let input = result["input"].as_array().unwrap();
    assert!(input.len() >= 2);
    // Last item should be a function_call
    let last = input.last().unwrap();
    assert_eq!(last["type"], "function_call");
    assert_eq!(last["call_id"], "call_abc");
    assert!(last.get("id").is_none());
    assert_eq!(last["name"], "get_weather");
}

#[test]
fn test_to_canonical_response_with_text() {
    let body = json(r#"{
        "id": "resp_123",
        "model": "gpt-4",
        "output": [
            {
                "type": "message",
                "content": [
                    {"type": "text", "text": "Hello there!"}
                ]
            }
        ],
        "status": "completed",
        "stop_reason": "end_turn",
        "usage": {
            "input_tokens": 10,
            "output_tokens": 20
        }
    }"#);
    let resp = to_canonical_response(&body).unwrap();
    assert_eq!(resp.id, "resp_123");
    assert_eq!(resp.model, "gpt-4");
    assert_eq!(resp.content.len(), 1);
    if let CanonicalContentBlock::Text { text } = &resp.content[0] {
        assert_eq!(text, "Hello there!");
    } else {
        panic!("expected text block");
    }
    assert_eq!(resp.stop_reason, Some(CanonicalStopReason::EndTurn));
    assert!(resp.usage.is_some());
    let usage = resp.usage.unwrap();
    assert_eq!(usage.input_tokens, 10);
    assert_eq!(usage.output_tokens, 20);
}

#[test]
fn test_to_canonical_response_preserves_reasoning_blocks() {
    let body = json(r#"{
        "id": "resp_reasoning",
        "model": "qwen",
        "output": [
            {
                "type": "reasoning",
                "content": [
                    {
                        "type": "reasoning_text",
                        "text": "hidden thinking"
                    }
                ]
            },
            {
                "type": "message",
                "content": [
                    {
                        "type": "output_text",
                        "text": "OK"
                    }
                ]
            }
        ],
        "status": "completed",
        "usage": {
            "input_tokens": 10,
            "output_tokens": 2
        }
    }"#);

    let resp = to_canonical_response(&body).unwrap();
    assert_eq!(resp.content.len(), 2);
    assert!(matches!(
        &resp.content[0],
        CanonicalContentBlock::Reasoning { text } if text == "hidden thinking"
    ));
    assert!(matches!(
        &resp.content[1],
        CanonicalContentBlock::Text { text } if text == "OK"
    ));
}

#[test]
fn test_to_canonical_response_with_function_call() {
    let body = json(r#"{
        "id": "resp_456",
        "model": "gpt-4",
        "output": [
            {
                "type": "function_call",
                "id": "call_xyz",
                "name": "search",
                "arguments": "{\"query\":\"test\"}"
            }
        ],
        "status": "completed",
        "stop_reason": "tool_calls"
    }"#);
    let resp = to_canonical_response(&body).unwrap();
    assert_eq!(resp.content.len(), 1);
    if let CanonicalContentBlock::ToolUse { id, name, input } = &resp.content[0] {
        assert_eq!(id, "call_xyz");
        assert_eq!(name, "search");
        assert_eq!(to_value(input)["query"], "test");
    } else {
        panic!("expected tool use block");
    }
    assert_eq!(resp.stop_reason, Some(CanonicalStopReason::ToolUse));
}

#[test]
fn test_to_canonical_response_with_function_call_prefers_call_id() {
    let body = json(r#"{
        "id": "resp_456",
        "model": "gpt-4",
        "output": [
            {
                "type": "function_call",
                "id": "fc_internal_1",
                "call_id": "call_public_1",
                "name": "search",
                "arguments": "{\"query\":\"test\"}"
            }
        ],
        "status": "completed",
        "stop_reason": "tool_calls"
    }"#);
    let resp = to_canonical_response(&body).unwrap();
    assert_eq!(resp.content.len(), 1);
    if let CanonicalContentBlock::ToolUse { id, name, input } = &resp.content[0] {
        assert_eq!(id, "call_public_1");
        assert_eq!(name, "search");
        assert_eq!(to_value(input)["query"], "test");
    } else {
        panic!("expected tool use block");
    }
}

#[test]
fn test_from_canonical_response_with_text() {
    let canonical = CanonicalResponse {
        id: "resp_789".to_string(),
        model: "gpt-4".to_string(),
        content: vec![CanonicalContentBlock::Text {
            text: "Here is the answer.".to_string(),
        }],
        stop_reason: Some(CanonicalStopReason::EndTurn),
        usage: Some(CanonicalUsage {
            input_tokens: 50,
            output_tokens: 30,
            total_tokens: Some(80),
        }),
    };

    let result = from_canonical_response(&canonical).unwrap();
    assert_eq!(result["id"], "resp_789");
    assert_eq!(result["status"], "completed");
    assert_eq!(result["stop_reason"], "end_turn");
    assert_eq!(result["usage"]["input_tokens"], 50);
    assert_eq!(result["usage"]["total_tokens"], 80);
}

#[test]
fn test_from_canonical_response_with_tool_use() {
    let canonical = CanonicalResponse {
        id: "resp_tool".to_string(),
        model: "gpt-4".to_string(),
        content: vec![
            CanonicalContentBlock::Text {
                text: "Let me search.".to_string(),
            },
            CanonicalContentBlock::ToolUse {
                id: "call_1".to_string(),
                name: "search".to_string(),
                input: data(r#"{"q": "test"}"#),
            },
        ],
        stop_reason: Some(CanonicalStopReason::ToolUse),
        usage: None,
    };

    let result = from_canonical_response(&canonical).unwrap();
    let output = result["output"].as_array().unwrap();
    assert_eq!(output.len(), 2);
    // First should be message with text
    assert_eq!(output[0]["type"], "message");
    // Second should be function_call
    assert_eq!(output[1]["type"], "function_call");
    assert_eq!(output[1]["name"], "search");
}

#[test]
fn test_from_canonical_tools_mapping() {
    let canonical = CanonicalRequest {
        model: "gpt-4".to_string(),
        messages: vec![CanonicalMessage {
            role: CanonicalRole::User,
            content: vec![CanonicalContentBlock::Text {
                text: "Hi".to_string(),
            }],
        }],
        system: None,
        temperature: None,
        top_p: None,
        max_tokens: None,
        stop_sequences: None,
        stream: false,
        tools: Some(vec![CanonicalTool {
            name: "calc".to_string(),
            description: Some("Calculate".to_string()),
            input_schema: data(r#"{"type": "object"}"#),
        }]),
        tool_choice: None,
        reasoning_effort: None,
        unmapped: vec![],
    };

    let result = from_canonical_request(&canonical).unwrap();
    let tools = result["tools"].as_array().unwrap();
    assert_eq!(tools.len(), 1);
    assert_eq!(tools[0]["type"], "function");
    assert_eq!(tools[0]["name"], "calc");
    assert_eq!(tools[0]["description"], "Calculate");
    assert_eq!(tools[0]["strict"], false);
}

#[test]
fn test_from_canonical_tool_choice_any_maps_to_required() {
    let canonical = CanonicalRequest {
        model: "gpt-4".to_string(),
        messages: vec![CanonicalMessage {
            role: CanonicalRole::User,
            content: vec![CanonicalContentBlock::Text {
                text: "Use a tool".to_string(),
            }],
        }],
        system: None,
        temperature: None,
        top_p: None,
        max_tokens: None,
        stop_sequences: None,
        stream: false,
        tools: None,
        tool_choice: Some(data(r#"{"type":"any"}"#)),
        reasoning_effort: None,
        unmapped: vec![],
    };

    let result = from_canonical_request(&canonical).unwrap();
    assert_eq!(result["tool_choice"], "required");
}

#[test]
fn test_from_canonical_tool_choice_tool_maps_to_function() {
    let canonical = CanonicalRequest {
        model: "gpt-4".to_string(),
        messages: vec![CanonicalMessage {
            role: CanonicalRole::User,
            content: vec![CanonicalContentBlock::Text {
                text: "Use weather tool".to_string(),
            }],
        }],
        system: None,
        temperature: None,
        top_p: None,
        max_tokens: None,
        stop_sequences: None,
        stream: false,
        tools: None,
        tool_choice: Some(data(r#"{"type":"tool","name":"get_weather"}"#)),
        reasoning_effort: None,
        unmapped: vec![],
    };

    let result = from_canonical_request(&canonical).unwrap();
    assert_eq!(
        result["tool_choice"],
        json(r#"{"type":"function","name":"get_weather"}"#)
    );
}

#[test]
fn responses_test_to_canonical_request_parses_reasoning_effort() {
    let body = json(r#"{
        "model": "gpt-4.1",
        "input": "hello",
        "reasoning": {"effort": "high"}
    }"#);
    let req = to_canonical_request(&body).unwrap();
    assert_eq!(req.reasoning_effort.as_deref(), Some("high"));
}

#[test]
fn test_from_canonical_request_emits_reasoning_effort_to_reasoning() {
    let canonical = CanonicalRequest {
        model: "gpt-5.3-codex".to_string(),
        messages: vec![CanonicalMessage {
            role: CanonicalRole::User,
            content: vec![CanonicalContentBlock::Text {
                text: "hi".to_string(),
            }],
        }],
        system: None,
        temperature: None,
        top_p: None,
        max_tokens: None,
        stop_sequences: None,
        stream: false,
        tools: None,
        tool_choice: None,
        reasoning_effort: Some("medium".to_string()),
        unmapped: vec![],
    };

    let result = from_canonical_request(&canonical).unwrap();
    assert_eq!(result["reasoning"]["effort"], "medium");
}

#[test]
fn test_stop_reason_mapping() {
    // Max tokens
    let body = json(r#"{
        "id": "r1", "model": "gpt-4", "output": [],
        "status": "completed", "stop_reason": "max_output_tokens"
    }"#);
    let resp = to_canonical_response(&body).unwrap();
    assert_eq!(resp.stop_reason, Some(CanonicalStopReason::MaxTokens));

    // In progress
    let body = json(r#"{
        "id": "r2", "model": "gpt-4", "output": [],
        "status": "in_progress"
    }"#);
    let resp = to_canonical_response(&body).unwrap();
    assert_eq!(resp.stop_reason, None);

    // Incomplete
    let body = json(r#"{
        "id": "r3", "model": "gpt-4", "output": [],
        "status": "incomplete"
    }"#);
    let resp = to_canonical_response(&body).unwrap();
    assert_eq!(resp.stop_reason, Some(CanonicalStopReason::MaxTokens));
}

#[test]
fn test_stop_reason_infers_tool_use_from_function_call_output() {
    let body = json(r#"{
        "id": "r_tool",
        "model": "gpt-4",
        "status": "completed",
        "output": [
            {
                "type": "function_call",
                "call_id": "call_1",
                "name": "echo_tool",
                "arguments": "{\"text\":\"hi\"}"
            }
        ]
    }"#);
    let resp = to_canonical_response(&body).unwrap();
    assert_eq!(resp.stop_reason, Some(CanonicalStopReason::ToolUse));
}

#[test]
fn test_reasoning_summary_text_parsing() {
    let body = json(r#"{
        "id": "resp_reasoning",
        "model": "gpt-5.5",
        "status": "completed",
        "output": [
            {
                "type": "reasoning",
                "summary": [
                    {"type": "summary_text", "text": "first"},
                    {"type": "reasoning_text", "text": " second"}
                ]
            }
        ]
    }"#);

    let resp = to_canonical_response(&body).unwrap();
    assert_eq!(resp.content.len(), 2);
    assert!(matches!(
        &resp.content[0],
        CanonicalContentBlock::Reasoning { text } if text == "first"
    ));
    assert!(matches!(
        &resp.content[1],
        CanonicalContentBlock::Reasoning { text } if text == " second"
    ));
}

#[test]
fn test_input_image_content_block() {
    let body = json(r#"{
        "model": "gpt-4",
        "input": [
            {
                "type": "message",
                "role": "user",
                "content": [
                    {"type": "text", "text": "Describe this image"},
                    {"type": "input_image", "image_url": "https://example.com/img.png"}
                ]
            }
        ]
    }"#);
    let req = to_canonical_request(&body).unwrap();
    assert_eq!(req.messages.len(), 1);
    assert_eq!(req.messages[0].content.len(), 2);
    if let CanonicalContentBlock::Image { source } = &req.messages[0].content[1] {
        if let CanonicalImageSource::Url { url } = source {
            assert_eq!(url, "https://example.com/img.png");
        } else {
            panic!("expected url source");
        }
    } else {
        panic!("expected image block");
    }
}

#[test]
fn test_file_input_skipped() {
    let body = json(r#"{
        "model": "gpt-4",
        "input": [
            {"type": "message", "role": "user", "content": "Analyze this file"},
            {"type": "file", "file_url": "https://example.com/doc.pdf"}
        ]
    }"#);
    let req = to_canonical_request(&body).unwrap();
    // File item should be skipped, only the message remains
    assert_eq!(req.messages.len(), 1);
}
