#![allow(unused_imports, dead_code)]
use llm_wrapper::codec::{from_value, to_value};
use llm_wrapper::json::Json;
use llm_wrapper::number::Double;
use llm_wrapper::transform::canonical::{
    CanonicalContentBlock, CanonicalImageSource, CanonicalMessage, CanonicalRequest, CanonicalResponse,
    CanonicalRole, CanonicalStopReason, CanonicalTool, CanonicalUsage, ConvertError,
};
use llm_wrapper::transform::anthropic;
use serde_json::Value;

fn json(text: &str) -> Value {
    serde_json::from_str(text).unwrap()
}

fn data(text: &str) -> Json {
    Json::parse(text).unwrap()
}

fn double(text: &str) -> Double {
    match Json::parse(text) {
        Some(Json::Number(n)) => n.as_double(),
        _ => panic!("not a number"),
    }
}

fn to_canonical_request(body: &Value) -> Result<CanonicalRequest, ConvertError> {
    anthropic::to_canonical_request(&from_value(body))
}

fn from_canonical_request(canonical: &CanonicalRequest) -> Result<Value, ConvertError> {
    anthropic::from_canonical_request(canonical).map(|v| to_value(&v))
}

fn to_canonical_response(body: &Value) -> Result<CanonicalResponse, ConvertError> {
    anthropic::to_canonical_response(&from_value(body))
}

fn from_canonical_response(canonical: &CanonicalResponse) -> Result<Value, ConvertError> {
    anthropic::from_canonical_response(canonical).map(|v| to_value(&v))
}

#[test]
fn anthropic_test_simple_text_request() {
    let body = json(r#"{
        "model": "anthropic-3",
        "messages": [
            {"role": "user", "content": "Hello"}
        ]
    }"#);
    let canonical = to_canonical_request(&body).unwrap();
    assert_eq!(canonical.model, "anthropic-3");
    assert_eq!(canonical.messages.len(), 1);
    assert_eq!(canonical.messages[0].role, CanonicalRole::User);
    assert!(matches!(&canonical.messages[0].content[0],
        CanonicalContentBlock::Text { text } if text == "Hello"));
}

#[test]
fn test_system_as_string() {
    let body = json(r#"{
        "model": "anthropic-3",
        "system": "Be helpful",
        "messages": [{"role": "user", "content": "Hi"}]
    }"#);
    let canonical = to_canonical_request(&body).unwrap();
    assert!(canonical.system.is_some());
    let sys = canonical.system.unwrap();
    assert_eq!(sys.len(), 1);
    assert!(matches!(&sys[0], CanonicalContentBlock::Text { text } if text == "Be helpful"));
}

#[test]
fn anthropic_test_roundtrip_simple() {
    let body = json(r#"{
        "model": "anthropic-3",
        "system": "You are helpful",
        "messages": [{"role": "user", "content": "Hello"}],
        "max_tokens": 100,
        "temperature": 0.5
    }"#);
    let canonical = to_canonical_request(&body).unwrap();
    let back = from_canonical_request(&canonical).unwrap();
    assert_eq!(back["model"], "anthropic-3");
    assert_eq!(back["system"], "You are helpful");
    assert_eq!(back["max_tokens"], 100);
    assert_eq!(back["temperature"], 0.5);
    assert!(back.get("anthropic_version").is_none());
}

#[test]
fn test_from_canonical_request_omits_null_system_and_defaults_max_tokens() {
    let canonical = CanonicalRequest {
        model: "anthropic-3".to_string(),
        messages: vec![CanonicalMessage {
            role: CanonicalRole::User,
            content: vec![CanonicalContentBlock::Text {
                text: "Hello".to_string(),
            }],
        }],
        system: None,
        temperature: None,
        top_p: None,
        max_tokens: None,
        stop_sequences: None,
        stream: false,
        tools: None,
        tool_choice: None,
        reasoning_effort: None,
        unmapped: vec![],
    };

    let body = from_canonical_request(&canonical).unwrap();
    assert!(body.get("system").is_none());
    assert_eq!(body["max_tokens"], 4096);
    assert!(body.get("anthropic_version").is_none());
}

#[test]
fn test_tool_use_request() {
    let body = json(r#"{
        "model": "anthropic-3",
        "messages": [
            {"role": "user", "content": "Search for something"},
            {
                "role": "assistant",
                "content": [
                    {
                        "type": "tool_use",
                        "id": "tool_1",
                        "name": "search",
                        "input": {"query": "test"}
                    }
                ]
            }
        ]
    }"#);
    let canonical = to_canonical_request(&body).unwrap();
    assert_eq!(canonical.messages.len(), 2);
    assert!(matches!(
        &canonical.messages[1].content[0],
        CanonicalContentBlock::ToolUse { .. }
    ));
    let tool_use = &canonical.messages[1].content[0];
    if let CanonicalContentBlock::ToolUse { id, name, .. } = tool_use {
        assert_eq!(id, "tool_1");
        assert_eq!(name, "search");
    }
}

#[test]
fn test_tool_result_parsing() {
    let body = json(r#"{
        "model": "anthropic-3",
        "messages": [
            {
                "role": "user",
                "content": [
                    {
                        "type": "tool_result",
                        "tool_use_id": "tool_1",
                        "content": "Here are the results"
                    }
                ]
            }
        ]
    }"#);
    let canonical = to_canonical_request(&body).unwrap();
    assert!(matches!(
        &canonical.messages[0].content[0],
        CanonicalContentBlock::ToolResult { .. }
    ));
    if let CanonicalContentBlock::ToolResult {
        tool_use_id,
        content,
    } = &canonical.messages[0].content[0]
    {
        assert_eq!(tool_use_id, "tool_1");
        assert_eq!(content.len(), 1);
    }
}

#[test]
fn test_image_base64() {
    let body = json(r#"{
        "model": "anthropic-3",
        "messages": [{
            "role": "user",
            "content": [
                {"type": "text", "text": "What is this?"},
                {
                    "type": "image",
                    "source": {
                        "type": "base64",
                        "media_type": "image/png",
                        "data": "iVBORw0KGgo="
                    }
                }
            ]
        }]
    }"#);
    let canonical = to_canonical_request(&body).unwrap();
    assert_eq!(canonical.messages[0].content.len(), 2);
    assert!(matches!(
        &canonical.messages[0].content[1],
        CanonicalContentBlock::Image { .. }
    ));
}

#[test]
fn anthropic_test_tools_parsing() {
    let body = json(r#"{
        "model": "anthropic-3",
        "messages": [{"role": "user", "content": "Hi"}],
        "tools": [{
            "name": "search",
            "description": "Search the web",
            "input_schema": {"type": "object", "properties": {"q": {"type": "string"}}}
        }]
    }"#);
    let canonical = to_canonical_request(&body).unwrap();
    assert!(canonical.tools.is_some());
    let tools = canonical.tools.unwrap();
    assert_eq!(tools[0].name, "search");
    assert_eq!(tools[0].description, Some("Search the web".to_string()));
}

#[test]
fn test_response_with_tool_use() {
    let body = json(r#"{
        "id": "msg_123",
        "model": "anthropic-3",
        "content": [
            {
                "type": "tool_use",
                "id": "tool_1",
                "name": "search",
                "input": {"query": "test"}
            }
        ],
        "stop_reason": "tool_use",
        "usage": {
            "input_tokens": 50,
            "output_tokens": 30
        }
    }"#);
    let canonical = to_canonical_response(&body).unwrap();
    assert_eq!(canonical.id, "msg_123");
    assert_eq!(canonical.content.len(), 1);
    assert!(matches!(
        &canonical.content[0],
        CanonicalContentBlock::ToolUse { .. }
    ));
    assert_eq!(canonical.stop_reason, Some(CanonicalStopReason::ToolUse));
}

#[test]
fn anthropic_test_response_roundtrip() {
    let body = json(r#"{
        "id": "msg_123",
        "model": "anthropic-3",
        "content": [
            {"type": "text", "text": "Hello there"}
        ],
        "stop_reason": "end_turn",
        "usage": {
            "input_tokens": 10,
            "output_tokens": 20
        }
    }"#);
    let canonical = to_canonical_response(&body).unwrap();
    let back = from_canonical_response(&canonical).unwrap();
    assert_eq!(back["id"], "msg_123");
    assert_eq!(back["content"][0]["text"], "Hello there");
    assert_eq!(back["stop_reason"], "end_turn");
    assert_eq!(back["type"], "message");
}

#[test]
fn test_response_preserves_thinking_block() {
    let body = json(r#"{
        "id": "msg_thinking",
        "model": "anthropic-3",
        "content": [
            {"type": "thinking", "thinking": "hidden thinking"},
            {"type": "text", "text": "OK"}
        ],
        "stop_reason": "end_turn"
    }"#);
    let canonical = to_canonical_response(&body).unwrap();
    assert_eq!(canonical.content.len(), 2);
    assert!(matches!(
        &canonical.content[0],
        CanonicalContentBlock::Reasoning { text } if text == "hidden thinking"
    ));
    assert!(matches!(
        &canonical.content[1],
        CanonicalContentBlock::Text { text } if text == "OK"
    ));
}

#[test]
fn test_tool_result_with_array_content() {
    let body = json(r#"{
        "model": "anthropic-3",
        "messages": [{
            "role": "user",
            "content": [{
                "type": "tool_result",
                "tool_use_id": "tool_1",
                "content": [
                    {"type": "text", "text": "Result 1"},
                    {"type": "text", "text": "Result 2"}
                ]
            }]
        }]
    }"#);
    let canonical = to_canonical_request(&body).unwrap();
    if let CanonicalContentBlock::ToolResult {
        tool_use_id,
        content,
    } = &canonical.messages[0].content[0]
    {
        assert_eq!(tool_use_id, "tool_1");
        assert_eq!(content.len(), 2);
    } else {
        panic!("expected ToolResult");
    }
}

#[test]
fn test_system_as_content_blocks() {
    let body = json(r#"{
        "model": "anthropic-3",
        "system": [
            {"type": "text", "text": "Rule 1"},
            {"type": "text", "text": "Rule 2"}
        ],
        "messages": [{"role": "user", "content": "Hi"}]
    }"#);
    let canonical = to_canonical_request(&body).unwrap();
    let sys = canonical.system.unwrap();
    assert_eq!(sys.len(), 2);
}

#[test]
fn test_image_url_source() {
    let body = json(r#"{
        "model": "anthropic-3",
        "messages": [{
            "role": "user",
            "content": [{
                "type": "image",
                "source": {
                    "type": "url",
                    "url": "https://example.com/img.png"
                }
            }]
        }]
    }"#);
    let canonical = to_canonical_request(&body).unwrap();
    assert!(matches!(&canonical.messages[0].content[0],
        CanonicalContentBlock::Image { source } if matches!(source, CanonicalImageSource::Url { .. })));
}
