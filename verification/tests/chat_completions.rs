#![allow(unused_imports, dead_code)]
use llm_wrapper::codec::{from_value, to_value};
use llm_wrapper::json::Json;
use llm_wrapper::number::Double;
use llm_wrapper::transform::canonical::{
    CanonicalContentBlock, CanonicalImageSource, CanonicalMessage, CanonicalRequest, CanonicalResponse,
    CanonicalRole, CanonicalStopReason, CanonicalTool, CanonicalUsage, ConvertError,
};
use llm_wrapper::transform::chat_completions;
use llm_wrapper::transform::chat_completions::parse_data_url;
use serde_json::Value;

fn json(text: &str) -> Value {
    serde_json::from_str(text).unwrap()
}

fn data(text: &str) -> Json {
    Json::parse(text).unwrap()
}

fn double(text: &str) -> Double {
    match Json::parse(text) {
        Some(Json::Number(n)) => n.as_double(),
        _ => panic!("not a number"),
    }
}

fn to_canonical_request(body: &Value) -> Result<CanonicalRequest, ConvertError> {
    chat_completions::to_canonical_request(&from_value(body))
}

fn from_canonical_request(canonical: &CanonicalRequest) -> Result<Value, ConvertError> {
    chat_completions::from_canonical_request(canonical).map(|v| to_value(&v))
}

fn to_canonical_response(body: &Value) -> Result<CanonicalResponse, ConvertError> {
    chat_completions::to_canonical_response(&from_value(body))
}

fn from_canonical_response(canonical: &CanonicalResponse) -> Result<Value, ConvertError> {
    chat_completions::from_canonical_response(canonical).map(|v| to_value(&v))
}

#[test]
fn chat_completions_test_simple_text_request() {
    let body = json(r#"{
        "model": "gpt-4",
        "messages": [
            {"role": "user", "content": "Hello"}
        ]
    }"#);
    let canonical = to_canonical_request(&body).unwrap();
    assert_eq!(canonical.model, "gpt-4");
    assert_eq!(canonical.messages.len(), 1);
    assert_eq!(canonical.messages[0].role, CanonicalRole::User);
    assert!(matches!(&canonical.messages[0].content[0],
        CanonicalContentBlock::Text { text } if text == "Hello"));
}

#[test]
fn test_system_message_extraction() {
    let body = json(r#"{
        "model": "gpt-4",
        "messages": [
            {"role": "system", "content": "Be helpful"},
            {"role": "user", "content": "Hi"}
        ]
    }"#);
    let canonical = to_canonical_request(&body).unwrap();
    assert!(canonical.system.is_some());
    assert_eq!(canonical.messages.len(), 1);
    assert_eq!(canonical.messages[0].role, CanonicalRole::User);
}

#[test]
fn test_developer_message_extraction() {
    let body = json(r#"{
        "model": "gpt-4",
        "messages": [
            {"role": "developer", "content": "Use concise style"},
            {"role": "user", "content": "Hi"}
        ]
    }"#);
    let canonical = to_canonical_request(&body).unwrap();
    assert!(canonical.system.is_some());
    let sys = canonical.system.unwrap();
    assert_eq!(sys.len(), 1);
    assert!(
        matches!(&sys[0], CanonicalContentBlock::Text { text } if text == "Use concise style")
    );
    assert_eq!(canonical.messages.len(), 1);
    assert_eq!(canonical.messages[0].role, CanonicalRole::User);
}

#[test]
fn chat_completions_test_roundtrip_simple() {
    let body = json(r#"{
        "model": "gpt-4",
        "messages": [
            {"role": "user", "content": "Hello"}
        ],
        "temperature": 0.7,
        "max_tokens": 100
    }"#);
    let canonical = to_canonical_request(&body).unwrap();
    let back = from_canonical_request(&canonical).unwrap();
    assert_eq!(back["model"], "gpt-4");
    assert_eq!(back["temperature"], 0.7);
    assert_eq!(back["max_tokens"], 100);
    assert_eq!(back["messages"][0]["role"], "user");
    assert_eq!(back["messages"][0]["content"], "Hello");
}

#[test]
fn chat_completions_test_to_canonical_request_parses_reasoning_effort() {
    let body = json(r#"{
        "model": "gpt-4",
        "messages": [{"role": "user", "content": "Hello"}],
        "reasoning": {"effort": "high"}
    }"#);
    let canonical = to_canonical_request(&body).unwrap();
    assert_eq!(canonical.reasoning_effort.as_deref(), Some("high"));
}

#[test]
fn test_from_canonical_request_emits_reasoning_effort() {
    let body = json(r#"{
        "model": "gpt-4",
        "messages": [{"role": "user", "content": "Hello"}],
        "reasoning_effort": "low"
    }"#);
    let canonical = to_canonical_request(&body).unwrap();
    let back = from_canonical_request(&canonical).unwrap();
    assert_eq!(back["reasoning_effort"], "low");
}

#[test]
fn test_data_url_parsing() {
    let result = parse_data_url("data:image/png;base64,ABCDEF");
    assert!(result.is_some());
    let (media_type, data) = result.unwrap();
    assert_eq!(media_type, "image/png");
    assert_eq!(data, "ABCDEF");
}

#[test]
fn test_stop_as_string() {
    let body = json(r#"{
        "model": "gpt-4",
        "messages": [{"role": "user", "content": "Hi"}],
        "stop": "\n"
    }"#);
    let canonical = to_canonical_request(&body).unwrap();
    assert_eq!(canonical.stop_sequences, Some(vec!["\n".to_string()]));
}

#[test]
fn test_stop_as_array() {
    let body = json(r#"{
        "model": "gpt-4",
        "messages": [{"role": "user", "content": "Hi"}],
        "stop": ["\n", "END"]
    }"#);
    let canonical = to_canonical_request(&body).unwrap();
    assert_eq!(
        canonical.stop_sequences,
        Some(vec!["\n".to_string(), "END".to_string()])
    );
}

#[test]
fn test_max_completion_tokens_maps_to_canonical_max_tokens() {
    let body = json(r#"{
        "model": "gpt-4",
        "messages": [{"role": "user", "content": "Hi"}],
        "max_completion_tokens": 123
    }"#);

    let canonical = to_canonical_request(&body).unwrap();
    assert_eq!(canonical.max_tokens, Some(123));
}

#[test]
fn chat_completions_test_tools_parsing() {
    let body = json(r#"{
        "model": "gpt-4",
        "messages": [{"role": "user", "content": "Hi"}],
        "tools": [{
            "type": "function",
            "function": {
                "name": "search",
                "description": "Search the web",
                "parameters": {"type": "object", "properties": {"q": {"type": "string"}}}
            }
        }]
    }"#);
    let canonical = to_canonical_request(&body).unwrap();
    assert!(canonical.tools.is_some());
    let tools = canonical.tools.unwrap();
    assert_eq!(tools.len(), 1);
    assert_eq!(tools[0].name, "search");
}

#[test]
fn test_response_with_tool_calls() {
    let body = json(r#"{
        "id": "chatcmpl-123",
        "model": "gpt-4",
        "choices": [{
            "index": 0,
            "message": {
                "role": "assistant",
                "tool_calls": [{
                    "id": "call_1",
                    "type": "function",
                    "function": {
                        "name": "search",
                        "arguments": "{\"query\":\"test\"}"
                    }
                }]
            },
            "finish_reason": "tool_calls"
        }]
    }"#);
    let canonical = to_canonical_response(&body).unwrap();
    assert_eq!(canonical.id, "chatcmpl-123");
    assert_eq!(canonical.content.len(), 1);
    assert!(matches!(
        &canonical.content[0],
        CanonicalContentBlock::ToolUse { .. }
    ));
    assert_eq!(canonical.stop_reason, Some(CanonicalStopReason::ToolUse));
}

#[test]
fn chat_completions_test_response_roundtrip() {
    let body = json(r#"{
        "id": "chatcmpl-123",
        "model": "gpt-4",
        "choices": [{
            "index": 0,
            "message": {
                "role": "assistant",
                "content": "Hello there"
            },
            "finish_reason": "stop"
        }],
        "usage": {
            "prompt_tokens": 10,
            "completion_tokens": 20,
            "total_tokens": 30
        }
    }"#);
    let canonical = to_canonical_response(&body).unwrap();
    let back = from_canonical_response(&canonical).unwrap();
    assert_eq!(back["id"], "chatcmpl-123");
    assert_eq!(back["choices"][0]["message"]["content"], "Hello there");
    assert_eq!(back["choices"][0]["finish_reason"], "stop");
    assert_eq!(back["usage"]["prompt_tokens"], 10);
}

#[test]
fn test_response_reasoning_field_is_preserved_for_openwebui() {
    let body = json(r#"{
        "id": "chatcmpl-reasoning",
        "model": "qwen",
        "choices": [{
            "index": 0,
            "message": {
                "role": "assistant",
                "content": "OK",
                "reasoning": "hidden thinking"
            },
            "finish_reason": "stop"
        }]
    }"#);

    let canonical = to_canonical_response(&body).unwrap();
    assert_eq!(canonical.content.len(), 2);
    assert!(matches!(
        &canonical.content[0],
        CanonicalContentBlock::Reasoning { text } if text == "hidden thinking"
    ));
    assert!(matches!(
        &canonical.content[1],
        CanonicalContentBlock::Text { text } if text == "OK"
    ));

    let chat = from_canonical_response(&canonical).unwrap();
    assert_eq!(
        chat["choices"][0]["message"]["content"],
        "<think>\nhidden thinking\n</think>\n\nOK"
    );
}

#[test]
fn test_image_content_blocks() {
    let body = json(r#"{
        "model": "gpt-4-vision",
        "messages": [{
            "role": "user",
            "content": [
                {"type": "text", "text": "What is this?"},
                {"type": "image_url", "image_url": {"url": "data:image/png;base64,ABC"}}
            ]
        }]
    }"#);
    let canonical = to_canonical_request(&body).unwrap();
    assert_eq!(canonical.messages[0].content.len(), 2);
    assert!(matches!(
        &canonical.messages[0].content[0],
        CanonicalContentBlock::Text { .. }
    ));
    assert!(matches!(
        &canonical.messages[0].content[1],
        CanonicalContentBlock::Image { .. }
    ));
}

#[test]
fn test_tool_message() {
    let body = json(r#"{
        "model": "gpt-4",
        "messages": [
            {"role": "assistant", "content": null, "tool_calls": [{
                "id": "call_1",
                "type": "function",
                "function": {"name": "search", "arguments": "{\"q\":\"test\"}"}
            }]},
            {"role": "tool", "content": "Results found", "tool_call_id": "call_1"}
        ]
    }"#);
    let canonical = to_canonical_request(&body).unwrap();
    // Assistant message with tool use
    assert_eq!(canonical.messages[0].role, CanonicalRole::Assistant);
    assert!(matches!(
        &canonical.messages[0].content[0],
        CanonicalContentBlock::ToolUse { .. }
    ));
    // Tool result as user message with ToolResult block
    assert_eq!(canonical.messages[1].role, CanonicalRole::User);
    assert!(matches!(
        &canonical.messages[1].content[0],
        CanonicalContentBlock::ToolResult { .. }
    ));
}
