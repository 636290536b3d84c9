#![allow(unused_imports, dead_code)]
use llm_wrapper::codec::{from_value, to_value};
use llm_wrapper::transform::canonical::{CanonicalRequest, ConvertError};
use llm_wrapper::transform::{self, Protocol};
use serde_json::Value;

fn json(text: &str) -> Value {
    serde_json::from_str(text).unwrap()
}

fn request_to_canonical(protocol: Protocol, body: &Value) -> Result<CanonicalRequest, ConvertError> {
    transform::request_to_canonical(protocol, &from_value(body))
}

fn detect_unmapped_fields(protocol: Protocol, body: &Value, canonical: &mut CanonicalRequest) {
    transform::detect_unmapped_fields(protocol, &from_value(body), canonical)
}

#[test]
fn test_protocol_from_endpoint() {
    assert_eq!(
        Protocol::from_endpoint("/v1/chat/completions"),
        Protocol::ChatCompletions
    );
    assert_eq!(
        Protocol::from_endpoint("/v1/responses"),
        Protocol::Responses
    );
    assert_eq!(
        Protocol::from_endpoint("/v1/messages"),
        Protocol::AnthropicMessages
    );
    assert_eq!(
        Protocol::from_endpoint("/unknown"),
        Protocol::ChatCompletions
    );
}

#[test]
fn test_protocol_to_upstream_path() {
    assert_eq!(
        Protocol::ChatCompletions.to_upstream_path(),
        "/v1/chat/completions"
    );
    assert_eq!(Protocol::Responses.to_upstream_path(), "/v1/responses");
    assert_eq!(
        Protocol::AnthropicMessages.to_upstream_path(),
        "/v1/messages"
    );
}

#[test]
fn test_selection_priority() {
    let priority = Protocol::selection_priority(Protocol::ChatCompletions);
    assert_eq!(
        priority,
        [
            Protocol::ChatCompletions,
            Protocol::Responses,
            Protocol::AnthropicMessages
        ]
    );

    let priority = Protocol::selection_priority(Protocol::AnthropicMessages);
    assert_eq!(
        priority,
        [
            Protocol::AnthropicMessages,
            Protocol::ChatCompletions,
            Protocol::Responses
        ]
    );
}

#[test]
fn test_unmapped_fields_chat_completions() {
    let body = json(r#"{
        "model": "gpt-4",
        "messages": [{"role": "user", "content": "hi"}],
        "frequency_penalty": 0.5,
        "unknown_field": true
    }"#);
    let mut canonical = request_to_canonical(Protocol::ChatCompletions, &body).unwrap();
    detect_unmapped_fields(Protocol::ChatCompletions, &body, &mut canonical);

    // frequency_penalty is in known fields list, should not be unmapped
    assert!(!canonical
        .unmapped
        .contains(&"frequency_penalty".to_string()));
    // unknown_field is not known, should be unmapped
    assert!(canonical.unmapped.contains(&"unknown_field".to_string()));
}

#[test]
fn test_unmapped_fields_anthropic() {
    let body = json(r#"{
        "model": "anthropic-3",
        "messages": [{"role": "user", "content": "hi"}],
        "max_tokens": 100,
        "thinking": {"budget": 1024},
        "weird_custom_field": 42
    }"#);
    let mut canonical = request_to_canonical(Protocol::AnthropicMessages, &body).unwrap();
    detect_unmapped_fields(Protocol::AnthropicMessages, &body, &mut canonical);

    // thinking is in known fields, silently dropped
    assert!(!canonical.unmapped.contains(&"thinking".to_string()));
    // weird_custom_field is unknown
    assert!(canonical
        .unmapped
        .contains(&"weird_custom_field".to_string()));
}

#[test]
fn test_unmapped_fields_responses() {
    let body = json(r#"{
        "model": "gpt-4",
        "input": "hello",
        "max_output_tokens": 100,
        "custom_beta_feature": true
    }"#);
    let mut canonical = request_to_canonical(Protocol::Responses, &body).unwrap();
    detect_unmapped_fields(Protocol::Responses, &body, &mut canonical);

    assert!(!canonical
        .unmapped
        .contains(&"max_output_tokens".to_string()));
    assert!(canonical
        .unmapped
        .contains(&"custom_beta_feature".to_string()));
}

#[test]
fn test_no_unmapped_when_all_known() {
    let body = json(r#"{
        "model": "gpt-4",
        "messages": [{"role": "user", "content": "hi"}],
        "temperature": 0.7,
        "stream": true,
        "tools": []
    }"#);
    let mut canonical = request_to_canonical(Protocol::ChatCompletions, &body).unwrap();
    detect_unmapped_fields(Protocol::ChatCompletions, &body, &mut canonical);
    assert!(canonical.unmapped.is_empty());
}
