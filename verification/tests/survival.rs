use llm_wrapper::codec::to_value;
use llm_wrapper::json::Json;
use llm_wrapper::transform::{
    canonical_to_request, canonical_to_response, request_to_canonical, response_to_canonical, Protocol,
};
use serde_json::Value;

const ALL: [Protocol; 3] =
    [Protocol::ChatCompletions, Protocol::Responses, Protocol::AnthropicMessages];

fn json(text: &str) -> Json {
    Json::parse(text).unwrap()
}

fn through(protocol: Protocol, body: &Json) -> Json {
    let request = request_to_canonical(Protocol::AnthropicMessages, body).unwrap();
    let written = canonical_to_request(protocol, &request).unwrap();
    let back = request_to_canonical(protocol, &written).unwrap();
    canonical_to_request(Protocol::AnthropicMessages, &back).unwrap()
}

fn response_through(protocol: Protocol, body: &Json) -> Value {
    let response = response_to_canonical(Protocol::AnthropicMessages, body).unwrap();
    let written = canonical_to_response(protocol, &response).unwrap();
    let back = response_to_canonical(protocol, &written).unwrap();
    to_value(&canonical_to_response(Protocol::AnthropicMessages, &back).unwrap())
}

#[test]
fn requests_survive_every_protocol() {
    let body = json(
        r#"{"model": "m", "system": "be brief", "max_tokens": 9, "temperature": 0.5, "stream": true,
            "stop_sequences": ["x", "y"],
            "tools": [{"name": "f", "description": "d", "input_schema": {"type": "object"}}, {"name": "g", "input_schema": {}}],
            "messages": [
                {"role": "user", "content": "hi"},
                {"role": "assistant", "content": "hello"},
                {"role": "user", "content": [{"type": "text", "text": "a"},
                    {"type": "image", "source": {"type": "url", "url": "https://h/i.png"}}]},
                {"role": "user", "content": [{"type": "tool_result", "tool_use_id": "t1", "content": "42"}]}
            ]}"#,
    );
    for protocol in ALL {
        assert_eq!(to_value(&through(protocol, &body)), to_value(&body));
    }
}

#[test]
fn images_as_data_survive_chat_completions() {
    let body = json(
        r#"{"model": "m", "max_tokens": 9, "messages": [{"role": "user", "content": [
            {"type": "image", "source": {"type": "base64", "media_type": "image/gif", "data": "AA,;=="}}]}]}"#,
    );
    assert_eq!(to_value(&through(Protocol::ChatCompletions, &body)), to_value(&body));
}

#[test]
fn a_missing_limit_is_filled_in() {
    let chat = json(r#"{"model": "m", "messages": [{"role": "user", "content": "hi"}], "reasoning_effort": "low"}"#);
    let request = request_to_canonical(Protocol::ChatCompletions, &chat).unwrap();
    let written = canonical_to_request(Protocol::AnthropicMessages, &request).unwrap();
    let back = request_to_canonical(Protocol::AnthropicMessages, &written).unwrap();
    assert_eq!(back.max_tokens, Some(4096));
    assert_eq!(back.reasoning_effort, None);
}

#[test]
fn responses_survive_as_far_as_they_can_be_said() {
    let body = json(
        r#"{"id": "i", "model": "m", "type": "message", "content": [
            {"type": "text", "text": "a"},
            {"type": "tool_use", "id": "c", "name": "f", "input": {"q": 1}},
            {"type": "thinking", "thinking": "hm"}], "stop_reason": "stop_sequence",
            "usage": {"input_tokens": 1, "output_tokens": 2}}"#,
    );
    let same = response_through(Protocol::AnthropicMessages, &body);
    assert_eq!(same, to_value(&body));
    let v = response_through(Protocol::Responses, &body);
    assert_eq!(v["content"][0]["thinking"], "hm");
    assert_eq!(v["content"][1]["text"], "a");
    assert_eq!(v["content"][2]["input"]["q"], 1);
    assert_eq!(v["stop_reason"], "stop_sequence");
    let v = response_through(Protocol::ChatCompletions, &body);
    assert_eq!(v["content"][0]["id"], "c");
    assert_eq!(v["content"][0]["input"], "{\"q\":1}");
    assert_eq!(v["content"][1]["text"], "a\n\n<think>\nhm\n</think>");
    assert_eq!(v["stop_reason"], "end_turn");
}
