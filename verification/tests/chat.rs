use llm_wrapper::codec::to_value;
use llm_wrapper::handlers::chat::{
    begin_client_stream, choose_delivery, client_response, debug_requested, entry_protocol, error_answer, find_lost_fields,
    local_proxy_key, outgoing_body, plan_body, plan_request, stream_opening, upstream_error_message,
    whole_answer, Delivery, Refusal, RequestPlan,
};
use llm_wrapper::headers::Header;
use llm_wrapper::json::Json;
use llm_wrapper::models::{ApiType, AppConfig, ModelAlias, UpstreamConfig};
use llm_wrapper::router::ModelRouter;
use llm_wrapper::transform::canonical::ConvertError;
use llm_wrapper::transform::image::check_image_url;
use llm_wrapper::transform::Protocol;
use serde_json::Value;

fn json(text: &str) -> Json {
    Json::parse(text).unwrap()
}

fn value(text: &str) -> Value {
    serde_json::from_str(text).unwrap()
}

fn router(chat: bool, responses: bool, messages: bool, allow: bool) -> ModelRouter {
    let mut u = UpstreamConfig::new("up".to_string(), "http://h".to_string());
    u.support_chat_completions = chat;
    u.support_responses = responses;
    u.support_anthropic_messages = messages;
    let mut c = AppConfig::new();
    c.allow_protocol_conversion = allow;
    c.upstreams = vec![u];
    c.aliases = vec![ModelAlias::new("m".to_string(), "gpt-4".to_string(), "up".to_string())];
    ModelRouter::new(c)
}

fn codex_router() -> ModelRouter {
    let mut u = UpstreamConfig::new("up".to_string(), "http://h".to_string());
    u.api_type = ApiType::ChatGptCodex;
    u.support_chat_completions = false;
    u.support_responses = true;
    u.support_anthropic_messages = false;
    let mut c = AppConfig::new();
    c.allow_protocol_conversion = true;
    c.upstreams = vec![u];
    c.aliases = vec![ModelAlias::new("m".to_string(), "gpt-5".to_string(), "up".to_string())];
    ModelRouter::new(c)
}

fn plan(r: &ModelRouter, path: &str) -> RequestPlan {
    plan_request(r, path, &json(r#"{"model": "m"}"#)).unwrap()
}

#[test]
fn a_request_without_a_model_is_refused() {
    let r = router(true, true, true, true);
    let e = plan_request(&r, "/v1/responses", &json(r#"{"input": "x"}"#)).unwrap_err();
    assert_eq!(e, Refusal::MissingModel);
    assert_eq!((e.status(), e.message()), (400, "缺少 model 参数".to_string()));
    let e = plan_request(&r, "/v1/responses", &json(r#"{"model": "other"}"#)).unwrap_err();
    assert_eq!((e.status(), e.message()), (400, "找不到模型 other 的路由".to_string()));
}

#[test]
fn a_supported_protocol_is_kept() {
    let r = router(true, true, true, false);
    for path in ["/v1/chat/completions", "/v1/responses", "/v1/messages"] {
        let p = plan(&r, path);
        assert!(!p.converts());
        assert_eq!(p.path, path);
        assert_eq!(p.entry, entry_protocol(path));
        assert_eq!(p.route.target_model, "gpt-4");
    }
    assert_eq!(entry_protocol("/v1/messages/count_tokens"), Protocol::AnthropicMessages);
    assert_eq!(entry_protocol("/v1/embeddings"), Protocol::ChatCompletions);
    let body = r#"{"model": "m", "anything": [1, {"else": null}]}"#;
    let sent = plan_body(&plan(&r, "/v1/responses"), &json(body)).unwrap();
    assert_eq!(to_value(&sent), value(body));
}

#[test]
fn an_unsupported_protocol_is_converted_in_order_of_preference() {
    let p = plan(&router(true, false, true, true), "/v1/responses");
    assert!(p.converts());
    assert_eq!((p.entry, p.target), (Protocol::Responses, Protocol::ChatCompletions));
    assert_eq!(p.path, "/v1/chat/completions");
    let p = plan(&router(false, false, true, true), "/v1/chat/completions");
    assert_eq!((p.target, p.path.as_str()), (Protocol::AnthropicMessages, "/v1/messages"));
    let p = plan(&router(false, true, false, true), "/v1/messages");
    assert_eq!((p.target, p.path.as_str()), (Protocol::Responses, "/v1/responses"));
}

#[test]
fn a_switched_off_conversion_is_refused() {
    let e = plan_request(
        &router(false, true, false, false),
        "/v1/messages",
        &json(r#"{"model": "m"}"#),
    )
    .unwrap_err();
    assert_eq!(e.status(), 422);
    assert_eq!(
        e.message(),
        "protocol conversion is disabled: upstream 'up' does not support anthropic_messages (supported: responses)"
    );
    let e = plan_request(
        &router(false, false, false, true),
        "/v1/messages",
        &json(r#"{"model": "m"}"#),
    )
    .unwrap_err();
    assert_eq!(
        e,
        Refusal::NoProtocol { upstream: "up".to_string(), entry: Protocol::AnthropicMessages }
    );
    assert_eq!(e.status(), 422);
    assert_eq!(e.message(), "upstream 'up' supports no protocol for anthropic_messages");
}

#[test]
fn a_path_below_messages_is_not_converted() {
    let body = json(r#"{"model": "m"}"#);
    let e = plan_request(&router(true, true, false, true), "/v1/messages/count_tokens", &body).unwrap_err();
    assert_eq!(e.status(), 400);
    assert_eq!(e.message(), "上游 'up' 不支持当前协议端点 (/v1/messages/count_tokens)");
    let p = plan_request(&router(true, true, true, true), "/v1/messages/count_tokens", &body).unwrap();
    assert_eq!(p.path, "/v1/messages/count_tokens");
}

#[test]
fn codex_has_its_own_path_and_stores_nothing() {
    let r = codex_router();
    let p = plan(&r, "/v1/responses");
    assert_eq!(p.path, "/codex/responses");
    let sent = plan_body(&p, &json(r#"{"model": "m", "input": "hi", "store": true}"#)).unwrap();
    assert_eq!(to_value(&sent), value(r#"{"model": "m", "input": "hi", "store": true}"#));
    let p = plan(&r, "/v1/chat/completions");
    assert_eq!((p.target, p.path.as_str()), (Protocol::Responses, "/codex/responses"));
    let sent = plan_body(
        &p,
        &json(r#"{"model": "m", "messages": [{"role": "user", "content": "hi"}]}"#),
    )
    .unwrap();
    assert_eq!(to_value(&sent)["store"], false);
}

#[test]
fn fields_that_would_be_lost_are_named() {
    let p = plan(&router(false, false, true, true), "/v1/chat/completions");
    let body = json(
        r#"{"model": "m", "messages": [], "seed": 1, "logprobs": true, "reasoning_effort": "low"}"#,
    );
    let e = plan_body(&p, &body).unwrap_err();
    assert_eq!(e.status(), 422);
    assert_eq!(
        e.message(),
        "fields not supported by anthropic_messages: logprobs, reasoning_effort, seed"
    );
    assert_eq!(
        find_lost_fields(Protocol::ChatCompletions, Protocol::Responses, &body),
        vec!["logprobs".to_string(), "seed".to_string()]
    );
    let none = find_lost_fields(Protocol::Responses, Protocol::ChatCompletions, &json("[1]"));
    assert!(none.is_empty());
}

#[test]
fn an_unreadable_request_is_refused() {
    let p = plan(&router(false, false, true, true), "/v1/chat/completions");
    let e = plan_body(&p, &json(r#"{"messages": []}"#)).unwrap_err();
    assert_eq!(e, Refusal::Unreadable(ConvertError::MissingModel));
    assert_eq!(e.status(), 400);
    assert_eq!(e.message(), "missing 'model' in request body");
    let p = plan(&router(false, false, true, true), "/v1/responses");
    let e = plan_body(&p, &json(r#"{"model": "", "input": "x"}"#)).unwrap_err();
    assert_eq!(e, Refusal::Unreadable(ConvertError::EmptyModel));
    assert_eq!(e.message(), "Responses request must include 'model'");
}

#[test]
fn a_converted_request_is_in_full() {
    let p = plan(&router(true, false, false, true), "/v1/messages");
    let body = json(
        r#"{"model": "m", "max_tokens": 5, "messages": [
            {"role": "user", "content": "weather?"},
            {"role": "assistant", "content": [
                {"type": "tool_use", "id": "c1", "name": "get", "input": {"city": "Rome"}}]}
        ]}"#,
    );
    let sent = to_value(&plan_body(&p, &body).unwrap());
    assert_eq!(sent["messages"][0]["content"], "weather?");
    assert_eq!(sent["messages"][1]["content"], Value::Null);
    assert!(sent["messages"][1].as_object().unwrap().contains_key("content"));
    assert_eq!(sent["messages"][1]["tool_calls"][0]["id"], "c1");
    assert_eq!(sent["messages"][1]["tool_calls"][0]["function"]["arguments"], r#"{"city":"Rome"}"#);

    let p = plan(&router(false, false, true, true), "/v1/chat/completions");
    let body = json(
        r#"{"model": "m", "tool_choice": "auto", "messages": [{"role": "user", "content": "hi"}]}"#,
    );
    let sent = to_value(&plan_body(&p, &body).unwrap());
    assert_eq!(sent["tool_choice"], value(r#"{"type": "auto"}"#));
}

#[test]
fn a_client_gets_its_own_protocol_back() {
    let chat = json(
        r#"{"id": "c", "model": "gpt-4", "choices": [{"index": 0, "finish_reason": "stop",
            "message": {"role": "assistant", "content": "hello"}}],
            "usage": {"prompt_tokens": 3, "completion_tokens": 4}}"#,
    );
    let same = client_response(Protocol::ChatCompletions, Protocol::ChatCompletions, &chat);
    assert_eq!(to_value(&same), to_value(&chat));
    let r = to_value(&client_response(Protocol::Responses, Protocol::ChatCompletions, &chat));
    assert_eq!(r["object"], "response");
    assert_eq!(r["output"][0]["role"], "assistant");
    assert_eq!(r["output"][0]["content"][0]["text"], "hello");
    assert_eq!(r["usage"]["total_tokens"], 7);
    let a = to_value(&client_response(Protocol::AnthropicMessages, Protocol::ChatCompletions, &chat));
    assert_eq!(a["role"], "assistant");
    assert_eq!(a["stop_reason"], "end_turn");
    assert_eq!(a["content"][0]["text"], "hello");
    let message = json(
        r#"{"id": "m", "model": "x", "content": [{"type": "tool_use", "id": "c1", "name": "get", "input": {}}],
            "stop_reason": "tool_use", "usage": {"input_tokens": 1, "output_tokens": 2}}"#,
    );
    let c = to_value(&client_response(Protocol::ChatCompletions, Protocol::AnthropicMessages, &message));
    assert_eq!(c["object"], "chat.completion");
    assert_eq!(c["choices"][0]["finish_reason"], "tool_calls");
    assert_eq!(c["choices"][0]["message"]["content"], Value::Null);
    assert_eq!(c["usage"]["total_tokens"], 3);
}

#[test]
fn answers_are_delivered_as_they_were_asked_for() {
    let direct = plan(&router(true, true, true, true), "/v1/responses");
    assert_eq!(choose_delivery(&direct, true, true, true), Delivery::Relay);
    assert_eq!(choose_delivery(&direct, false, true, true), Delivery::Relay);
    assert_eq!(choose_delivery(&direct, false, false, false), Delivery::Relay);
    let codex = plan(&codex_router(), "/v1/responses");
    assert_eq!(choose_delivery(&codex, false, true, true), Delivery::Gather);
    assert_eq!(choose_delivery(&codex, true, true, true), Delivery::Relay);
    assert_eq!(choose_delivery(&codex, false, true, false), Delivery::Relay);
    let converting = plan(&router(false, true, false, true), "/v1/chat/completions");
    assert_eq!(choose_delivery(&converting, false, true, true), Delivery::Gather);
    assert_eq!(choose_delivery(&converting, true, true, true), Delivery::ConvertStream);
    assert_eq!(choose_delivery(&converting, false, false, true), Delivery::ConvertWhole);
    assert_eq!(choose_delivery(&converting, true, true, false), Delivery::ConvertError);
    let opening = stream_opening(Protocol::ChatCompletions).unwrap();
    let data = opening.strip_prefix("data: ").unwrap().strip_suffix("\n\n").unwrap();
    assert_eq!(value(data)["choices"][0]["delta"]["role"], "assistant");
    assert_eq!(stream_opening(Protocol::Responses), None);
    assert_eq!(stream_opening(Protocol::AnthropicMessages), None);
}

#[test]
fn whole_answers_are_read_and_converted() {
    let p = plan(&router(true, false, false, true), "/v1/responses");
    let bytes = br#"{"id": "c", "model": "x", "choices": [{"message": {"role": "assistant", "content": "hi"},
        "finish_reason": "stop"}]}"#;
    let r = to_value(&whole_answer(&p, bytes).unwrap());
    assert_eq!(r["object"], "response");
    assert_eq!(r["output"][0]["content"][0]["text"], "hi");
    let direct = plan(&router(true, true, true, true), "/v1/responses");
    assert_eq!(to_value(&whole_answer(&direct, b"[1]").unwrap()), value("[1]"));
    assert_eq!(whole_answer(&p, b"no json"), None);
    assert_eq!(whole_answer(&p, b"\"\xff\""), None);
}

#[test]
fn errors_are_told_in_the_protocol_of_the_request() {
    let said = r#"{"error": {"message": "quota", "type": "rate"}}"#;
    assert_eq!(to_value(&error_answer(Protocol::ChatCompletions, said)), value(said));
    assert_eq!(
        to_value(&error_answer(Protocol::AnthropicMessages, said)),
        value(r#"{"type": "error", "error": {"message": "quota", "type": "rate"}}"#)
    );
    assert_eq!(
        to_value(&error_answer(Protocol::Responses, "busy")),
        value(r#"{"error": {"message": "busy"}}"#)
    );
    assert_eq!(
        to_value(&error_answer(Protocol::Responses, r#"{"error": "x"}"#)),
        value(r#"{"error": {"message": "{\"error\": \"x\"}"}}"#)
    );
}

#[test]
fn a_chat_client_sees_a_chat_stream() {
    let upstream = r#"event: message_start
data: {"type":"message_start","message":{"id":"msg_stream","type":"message","role":"assistant","model":"x","content":[],"stop_reason":null,"usage":{"input_tokens":8,"output_tokens":0}}}

event: content_block_start
data: {"type":"content_block_start","index":0,"content_block":{"type":"text","text":""}}

event: content_block_delta
data: {"type":"content_block_delta","index":0,"delta":{"type":"text_delta","text":"One"}}

event: content_block_delta
data: {"type":"content_block_delta","index":0,"delta":{"type":"text_delta","text":", two."}}

event: message_delta
data: {"type":"message_delta","delta":{"stop_reason":"end_turn"},"usage":{"output_tokens":4}}

event: message_stop
data: {"type":"message_stop"}

"#;
    let p = plan(&router(false, false, true, true), "/v1/chat/completions");
    for size in [1, 7, 10_000] {
        let (opening, mut conversion) = begin_client_stream(&p);
        let mut out = opening.unwrap();
        for piece in upstream.as_bytes().chunks(size) {
            for part in conversion.feed(piece) {
                out.push_str(&part.unwrap());
            }
        }
        let data: Vec<&str> = out.lines().filter_map(|l| l.strip_prefix("data: ")).collect();
        assert_eq!(data.len(), 5);
        assert_eq!(value(data[0])["choices"][0]["delta"], value(r#"{"role": "assistant"}"#));
        assert_eq!(value(data[1])["choices"][0]["delta"], value(r#"{"content": "One"}"#));
        assert_eq!(value(data[2])["choices"][0]["delta"], value(r#"{"content": ", two."}"#));
        assert_eq!(value(data[3])["choices"][0]["finish_reason"], "stop");
        assert_eq!(value(data[3])["object"], "chat.completion.chunk");
        assert_eq!(data[4], "[DONE]");
    }
}

fn lost(entry: Protocol, target: Protocol, body: &str) -> Vec<String> {
    find_lost_fields(entry, target, &json(body))
}

#[test]
fn loss_inside_carried_fields_is_refused() {
    let (chat, resp, anth) =
        (Protocol::ChatCompletions, Protocol::Responses, Protocol::AnthropicMessages);
    let choice = r#"{"model": "m", "messages": [], "tool_choice": {"type": "web_search"}}"#;
    assert_eq!(lost(chat, resp, choice), vec!["tool_choice"]);
    assert!(lost(chat, anth, choice).is_empty());
    let e = plan_body(&plan(&router(false, true, false, true), "/v1/chat/completions"), &json(choice)).unwrap_err();
    assert_eq!((e.status(), e.message().as_str()), (422, "fields not supported by responses: tool_choice"));
    let tools = r#"{"model": "m", "messages": [], "tools": [{"type": "web_search"}]}"#;
    assert_eq!(lost(chat, resp, tools), vec!["tools"]);
    let one_malformed = r#"{"model": "m", "input": "x", "tools": [{"type": "function", "name": "f", "parameters": {}}, {"type": "file_search"}]}"#;
    assert_eq!(lost(resp, chat, one_malformed), vec!["tools"]);
    let call = r#"{"model": "m", "input": [{"type": "function_call", "call_id": "c", "name": "f", "arguments": "{}"},
        {"type": "function_call_output", "call_id": "c", "output": "1"}]}"#;
    assert_eq!(lost(resp, chat, call), vec!["input"]);
    let file = r#"{"model": "m", "input": [{"type": "file", "file_url": "u"}]}"#;
    assert_eq!(lost(resp, chat, file), vec!["input"]);
    let image = r#"{"model": "m", "max_tokens": 1, "messages": [{"role": "user", "content": [
        {"type": "image", "source": {"type": "base64", "media_type": "image/png", "data": "AA=="}}]}]}"#;
    assert_eq!(lost(anth, resp, image), vec!["messages"]);
    assert!(lost(anth, chat, image).is_empty());
    let cached = r#"{"model": "m", "max_tokens": 1, "system": [{"type": "text", "text": "s", "cache_control": {"type": "ephemeral"}}], "messages": []}"#;
    assert_eq!(lost(anth, chat, cached), vec!["system"]);
    let audio = r#"{"model": "m", "messages": [{"role": "user", "content": [{"type": "input_audio"}]}]}"#;
    assert_eq!(lost(chat, anth, audio), vec!["messages"]);
    let hot = r#"{"model": "m", "messages": [], "temperature": "hot"}"#;
    assert_eq!(lost(chat, anth, hot), vec!["temperature"]);
    let limits = r#"{"model": "m", "messages": [], "max_tokens": 1, "max_completion_tokens": 2}"#;
    assert_eq!(lost(chat, anth, limits), vec!["max_completion_tokens"]);
    let thinking = r#"{"model": "m", "max_tokens": 1, "messages": [{"role": "assistant", "content": [{"type": "thinking", "thinking": "t"}]}]}"#;
    assert_eq!(lost(anth, resp, thinking), vec!["messages"]);
}

#[test]
fn what_can_be_said_is_not_refused() {
    let (chat, resp, anth) =
        (Protocol::ChatCompletions, Protocol::Responses, Protocol::AnthropicMessages);
    let full = r#"{"model": "m", "stream": false, "temperature": null, "max_tokens": 5, "max_completion_tokens": 5,
        "stop": ["a"], "tools": [{"type": "function", "function": {"name": "f", "parameters": {}, "strict": false}}],
        "tool_choice": "auto", "messages": [
            {"role": "system", "content": "s"},
            {"role": "user", "content": [{"type": "text", "text": "t"}, {"type": "image_url", "image_url": {"url": "u"}}]},
            {"role": "assistant", "content": null, "refusal": null, "annotations": [],
             "tool_calls": [{"id": "c", "type": "function", "function": {"name": "f", "arguments": "{}"}}]},
            {"role": "tool", "tool_call_id": "c", "content": "1"}]}"#;
    assert!(lost(chat, resp, full).is_empty());
    assert!(lost(chat, anth, full).is_empty());
    let input = r#"{"model": "m", "instructions": "i", "reasoning": {"effort": "low"}, "input": [
        {"type": "message", "role": "user", "id": "x", "status": "completed", "content": [{"type": "input_text", "text": "a"}]},
        {"type": "function_call_output", "call_id": "c", "output": "1"}]}"#;
    assert!(lost(resp, chat, input).is_empty());
    assert_eq!(lost(resp, anth, input), vec!["reasoning"]);
}

#[test]
fn overrides_are_applied_before_conversion() {
    let mut p = plan(&router(false, true, false, true), "/v1/chat/completions");
    p.route.override_params.insert("max_tokens", Json::uint(7));
    p.route.default_params.insert("temperature", json("0.5"));
    let body = json(r#"{"model": "m", "max_tokens": 100, "messages": [{"role": "user", "content": "hi"}]}"#);
    let sent = to_value(&outgoing_body(&p, &body).unwrap());
    assert_eq!(sent["max_output_tokens"], 7);
    assert!(sent.get("max_tokens").is_none());
    assert_eq!(sent["temperature"], 0.5);
    assert_eq!(sent["model"], "gpt-4");
    p.route.override_params.insert("top_k", Json::uint(1));
    assert_eq!(outgoing_body(&p, &body).unwrap_err().message(), "fields not supported by responses: top_k");
    let mut direct = plan(&router(true, true, true, true), "/v1/chat/completions");
    direct.route.override_params.insert("top_k", Json::uint(1));
    assert_eq!(to_value(&outgoing_body(&direct, &body).unwrap())["top_k"], 1);
}

#[test]
fn small_choices_of_the_gateway() {
    assert_eq!(local_proxy_key("run", Some("conf")), Some("run"));
    assert_eq!(local_proxy_key("", Some("conf")), Some("conf"));
    assert_eq!(local_proxy_key("", None), None);
    assert_eq!(upstream_error_message("status 404"), "上游服务不支持该端点。错误：status 404");
    assert_eq!(upstream_error_message("status 500"), "status 500");
    assert!(debug_requested(&vec![Header::new("x-debug-mode", "true")]));
    assert!(!debug_requested(&vec![Header::new("x-debug-mode", "1")]));
    assert!(!debug_requested(&vec![]));
    assert_eq!(Protocol::ChatCompletions.name(), "chat_completions");
}

#[test]
fn a_private_image_is_refused() {
    let e = Refusal::BadImage(check_image_url("http://127.0.0.1/private.png").unwrap_err());
    assert_eq!(e.status(), 422);
    assert_eq!(e.message(), "Refusing to download image from private IP: 127.0.0.1");
}

#[test]
fn converted_tools_reach_the_upstream() {
    let p = plan(&router(false, false, true, true), "/v1/chat/completions");
    let body = json(
        r#"{"model": "m", "messages": [{"role": "user", "content": "What is the weather in Shanghai?"}],
            "tools": [{"type": "function", "function": {"name": "get_weather", "description": "Get weather by city.",
                "parameters": {"type": "object", "properties": {"city": {"type": "string"}}, "required": ["city"]}}}],
            "tool_choice": "auto", "max_tokens": 128}"#,
    );
    let sent = to_value(&plan_body(&p, &body).unwrap());
    assert_eq!(
        sent["tools"],
        value(
            r#"[{"name": "get_weather", "description": "Get weather by city.",
                "input_schema": {"type": "object", "properties": {"city": {"type": "string"}}, "required": ["city"]}}]"#
        )
    );
    assert_eq!(sent["max_tokens"], 128);
}
