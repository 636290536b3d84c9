#![allow(unused_imports, dead_code)]
use llm_wrapper::codec::{from_value, to_value};
use llm_wrapper::headers::Header;
use llm_wrapper::json::{Json, JsonObject};
use llm_wrapper::models::{ApiType, UpstreamAuth};
use llm_wrapper::proxy::{self, anthropic_passthrough_headers, build_upstream_url};
use llm_wrapper::router::RouteResult;
use serde_json::Value;

fn json(text: &str) -> Value {
    serde_json::from_str(text).unwrap()
}

fn data(text: &str) -> Json {
    Json::parse(text).unwrap()
}

fn create_test_route(override_params: JsonObject, default_params: JsonObject) -> RouteResult {
    RouteResult {
        upstream_base_url: "http://localhost:8080".to_string(),
        anthropic_base_url: None,
        upstream_name: "test".to_string(),
        upstream_auth: UpstreamAuth::ApiKey {
            key: Some("test-key".to_string()),
        },
        api_type: ApiType::OpenAI,
        target_model: "gpt-4-turbo".to_string(),
        override_params,
        default_params,
        use_cli_proxy_api: false,
        cli_proxy_api_endpoint: "http://127.0.0.1:8317".to_string(),
        cli_proxy_api_api_key: None,
        support_chat_completions: true,
        support_responses: false,
        support_anthropic_messages: true,
    }
}

fn apply_param_overrides_inner(body: &mut Value, route: &RouteResult) {
    let mut plain = from_value(body);
    proxy::apply_param_overrides_inner(&mut plain, route);
    *body = to_value(&plain);
}

#[test]
fn test_build_upstream_url_uses_anthropic_base_url_and_query() {
    let mut route = create_test_route(JsonObject::new(), JsonObject::new());
    route.upstream_base_url = "https://example.com/openai/".to_string();
    route.anthropic_base_url = Some("https://example.com/anthropic/".to_string());

    let url = build_upstream_url(&route, "/v1/messages", "beta=true");

    assert_eq!(url, "https://example.com/anthropic/v1/messages?beta=true");
}

#[test]
fn test_build_upstream_url_uses_default_base_for_non_anthropic() {
    let mut route = create_test_route(JsonObject::new(), JsonObject::new());
    route.upstream_base_url = "https://example.com/openai/".to_string();
    route.anthropic_base_url = Some("https://example.com/anthropic/".to_string());

    let url = build_upstream_url(&route, "/v1/chat/completions", "");

    assert_eq!(url, "https://example.com/openai/v1/chat/completions");
}

#[test]
fn test_build_upstream_url_uses_anthropic_base_url_for_messages_subpaths() {
    let mut route = create_test_route(JsonObject::new(), JsonObject::new());
    route.upstream_base_url = "https://example.com/openai/".to_string();
    route.anthropic_base_url = Some("https://example.com/anthropic/".to_string());

    let url = build_upstream_url(&route, "/v1/messages/count_tokens", "beta=true");

    assert_eq!(
        url,
        "https://example.com/anthropic/v1/messages/count_tokens?beta=true"
    );
}

#[test]
fn test_anthropic_passthrough_headers_are_limited_to_messages() {

    let mut headers = Vec::new();
    headers.push(Header::new("anthropic-version", "2023-06-01"));
    headers.push(Header::new("anthropic-beta", "fine-grained-tool-streaming-2025-05-14"));
    headers.push(Header::new("authorization", "Bearer client-token"));

    let forwarded = anthropic_passthrough_headers("/v1/messages", &headers);
    assert_eq!(
        forwarded,
        vec![
            ("anthropic-version", "2023-06-01".to_string()),
            (
                "anthropic-beta",
                "fine-grained-tool-streaming-2025-05-14".to_string()
            ),
        ]
    );

    assert!(anthropic_passthrough_headers("/v1/chat/completions", &headers).is_empty());
}

#[test]
fn test_anthropic_passthrough_headers_apply_to_messages_subpaths() {

    let mut headers = Vec::new();
    headers.push(Header::new("anthropic-version", "2023-06-01"));

    let forwarded = anthropic_passthrough_headers("/v1/messages/count_tokens", &headers);

    assert_eq!(
        forwarded,
        vec![("anthropic-version", "2023-06-01".to_string())]
    );
}

#[test]
fn proxy_test_apply_override_mode_forces_coverage() {
    {
        let mut override_params = JsonObject::new();
        override_params.insert("temperature", data(r#"0.9"#));
        let route = create_test_route(override_params, JsonObject::new());
    
        let mut body = json(r#"{"model": "gpt-4", "temperature": 0.5}"#);
        apply_param_overrides_inner(&mut body, &route);
        assert_eq!(body["temperature"], 0.9);
    }
    {
        let mut override_params = JsonObject::new();
        override_params.insert("temperature", data(r#"0.9"#));
        let route = create_test_route(override_params, JsonObject::new());
    
        let mut body = json(r#"{
            "model": "my-model",
            "temperature": 0.3,
            "messages": [{"role": "user", "content": "Hello"}]
        }"#);
    
        apply_param_overrides_inner(&mut body, &route);
    
        // override 模式应该强制覆盖用户设置
        assert_eq!(body["temperature"], json(r#"0.9"#));
        // model 应该被替换为目标模型
        assert_eq!(body["model"], json(r#""gpt-4-turbo""#));
    }
}

#[test]
fn proxy_test_apply_default_mode_when_not_set() {
    {
        let mut default_params = JsonObject::new();
        default_params.insert("top_p", data(r#"0.8"#));
        let route = create_test_route(JsonObject::new(), default_params);
    
        let mut body = json(r#"{"model": "gpt-4"}"#);
        apply_param_overrides_inner(&mut body, &route);
        assert_eq!(body["top_p"], 0.8);
    }
    {
        let mut default_params = JsonObject::new();
        default_params.insert("temperature", data(r#"0.7"#));
        let route = create_test_route(JsonObject::new(), default_params);
    
        let mut body = json(r#"{
            "model": "my-model",
            "messages": [{"role": "user", "content": "Hello"}]
        }"#);
    
        apply_param_overrides_inner(&mut body, &route);
    
        // default 模式：用户未设置时应应用
        assert_eq!(body["temperature"], json(r#"0.7"#));
    }
}

#[test]
fn proxy_test_apply_default_mode_when_already_set() {
    {
        let mut default_params = JsonObject::new();
        default_params.insert("temperature", data(r#"0.7"#));
        let route = create_test_route(JsonObject::new(), default_params);
    
        let mut body = json(r#"{"model": "gpt-4", "temperature": 0.5}"#);
        apply_param_overrides_inner(&mut body, &route);
        assert_eq!(body["temperature"], 0.5);
    }
    {
        let mut default_params = JsonObject::new();
        default_params.insert("temperature", data(r#"0.7"#));
        let route = create_test_route(JsonObject::new(), default_params);
    
        let mut body = json(r#"{
            "model": "my-model",
            "temperature": 0.3,
            "messages": [{"role": "user", "content": "Hello"}]
        }"#);
    
        apply_param_overrides_inner(&mut body, &route);
    
        // default 模式：用户已设置时不应覆盖
        assert_eq!(body["temperature"], json(r#"0.3"#));
    }
}

#[test]
fn proxy_test_apply_both_override_and_default() {
    {
        let mut override_params = JsonObject::new();
        override_params.insert("temperature", data(r#"0.9"#));
        let mut default_params = JsonObject::new();
        default_params.insert("top_p", data(r#"0.8"#));
        let route = create_test_route(override_params, default_params);
    
        let mut body = json(r#"{"model": "gpt-4", "temperature": 0.5}"#);
        apply_param_overrides_inner(&mut body, &route);
        assert_eq!(body["temperature"], 0.9);
        assert_eq!(body["top_p"], 0.8);
    }
    {
        let mut override_params = JsonObject::new();
        let mut default_params = JsonObject::new();
    
        override_params.insert("temperature", data(r#"0.9"#));
        default_params.insert("top_p", data(r#"0.9"#));
    
        let route = create_test_route(override_params, default_params);
    
        let mut body = json(r#"{
            "model": "my-model",
            "temperature": 0.3,
            "messages": [{"role": "user", "content": "Hello"}]
        }"#);
    
        apply_param_overrides_inner(&mut body, &route);
    
        // override 强制覆盖
        assert_eq!(body["temperature"], json(r#"0.9"#));
        // default 应用（因为用户没设置）
        assert_eq!(body["top_p"], json(r#"0.9"#));
    }
}

#[test]
fn proxy_test_apply_model_replacement() {
    {
        let route = create_test_route(JsonObject::new(), JsonObject::new());
        let mut body = json(r#"{"model": "gpt-4"}"#);
        apply_param_overrides_inner(&mut body, &route);
        assert_eq!(body["model"], "gpt-4-turbo");
    }
    {
        let route = create_test_route(JsonObject::new(), JsonObject::new());
    
        let mut body = json(r#"{
            "model": "my-alias",
            "messages": [{"role": "user", "content": "Hello"}]
        }"#);
    
        apply_param_overrides_inner(&mut body, &route);
    
        // model 应该被替换为目标模型
        assert_eq!(body["model"], json(r#""gpt-4-turbo""#));
    }
}

#[test]
fn proxy_test_apply_empty_body() {
    {
        let route = create_test_route(JsonObject::new(), JsonObject::new());
        let mut body = json(r#"{}"#);
        apply_param_overrides_inner(&mut body, &route);
        assert_eq!(body["model"], "gpt-4-turbo");
    }
    {
        let route = create_test_route(JsonObject::new(), JsonObject::new());
    
        let mut body = json(r#"{}"#);
    
        apply_param_overrides_inner(&mut body, &route);
    
        // 即使空 body，也应该设置 model
        assert_eq!(body["model"], json(r#""gpt-4-turbo""#));
    }
}

#[test]
fn proxy_test_apply_extra_body_expand() {
    {
        let mut default_params = JsonObject::new();
        default_params.insert("extra_body", data(r#"{"custom_field": "value"}"#),
        );
        let route = create_test_route(JsonObject::new(), default_params);
    
        let mut body = json(r#"{"model": "gpt-4"}"#);
        apply_param_overrides_inner(&mut body, &route);
        assert_eq!(body["custom_field"], "value");
    }
    {
        let mut override_params = JsonObject::new();
        override_params.insert("extra_body", data(r#"{
                "chat_template_kwargs": {
                    "enable_thinking": false
                }
            }"#)
        );
        let route = create_test_route(override_params, JsonObject::new());
    
        let mut body = json(r#"{
            "model": "my-model",
            "messages": [{"role": "user", "content": "Hello"}]
        }"#);
    
        apply_param_overrides_inner(&mut body, &route);
    
        // extra_body 应该展开到请求体顶层
        assert_eq!(body["chat_template_kwargs"]["enable_thinking"], json(r#"false"#));
        // extra_body 键本身不应该存在
        assert!(body.get("extra_body").is_none());
    }
}

#[test]
fn a_default_under_extra_body_leaves_the_request_alone() {
    let mut defaults = JsonObject::new();
    defaults.insert("extra_body", data(r#"{"top_k": 5, "min_p": 0}"#));
    let route = create_test_route(JsonObject::new(), defaults);
    let mut body = json(r#"{"model": "a", "top_k": 1}"#);
    apply_param_overrides_inner(&mut body, &route);
    assert_eq!(body, json(r#"{"model": "gpt-4-turbo", "top_k": 1, "min_p": 0}"#));
    let mut body = json(r#"{"model": "a", "extra_body": {}}"#);
    apply_param_overrides_inner(&mut body, &route);
    assert_eq!(body, json(r#"{"model": "gpt-4-turbo", "extra_body": {}}"#));
}

#[test]
fn the_debug_record_holds_request_and_answer() {
    let sent = data(r#"{"model": "b"}"#);
    let r = proxy::debug_record(&data(r#"{"model": "a"}"#), "ip", "cu", "/e", "uu", &sent, Some(b"{\"x\": 1}"));
    assert_eq!(to_value(&r.client_request), json(r#"{"model": "a"}"#));
    assert_eq!((r.client_ip.as_str(), r.client_url.as_str()), ("ip", "cu"));
    assert_eq!((r.endpoint.as_str(), r.upstream_url.as_str()), ("/e", "uu"));
    assert_eq!(to_value(&r.upstream_request), json(r#"{"model": "b"}"#));
    assert_eq!(to_value(&r.upstream_response), json(r#"{"x": 1}"#));
    let r = proxy::debug_record(&sent, "", "", "", "", &sent, Some(b"plain"));
    assert_eq!(r.upstream_response, Json::Null);
    let r = proxy::debug_record(&sent, "", "", "", "", &sent, None);
    assert_eq!(r.upstream_response, Json::Null);
    assert_eq!(proxy::read_answer(b"\xff"), None);
}
