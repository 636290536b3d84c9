use llm_wrapper::json::Json;
use llm_wrapper::models::{
    ApiType, AppConfig, MissingField, ModelAlias, ModelAliasSource, OverrideMode, RawUpstream, UpstreamAuth,
    UpstreamConfig,
};

fn text(v: &Json, key: &str) -> Option<String> {
    v.str_at(key).map(|s| s.to_string())
}

fn auth(v: &Json) -> Option<UpstreamAuth> {
    let kind = v.str_at("type")?;
    match kind {
        "api_key" => Some(UpstreamAuth::ApiKey { key: text(v, "key") }),
        "oauth_device" => Some(UpstreamAuth::OAuthDevice {
            client_id: text(v, "client_id")?,
            device_auth_url: text(v, "device_auth_url")?,
            token_url: text(v, "token_url")?,
            scope: text(v, "scope"),
        }),
        "anthropic_oauth" => Some(UpstreamAuth::AnthropicOAuth),
        "codex_oauth" => Some(UpstreamAuth::CodexOAuth),
        _ => None,
    }
}

fn raw(v: &Json) -> RawUpstream {
    RawUpstream {
        name: text(v, "name"),
        base_url: text(v, "base_url"),
        api_type: v.str_at("api_type").map(|s| {
            if s == "chatgpt_codex" {
                ApiType::ChatGptCodex
            } else {
                ApiType::OpenAI
            }
        }),
        api_key: text(v, "api_key"),
        auth: v.get("auth").and_then(auth),
        enabled: v.bool_at("enabled"),
        support_openai: v.bool_at("support_openai"),
        support_anthropic: v.bool_at("support_anthropic"),
        support_chat_completions: v.bool_at("support_chat_completions"),
        support_responses: v.bool_at("support_responses"),
        support_anthropic_messages: v.bool_at("support_anthropic_messages"),
        anthropic_base_url: text(v, "anthropic_base_url"),
    }
}

fn upstreams(text: &str) -> Vec<UpstreamConfig> {
    let doc = Json::parse(text).expect("JSON parse failed");
    doc.array_at("upstreams")
        .unwrap()
        .iter()
        .map(|u| UpstreamConfig::from_raw(raw(u)).unwrap())
        .collect()
}

#[test]
fn test_oauth_auth_json_roundtrip() {
    let list = upstreams(
        r#"{
            "upstreams": [{
                "name": "test-oauth",
                "base_url": "https://api.openai.com",
                "enabled": true,
                "auth": {
                    "type": "oauth_device",
                    "client_id": "codex",
                    "device_auth_url": "https://auth.openai.com/oauth/authorize",
                    "token_url": "https://auth.openai.com/oauth/token",
                    "scope": "offline"
                }
            }]
        }"#,
    );
    assert!(list[0].is_oauth());
}

#[test]
fn test_old_support_fields_migration() {
    let list = upstreams(
        r#"{
            "upstreams": [{
                "name": "test",
                "base_url": "http://localhost:8080",
                "support_openai": true,
                "support_anthropic": true
            }]
        }"#,
    );
    assert!(list[0].support_chat_completions);
    assert!(list[0].support_responses);
    assert!(list[0].support_anthropic_messages);
}

#[test]
fn test_codex_forces_responses() {
    let list = upstreams(
        r#"{
            "upstreams": [{
                "name": "codex",
                "base_url": "https://chatgpt.com/backend-api",
                "api_type": "chatgpt_codex",
                "support_chat_completions": true,
                "support_anthropic_messages": true
            }]
        }"#,
    );
    assert!(!list[0].support_chat_completions);
    assert!(list[0].support_responses);
    assert!(!list[0].support_anthropic_messages);
}

#[test]
fn test_old_api_key_format() {
    let list = upstreams(
        r#"{
            "upstreams": [{
                "name": "vllm",
                "base_url": "http://127.0.0.1:30002",
                "enabled": true,
                "api_key": null
            }]
        }"#,
    );
    assert!(!list[0].is_oauth());
}

#[test]
fn test_model_alias_new() {
    let alias = ModelAlias::new(
        "my-alias".to_string(),
        "gpt-4".to_string(),
        "test-upstream".to_string(),
    );

    assert_eq!(alias.alias, "my-alias");
    assert_eq!(alias.target_model, "gpt-4");
    assert_eq!(alias.upstream, "test-upstream");
    assert!(alias.param_overrides.is_empty());
}

#[test]
fn test_upstream_config_new() {
    let upstream = UpstreamConfig::new(
        "test-upstream".to_string(),
        "http://localhost:8080".to_string(),
    );

    assert_eq!(upstream.name, "test-upstream");
    assert_eq!(upstream.base_url, "http://localhost:8080");
    assert!(upstream.api_key_value().is_none());
    assert!(upstream.enabled);
}

#[test]
fn test_upstream_config_id() {
    let upstream = UpstreamConfig::new(
        "test-upstream".to_string(),
        "http://localhost:8080".to_string(),
    );

    assert_eq!(upstream.id(), "test-upstream");
}

#[test]
fn test_app_config_new() {
    let config = AppConfig::new();

    assert!(config.upstreams.is_empty());
    assert!(config.aliases.is_empty());
}

#[test]
fn test_app_config_default() {
    let config = AppConfig::default();

    assert!(config.upstreams.is_empty());
    assert!(config.aliases.is_empty());
}

#[test]
fn test_upstream_config_protocol_fields() {
    let upstream = UpstreamConfig::new("test".to_string(), "http://localhost:8080".to_string());
    assert!(upstream.support_chat_completions);
    assert!(!upstream.support_responses);
    assert!(!upstream.support_anthropic_messages);
}

#[test]
fn test_old_support_openai_json_migration() {
    let list = upstreams(
        r#"{
        "upstreams": [{
            "name": "test",
            "base_url": "http://localhost:8080",
            "enabled": true,
            "support_openai": true,
            "support_anthropic": true
        }]
    }"#,
    );
    assert_eq!(list[0].support_chat_completions, true);
    assert_eq!(list[0].support_responses, true);
    assert_eq!(list[0].support_anthropic_messages, true);
}

#[test]
fn test_codex_forces_responses_json() {
    let list = upstreams(
        r#"{
        "upstreams": [{
            "name": "codex",
            "base_url": "https://chatgpt.com/backend-api",
            "api_type": "chatgpt_codex",
            "enabled": true,
            "support_chat_completions": true,
            "support_anthropic_messages": true
        }]
    }"#,
    );
    assert_eq!(list[0].support_chat_completions, false);
    assert_eq!(list[0].support_responses, true);
    assert_eq!(list[0].support_anthropic_messages, false);
}

#[test]
fn missing_fields_are_named() {
    let nothing = Json::parse("{}").unwrap();
    assert_eq!(
        UpstreamConfig::from_raw(raw(&nothing)),
        Err(MissingField::Name)
    );
    assert_eq!(MissingField::Name.field(), "name");
    let named = Json::parse(r#"{"name": "x"}"#).unwrap();
    assert_eq!(
        UpstreamConfig::from_raw(raw(&named)),
        Err(MissingField::BaseUrl)
    );
    assert_eq!(MissingField::BaseUrl.field(), "base_url");
}

#[test]
fn old_fields_count_only_without_new_ones() {
    let u = upstreams(
        r#"{"upstreams": [{"name": "x", "base_url": "u", "support_openai": false,
            "support_anthropic": true, "support_responses": true, "api_key": "k"}]}"#,
    );
    assert!(u[0].support_chat_completions);
    assert!(u[0].support_responses);
    assert!(!u[0].support_anthropic_messages);
    assert_eq!(u[0].api_key_value(), Some("k"));
}

#[test]
fn models_are_listed_where_the_upstream_keeps_them() {
    let mut u = UpstreamConfig::new("x".to_string(), "http://h".to_string());
    assert_eq!(u.get_models_url(), "http://h/v1/models");
    u.api_type = ApiType::ChatGptCodex;
    assert_eq!(u.get_models_url(), "http://h/codex/models");
}

#[test]
fn accounts_go_through_the_local_proxy() {
    assert!(UpstreamAuth::AnthropicOAuth.is_cli_proxy_api());
    assert!(UpstreamAuth::CodexOAuth.is_cli_proxy_api());
    assert!(!UpstreamAuth::default().is_cli_proxy_api());
    assert_eq!(UpstreamAuth::AnthropicOAuth.cli_proxy_api_provider("anthropic"), Some("anthropic"));
    assert_eq!(UpstreamAuth::CodexOAuth.cli_proxy_api_provider("anthropic"), Some("codex"));
    assert_eq!(UpstreamAuth::default().cli_proxy_api_provider("anthropic"), None);
    assert_eq!(ApiType::default(), ApiType::OpenAI);
    assert_eq!(ModelAliasSource::default(), ModelAliasSource::Manual);
    assert_eq!(OverrideMode::default(), OverrideMode::Default);
}
