use llm_wrapper::codec::to_value;
use llm_wrapper::json::Json;
use llm_wrapper::models::{
    AppConfig, ModelAlias, OverrideMode, ParamOverride, UpstreamConfig,
};
use llm_wrapper::router::ModelRouter;
use llm_wrapper::transform::Protocol;

fn upstream(name: &str, base_url: &str, enabled: bool) -> UpstreamConfig {
    let mut u = UpstreamConfig::new(name.to_string(), base_url.to_string());
    u.enabled = enabled;
    u.support_responses = true;
    u
}

fn alias(name: &str, target: &str, upstream: &str) -> ModelAlias {
    ModelAlias::new(name.to_string(), target.to_string(), upstream.to_string())
}

fn config(upstreams: Vec<UpstreamConfig>, aliases: Vec<ModelAlias>) -> AppConfig {
    let mut c = AppConfig::new();
    c.upstreams = upstreams;
    c.aliases = aliases;
    c
}

fn param(key: &str, value: &str, mode: OverrideMode) -> ParamOverride {
    ParamOverride {
        key: key.to_string(),
        value: Json::parse(value).unwrap(),
        mode,
    }
}

#[test]
fn test_route_alias_match() {
    let router = ModelRouter::new(config(
        vec![upstream("test-upstream", "http://localhost:8080", true)],
        vec![alias("my-model", "gpt-4", "test-upstream")],
    ));

    let route = router.route("my-model");
    assert!(route.is_some());
    let route = route.unwrap();
    assert_eq!(route.upstream_base_url, "http://localhost:8080");
    assert_eq!(route.target_model, "gpt-4");
}

#[test]
fn test_route_upstream_direct() {
    let router = ModelRouter::new(config(
        vec![upstream("direct-upstream", "http://localhost:9090", true)],
        vec![],
    ));

    let route = router.route("direct-upstream");
    assert!(route.is_some());
    let route = route.unwrap();
    assert_eq!(route.upstream_base_url, "http://localhost:9090");
    assert_eq!(route.target_model, "direct-upstream");
}

#[test]
fn test_route_upstream_disabled() {
    let router = ModelRouter::new(config(
        vec![upstream("disabled-upstream", "http://localhost:9090", false)],
        vec![],
    ));

    let route = router.route("disabled-upstream");
    assert!(route.is_none());
}

#[test]
fn test_route_not_found() {
    let router = ModelRouter::new(config(vec![], vec![]));

    let route = router.route("nonexistent");
    assert!(route.is_none());
}

#[test]
fn test_route_override_params() {
    let mut a = alias("my-model", "gpt-4", "test-upstream");
    a.param_overrides
        .push(param("temperature", "0.9", OverrideMode::Override));
    let router = ModelRouter::new(config(
        vec![upstream("test-upstream", "http://localhost:8080", true)],
        vec![a],
    ));

    let route = router.route("my-model").unwrap();
    assert_eq!(to_value(route.override_params.get("temperature").unwrap()), 0.9);
    assert!(route.default_params.is_empty());
}

#[test]
fn test_route_default_params() {
    let mut a = alias("my-model", "gpt-4", "test-upstream");
    a.param_overrides
        .push(param("temperature", "0.5", OverrideMode::Default));
    let router = ModelRouter::new(config(
        vec![upstream("test-upstream", "http://localhost:8080", true)],
        vec![a],
    ));

    let route = router.route("my-model").unwrap();
    assert_eq!(to_value(route.default_params.get("temperature").unwrap()), 0.5);
    assert!(route.override_params.is_empty());
}

#[test]
fn test_route_upstream_not_found() {
    let router = ModelRouter::new(config(
        vec![],
        vec![alias("my-model", "gpt-4", "nonexistent-upstream")],
    ));

    let route = router.route("my-model");
    assert!(route.is_none());
}

#[test]
fn test_route_protocol_supports() {
    let mut u = upstream("test-upstream", "http://localhost:8080", true);
    u.support_chat_completions = true;
    u.support_responses = false;
    u.support_anthropic_messages = true;
    let router = ModelRouter::new(config(
        vec![u],
        vec![alias("my-model", "gpt-4", "test-upstream")],
    ));

    let route = router.route("my-model").unwrap();
    assert!(route.supports(Protocol::ChatCompletions));
    assert!(!route.supports(Protocol::Responses));
    assert!(route.supports(Protocol::AnthropicMessages));
}

#[test]
fn test_route_best_available_protocol() {
    let mut u = upstream("test-upstream", "http://localhost:8080", true);
    u.support_chat_completions = false;
    u.support_responses = true;
    u.support_anthropic_messages = false;
    let router = ModelRouter::new(config(
        vec![u],
        vec![alias("my-model", "gpt-4", "test-upstream")],
    ));

    let route = router.route("my-model").unwrap();
    let best = route.best_available_protocol(Protocol::ChatCompletions);
    assert_eq!(best, Some(Protocol::Responses));
}

#[test]
fn test_route_effective_base_url() {
    let mut u = upstream("test-upstream", "http://localhost:8080", true);
    u.support_anthropic_messages = true;
    u.anthropic_base_url = Some("http://localhost:9090".to_string());
    let router = ModelRouter::new(config(
        vec![u],
        vec![alias("my-model", "gpt-4", "test-upstream")],
    ));

    let route = router.route("my-model").unwrap();
    assert_eq!(
        route.effective_base_url(Protocol::ChatCompletions),
        "http://localhost:8080"
    );
    assert_eq!(
        route.effective_base_url(Protocol::AnthropicMessages),
        "http://localhost:9090"
    );
}

#[test]
fn aliases_hide_upstreams_and_targets_are_not_routed() {
    let router = ModelRouter::new(config(
        vec![
            upstream("up", "http://one", true),
            upstream("other", "http://two", true),
        ],
        vec![alias("up", "target", "other")],
    ));
    assert_eq!(router.route("up").unwrap().upstream_base_url, "http://two");
    assert!(router.route("target").is_none());
    assert_eq!(router.get_models(), vec!["up".to_string()]);
}

#[test]
fn later_parameters_replace_earlier_ones() {
    let mut a = alias("m", "t", "up");
    a.param_overrides.push(param("k", "1", OverrideMode::Override));
    a.param_overrides.push(param("k", "2", OverrideMode::Override));
    let router = ModelRouter::new(config(vec![upstream("up", "http://one", true)], vec![a]));
    let route = router.route("m").unwrap();
    assert_eq!(to_value(route.override_params.get("k").unwrap()), 2);
}
