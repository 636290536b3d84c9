use llm_wrapper::codec::to_value;
use llm_wrapper::handlers::models_api::{
    cli_proxy_api_model_matches_auth, create_upstream_model_alias, extract_models_from_upstream_response,
    lengths_changed, list_models, plan_fetch, plan_test, store_lengths, upstream_models, upstreams_to_ask,
    AliasOutcome, FetchRequest, FetchedModel, LocalProxy, TestError, UpstreamFetchError, UpstreamModel,
};
use llm_wrapper::json::Json;
use llm_wrapper::models::{AppConfig, ModelAlias, ModelAliasSource, UpstreamAuth, UpstreamConfig};
use llm_wrapper::router::ModelRouter;

fn json(text: &str) -> Json {
    Json::parse(text).unwrap()
}

fn model(id: &str, max_len: Option<u32>) -> UpstreamModel {
    UpstreamModel { id: id.to_string(), max_len }
}

fn fetched(upstream: &str, id: &str, max_len: Option<u32>) -> FetchedModel {
    FetchedModel { upstream: upstream.to_string(), id: id.to_string(), max_len }
}

fn upstream(name: &str, key: Option<&str>) -> UpstreamConfig {
    let mut u = UpstreamConfig::new(name.to_string(), "http://h".to_string());
    u.auth = UpstreamAuth::ApiKey { key: key.map(|k| k.to_string()) };
    u
}

fn config() -> AppConfig {
    let mut c = AppConfig::new();
    let mut off = upstream("off", None);
    off.enabled = false;
    c.upstreams = vec![upstream("a", Some("sk-a")), upstream("b", None), off];
    c.aliases = vec![
        ModelAlias::new("one".to_string(), "m1".to_string(), "b".to_string()),
        ModelAlias::new("two".to_string(), "m2".to_string(), "off".to_string()),
        ModelAlias::new("three".to_string(), "m3".to_string(), "a".to_string()),
        ModelAlias::new("four".to_string(), "m4".to_string(), "b".to_string()),
    ];
    c
}

#[test]
fn listed_models_are_read_in_both_forms() {
    let r = extract_models_from_upstream_response(&json(
        r#"{"data": [{"id": "a", "max_model_len": 4096}, {"name": "x"}, {"id": "b"}], "models": [{"slug": "c"}]}"#,
    ));
    assert_eq!(r, vec![model("a", Some(4096)), model("b", None)]);
    let r = extract_models_from_upstream_response(&json(
        r#"{"models": [{"slug": "c", "context_window": 8}, {"slug": "d", "max_model_len": 4294967297}, {}]}"#,
    ));
    assert_eq!(r, vec![model("c", Some(8)), model("d", Some(1))]);
    assert!(extract_models_from_upstream_response(&json("null")).is_empty());
}

#[test]
fn models_belong_to_the_account_that_offers_them() {
    let a = UpstreamAuth::AnthropicOAuth;
    let c = UpstreamAuth::CodexOAuth;
    assert!(cli_proxy_api_model_matches_auth(&a, "tool-big", "tool"));
    assert!(!cli_proxy_api_model_matches_auth(&a, "toolbig", "tool"));
    assert!(!cli_proxy_api_model_matches_auth(&c, "tool-big", "tool"));
    assert!(cli_proxy_api_model_matches_auth(&c, "gpt-5", "tool"));
    assert!(cli_proxy_api_model_matches_auth(&UpstreamAuth::default(), "tool-big", "tool"));
    let body = json(r#"{"data": [{"id": "gpt-5"}, {"id": "tool-big"}]}"#);
    assert_eq!(upstream_models(&a, &body, "tool"), vec![model("tool-big", None)]);
    assert_eq!(upstream_models(&c, &body, "tool"), vec![model("gpt-5", None)]);
}

#[test]
fn models_are_fetched_from_the_upstream_or_the_local_proxy() {
    let running = LocalProxy::Running { endpoint: "http://p".to_string(), api_key: "k".to_string() };
    let mut u = upstream("a", Some("sk-a"));
    assert_eq!(
        plan_fetch(&u, &LocalProxy::Absent, "tool"),
        Ok(FetchRequest {
            url: "http://h/v1/models".to_string(),
            bearer: Some("sk-a".to_string()),
            user_agent: None
        })
    );
    u.auth = UpstreamAuth::AnthropicOAuth;
    assert_eq!(plan_fetch(&u, &LocalProxy::Absent, "tool"), Err(UpstreamFetchError::CliProxyNotConfigured));
    assert_eq!(plan_fetch(&u, &LocalProxy::Stopped, "tool"), Err(UpstreamFetchError::CliProxyNotRunning));
    assert_eq!(
        plan_fetch(&u, &running, "tool"),
        Ok(FetchRequest {
            url: "http://p/v1/models".to_string(),
            bearer: Some("k".to_string()),
            user_agent: Some("tool-cli/llm-wrapper".to_string())
        })
    );
    u.auth = UpstreamAuth::CodexOAuth;
    assert_eq!(plan_fetch(&u, &running, "tool").unwrap().user_agent, None);
}

#[test]
fn fetch_errors_are_told() {
    let http = UpstreamFetchError::Http("boom".to_string());
    assert_eq!(http.message(), "boom");
    assert_eq!(http.answer("u"), (502, "请求上游失败: boom".to_string()));
    assert_eq!(UpstreamFetchError::Timeout.answer("u"), (504, "请求上游超时".to_string()));
    assert_eq!(UpstreamFetchError::Timeout.message(), "请求上游超时");
    assert_eq!(UpstreamFetchError::CliProxyNotRunning.message(), "CLIProxyAPI 服务未运行");
    assert_eq!(
        UpstreamFetchError::CliProxyNotRunning.answer("u"),
        (400, "上游 'u' 的 CLIProxyAPI 服务未运行".to_string())
    );
    assert_eq!(UpstreamFetchError::CliProxyNotConfigured.message(), "CLIProxyAPI 未配置");
    assert_eq!(
        UpstreamFetchError::CliProxyNotConfigured.answer("u"),
        (400, "上游 'u' 的 CLIProxyAPI 未配置".to_string())
    );
}

#[test]
fn clients_see_the_aliases_with_their_lengths() {
    let c = config();
    let known = vec![
        fetched("b", "m1", Some(10)),
        fetched("b", "m1", Some(20)),
        fetched("b", "m1", None),
        fetched("a", "m4", Some(30)),
    ];
    let v = to_value(&list_models(&c.aliases, &known));
    assert_eq!(v["object"], "list");
    assert_eq!(v["data"].as_array().unwrap().len(), 4);
    assert_eq!(v["data"][0]["id"], "one");
    assert_eq!(v["data"][0]["object"], "model");
    assert_eq!(v["data"][0]["created"], 0);
    assert_eq!(v["data"][0]["owned_by"], "b");
    assert_eq!(v["data"][0]["max_model_len"], 20);
    assert!(v["data"][3].get("max_model_len").is_none());
}

#[test]
fn learned_lengths_are_noted_once() {
    let mut c = config();
    let known = vec![fetched("b", "m4", Some(7))];
    assert!(lengths_changed(&c.aliases, &known));
    assert!(!lengths_changed(&c.aliases, &vec![]));
    store_lengths(&mut c, &known);
    assert_eq!(c.aliases[3].max_model_len, Some(7));
    assert_eq!(c.aliases[0].max_model_len, None);
    assert!(!lengths_changed(&c.aliases, &known));
}

#[test]
fn each_enabled_upstream_is_asked_once() {
    let asked = upstreams_to_ask(&config());
    let names: Vec<&str> = asked.iter().map(|u| u.name.as_str()).collect();
    assert_eq!(names, vec!["b", "a"]);
}

#[test]
fn a_test_uses_the_given_or_the_stored_key() {
    let c = config();
    let ask = |url: &str, key: Option<&str>, name: Option<&str>| plan_test(&c.upstreams, url, key, name);
    assert_eq!(ask("  / ", None, None), Err(TestError::EmptyUrl));
    let r = ask(" http://x// ", Some(" k1 "), None).unwrap();
    assert_eq!((r.url.as_str(), r.bearer), ("http://x/v1/models", Some("k1".to_string())));
    assert_eq!(ask("http://x", Some("none"), None).unwrap().bearer, None);
    assert_eq!(ask("http://x", Some(""), Some("a")).unwrap().bearer, None);
    let masked = llm_wrapper::handlers::config_api::mask_secret("sk-long-enough-secret");
    assert_eq!(ask("http://x", Some(&masked), Some("a")).unwrap().bearer, Some("sk-a".to_string()));
    assert_eq!(ask("http://x", Some(&masked), Some("b")), Err(TestError::MaskedKey));
    assert_eq!(ask("http://x", Some(&masked), None), Err(TestError::MaskedKey));
}

#[test]
fn created_aliases_can_be_called() {
    let mut c = config();
    assert_eq!(create_upstream_model_alias(&mut c, "off", "new"), AliasOutcome::NoUpstream);
    assert_eq!(create_upstream_model_alias(&mut c, "a", "one"), AliasOutcome::Taken);
    assert_eq!(c.aliases.len(), 4);
    assert_eq!(create_upstream_model_alias(&mut c, "a", "m1"), AliasOutcome::Created);
    assert_eq!(c.aliases[4].source, ModelAliasSource::Auto);
    let route = ModelRouter::new(c).route("m1").unwrap();
    assert_eq!(route.upstream_name, "a");
    assert_eq!(route.target_model, "m1");
    assert!(route.override_params.is_empty() && route.default_params.is_empty());
}
