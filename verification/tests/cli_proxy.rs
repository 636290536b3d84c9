use llm_wrapper::cli_proxy_api_manager::{
    check_auth_dir, count_provider_accounts, generate_config, get_account_status, health_url,
    load_or_create_api_key, load_or_create_management_secret, login_flag, monitor_step, parse_port,
    provider_of_file, wait_step, AccountFile, ChildState, LoginScan, MonitorAction, WaitAction,
    WAIT_MAX_ATTEMPTS,
};
use llm_wrapper::cli_proxy_api_proxy::{
    build_cli_proxy_request_headers, connect_error_message, is_event_stream, prepare_cli_proxy_request,
    select_cli_proxy_response_headers, should_forward_response_header,
};
use llm_wrapper::codec::to_value;
use llm_wrapper::handlers::cli_proxy::{
    auth_login, login_answer, login_poll, login_provider, transform_cli_proxy_api_status,
};
use llm_wrapper::headers::{get_header, Header};
use llm_wrapper::json::Json;
use llm_wrapper::models::{AppConfig, UpstreamAuth, UpstreamConfig};

fn names(list: &[&str]) -> Vec<String> {
    list.iter().map(|s| s.to_string()).collect()
}

#[test]
fn test_cli_proxy_request_headers_passthrough_except_proxy_managed_headers() {
    let client_headers = vec![
        Header::new("host", "wrapper.local"),
        Header::new("content-type", "application/json; charset=utf-8"),
        Header::new("content-length", "123"),
        Header::new("connection", "keep-alive"),
        Header::new("authorization", "Bearer client-key"),
        Header::new("anthropic-beta", "fine-grained-tool-streaming"),
        Header::new("x-amp-thread-id", "thread-123"),
        Header::new("user-agent", "anthropic-cli/1.0"),
    ];

    let forwarded = build_cli_proxy_request_headers(&client_headers, Some("sidecar-key"));

    assert_eq!(
        get_header(&forwarded, "content-type").as_deref(),
        Some("application/json; charset=utf-8")
    );
    assert_eq!(
        get_header(&forwarded, "authorization").as_deref(),
        Some("Bearer sidecar-key")
    );
    assert_eq!(
        get_header(&forwarded, "anthropic-beta").as_deref(),
        Some("fine-grained-tool-streaming")
    );
    assert_eq!(
        get_header(&forwarded, "x-amp-thread-id").as_deref(),
        Some("thread-123")
    );
    assert_eq!(
        get_header(&forwarded, "user-agent").as_deref(),
        Some("anthropic-cli/1.0")
    );
    assert!(get_header(&forwarded, "host").is_none());
    assert!(get_header(&forwarded, "content-length").is_none());
    assert!(get_header(&forwarded, "connection").is_none());
}

#[test]
fn test_cli_proxy_request_headers_default_to_json_content_type() {
    let forwarded = build_cli_proxy_request_headers(&Vec::new(), None);

    assert_eq!(
        get_header(&forwarded, "content-type").as_deref(),
        Some("application/json")
    );
    assert!(get_header(&forwarded, "authorization").is_none());
}

#[test]
fn test_cli_proxy_response_headers_filter_only_transport_headers() {
    assert!(should_forward_response_header("content-type"));
    assert!(should_forward_response_header("anthropic-request-id"));
    assert!(should_forward_response_header("x-request-id"));
    assert!(!should_forward_response_header("content-length"));
    assert!(!should_forward_response_header("transfer-encoding"));
    assert!(!should_forward_response_header("connection"));
}

#[test]
fn header_names_are_compared_without_case() {
    assert!(!should_forward_response_header("Transfer-Encoding"));
    let kept = select_cli_proxy_response_headers(&vec![
        Header::new("Keep-Alive", "5"),
        Header::new("X-Request-Id", "r"),
    ]);
    assert_eq!(kept, vec![Header::new("X-Request-Id", "r")]);
}

#[test]
fn keys_that_are_no_header_text_are_left_out() {
    let forwarded = build_cli_proxy_request_headers(&Vec::new(), Some("a\nb"));
    assert!(get_header(&forwarded, "authorization").is_none());
    let forwarded = build_cli_proxy_request_headers(&Vec::new(), Some(""));
    assert!(get_header(&forwarded, "authorization").is_none());
}

#[test]
fn requests_to_the_local_proxy_keep_their_body_but_the_model() {
    let body = Json::parse(r#"{"model": "alias", "messages": [], "x": 1}"#).unwrap();
    let r = prepare_cli_proxy_request(
        "http://127.0.0.1:8317/",
        None,
        "real",
        "/v1/messages",
        "beta=true",
        &Vec::new(),
        &body,
    );
    assert_eq!(r.url, "http://127.0.0.1:8317/v1/messages?beta=true");
    assert_eq!(r.body.text(), r#"{"messages":[],"model":"real","x":1}"#);
    assert!(is_event_stream("text/event-stream; charset=utf-8"));
    assert!(!is_event_stream("application/json"));
    assert_eq!(
        connect_error_message("http://h"),
        "Cannot connect to CLIProxyAPI at http://h. Is it running?"
    );
}

#[test]
fn stored_secrets_are_used_and_missing_ones_made() {
    let yaml = "api-keys:\n  - \"sk-stored\"\nremote-management:\n  secret-key: \"sec-stored\"\n";
    assert_eq!(load_or_create_api_key(Some(yaml)), "sk-stored");
    assert_eq!(
        load_or_create_management_secret(Some(yaml)),
        ("sec-stored".to_string(), false)
    );
    let key = load_or_create_api_key(None);
    assert!(key.starts_with("sk-") && key.len() == 39);
    let (secret, new) = load_or_create_management_secret(Some("debug: false\n"));
    assert!(secret.starts_with("sec-") && secret.len() == 40 && new);
    assert!(load_or_create_api_key(Some("api-keys: []\n")).starts_with("sk-"));
    assert!(load_or_create_api_key(Some("[unclosed")).starts_with("sk-"));
}

#[test]
fn the_written_configuration_holds_the_secrets() {
    let text = generate_config("http://127.0.0.1:9000", "/home/x/.llm-wrapper", "sk-1", "sec-1");
    assert_eq!(
        text,
        "host: \"127.0.0.1\"\nport: 9000\nauth-dir: \"/home/x/.llm-wrapper/cli-proxy-api\"\napi-keys:\n  - \"sk-1\"\nremote-management:\n  secret-key: \"sec-1\"\ndebug: false\ncodex-header-defaults:\n  user-agent: \"codex_cli_rs/0.128.0 (macos; arm64)\"\n"
    );
    assert_eq!(load_or_create_api_key(Some(&text)), "sk-1");
    assert_eq!(load_or_create_management_secret(Some(&text)).0, "sec-1");
    assert!(generate_config("localhost", "d", "k", "s").starts_with("host: \"127.0.0.1\"\nport: 8317\n"));
    assert!(generate_config("http://h:x", "d", "k", "s").starts_with("host: \"h\"\nport: 8317\n"));
}

#[test]
fn ports_are_read_as_numbers() {
    assert_eq!(parse_port("0"), Some(0));
    assert_eq!(parse_port("65535"), Some(65535));
    assert_eq!(parse_port("65536"), None);
    assert_eq!(parse_port("+80"), Some(80));
    assert_eq!(parse_port("0080"), Some(80));
    assert_eq!(parse_port(""), None);
    assert_eq!(parse_port("+"), None);
    assert_eq!(parse_port("8a"), None);
    assert_eq!(parse_port("99999999999999999999999"), None);
}

#[test]
fn account_files_are_told_by_their_names() {
    assert_eq!(provider_of_file("anthropic-me.json", "anthropic"), Some("anthropic"));
    assert_eq!(provider_of_file("codex.json", "anthropic"), Some("codex"));
    assert_eq!(provider_of_file("codex.txt", "anthropic"), None);
    assert_eq!(provider_of_file("other.json", "anthropic"), None);
    let list = names(&["anthropic-a.json", "anthropic-b.json", "codex-c.json", "notes.txt"]);
    assert_eq!(count_provider_accounts(&list, "anthropic"), 2);
    assert_eq!(count_provider_accounts(&list, "gemini"), 0);
    assert!(check_auth_dir(&list, None, "anthropic"));
    assert!(check_auth_dir(&list, Some("codex"), "anthropic"));
    assert!(!check_auth_dir(&names(&["notes.txt"]), None, "anthropic"));
}

#[test]
fn accounts_are_grouped_by_provider() {
    let status = get_account_status(&vec![
        AccountFile {
            name: "codex-a.json".to_string(),
            content: Some(r#"{"email": "a@x", "expired": "soon"}"#.to_string()),
        },
        AccountFile {
            name: "codex-b.json".to_string(),
            content: None,
        },
        AccountFile {
            name: "readme.md".to_string(),
            content: None,
        },
    ], "anthropic");
    let v = to_value(&status);
    assert_eq!(v["providers"]["codex"]["account_count"], 2);
    assert_eq!(v["providers"]["codex"]["accounts"][0]["email"], "a@x");
    assert_eq!(v["providers"]["codex"]["accounts"][0]["expiresAt"], "soon");
    assert_eq!(v["providers"]["codex"]["accounts"][1]["email"], "");
    assert!(v["providers"].get("anthropic").is_none());
}

#[test]
fn reported_accounts_are_grouped_by_provider() {
    let body = Json::parse(
        r#"{"files": [
            {"provider": "codex", "email": "a", "status": "active", "expiresAt": "t1"},
            {"provider": "anthropic", "email": "b", "expired": "t2", "last_refresh": "r"}
        ]}"#,
    )
    .unwrap();
    let v = to_value(&transform_cli_proxy_api_status(&body));
    assert_eq!(v["providers"]["codex"]["account_count"], 1);
    assert_eq!(v["providers"]["codex"]["accounts"][0]["status"], "active");
    assert_eq!(v["providers"]["anthropic"]["accounts"][0]["status"], "unknown");
    assert_eq!(v["providers"]["anthropic"]["accounts"][0]["expiresAt"], "t2");
    assert_eq!(v["providers"]["anthropic"]["accounts"][0]["lastRefresh"], "r");
}

#[test]
fn login_output_is_read_until_the_url() {
    assert_eq!(login_flag("anthropic", "anthropic"), Some(("anthropic-login".to_string(), false)));
    assert_eq!(login_flag("codex", "anthropic"), Some(("codex-login".to_string(), false)));
    assert_eq!(
        login_flag("codex-device", "anthropic"),
        Some(("codex-device-login".to_string(), true))
    );
    assert_eq!(login_flag("x", "anthropic"), None);

    let mut scan = LoginScan::new(false);
    assert!(!scan.feed("starting\n"));
    assert!(!scan.feed("Visit the following URL to continue authentication:\n"));
    assert!(scan.feed("  https://auth.example/x \n"));
    let result = scan.result().unwrap();
    assert_eq!(result.auth_url, "https://auth.example/x");
    assert_eq!(result.device_code, None);

    let mut scan = LoginScan::new(true);
    assert!(!scan.feed("Codex device code: ABCD\n"));
    assert!(scan.feed("Codex device URL: https://d.example\n"));
    let result = scan.result().unwrap();
    assert_eq!(result.auth_url, "https://d.example");
    assert_eq!(result.device_code.as_deref(), Some("ABCD"));

    assert!(LoginScan::new(false).result().is_none());
}

#[test]
fn waiting_for_the_proxy_ends() {
    assert_eq!(wait_step(1, true), WaitAction::Done);
    assert_eq!(wait_step(WAIT_MAX_ATTEMPTS, true), WaitAction::Done);
    assert_eq!(wait_step(29, false), WaitAction::Again);
    assert_eq!(wait_step(30, false), WaitAction::GiveUp);
}

#[test]
fn the_monitor_restarts_what_died() {
    assert_eq!(monitor_step(true, true, ChildState::Exited), MonitorAction::Stop);
    assert_eq!(monitor_step(false, false, ChildState::Exited), MonitorAction::Wait);
    assert_eq!(
        monitor_step(false, true, ChildState::Exited),
        MonitorAction::RestartExited
    );
    assert_eq!(monitor_step(false, true, ChildState::Unknown), MonitorAction::Restart);
    assert_eq!(monitor_step(false, true, ChildState::Alive), MonitorAction::CheckHealth);
    assert_eq!(health_url("http://h"), "http://h/healthz");
}

fn config() -> AppConfig {
    let mut c = AppConfig::new();
    let mut a = UpstreamConfig::new("acc".to_string(), "http://a".to_string());
    a.auth = UpstreamAuth::CodexOAuth;
    c.upstreams.push(a);
    c.upstreams
        .push(UpstreamConfig::new("key".to_string(), "http://k".to_string()));
    c
}

#[test]
fn logins_are_made_at_the_local_proxy() {
    let c = config();
    assert_eq!(login_provider(&c, "acc", "anthropic"), Ok("codex"));
    assert_eq!(
        login_provider(&c, "key", "anthropic"),
        Err("上游 'key' 不存在或不是 CLIProxyAPI 类型".to_string())
    );
    assert_eq!(auth_login(&c, "none"), (404, "上游不存在或未启用".to_string()));
    assert_eq!(auth_login(&c, "key"), (400, "该上游不使用 OAuth 认证".to_string()));
    assert_eq!(
        auth_login(&c, "acc").1,
        "上游 'acc' 的登录由 CLIProxyAPI 管理，请使用 /api/cli-proxy-api/login/acc"
    );
    assert_eq!(
        login_answer("u", "codex", None).text(),
        r#"{"auth_url":"u","device_code":null,"manual":true,"provider":"codex"}"#
    );
}

#[test]
fn waiting_for_a_login_ends() {
    let none = Json::parse(r#"{"providers": {}}"#).unwrap();
    let step = login_poll(&none, "codex", "acc", 0);
    assert_eq!(step.chunk, ": keep-alive\n\n");
    assert!(!step.finished);
    let step = login_poll(&none, "codex", "acc", 150);
    assert!(step.finished && step.chunk.contains("timeout"));
    let some = Json::parse(
        r#"{"providers": {"codex": {"account_count": 1, "accounts": [{"email": "a@x", "expiresAt": "t"}]}}}"#,
    )
    .unwrap();
    let step = login_poll(&some, "codex", "acc", 3);
    assert!(step.finished);
    assert!(step.chunk.starts_with("data: {"));
    assert!(step.chunk.contains(r#""email":"a@x""#));
    assert!(step.chunk.contains(r#""status":"success""#));
}
