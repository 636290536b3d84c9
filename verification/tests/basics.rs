use llm_wrapper::args::{choose_setting, parse_args, Command};
use llm_wrapper::codec::{from_value, to_value};
use llm_wrapper::headers::{get_header, text_of_value, Header};
use llm_wrapper::json::{Json, JsonObject};
use llm_wrapper::models::UpstreamAuth;
use llm_wrapper::number::JsonNumber;
use llm_wrapper::oauth::{bearer_token, get_access_token};
use llm_wrapper::proxy::{
    classify_answer, is_stream_answer, prepare_upstream_request, refusal_message, AnswerKind,
};
use llm_wrapper::text::{
    contains, ends_with, find_text, join, numeral_of, same_ignoring_case, signed_numeral_of, split,
    starts_with, strip_prefix, to_lower, trim, trim_end_matches,
};
use llm_wrapper::models::ApiType;
use llm_wrapper::router::RouteResult;

fn args(list: &[&str]) -> Vec<String> {
    list.iter().map(|s| s.to_string()).collect()
}

fn json(text: &str) -> Json {
    Json::parse(text).unwrap()
}

fn route(auth: UpstreamAuth) -> RouteResult {
    RouteResult {
        upstream_base_url: "http://h".to_string(),
        anthropic_base_url: None,
        upstream_name: "up".to_string(),
        upstream_auth: auth,
        api_type: ApiType::OpenAI,
        target_model: "gpt-4".to_string(),
        override_params: JsonObject::new(),
        default_params: JsonObject::new(),
        use_cli_proxy_api: false,
        cli_proxy_api_endpoint: "http://127.0.0.1:8317".to_string(),
        cli_proxy_api_api_key: None,
        support_chat_completions: true,
        support_responses: false,
        support_anthropic_messages: true,
    }
}

#[test]
fn the_command_line_is_read_in_order() {
    assert_eq!(parse_args(&args(&["p", "-v", "-h"])), Command::Version);
    assert_eq!(parse_args(&args(&["p", "--help"])), Command::Help);
    assert_eq!(parse_args(&args(&["p", "-x"])), Command::Unknown("-x".to_string()));
    assert_eq!(
        parse_args(&args(&["p", "-c", "a.yaml", "--addr", "h:1"])),
        Command::Run { config_path: Some("a.yaml".to_string()), bind_addr: Some("h:1".to_string()) }
    );
    assert_eq!(
        parse_args(&args(&["p", "--config", "a", "-c", "b"])),
        Command::Run { config_path: Some("b".to_string()), bind_addr: None }
    );
    assert_eq!(parse_args(&args(&["p"])), Command::Run { config_path: None, bind_addr: None });
    assert_eq!(choose_setting(Some("a"), Some("v"), "o"), "a");
    assert_eq!(choose_setting(None, Some("v"), "o"), "v");
    assert_eq!(choose_setting(None, None, "o"), "o");
}

#[test]
fn texts_are_cut_and_joined() {
    assert_eq!(trim(" \u{3000}\ta b\n\u{85}"), "a b");
    assert_eq!(trim(trim("  x  ")), trim("  x  "));
    assert_eq!(trim(" \n "), "");
    assert_eq!(trim_end_matches("a//", '/'), "a");
    assert_eq!(trim_end_matches("//", '/'), "");
    assert_eq!(strip_prefix("data: x", "data: "), Some("x"));
    assert_eq!(strip_prefix("dat", "data"), None);
    assert!(starts_with("héllo", "hé") && ends_with("héllo", "llo"));
    assert!(!starts_with("h", "hé") && !ends_with("o", "llo"));
    assert_eq!(find_text("aXbXc", "X"), Some(1));
    assert_eq!(find_text("abc", "X"), None);
    assert!(contains("text/event-stream; x", "text/event-stream"));
    assert_eq!(split("a..b", '.'), args(&["a", "", "b"]));
    assert_eq!(split("", '.'), args(&[""]));
    assert_eq!(join(&args(&["a", "b", "c"]), ", "), "a, b, c");
    assert_eq!(join(&vec![], ", "), "");
    assert_eq!(to_lower("ÀB-c"), "Àb-c");
    assert!(same_ignoring_case("Content-Type", "content-tYPE"));
    assert_eq!(numeral_of(0), "0");
    assert_eq!(numeral_of(u64::MAX), "18446744073709551615");
    assert_eq!(signed_numeral_of(i64::MIN), "-9223372036854775808");
    assert_eq!(signed_numeral_of(-5), "-5");
}

#[test]
fn values_survive_both_ways() {
    let text = r#"{"z":[1,-2,3.5,1e300,true,null,"x\n\"é"],"a":{"b":{}},"n":18446744073709551615}"#;
    let value: serde_json::Value = serde_json::from_str(text).unwrap();
    let plain = from_value(&value);
    assert_eq!(to_value(&plain), value);
    assert_eq!(plain.text(), value.to_string());
    assert_eq!(Json::parse(&plain.text()), Some(plain));
    assert_eq!(Json::parse("{"), None);
    assert_eq!(Json::parse(" [ ] ").unwrap().text(), "[]");
}

#[test]
fn numbers_are_read_as_doubles_and_integers() {
    assert_eq!(JsonNumber::PosInt(7).as_double().as_str(), "7.0");
    assert_eq!(JsonNumber::NegInt(-7).as_double().as_str(), "-7.0");
    assert_eq!(JsonNumber::PosInt(u64::MAX).as_int64(), i64::MAX);
    assert_eq!(JsonNumber::NegInt(-7).as_int64(), -7);
    match json("-2.75") {
        Json::Number(n) => {
            assert_eq!(n.as_double().as_str(), "-2.75");
            assert_eq!(n.as_int64(), -2);
        }
        _ => panic!("no number"),
    }
}

#[test]
fn objects_keep_their_keys_in_order() {
    let mut o = JsonObject::new();
    o.insert("b", Json::uint(1));
    o.insert("a", Json::uint(2));
    o.insert("é", Json::uint(3));
    o.insert("b", Json::uint(4));
    assert_eq!(o.keys(), args(&["a", "b", "é"]));
    assert_eq!(o.get("b").and_then(|v| v.as_u64()), Some(4));
    o.remove("a");
    o.remove("a");
    assert!(!o.contains_key("a"));
    assert_eq!(o.len(), 2);
    let mut other = JsonObject::new();
    other.insert("b", Json::Null);
    other.insert("c", Json::Bool(true));
    let mut filled = o.copy();
    filled.fill_all_but(&other, Some("c"));
    assert_eq!(filled, o);
    o.put_all_but(&other, None);
    assert!(o.get("b").unwrap().is_null());
    assert_eq!(o.get("c").and_then(|v| v.as_bool()), Some(true));
}

#[test]
fn headers_are_found_without_case() {
    let headers = vec![
        Header { name: "X-A".to_string(), value: vec![0xff] },
        Header::new("x-b", "1"),
        Header::new("X-B", "2"),
    ];
    assert_eq!(get_header(&headers, "x-a"), None);
    assert_eq!(get_header(&headers, "X-b"), Some("1".to_string()));
    assert_eq!(get_header(&headers, "none"), None);
    assert_eq!(text_of_value(&b"a\tb".to_vec()), Some("a\tb".to_string()));
    assert_eq!(text_of_value(&vec![0x7f]), None);
}

#[test]
fn tokens_come_from_keys() {
    let key = |k: &str| UpstreamAuth::ApiKey { key: Some(k.to_string()) };
    assert_eq!(get_access_token(&key("k")), Some("k".to_string()));
    assert_eq!(get_access_token(&UpstreamAuth::default()), None);
    assert_eq!(bearer_token(&key("k")), Some("k".to_string()));
    assert_eq!(bearer_token(&key("")), None);
}

#[test]
fn upstream_answers_are_classified() {
    let plain = json("{}");
    let stream = json(r#"{"stream": true}"#);
    assert_eq!(classify_answer(&stream, 404, "text/event-stream"), AnswerKind::Refused);
    assert_eq!(classify_answer(&plain, 405, ""), AnswerKind::Refused);
    assert_eq!(classify_answer(&stream, 500, "application/json"), AnswerKind::Stream);
    assert_eq!(classify_answer(&plain, 200, "text/event-stream; charset=utf-8"), AnswerKind::Stream);
    assert_eq!(classify_answer(&plain, 200, "application/json"), AnswerKind::Whole);
    assert!(!is_stream_answer(&json(r#"{"stream": "true"}"#), ""));
    assert_eq!(refusal_message(404, "gone"), "上游返回 404 - gone");
}

#[test]
fn a_request_goes_out_with_the_key_of_the_upstream() {
    let r = route(UpstreamAuth::ApiKey { key: Some("sk-up".to_string()) });
    let headers = vec![
        Header::new("authorization", "Bearer client"),
        Header::new("x-api-key", "client"),
        Header::new("anthropic-version", "2023-06-01"),
    ];
    let body = json(r#"{"model": "m", "messages": []}"#);
    let q = prepare_upstream_request(&r, "/v1/messages", "beta=true", &headers, &body);
    assert_eq!(q.url, "http://h/v1/messages?beta=true");
    assert_eq!(q.bearer, Some("sk-up".to_string()));
    assert_eq!(q.headers, vec![("anthropic-version", "2023-06-01".to_string())]);
    assert_eq!(q.body.str_at("model"), Some("gpt-4"));
}
