use llm_wrapper::codec::to_value;
use llm_wrapper::handlers::quota::{
    account_id_from_token_value, base_quota_account, bool_field, claude_quota_windows, codex_account_id,
    codex_plan_type, codex_quota_windows, fail_account, fill_up, first_string, group_accounts,
    plan_quota_query, plan_type_from_token_value, quota_reset_label, quota_window_json,
    quota_window_seconds, read_call_response, read_payload, string_field, token_payload, with_plan_type,
    with_windows, QuotaQuery,
};
use llm_wrapper::json::Json;
use serde_json::Value;

fn json(text: &str) -> Json {
    Json::parse(text).unwrap()
}

fn value(text: &str) -> Value {
    serde_json::from_str(text).unwrap()
}

/// A token whose middle part says `{"chatgpt_account_id":"acc","plan_type":"pro"}`.
const TOKEN: &str = "h.eyJjaGF0Z3B0X2FjY291bnRfaWQiOiJhY2MiLCJwbGFuX3R5cGUiOiJwcm8ifQ.s";

#[test]
fn fields_are_trimmed() {
    let v = json(r#"{"a": "  x ", "b": 1, "t": true, "blank": " "}"#);
    assert_eq!(string_field(&v, "a"), "x");
    assert_eq!(string_field(&v, "b"), "");
    assert!(bool_field(&v, "t"));
    assert!(!bool_field(&v, "a"));
    assert_eq!(first_string(v.get("blank"), v.get("b"), v.get("a")), Some("x".to_string()));
    assert_eq!(first_string(v.get("blank"), None, None), None);
}

#[test]
fn tokens_are_read() {
    assert_eq!(fill_up("abcd"), "abcd");
    assert_eq!(fill_up("abc"), "abc=");
    assert_eq!(fill_up("ab"), "ab==");
    assert_eq!(fill_up("a"), "a===");
    let token = Json::str(TOKEN);
    assert_eq!(
        to_value(&token_payload(&token).unwrap()),
        value(r#"{"chatgpt_account_id": "acc", "plan_type": "pro"}"#)
    );
    assert_eq!(account_id_from_token_value(&token), Some("acc".to_string()));
    assert_eq!(plan_type_from_token_value(&token), Some("pro".to_string()));
    assert_eq!(token_payload(&Json::str("no dots")), None);
    assert_eq!(token_payload(&Json::str("a.!!.c")), None);
    assert_eq!(token_payload(&Json::Null), None);
    let nested = json(r#"{"https://api.openai.com/auth": {"chatgpt_account_id": "n", "chatgpt_plan_type": "team"}}"#);
    assert_eq!(account_id_from_token_value(&nested), Some("n".to_string()));
    assert_eq!(plan_type_from_token_value(&nested), Some("team".to_string()));
    assert_eq!(read_payload(Some(b"{\"a\":1}".to_vec())), Some(json(r#"{"a":1}"#)));
    assert_eq!(read_payload(Some(vec![0xff])), None);
    assert_eq!(read_payload(Some(b"{".to_vec())), None);
    assert_eq!(read_payload(None), None);
}

#[test]
fn auth_files_name_account_and_plan() {
    let file = Json::object().with("id_token", Json::str(TOKEN)).with("account_id", Json::str("other"));
    assert_eq!(codex_account_id(&file), "acc");
    assert_eq!(codex_plan_type(&file), Some("pro".to_string()));
    let file = json(r#"{"account_id": " own ", "planType": "plus"}"#);
    assert_eq!(codex_account_id(&file), "own");
    assert_eq!(codex_plan_type(&file), Some("plus".to_string()));
    assert_eq!(codex_plan_type(&json("{}")), None);
}

#[test]
fn windows_tell_length_and_reset() {
    assert_eq!(quota_window_seconds(&json(r#"{"limit_window_seconds": 18000.9}"#)), Some(18000));
    assert_eq!(quota_window_seconds(&json(r#"{"limitWindowSeconds": -3}"#)), Some(-3));
    assert_eq!(quota_window_seconds(&json(r#"{"limit_window_seconds": "x"}"#)), None);
    assert_eq!(
        quota_window_seconds(&json(r#"{"limit_window_seconds": 18446744073709551615}"#)),
        Some(i64::MAX)
    );
    assert_eq!(quota_reset_label(&json(r#"{"reset_at": 17, "reset_after_seconds": 5}"#)), "17");
    assert_eq!(quota_reset_label(&json(r#"{"resetAfterSeconds": 5}"#)), "+5s");
    assert_eq!(quota_reset_label(&json("{}")), "");
}

#[test]
fn codex_windows_are_told_apart_by_their_lengths() {
    let w = codex_quota_windows(&json(
        r#"{"rate_limit": {
            "primary_window": {"limit_window_seconds": 604800, "used_percent": 12.5, "reset_at": 9},
            "secondary_window": {"limit_window_seconds": 18000, "used_percent": 40, "reset_after_seconds": 3}}}"#,
    ));
    assert_eq!(w.len(), 2);
    assert_eq!((w[0].id, w[0].label, w[0].reset_at.as_str()), ("five_hour", "5h", "+3s"));
    assert_eq!(w[0].used.as_ref().unwrap().as_str(), "40.0");
    assert_eq!((w[1].id, w[1].label, w[1].reset_at.as_str()), ("weekly", "7d", "9"));
    assert_eq!(w[1].used.as_ref().unwrap().as_str(), "12.5");
}

#[test]
fn codex_windows_fall_back_to_their_places() {
    let w = codex_quota_windows(&json(
        r#"{"rateLimit": {"allowed": false, "primaryWindow": {"usedPercent": 1.25}, "secondaryWindow": {}}}"#,
    ));
    assert_eq!(w[0].used.as_ref().unwrap().as_str(), "1.25");
    assert_eq!(w[1].used.as_ref().unwrap().as_str(), "100.0");
    let w = codex_quota_windows(&json(r#"{"rate_limit": {"primary_window": {}}}"#));
    assert_eq!(w.len(), 1);
    assert_eq!(w[0].used, None);
    assert!(codex_quota_windows(&json("{}")).is_empty());
}

#[test]
fn anthropic_windows_need_a_utilization() {
    let w = claude_quota_windows(&json(
        r#"{"five_hour": {"utilization": 3, "resets_at": " t "}, "seven_day": {"resets_at": "u"},
            "seven_day_opus": {"utilization": 0.5}}"#,
    ));
    assert_eq!(w.len(), 2);
    assert_eq!((w[0].id, w[0].label, w[0].reset_at.as_str()), ("five_hour", "5h", "t"));
    assert_eq!(w[0].used.as_ref().unwrap().as_str(), "3.0");
    assert_eq!((w[1].id, w[1].label), ("weekly_opus", "Opus 7d"));
    let shown = to_value(&quota_window_json(&w[1], &None, true));
    assert_eq!(
        shown,
        value(
            r#"{"id": "weekly_opus", "label": "Opus 7d", "used_percent": 0.5, "remaining_percent": null,
                "reset_at": "", "exhausted": true}"#
        )
    );
}

#[test]
fn quotas_are_asked_for_by_provider() {
    let file = json(r#"{"provider": "codex", "auth_index": "3", "account_id": "acc", "name": "f", "email": "e"}"#);
    match plan_quota_query(&file, "tool") {
        QuotaQuery::Ask { account, payload } => {
            assert_eq!(
                to_value(&account),
                value(r#"{"provider": "codex", "name": "f", "email": "e", "status": "unknown", "windows": []}"#)
            );
            let p = to_value(&payload);
            assert_eq!(p["auth_index"], "3");
            assert_eq!(p["method"], "GET");
            assert_eq!(p["url"], "https://chatgpt.com/backend-api/wham/usage");
            assert_eq!(p["header"]["Chatgpt-Account-Id"], "acc");
            assert_eq!(p["header"]["Authorization"], "Bearer $TOKEN$");
        }
        other => panic!("{:?}", other),
    }
    match plan_quota_query(&json(r#"{"provider": "codex", "auth_index": "3"}"#), "tool") {
        QuotaQuery::Missing(a) => {
            let v = to_value(&a);
            assert_eq!(v["status"], "missing");
            assert_eq!(v["error"], "missing auth_index or ChatGPT account id");
        }
        other => panic!("{:?}", other),
    }
    match plan_quota_query(&json(r#"{"provider": "tool", "auth_index": "1"}"#), "tool") {
        QuotaQuery::Ask { payload, .. } => {
            let p = to_value(&payload);
            assert_eq!(p["url"], "https://api.anthropic.com/api/oauth/usage");
            assert_eq!(p["header"]["anthropic-beta"], "oauth-2025-04-20");
        }
        other => panic!("{:?}", other),
    }
    match plan_quota_query(&json(r#"{"provider": "tool"}"#), "tool") {
        QuotaQuery::Missing(a) => assert_eq!(to_value(&a)["error"], "missing auth_index"),
        other => panic!("{:?}", other),
    }
    assert_eq!(plan_quota_query(&json(r#"{"provider": "x", "auth_index": "1"}"#), "tool"), QuotaQuery::Skip);
}

#[test]
fn call_responses_are_read() {
    let ok = read_call_response(&json(r#"{"status_code": 200, "body": "{\"a\": 1}"}"#)).unwrap();
    assert_eq!(to_value(&ok), value(r#"{"a": 1}"#));
    let err = |text: &str| read_call_response(&json(text)).unwrap_err();
    assert_eq!(err(r#"{"statusCode": 204, "body": "?"}"#), "empty or invalid quota payload");
    assert_eq!(err(r#"{"status_code": 429, "body": "  "}"#), "quota request HTTP 429");
    assert_eq!(err(r#"{"status_code": 500, "body": " bad "}"#), "bad");
    assert_eq!(err("{}"), "quota request HTTP 0");
}

#[test]
fn accounts_are_shown_by_provider() {
    let file = json(r#"{"name": "f", "plan_type": "plus"}"#);
    let a = base_quota_account(&file, "codex");
    let a = with_plan_type(a, &file, &json("{}"));
    assert_eq!(to_value(&a)["plan_type"], "plus");
    let a = with_plan_type(a, &file, &json(r#"{"planType": "pro"}"#));
    assert_eq!(to_value(&a)["plan_type"], "pro");
    let a = with_windows(a, vec![Json::str("w")], "ok");
    assert_eq!(to_value(&a)["windows"], value(r#"["w"]"#));
    assert_eq!(to_value(&a)["status"], "ok");
    let failed = fail_account(base_quota_account(&file, "tool"), "error", "no");
    assert_eq!(to_value(&failed)["error"], "no");
    let v = to_value(&group_accounts(vec![a], vec![failed], "tool"));
    assert_eq!(v["providers"]["codex"]["account_count"], 1);
    assert_eq!(v["providers"]["tool"]["accounts"][0]["status"], "error");
    let v = to_value(&group_accounts(vec![], vec![], "tool"));
    assert_eq!(v, value(r#"{"providers": {}}"#));
}
