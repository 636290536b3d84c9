use llm_wrapper::handlers::config_api::{
    get_config, is_masked, mask_config_secrets, mask_secret, restore_masked_secrets, reveal_client_api_key,
    update_config,
};
use llm_wrapper::handlers::{normalize_client_api_keys, require_client_api_key};
use llm_wrapper::headers::Header;
use llm_wrapper::models::{AppConfig, ClientApiKeyConfig, UpstreamAuth, UpstreamConfig};

fn config_with_upstream_key(name: &str, key: Option<&str>) -> AppConfig {
    let mut config = AppConfig::new();
    let mut upstream = UpstreamConfig::new(name.to_string(), "http://localhost:9999".to_string());
    upstream.auth = UpstreamAuth::ApiKey {
        key: key.map(|k| k.to_string()),
    };
    config.upstreams.push(upstream);
    config
}

fn upstream_key(config: &AppConfig) -> Option<&str> {
    match &config.upstreams[0].auth {
        UpstreamAuth::ApiKey { key } => key.as_deref(),
        _ => None,
    }
}

fn client_key(name: &str, key: &str) -> ClientApiKeyConfig {
    ClientApiKeyConfig {
        name: name.to_string(),
        key: key.to_string(),
    }
}

#[test]
fn test_mask_secret() {
    assert_eq!(mask_secret("short"), "••••••");
    assert_eq!(mask_secret("12345678"), "••••••");
    assert_eq!(mask_secret("sk-abcdefghijklxy12"), "sk-a••••••xy12");
    assert!(is_masked(&mask_secret("sk-abcdefghijklxy12")));
    assert!(!is_masked("sk-abcdefghijklxy12"));
}

#[test]
fn test_mask_config_secrets() {
    let mut config = config_with_upstream_key("up1", Some("sk-abcdefghijklxy12"));
    config.client_api_keys.push(client_key("k1", "ck-abcdefghijklxy34"));
    config.cli_proxy_api_api_key = Some("cp-abcdefghijklxy56".to_string());

    mask_config_secrets(&mut config);
    assert_eq!(upstream_key(&config), Some("sk-a••••••xy12"));
    assert_eq!(config.client_api_keys[0].key, "ck-a••••••xy34");
    assert_eq!(
        config.cli_proxy_api_api_key.as_deref(),
        Some("cp-a••••••xy56")
    );
}

#[test]
fn test_restore_masked_secrets_roundtrip() {
    let current = config_with_upstream_key("up1", Some("sk-abcdefghijklxy12"));
    let mut submitted = config_with_upstream_key("up1", Some("sk-abcdefghijklxy12"));
    mask_config_secrets(&mut submitted);

    assert!(restore_masked_secrets(&mut submitted, &current).is_ok());
    assert_eq!(upstream_key(&submitted), Some("sk-abcdefghijklxy12"));
}

#[test]
fn test_restore_masked_secrets_new_value_passthrough() {
    let current = config_with_upstream_key("up1", Some("sk-abcdefghijklxy12"));
    let mut submitted = config_with_upstream_key("up1", Some("sk-newkey-plaintext"));

    assert!(restore_masked_secrets(&mut submitted, &current).is_ok());
    assert_eq!(upstream_key(&submitted), Some("sk-newkey-plaintext"));
}

#[test]
fn test_restore_masked_secrets_renamed_upstream_matched_by_mask() {
    let current = config_with_upstream_key("up1", Some("sk-abcdefghijklxy12"));
    let mut submitted = config_with_upstream_key("renamed", Some("sk-a••••••xy12"));

    assert!(restore_masked_secrets(&mut submitted, &current).is_ok());
    assert_eq!(upstream_key(&submitted), Some("sk-abcdefghijklxy12"));
}

#[test]
fn test_restore_masked_secrets_unknown_mask_rejected() {
    let current = config_with_upstream_key("up1", Some("sk-abcdefghijklxy12"));
    let mut submitted = config_with_upstream_key("renamed", Some("sk-x••••••zz99"));

    assert!(restore_masked_secrets(&mut submitted, &current).is_err());
}

#[test]
fn test_restore_masked_client_keys() {
    let mut current = AppConfig::default();
    current.client_api_keys.push(client_key("", "ck-abcdefghijklxy34"));
    let mut submitted = AppConfig::default();
    submitted
        .client_api_keys
        .push(client_key("", &mask_secret("ck-abcdefghijklxy34")));

    assert!(restore_masked_secrets(&mut submitted, &current).is_ok());
    assert_eq!(submitted.client_api_keys[0].key, "ck-abcdefghijklxy34");

    let mut forged = AppConfig::default();
    forged.client_api_keys.push(client_key("", "ck-x••••••zz99"));
    assert!(restore_masked_secrets(&mut forged, &current).is_err());
}

#[test]
fn restore_errors_name_the_secret() {
    let current = AppConfig::new();
    let mut submitted = config_with_upstream_key("up1", Some("sk-x••••••zz99"));
    assert_eq!(
        restore_masked_secrets(&mut submitted, &current),
        Err("上游 'up1' 的 API Key 是掩码值但找不到原始值，请重新输入完整 Key".to_string())
    );
    let mut submitted = AppConfig::new();
    submitted.client_api_keys.push(client_key("", "••••••"));
    assert_eq!(
        restore_masked_secrets(&mut submitted, &current),
        Err("客户端 API Key 是掩码值但找不到原始值，请重新输入完整 Key".to_string())
    );
    let mut submitted = AppConfig::new();
    submitted.cli_proxy_api_api_key = Some("••••••".to_string());
    assert_eq!(
        restore_masked_secrets(&mut submitted, &current),
        Err("CLIProxyAPI API Key 是掩码值但找不到原始值，请重新输入完整 Key".to_string())
    );
}

#[test]
fn keys_without_content_are_not_masked() {
    let mut config = config_with_upstream_key("up1", Some("none"));
    mask_config_secrets(&mut config);
    assert_eq!(upstream_key(&config), Some("none"));
    let mut config = config_with_upstream_key("up1", Some(""));
    config.cli_proxy_api_api_key = Some(String::new());
    mask_config_secrets(&mut config);
    assert_eq!(upstream_key(&config), Some(""));
    assert_eq!(config.cli_proxy_api_api_key.as_deref(), Some(""));
}

#[test]
fn shown_config_hides_the_password_and_comes_back_whole() {
    let mut current = config_with_upstream_key("up1", Some("sk-abcdefghijklxy12"));
    current.admin_password_hash = Some("$argon2id$hash".to_string());
    current.client_api_keys.push(client_key(" local ", " ck-abcdefghijklxy34 "));
    normalize_client_api_keys(&mut current);

    let mut shown = config_with_upstream_key("up1", Some("sk-abcdefghijklxy12"));
    shown.admin_password_hash = Some("$argon2id$hash".to_string());
    shown.client_api_keys.push(client_key("local", "ck-abcdefghijklxy34"));
    get_config(&mut shown);
    assert_eq!(shown.admin_password_hash, None);
    assert_eq!(upstream_key(&shown), Some("sk-a••••••xy12"));

    let stored = update_config(shown, &current).unwrap();
    assert_eq!(stored, current);
}

#[test]
fn normalized_keys_are_trimmed_and_unique() {
    let mut config = AppConfig::new();
    config.client_api_keys.push(client_key(" a ", " k1 "));
    config.client_api_keys.push(client_key("b", "k1"));
    config.client_api_keys.push(client_key("c", "   "));
    config.client_api_key = Some("k2".to_string());
    normalize_client_api_keys(&mut config);
    assert_eq!(
        config.client_api_keys,
        vec![client_key("a", "k1"), client_key("", "k2")]
    );
    assert_eq!(config.client_api_key, None);
    let before = config.client_api_keys.len();
    normalize_client_api_keys(&mut config);
    assert_eq!(config.client_api_keys.len(), before);
    assert_eq!(reveal_client_api_key(&config, 1), Some("k2".to_string()));
    assert_eq!(reveal_client_api_key(&config, 2), None);
}

#[test]
fn clients_need_a_key_where_there_are_keys() {
    let mut config = AppConfig::new();
    assert!(require_client_api_key(&config, &Vec::new()));
    config.client_api_keys.push(client_key("", "secret"));
    assert!(!require_client_api_key(&config, &Vec::new()));
    assert!(require_client_api_key(
        &config,
        &vec![Header::new("authorization", "Bearer secret")]
    ));
    assert!(!require_client_api_key(
        &config,
        &vec![Header::new("authorization", "secret")]
    ));
    assert!(require_client_api_key(
        &config,
        &vec![
            Header::new("authorization", "Bearer wrong"),
            Header::new("X-Api-Key", "secret")
        ]
    ));
}
