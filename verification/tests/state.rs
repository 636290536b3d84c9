use llm_wrapper::handlers::admin::{
    admin_login, begin_setup, cookie_secure_flag, hash_admin_password, require_admin, settle_login,
    too_many_message, verify_admin_password, AdminCheck, LoginOutcome, SetupStep,
};
use llm_wrapper::json::Json;
use llm_wrapper::models::AppConfig;
use llm_wrapper::state::{
    AdminSessionStore, LoginRateLimiter, ADMIN_SESSION_TTL_HOURS, FAIL_WINDOW, LOGIN_FAIL_MAX_GLOBAL,
    LOGIN_FAIL_MAX_PER_IP, SESSION_SPAN,
};

const HOUR: i64 = 3_600_000_000_000;
const NOW: i64 = 1_700_000_000_000_000_000;

#[test]
fn test_admin_session_ttl() {
    let mut store = AdminSessionStore::default();
    let token = store.create_session(NOW);
    assert!(store.validate_session(&token, NOW));

    let later = NOW + (ADMIN_SESSION_TTL_HOURS + 1) * HOUR;
    assert!(!store.validate_session(&token, later));
}

#[test]
fn test_login_rate_limiter() {
    let mut limiter = LoginRateLimiter::default();
    assert!(limiter.check("1.2.3.4", NOW).is_ok());

    for _ in 0..LOGIN_FAIL_MAX_PER_IP {
        limiter.record_failure("1.2.3.4", NOW);
    }
    assert!(limiter.check("1.2.3.4", NOW).is_err());
    // Other addresses are not affected below the limit for all.
    assert!(limiter.check("5.6.7.8", NOW).is_ok());

    limiter.clear("1.2.3.4");
    assert!(limiter.check("1.2.3.4", NOW).is_ok());
}

#[test]
fn test_login_rate_limiter_global_fallback() {
    let mut limiter = LoginRateLimiter::default();
    for i in 0..LOGIN_FAIL_MAX_GLOBAL {
        limiter.record_failure(&format!("10.0.0.{}", i), NOW);
    }
    assert!(limiter.check("99.99.99.99", NOW).is_err());
}

#[test]
fn sessions_end_at_their_time_and_on_logout() {
    let mut store = AdminSessionStore::new();
    store.begin_session("t", NOW);
    assert!(store.validate_session("t", NOW + SESSION_SPAN - 1));
    assert!(!store.validate_session("t", NOW + SESSION_SPAN));
    store.begin_session("u", NOW);
    store.remove_session("u");
    assert!(!store.validate_session("u", NOW));
}

#[test]
fn tokens_are_random() {
    let mut store = AdminSessionStore::new();
    let a = store.create_session(NOW);
    let b = store.create_session(NOW);
    assert_eq!(a.len(), 36);
    assert_ne!(a, b);
}

#[test]
fn blocks_tell_how_long_to_wait_and_end() {
    let mut limiter = LoginRateLimiter::new();
    for _ in 0..5 {
        limiter.record_failure("a", NOW);
    }
    assert_eq!(limiter.check("a", NOW), Err(60));
    assert_eq!(limiter.check("a", NOW + 30_500_000_000), Err(29));
    assert_eq!(limiter.check("a", NOW + FAIL_WINDOW - 1), Err(1));
    assert_eq!(limiter.check("a", NOW + FAIL_WINDOW), Ok(()));
    limiter.record_failure("a", NOW + FAIL_WINDOW);
    assert_eq!(limiter.check("a", NOW + FAIL_WINDOW), Ok(()));
}

#[test]
fn passwords_are_hashed_with_a_salt() {
    let a = hash_admin_password("secret").unwrap();
    let b = hash_admin_password("secret").unwrap();
    assert_ne!(a, b);
    assert_ne!(a, "secret");
    assert!(verify_admin_password("secret", &a));
    assert!(verify_admin_password("secret", &b));
    assert!(!verify_admin_password("Secret", &a));
    assert!(!verify_admin_password("secret", "no hash"));
}

fn password(text: &str) -> Json {
    Json::object().with("password", Json::str(text))
}

#[test]
fn logins_are_granted_refused_and_limited() {
    let mut config = AppConfig::new();
    let mut limiter = LoginRateLimiter::new();
    let mut sessions = AdminSessionStore::new();
    let body = password("secret");
    assert_eq!(
        admin_login(&config, &mut limiter, &mut sessions, "ip", &body, NOW),
        LoginOutcome::Uninitialized
    );
    config.admin_password_hash = Some(hash_admin_password("secret").unwrap());
    match admin_login(&config, &mut limiter, &mut sessions, "ip", &body, NOW) {
        LoginOutcome::Granted(token) => {
            assert_eq!(
                require_admin(&config, &mut sessions, Some(&token), NOW),
                AdminCheck::Granted
            );
        }
        _ => panic!("the password matches"),
    }
    for _ in 0..5 {
        assert_eq!(
            admin_login(&config, &mut limiter, &mut sessions, "ip", &password("wrong"), NOW),
            LoginOutcome::WrongPassword
        );
    }
    assert_eq!(
        admin_login(&config, &mut limiter, &mut sessions, "ip", &body, NOW),
        LoginOutcome::TooMany(60)
    );
    assert_eq!(too_many_message(60), "尝试过于频繁，请 60 秒后重试");
}

#[test]
fn admin_needs_a_password_and_a_session() {
    let mut config = AppConfig::new();
    let mut sessions = AdminSessionStore::new();
    assert_eq!(
        require_admin(&config, &mut sessions, None, NOW),
        AdminCheck::Uninitialized
    );
    config.admin_password_hash = Some("hash".to_string());
    assert_eq!(
        require_admin(&config, &mut sessions, None, NOW),
        AdminCheck::LoginRequired
    );
    assert_eq!(
        require_admin(&config, &mut sessions, Some("t"), NOW),
        AdminCheck::LoginRequired
    );
}

#[test]
fn settled_logins_clear_or_count() {
    let mut limiter = LoginRateLimiter::new();
    let mut sessions = AdminSessionStore::new();
    for _ in 0..4 {
        assert_eq!(
            settle_login(&mut limiter, &mut sessions, "ip", false, NOW),
            LoginOutcome::WrongPassword
        );
    }
    match settle_login(&mut limiter, &mut sessions, "ip", true, NOW) {
        LoginOutcome::Granted(t) => assert!(sessions.validate_session(&t, NOW)),
        _ => panic!("the password matched"),
    }
    settle_login(&mut limiter, &mut sessions, "ip", false, NOW);
    assert!(limiter.check("ip", NOW).is_ok());
}

#[test]
fn the_first_password_is_set_once() {
    let mut config = AppConfig::new();
    let mut limiter = LoginRateLimiter::new();
    assert_eq!(
        begin_setup(&config, &mut limiter, "ip", &password("   "), NOW),
        SetupStep::EmptyPassword
    );
    assert_eq!(
        begin_setup(&config, &mut limiter, "ip", &password(" new "), NOW),
        SetupStep::Proceed("new".to_string())
    );
    config.admin_password_hash = Some("hash".to_string());
    for _ in 0..5 {
        assert_eq!(
            begin_setup(&config, &mut limiter, "ip", &password("x"), NOW),
            SetupStep::AlreadySet
        );
    }
    assert_eq!(
        begin_setup(&config, &mut limiter, "ip", &password("x"), NOW),
        SetupStep::TooMany(60)
    );
}

#[test]
fn cookies_follow_the_configuration_or_the_scheme() {
    let mut config = AppConfig::new();
    assert!(cookie_secure_flag(&config, "https"));
    assert!(!cookie_secure_flag(&config, "http"));
    config.cookie_secure = Some(true);
    assert!(cookie_secure_flag(&config, "http"));
}
