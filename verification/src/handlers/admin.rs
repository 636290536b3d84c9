//! The administrator's password, login and sessions.
use crate::json::{Json, JsonView};
use crate::models::{AppConfig, AppView};
use crate::state::{
    is_valid_session, login_check, with_failure, with_session, AdminSessionStore, LoginRateLimiter, Tally,
    SESSION_SPAN,
};
use crate::text::{cat3, copy, numeral, numeral_of, opt_str, same, trim, trimmed};
use vstd::prelude::*;
use vstd::utf8::*;

verus! {

/// Whether a password is the one that a hash was made of.
pub uninterp spec fn password_matches(password: Seq<char>, hash: Seq<char>) -> bool;

/// The longest password that can be hashed, in bytes.
pub const MAX_PASSWORD_BYTES: u64 = 0xffff_ffff;

/// Whether a password is short enough to be hashed.
pub open spec fn can_be_hashed(password: Seq<char>) -> bool {
    encode_utf8(password).len() <= MAX_PASSWORD_BYTES
}

/// `argon2::Argon2::hash_password` with a fresh random salt: a hash that the password matches,
/// as text. The salt makes every hash a different one. It fails just where the password is longer
/// than `argon2::MAX_PWD_LEN` bytes, with the error for an invalid password.
#[verifier::external_body]
fn argon2_hash(password: &str) -> (r: Result<String, String>)
    ensures
        r is Ok <==> can_be_hashed(password@),
        match r {
            Ok(hash) => password_matches(password@, hash@),
            Err(e) => e@ == "invalid password"@,
        },
{
    let mut rng = argon2::password_hash::rand_core::OsRng;
    let salt = argon2::password_hash::SaltString::generate(&mut rng);
    let hasher = argon2::Argon2::default();
    argon2::PasswordHasher::hash_password(&hasher, password.as_bytes(), &salt)
        .map(|h| h.to_string())
        .map_err(|e| e.to_string())
}

/// `argon2::PasswordHash::new` reads a hash, and `argon2::Argon2::verify_password` holds a
/// password against it. A text that is no hash matches nothing.
#[verifier::external_body]
fn argon2_verify(password: &str, hash: &str) -> (r: bool)
    ensures
        r == password_matches(password@, hash@),
{
    match argon2::PasswordHash::new(hash) {
        Ok(h) => {
            let hasher = argon2::Argon2::default();
            argon2::PasswordVerifier::verify_password(&hasher, password.as_bytes(), &h).is_ok()
        },
        Err(_) => false,
    }
}

/// Makes a hash of a password, which the password matches. It fails just where the password is
/// too long.
pub fn hash_admin_password(password: &str) -> (r: Result<String, String>)
    ensures
        r is Ok <==> can_be_hashed(password@),
        match r {
            Ok(hash) => password_matches(password@, hash@),
            Err(e) => e@ == "invalid password"@,
        },
{
    argon2_hash(password)
}

/// Whether a password is the one that a hash was made of.
pub fn verify_admin_password(password: &str, hash: &str) -> (r: bool)
    ensures
        r == password_matches(password@, hash@),
{
    argon2_verify(password, hash)
}

/// Whether a request comes from the administrator.
#[derive(Debug, Clone, Copy, PartialEq, Eq, Structural)]
pub enum AdminCheck {
    Granted,
    /// No password has been set.
    Uninitialized,
    /// There is no valid session.
    LoginRequired,
}

/// Whether a request that carries `token` comes from the administrator.
pub open spec fn admin_check(
    has_password: bool,
    sessions: Map<Seq<char>, Tally>,
    token: Option<Seq<char>>,
    now: i64,
) -> AdminCheck {
    if !has_password {
        AdminCheck::Uninitialized
    } else if token is Some && is_valid_session(sessions, token->Some_0, now) {
        AdminCheck::Granted
    } else {
        AdminCheck::LoginRequired
    }
}

/// The sessions after a request that carries `token` was looked at: one that has run out is
/// forgotten.
pub open spec fn sessions_after_check(
    has_password: bool,
    sessions: Map<Seq<char>, Tally>,
    token: Option<Seq<char>>,
    now: i64,
) -> Map<Seq<char>, Tally> {
    if has_password && token is Some && !is_valid_session(sessions, token->Some_0, now) {
        sessions.remove(token->Some_0)
    } else {
        sessions
    }
}

/// Whether a request that carries `token` comes from the administrator.
pub fn require_admin(
    config: &AppConfig,
    sessions: &mut AdminSessionStore,
    token: Option<&str>,
    now: i64,
) -> (r: AdminCheck)
    ensures
        r == admin_check(
            config@.admin_password_hash is Some,
            old(sessions)@,
            opt_str(token),
            now,
        ),
        final(sessions)@ == sessions_after_check(
            config@.admin_password_hash is Some,
            old(sessions)@,
            opt_str(token),
            now,
        ),
{
    if config.admin_password_hash.is_none() {
        return AdminCheck::Uninitialized;
    }
    if let Some(t) = token {
        if sessions.validate_session(t, now) {
            return AdminCheck::Granted;
        }
    }
    AdminCheck::LoginRequired
}

/// Whether session cookies are for secure connections only: as configured, else as the request
/// came.
pub fn cookie_secure_flag(config: &AppConfig, scheme: &str) -> (r: bool)
    ensures
        r == match config@.cookie_secure {
            Some(b) => b,
            None => scheme@ == "https"@,
        },
{
    match config.cookie_secure {
        Some(b) => b,
        None => same(scheme, "https"),
    }
}

/// What is said where logins are tried too often.
pub fn too_many_message(seconds: i64) -> (r: String)
    requires
        seconds >= 0,
    ensures
        r@ == "尝试过于频繁，请 "@ + numeral(seconds as nat) + " 秒后重试"@,
{
    let digits = numeral_of(seconds as u64);
    cat3("尝试过于频繁，请 ", &digits, " 秒后重试")
}

/// How setting the first password goes on.
#[derive(Debug, PartialEq)]
pub enum SetupStep {
    /// Too many failures; seconds to wait.
    TooMany(i64),
    /// The password is empty.
    EmptyPassword,
    /// There is a password already.
    AlreadySet,
    /// The password, to be hashed and stored.
    Proceed(String),
}

/// How setting the first password goes on, as a mathematical value.
pub enum SetupView {
    TooMany(int),
    EmptyPassword,
    AlreadySet,
    Proceed(Seq<char>),
}

impl SetupStep {
    pub open spec fn view(self) -> SetupView {
        match self {
            SetupStep::TooMany(n) => SetupView::TooMany(n as int),
            SetupStep::EmptyPassword => SetupView::EmptyPassword,
            SetupStep::AlreadySet => SetupView::AlreadySet,
            SetupStep::Proceed(p) => SetupView::Proceed(p@),
        }
    }
}

/// How setting the first password goes on.
pub open spec fn setup_step(
    attempts: Map<Seq<char>, Tally>,
    has_password: bool,
    ip: Seq<char>,
    body: JsonView,
    now: i64,
) -> SetupView {
    match login_check(attempts, ip, now) {
        Err(n) => SetupView::TooMany(n),
        Ok(()) => if trimmed(body.text_at("password"@)).len() == 0 {
            SetupView::EmptyPassword
        } else if has_password {
            SetupView::AlreadySet
        } else {
            SetupView::Proceed(trimmed(body.text_at("password"@)))
        },
    }
}

/// Begins to set the first password. To try where there is one counts as a failure.
pub fn begin_setup(
    config: &AppConfig,
    limiter: &mut LoginRateLimiter,
    ip: &str,
    body: &Json,
    now: i64,
) -> (r: SetupStep)
    ensures
        r@ == setup_step(old(limiter)@, config@.admin_password_hash is Some, ip@, body@, now),
        final(limiter)@ == (if r is AlreadySet {
            with_failure(old(limiter)@, ip@, now)
        } else {
            old(limiter)@
        }),
{
    if let Err(n) = limiter.check(ip, now) {
        return SetupStep::TooMany(n);
    }
    let raw = body.text_at("password");
    let password = trim(&raw);
    if password.is_empty() {
        return SetupStep::EmptyPassword;
    }
    if config.admin_password_hash.is_some() {
        limiter.record_failure(ip, now);
        return SetupStep::AlreadySet;
    }
    SetupStep::Proceed(copy(password))
}

/// How a login ends.
#[derive(Debug, PartialEq)]
pub enum LoginOutcome {
    /// Too many failures; seconds to wait.
    TooMany(i64),
    /// No password has been set.
    Uninitialized,
    WrongPassword,
    /// The token of the new session.
    Granted(String),
}

/// Ends a login for which it is known whether the password matched.
pub fn settle_login(
    limiter: &mut LoginRateLimiter,
    sessions: &mut AdminSessionStore,
    ip: &str,
    matched: bool,
    now: i64,
) -> (r: LoginOutcome)
    ensures
        matched ==> r is Granted && final(limiter)@ == old(limiter)@.remove(ip@)
            && final(sessions)@ == with_session(old(sessions)@, r->Granted_0@, now),
        !matched ==> r is WrongPassword && final(limiter)@ == with_failure(old(limiter)@, ip@, now)
            && final(sessions)@ == old(sessions)@,
{
    if matched {
        limiter.clear(ip);
        let token = sessions.create_session(now);
        LoginOutcome::Granted(token)
    } else {
        limiter.record_failure(ip, now);
        LoginOutcome::WrongPassword
    }
}

/// Whether a login with a body would be let in, were it not for the number of failures.
pub open spec fn password_fits(c: AppView, body: JsonView) -> bool {
    c.admin_password_hash is Some && password_matches(
        body.text_at("password"@),
        c.admin_password_hash->Some_0,
    )
}

/// A login: refused while there were too many failures, else granted if and only if the
/// password matches. Each wrong password counts as a failure; a right one clears them.
pub fn admin_login(
    config: &AppConfig,
    limiter: &mut LoginRateLimiter,
    sessions: &mut AdminSessionStore,
    ip: &str,
    body: &Json,
    now: i64,
) -> (r: LoginOutcome)
    ensures
        match login_check(old(limiter)@, ip@, now) {
            Err(n) => r is TooMany && r->TooMany_0 == n && final(limiter)@ == old(limiter)@
                && final(sessions)@ == old(sessions)@,
            Ok(()) => {
                &&& r is Uninitialized <==> config@.admin_password_hash is None
                &&& r is Granted <==> password_fits(config@, body@)
                &&& !(r is TooMany)
                &&& r is Uninitialized ==> final(limiter)@ == old(limiter)@ && final(sessions)@
                    == old(sessions)@
                &&& r is WrongPassword ==> final(limiter)@ == with_failure(
                    old(limiter)@,
                    ip@,
                    now,
                ) && final(sessions)@ == old(sessions)@
                &&& r is Granted ==> final(limiter)@ == old(limiter)@.remove(ip@)
                    && final(sessions)@ == with_session(old(sessions)@, r->Granted_0@, now)
            },
        },
{
    if let Err(n) = limiter.check(ip, now) {
        return LoginOutcome::TooMany(n);
    }
    let password = body.text_at("password");
    let matched = match &config.admin_password_hash {
        Some(hash) => verify_admin_password(&password, hash),
        None => return LoginOutcome::Uninitialized,
    };
    settle_login(limiter, sessions, ip, matched, now)
}

/// A granted login lets the administrator in until the session has run out, and no longer; a
/// logout ends it at once.
pub proof fn login_lasts_until_logout(
    sessions: Map<Seq<char>, Tally>,
    token: Seq<char>,
    began: i64,
    asked: i64,
)
    requires
        began <= asked,
    ensures
        admin_check(true, with_session(sessions, token, began), Some(token), asked)
            == AdminCheck::Granted <==> asked - began < SESSION_SPAN,
        admin_check(true, with_session(sessions, token, began).remove(token), Some(token), asked)
            == AdminCheck::LoginRequired,
{
}

/// Nobody is the administrator before a password has been set, and nobody without a token.
pub proof fn admin_needs_password_and_token(
    has_password: bool,
    sessions: Map<Seq<char>, Tally>,
    token: Option<Seq<char>>,
    now: i64,
)
    requires
        !has_password || token is None,
    ensures
        admin_check(has_password, sessions, token, now) != AdminCheck::Granted,
{
}

} // verus!
