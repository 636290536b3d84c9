//! What is left of the quotas of accounts that the local proxy manages.
use crate::codec::json_parse;
use crate::json::{opt_json, views, views_are, Json, JsonView};
use crate::number::{Double, JsonNumber, NumberView};
use crate::proxy::{answer_value, read_answer};
use crate::text::{
    cat, cat3, copy, opt_text, pieces, same, signed_numeral, signed_numeral_of, split, trim,
    trimmed,
};
use crate::transform::canonical::opt_double;
use crate::transform::chat_completions::{double_at, parse_double, text_or_null};
use crate::transform::stream::{either, parse_either};
use vstd::prelude::*;
use vstd::string::*;
use vstd::utf8::*;

verus! {

/// The trimmed text under `key`, nothing where there is none.
pub open spec fn field_text(v: JsonView, key: Seq<char>) -> Seq<char> {
    trimmed(v.text_at(key))
}

/// The trimmed text under `key`, nothing where there is none.
pub fn string_field(value: &Json, key: &str) -> (r: String)
    ensures
        r@ == field_text(value@, key@),
{
    let s = value.text_at(key);
    copy(trim(&s))
}

/// The truth value under `key`, false where there is none.
pub fn bool_field(value: &Json, key: &str) -> (r: bool)
    ensures
        r == (value@.bool_at(key@) == Some(true)),
{
    match value.bool_at(key) {
        Some(b) => b,
        None => false,
    }
}

/// The trimmed text of a value, where it is a text that is not blank.
pub open spec fn clean_text(v: Option<JsonView>) -> Option<Seq<char>> {
    match v {
        Some(JsonView::Str(s)) => if trimmed(s).len() == 0 {
            None
        } else {
            Some(trimmed(s))
        },
        _ => None,
    }
}

/// The first text that is not blank.
pub open spec fn first_clean(a: Option<JsonView>, b: Option<JsonView>, c: Option<JsonView>) -> Option<
    Seq<char>,
> {
    if clean_text(a) is Some {
        clean_text(a)
    } else if clean_text(b) is Some {
        clean_text(b)
    } else {
        clean_text(c)
    }
}

/// The trimmed text of a value, where it is a text that is not blank.
fn make_clean(v: Option<&Json>) -> (r: Option<String>)
    ensures
        opt_text(r) == clean_text(crate::json::opt_view(v)),
{
    match v {
        Some(Json::Str(s)) => {
            let t = trim(s);
            if t.is_empty() {
                None
            } else {
                Some(copy(t))
            }
        },
        _ => None,
    }
}

/// The first text that is not blank.
pub fn first_string(a: Option<&Json>, b: Option<&Json>, c: Option<&Json>) -> (r: Option<String>)
    ensures
        opt_text(r) == first_clean(
            crate::json::opt_view(a),
            crate::json::opt_view(b),
            crate::json::opt_view(c),
        ),
{
    match make_clean(a) {
        Some(t) => Some(t),
        None => match make_clean(b) {
            Some(t) => Some(t),
            None => make_clean(c),
        },
    }
}

/// A text filled up with `=` to a multiple of four bytes.
pub open spec fn filled_up(s: Seq<char>) -> Seq<char> {
    let n = encode_utf8(s).len() % 4;
    if n == 0 {
        s
    } else if n == 1 {
        s + "==="@
    } else if n == 2 {
        s + "=="@
    } else {
        s + "="@
    }
}

/// The bytes that a text stands for in base64 with the alphabet for URLs and padding.
pub uninterp spec fn url_safe_bytes(s: Seq<char>) -> Option<Seq<u8>>;

/// `base64::engine::general_purpose::URL_SAFE.decode`: the bytes that the text stands for,
/// where it is well-formed.
#[verifier::external_body]
fn url_safe_decode(s: &str) -> (r: Option<Vec<u8>>)
    ensures
        match r {
            Some(v) => url_safe_bytes(s@) == Some(v@),
            None => url_safe_bytes(s@) is None,
        },
{
    base64::Engine::decode(&base64::engine::general_purpose::URL_SAFE, s).ok()
}

/// The value that the decoded payload of a token holds.
pub open spec fn payload_value(bytes: Option<Seq<u8>>) -> Option<JsonView> {
    match bytes {
        Some(b) => answer_value(b),
        None => None,
    }
}

/// The middle part of a token, where it has one.
pub open spec fn middle_part(token: Seq<char>) -> Option<Seq<char>> {
    let p = pieces(trimmed(token), '.');
    if p.len() > 1 {
        Some(p[1])
    } else {
        None
    }
}

/// What a token says: an object says it itself; a text carries it in its middle part.
pub open spec fn payload_of(token: JsonView) -> Option<JsonView> {
    match token {
        JsonView::Object(_) => Some(token),
        JsonView::Str(s) => match middle_part(s) {
            Some(p) => payload_value(url_safe_bytes(filled_up(p))),
            None => None,
        },
        _ => None,
    }
}

/// A text filled up with `=` to a multiple of four bytes.
pub fn fill_up(s: &str) -> (r: String)
    ensures
        r@ == filled_up(s@),
{
    let n: usize = s.as_bytes().len() % 4;
    if n == 0 {
        copy(s)
    } else if n == 1 {
        cat(s, "===")
    } else if n == 2 {
        cat(s, "==")
    } else {
        cat(s, "=")
    }
}

/// The value that the decoded payload of a token holds.
pub fn read_payload(bytes: Option<Vec<u8>>) -> (r: Option<Json>)
    ensures
        opt_json(r) == payload_value(
            match bytes {
                Some(v) => Some(v@),
                None => None,
            },
        ),
{
    match bytes {
        Some(v) => read_answer(v.as_slice()),
        None => None,
    }
}

/// What a token says.
pub fn token_payload(value: &Json) -> (r: Option<Json>)
    ensures
        opt_json(r) == payload_of(value@),
{
    match value {
        Json::Object(_) => Some(value.copy()),
        Json::Str(s) => {
            let parts = split(trim(s), '.');
            let ghost p = pieces(trimmed(s@), '.');
            if parts.len() > 1 {
                assert(p[1] == parts@[1]@);
                let padded = fill_up(&parts[1]);
                read_payload(url_safe_decode(&padded))
            } else {
                None
            }
        },
        _ => None,
    }
}

/// The account that a token names.
pub open spec fn token_account(token: JsonView) -> Option<Seq<char>> {
    match payload_of(token) {
        Some(p) => first_clean(
            p.get("chatgpt_account_id"@),
            p.at("https://api.openai.com/auth"@).get("chatgpt_account_id"@),
            None,
        ),
        None => None,
    }
}

/// The plan that a token names.
pub open spec fn token_plan(token: JsonView) -> Option<Seq<char>> {
    match payload_of(token) {
        Some(p) => first_clean(
            p.get("plan_type"@),
            p.get("chatgpt_plan_type"@),
            p.at("https://api.openai.com/auth"@).get("chatgpt_plan_type"@),
        ),
        None => None,
    }
}

/// The account that a token names.
pub fn account_id_from_token_value(value: &Json) -> (r: Option<String>)
    ensures
        opt_text(r) == token_account(value@),
{
    match token_payload(value) {
        Some(p) => {
            let auth = p.at("https://api.openai.com/auth");
            first_string(p.get("chatgpt_account_id"), auth.get("chatgpt_account_id"), None)
        },
        None => None,
    }
}

/// The plan that a token names.
pub fn plan_type_from_token_value(value: &Json) -> (r: Option<String>)
    ensures
        opt_text(r) == token_plan(value@),
{
    match token_payload(value) {
        Some(p) => {
            let auth = p.at("https://api.openai.com/auth");
            first_string(
                p.get("plan_type"),
                p.get("chatgpt_plan_type"),
                auth.get("chatgpt_plan_type"),
            )
        },
        None => None,
    }
}

/// The ChatGPT account of an auth file: from its token, else as it says.
pub open spec fn account_of(file: JsonView) -> Seq<char> {
    if token_account(file.at("id_token"@)) is Some {
        token_account(file.at("id_token"@))->Some_0
    } else if token_account(file.at("idToken"@)) is Some {
        token_account(file.at("idToken"@))->Some_0
    } else {
        field_text(file, "account_id"@)
    }
}

/// The plan of an auth file: from its token, else as it says.
pub open spec fn plan_of(file: JsonView) -> Option<Seq<char>> {
    if token_plan(file.at("id_token"@)) is Some {
        token_plan(file.at("id_token"@))
    } else if token_plan(file.at("idToken"@)) is Some {
        token_plan(file.at("idToken"@))
    } else {
        first_clean(file.get("plan_type"@), file.get("planType"@), None)
    }
}

/// The ChatGPT account of an auth file.
pub fn codex_account_id(file: &Json) -> (r: String)
    ensures
        r@ == account_of(file@),
{
    match account_id_from_token_value(&file.at("id_token")) {
        Some(a) => a,
        None => match account_id_from_token_value(&file.at("idToken")) {
            Some(a) => a,
            None => string_field(file, "account_id"),
        },
    }
}

/// The plan of an auth file.
pub fn codex_plan_type(file: &Json) -> (r: Option<String>)
    ensures
        opt_text(r) == plan_of(file@),
{
    match plan_type_from_token_value(&file.at("id_token")) {
        Some(a) => Some(a),
        None => match plan_type_from_token_value(&file.at("idToken")) {
            Some(a) => Some(a),
            None => first_string(file.get("plan_type"), file.get("planType"), None),
        },
    }
}

/// A whole number under `a`, or else under `b`.
pub open spec fn int_either(v: JsonView, a: Seq<char>, b: Seq<char>) -> Option<i64> {
    match either(v, a, b) {
        JsonView::Number(n) => Some(n.int64()),
        _ => None,
    }
}

/// A whole number under `a`, or else under `b`.
fn parse_int_either(v: &Json, a: &str, b: &str) -> (r: Option<i64>)
    ensures
        r == int_either(v@, a@, b@),
{
    match parse_either(v, a, b) {
        Json::Number(n) => Some(n.as_int64()),
        _ => None,
    }
}

/// How long a window is, in seconds.
pub open spec fn window_seconds(window: JsonView) -> Option<i64> {
    int_either(window, "limit_window_seconds"@, "limitWindowSeconds"@)
}

/// How long a window is, in seconds.
pub fn quota_window_seconds(window: &Json) -> (r: Option<i64>)
    ensures
        r == window_seconds(window@),
{
    parse_int_either(window, "limit_window_seconds", "limitWindowSeconds")
}

/// When a window is reset: a time, or a number of seconds from now.
pub open spec fn reset_label(window: JsonView) -> Seq<char> {
    match (
        int_either(window, "reset_at"@, "resetAt"@),
        int_either(window, "reset_after_seconds"@, "resetAfterSeconds"@),
    ) {
        (Some(t), _) => signed_numeral(t as int),
        (None, Some(n)) => "+"@ + signed_numeral(n as int) + "s"@,
        (None, None) => Seq::empty(),
    }
}

/// When a window is reset.
pub fn quota_reset_label(window: &Json) -> (r: String)
    ensures
        r@ == reset_label(window@),
{
    if let Some(t) = parse_int_either(window, "reset_at", "resetAt") {
        return signed_numeral_of(t);
    }
    if let Some(n) = parse_int_either(window, "reset_after_seconds", "resetAfterSeconds") {
        let digits = signed_numeral_of(n);
        return cat3("+", &digits, "s");
    }
    String::new()
}

/// A window of a quota: how much of it is used, where that is known, and when it is reset.
#[derive(Debug, PartialEq)]
pub struct QuotaWindow {
    pub id: &'static str,
    pub label: &'static str,
    pub used: Option<Double>,
    pub reset_at: String,
}

/// A window of a quota as a mathematical value.
pub struct WindowView {
    pub id: Seq<char>,
    pub label: Seq<char>,
    pub used: Option<Seq<char>>,
    pub reset_at: Seq<char>,
}

impl QuotaWindow {
    pub open spec fn view(self) -> WindowView {
        WindowView {
            id: self.id@,
            label: self.label@,
            used: opt_double(self.used),
            reset_at: self.reset_at@,
        }
    }
}

/// The views of a list of windows.
pub open spec fn window_views(s: Seq<QuotaWindow>) -> Seq<WindowView> {
    s.map_values(|w: QuotaWindow| w@)
}

/// How much of a Codex window is used: as it says, else all of it where it is said to be
/// exhausted.
pub open spec fn used_of(window: JsonView, exhausted: bool) -> Option<Seq<char>> {
    match (double_at(window, "used_percent"@), double_at(window, "usedPercent"@)) {
        (Some(d), _) => Some(d),
        (None, Some(d)) => Some(d),
        (None, None) => if exhausted {
            Some(NumberView::Int(100).double())
        } else {
            None
        },
    }
}

/// A Codex window, where there is one.
pub open spec fn codex_window(
    id: Seq<char>,
    label: Seq<char>,
    window: Option<JsonView>,
    exhausted: bool,
) -> Seq<WindowView> {
    match window {
        Some(w) => seq![
            WindowView { id, label, used: used_of(w, exhausted), reset_at: reset_label(w) },
        ],
        None => Seq::empty(),
    }
}

/// The value under `a`, or else under `b`.
pub open spec fn opt_either(v: JsonView, a: Seq<char>, b: Seq<char>) -> Option<JsonView> {
    match v.get(a) {
        Some(x) => Some(x),
        None => v.get(b),
    }
}

/// The window of a given length: the secondary one where it fits, else the primary one where
/// it fits.
pub open spec fn window_of_length(
    primary: Option<JsonView>,
    secondary: Option<JsonView>,
    seconds: i64,
) -> Option<JsonView> {
    if secondary is Some && window_seconds(secondary->Some_0) == Some(seconds) {
        secondary
    } else if primary is Some && window_seconds(primary->Some_0) == Some(seconds) {
        primary
    } else {
        None
    }
}

/// The windows of a Codex account: the one of five hours and the one of a week, told apart by
/// their lengths, else by their places.
pub open spec fn codex_windows(body: JsonView) -> Seq<WindowView> {
    let limit = either(body, "rate_limit"@, "rateLimit"@);
    let primary = opt_either(limit, "primary_window"@, "primaryWindow"@);
    let secondary = opt_either(limit, "secondary_window"@, "secondaryWindow"@);
    let exhausted = limit.bool_at("limit_reached"@) == Some(true) || limit.bool_at(
        "limitReached"@,
    ) == Some(true) || limit.bool_at("allowed"@) == Some(false);
    let five_hour = match window_of_length(primary, secondary, 18_000) {
        Some(w) => Some(w),
        None => primary,
    };
    let weekly = match window_of_length(primary, secondary, 604_800) {
        Some(w) => Some(w),
        None => secondary,
    };
    codex_window("five_hour"@, "5h"@, five_hour, exhausted) + codex_window(
        "weekly"@,
        "7d"@,
        weekly,
        exhausted,
    )
}

/// A copy of the value under `a`, or else under `b`.
fn parse_opt_either(v: &Json, a: &str, b: &str) -> (r: Option<Json>)
    ensures
        opt_json(r) == opt_either(v@, a@, b@),
{
    match v.get(a) {
        Some(x) => Some(x.copy()),
        None => v.get_copy(b),
    }
}

/// An equal optional value.
fn copy_opt(v: &Option<Json>) -> (r: Option<Json>)
    ensures
        opt_json(r) == opt_json(*v),
{
    match v {
        Some(x) => Some(x.copy()),
        None => None,
    }
}

/// The window of a given length.
fn find_window(primary: &Option<Json>, secondary: &Option<Json>, seconds: i64) -> (r: Option<Json>)
    ensures
        opt_json(r) == window_of_length(opt_json(*primary), opt_json(*secondary), seconds),
{
    if let Some(w) = secondary {
        if let Some(n) = quota_window_seconds(w) {
            if n == seconds {
                return copy_opt(secondary);
            }
        }
    }
    if let Some(w) = primary {
        if let Some(n) = quota_window_seconds(w) {
            if n == seconds {
                return copy_opt(primary);
            }
        }
    }
    None
}

/// Adds a Codex window, where there is one.
fn push_codex_window(
    out: &mut Vec<QuotaWindow>,
    id: &'static str,
    label: &'static str,
    window: Option<Json>,
    exhausted: bool,
)
    ensures
        window_views(final(out)@) == window_views(old(out)@) + codex_window(
            id@,
            label@,
            opt_json(window),
            exhausted,
        ),
{
    let ghost before = window_views(out@);
    match window {
        Some(w) => {
            let used = match parse_double(&w, "used_percent") {
                Some(d) => Some(d),
                None => match parse_double(&w, "usedPercent") {
                    Some(d) => Some(d),
                    None => if exhausted {
                        Some(JsonNumber::PosInt(100).as_double())
                    } else {
                        None
                    },
                },
            };
            let q = QuotaWindow { id, label, used, reset_at: quota_reset_label(&w) };
            out.push(q);
            assert(window_views(out@) =~= before + seq![q@]);
        },
        None => {
            assert(window_views(out@) =~= before + Seq::<WindowView>::empty());
        },
    }
}

/// The windows of a Codex account.
pub fn codex_quota_windows(body: &Json) -> (r: Vec<QuotaWindow>)
    ensures
        window_views(r@) == codex_windows(body@),
{
    let limit = parse_either(body, "rate_limit", "rateLimit");
    let primary = parse_opt_either(&limit, "primary_window", "primaryWindow");
    let secondary = parse_opt_either(&limit, "secondary_window", "secondaryWindow");
    let refused = match limit.bool_at("allowed") {
        Some(b) => !b,
        None => false,
    };
    let exhausted = bool_field(&limit, "limit_reached") || bool_field(&limit, "limitReached") || refused;
    let five_hour = match find_window(&primary, &secondary, 18_000) {
        Some(w) => Some(w),
        None => copy_opt(&primary),
    };
    let weekly = match find_window(&primary, &secondary, 604_800) {
        Some(w) => Some(w),
        None => copy_opt(&secondary),
    };
    let mut out: Vec<QuotaWindow> = Vec::new();
    let ghost first = codex_window("five_hour"@, "5h"@, opt_json(five_hour), exhausted);
    assert(window_views(out@) =~= Seq::<WindowView>::empty());
    push_codex_window(&mut out, "five_hour", "5h", five_hour, exhausted);
    assert(Seq::<WindowView>::empty() + first =~= first);
    push_codex_window(&mut out, "weekly", "7d", weekly, exhausted);
    out
}

/// A window of an Anthropic account, where its use is known.
pub open spec fn claude_window(id: Seq<char>, label: Seq<char>, window: JsonView) -> Seq<WindowView> {
    match double_at(window, "utilization"@) {
        Some(d) => seq![
            WindowView { id, label, used: Some(d), reset_at: field_text(window, "resets_at"@) },
        ],
        None => Seq::empty(),
    }
}

/// The windows of an Anthropic account.
pub open spec fn claude_windows(body: JsonView) -> Seq<WindowView> {
    claude_window("five_hour"@, "5h"@, body.at("five_hour"@)) + claude_window(
        "weekly"@,
        "7d"@,
        body.at("seven_day"@),
    ) + claude_window("weekly_sonnet"@, "Sonnet 7d"@, body.at("seven_day_sonnet"@)) + claude_window(
        "weekly_opus"@,
        "Opus 7d"@,
        body.at("seven_day_opus"@),
    )
}

/// Adds a window of an Anthropic account, where its use is known.
fn push_claude_window(
    out: &mut Vec<QuotaWindow>,
    id: &'static str,
    label: &'static str,
    window: &Json,
)
    ensures
        window_views(final(out)@) == window_views(old(out)@) + claude_window(id@, label@, window@),
{
    let ghost before = window_views(out@);
    match parse_double(window, "utilization") {
        Some(d) => {
            let q = QuotaWindow {
                id,
                label,
                used: Some(d),
                reset_at: string_field(window, "resets_at"),
            };
            out.push(q);
            assert(window_views(out@) =~= before + seq![q@]);
        },
        None => {
            assert(window_views(out@) =~= before + Seq::<WindowView>::empty());
        },
    }
}

/// The windows of an Anthropic account.
pub fn claude_quota_windows(body: &Json) -> (r: Vec<QuotaWindow>)
    ensures
        window_views(r@) == claude_windows(body@),
{
    let mut out: Vec<QuotaWindow> = Vec::new();
    let ghost first = claude_window("five_hour"@, "5h"@, body@.at("five_hour"@));
    assert(window_views(out@) =~= Seq::<WindowView>::empty());
    push_claude_window(&mut out, "five_hour", "5h", &body.at("five_hour"));
    assert(Seq::<WindowView>::empty() + first =~= first);
    push_claude_window(&mut out, "weekly", "7d", &body.at("seven_day"));
    push_claude_window(&mut out, "weekly_sonnet", "Sonnet 7d", &body.at("seven_day_sonnet"));
    push_claude_window(&mut out, "weekly_opus", "Opus 7d", &body.at("seven_day_opus"));
    out
}

/// A double as a number, null where there is none.
pub open spec fn double_or_null(d: Option<Seq<char>>) -> JsonView {
    match d {
        Some(t) => JsonView::Number(NumberView::Float(t)),
        None => JsonView::Null,
    }
}

/// A double as a number, null where there is none.
fn make_double_or_null(d: &Option<Double>) -> (r: Json)
    ensures
        r@ == double_or_null(opt_double(*d)),
{
    match d {
        Some(x) => Json::Number(JsonNumber::Float(x.copy())),
        None => Json::Null,
    }
}

/// A window as it is shown, with what remains of it.
pub fn quota_window_json(window: &QuotaWindow, remaining: &Option<Double>, exhausted: bool) -> (r: Json)
    ensures
        r@ == JsonView::object().with("id"@, JsonView::Str(window@.id)).with(
            "label"@,
            JsonView::Str(window@.label),
        ).with("used_percent"@, double_or_null(window@.used)).with(
            "remaining_percent"@,
            double_or_null(opt_double(*remaining)),
        ).with("reset_at"@, JsonView::Str(window@.reset_at)).with(
            "exhausted"@,
            JsonView::Bool(exhausted),
        ),
{
    Json::object().with("id", Json::str(window.id)).with("label", Json::str(window.label)).with(
        "used_percent",
        make_double_or_null(&window.used),
    ).with("remaining_percent", make_double_or_null(remaining)).with(
        "reset_at",
        Json::str(&window.reset_at),
    ).with("exhausted", Json::Bool(exhausted))
}

/// An account of which nothing is known yet.
pub open spec fn base_account(file: JsonView, provider: Seq<char>) -> JsonView {
    JsonView::object().with("provider"@, JsonView::Str(provider)).with(
        "name"@,
        JsonView::Str(field_text(file, "name"@)),
    ).with("email"@, JsonView::Str(field_text(file, "email"@))).with(
        "status"@,
        JsonView::Str("unknown"@),
    ).with("windows"@, JsonView::Array(Seq::empty()))
}

/// An account of which nothing is known yet.
pub fn base_quota_account(file: &Json, provider: &str) -> (r: Json)
    ensures
        r@ == base_account(file@, provider@),
{
    let none: Vec<Json> = Vec::new();
    broadcast use views_are;

    assert(views(none@) =~= Seq::<JsonView>::empty());
    Json::object().with("provider", Json::str(provider)).with(
        "name",
        Json::Str(string_field(file, "name")),
    ).with("email", Json::Str(string_field(file, "email"))).with(
        "status",
        Json::str("unknown"),
    ).with("windows", Json::Array(none))
}

/// An account with a status and an error.
pub open spec fn failed_account(account: JsonView, status: Seq<char>, error: Seq<char>) -> JsonView {
    account.with("status"@, JsonView::Str(status)).with("error"@, JsonView::Str(error))
}

/// An account with a status and an error.
pub fn fail_account(account: Json, status: &str, error: &str) -> (r: Json)
    ensures
        r@ == failed_account(account@, status@, error@),
{
    account.with("status", Json::str(status)).with("error", Json::str(error))
}

/// How the quota of an account is asked for.
#[derive(Debug, PartialEq)]
pub enum QuotaQuery {
    /// It cannot be; the account says why.
    Missing(Json),
    /// With this payload, for this account.
    Ask { account: Json, payload: Json },
    /// The account is of a provider without quotas.
    Skip,
}

/// How the quota of an account is asked for, as a mathematical value.
pub enum QueryView {
    Missing(JsonView),
    Ask { account: JsonView, payload: JsonView },
    Skip,
}

impl QuotaQuery {
    pub open spec fn view(self) -> QueryView {
        match self {
            QuotaQuery::Missing(a) => QueryView::Missing(a@),
            QuotaQuery::Ask { account, payload } => QueryView::Ask {
                account: account@,
                payload: payload@,
            },
            QuotaQuery::Skip => QueryView::Skip,
        }
    }
}

/// The payload that asks for the quota of a Codex account.
pub open spec fn codex_payload(auth_index: Seq<char>, account_id: Seq<char>) -> JsonView {
    JsonView::object().with("auth_index"@, JsonView::Str(auth_index)).with(
        "method"@,
        JsonView::Str("GET"@),
    ).with("url"@, JsonView::Str("https://chatgpt.com/backend-api/wham/usage"@)).with(
        "header"@,
        JsonView::object().with("Authorization"@, JsonView::Str("Bearer $TOKEN$"@)).with(
            "Content-Type"@,
            JsonView::Str("application/json"@),
        ).with("User-Agent"@, JsonView::Str("codex_cli_rs/0.128.0 (macos; arm64)"@)).with(
            "Chatgpt-Account-Id"@,
            JsonView::Str(account_id),
        ),
    )
}

/// The payload that asks for the quota of an Anthropic account.
pub open spec fn claude_payload(auth_index: Seq<char>) -> JsonView {
    JsonView::object().with("auth_index"@, JsonView::Str(auth_index)).with(
        "method"@,
        JsonView::Str("GET"@),
    ).with("url"@, JsonView::Str("https://api.anthropic.com/api/oauth/usage"@)).with(
        "header"@,
        JsonView::object().with("Accept"@, JsonView::Str("application/json"@)).with(
            "Authorization"@,
            JsonView::Str("Bearer $TOKEN$"@),
        ).with("anthropic-beta"@, JsonView::Str("oauth-2025-04-20"@)),
    )
}

/// How the quota of the account of an auth file is asked for: Anthropic's command line tool
/// goes by the name `tool`.
pub open spec fn query_of(file: JsonView, tool: Seq<char>) -> QueryView {
    let provider = file.text_at("provider"@);
    let auth_index = field_text(file, "auth_index"@);
    if provider == "codex"@ {
        let account = base_account(file, provider);
        if auth_index.len() == 0 || account_of(file).len() == 0 {
            QueryView::Missing(
                failed_account(account, "missing"@, "missing auth_index or ChatGPT account id"@),
            )
        } else {
            QueryView::Ask { account, payload: codex_payload(auth_index, account_of(file)) }
        }
    } else if provider == tool {
        let account = base_account(file, provider);
        if auth_index.len() == 0 {
            QueryView::Missing(failed_account(account, "missing"@, "missing auth_index"@))
        } else {
            QueryView::Ask { account, payload: claude_payload(auth_index) }
        }
    } else {
        QueryView::Skip
    }
}

/// How the quota of the account of an auth file is asked for.
pub fn plan_quota_query(file: &Json, tool: &str) -> (r: QuotaQuery)
    ensures
        r@ == query_of(file@, tool@),
{
    let provider = file.text_at("provider");
    let auth_index = string_field(file, "auth_index");
    if same(&provider, "codex") {
        let account = base_quota_account(file, &provider);
        let account_id = codex_account_id(file);
        if auth_index.as_str().is_empty() || account_id.as_str().is_empty() {
            QuotaQuery::Missing(
                fail_account(account, "missing", "missing auth_index or ChatGPT account id"),
            )
        } else {
            let header = Json::object().with("Authorization", Json::str("Bearer $TOKEN$")).with(
                "Content-Type",
                Json::str("application/json"),
            ).with("User-Agent", Json::str("codex_cli_rs/0.128.0 (macos; arm64)")).with(
                "Chatgpt-Account-Id",
                Json::Str(account_id),
            );
            let payload = Json::object().with("auth_index", Json::Str(auth_index)).with(
                "method",
                Json::str("GET"),
            ).with("url", Json::str("https://chatgpt.com/backend-api/wham/usage")).with(
                "header",
                header,
            );
            QuotaQuery::Ask { account, payload }
        }
    } else if same(&provider, tool) {
        let account = base_quota_account(file, &provider);
        if auth_index.as_str().is_empty() {
            QuotaQuery::Missing(fail_account(account, "missing", "missing auth_index"))
        } else {
            let header = Json::object().with("Accept", Json::str("application/json")).with(
                "Authorization",
                Json::str("Bearer $TOKEN$"),
            ).with("anthropic-beta", Json::str("oauth-2025-04-20"));
            let payload = Json::object().with("auth_index", Json::Str(auth_index)).with(
                "method",
                Json::str("GET"),
            ).with("url", Json::str("https://api.anthropic.com/api/oauth/usage")).with(
                "header",
                header,
            );
            QuotaQuery::Ask { account, payload }
        }
    } else {
        QuotaQuery::Skip
    }
}

/// The status that a call through the local proxy came back with, zero where it says none.
pub open spec fn call_status(response: JsonView) -> i64 {
    match either(response, "status_code"@, "statusCode"@).as_i64() {
        Some(n) => n,
        None => 0,
    }
}

/// What a call through the local proxy came back with.
pub open spec fn call_result(response: JsonView) -> Result<JsonView, Seq<char>> {
    let status = call_status(response);
    let body = response.text_at("body"@);
    if !(200 <= status < 300) {
        Err(
            if trimmed(body).len() == 0 {
                "quota request HTTP "@ + signed_numeral(status as int)
            } else {
                trimmed(body)
            },
        )
    } else {
        match json_parse(body) {
            Some(v) => Ok(v),
            None => Err("empty or invalid quota payload"@),
        }
    }
}

/// What a call through the local proxy came back with.
pub fn read_call_response(response: &Json) -> (r: Result<Json, String>)
    ensures
        match r {
            Ok(v) => call_result(response@) == Ok::<JsonView, Seq<char>>(v@),
            Err(e) => call_result(response@) == Err::<JsonView, Seq<char>>(e@),
        },
{
    let status: i64 = match parse_either(response, "status_code", "statusCode").as_i64() {
        Some(n) => n,
        None => 0,
    };
    let body = response.text_at("body");
    if !(200 <= status && status < 300) {
        let said = trim(&body);
        return Err(
            if said.is_empty() {
                let digits = signed_numeral_of(status);
                cat("quota request HTTP ", &digits)
            } else {
                copy(said)
            },
        );
    }
    match Json::parse(&body) {
        Some(v) => Ok(v),
        None => Err(copy("empty or invalid quota payload")),
    }
}

/// A Codex account with its plan.
pub fn with_plan_type(account: Json, file: &Json, body: &Json) -> (r: Json)
    ensures
        r@ == account@.with(
            "plan_type"@,
            text_or_null(
                match first_clean(body@.get("plan_type"@), body@.get("planType"@), None) {
                    Some(p) => Some(p),
                    None => plan_of(file@),
                },
            ),
        ),
{
    let plan = match first_string(body.get("plan_type"), body.get("planType"), None) {
        Some(p) => Some(p),
        None => codex_plan_type(file),
    };
    let value = match plan {
        Some(p) => Json::Str(p),
        None => Json::Null,
    };
    account.with("plan_type", value)
}

/// An account with its windows and its status.
pub fn with_windows(account: Json, windows: Vec<Json>, status: &str) -> (r: Json)
    ensures
        r@ == account@.with("windows"@, JsonView::Array(views(windows@))).with(
            "status"@,
            JsonView::Str(status@),
        ),
{
    account.with("windows", Json::Array(windows)).with("status", Json::str(status))
}

/// The accounts of a provider as they are shown.
pub open spec fn provider_group(accounts: Seq<JsonView>) -> JsonView {
    JsonView::object().with("account_count"@, JsonView::uint(accounts.len() as u64)).with(
        "accounts"@,
        JsonView::Array(accounts),
    )
}

/// The accounts as they are shown, by provider; a provider without accounts is left out.
pub open spec fn all_groups(codex: Seq<JsonView>, anthropic: Seq<JsonView>, tool: Seq<char>) -> JsonView {
    JsonView::object().with(
        "providers"@,
        JsonView::object().with_some(
            "codex"@,
            if codex.len() > 0 {
                Some(provider_group(codex))
            } else {
                None
            },
        ).with_some(
            tool,
            if anthropic.len() > 0 {
                Some(provider_group(anthropic))
            } else {
                None
            },
        ),
    )
}

/// The accounts of a provider as they are shown.
fn make_group(accounts: Vec<Json>) -> (r: Option<Json>)
    ensures
        opt_json(r) == (if accounts@.len() > 0 {
            Some(provider_group(views(accounts@)))
        } else {
            None
        }),
{
    broadcast use views_are;

    if accounts.len() > 0 {
        Some(
            Json::object().with("account_count", Json::uint(accounts.len() as u64)).with(
                "accounts",
                Json::Array(accounts),
            ),
        )
    } else {
        None
    }
}

/// The accounts as they are shown, by provider.
pub fn group_accounts(codex: Vec<Json>, anthropic: Vec<Json>, tool: &str) -> (r: Json)
    ensures
        r@ == all_groups(views(codex@), views(anthropic@), tool@),
{
    broadcast use views_are;

    let providers = Json::object().with_some("codex", make_group(codex)).with_some(
        tool,
        make_group(anthropic),
    );
    Json::object().with("providers", providers)
}

} // verus!
