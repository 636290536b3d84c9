//! What is shown of quotas: which window comes from which part of an answer, whose account and
//! plan it is, and how it is asked for.
use crate::codec::json_parse;
use crate::handlers::quota::{
    account_of, all_groups, base_account, call_result, claude_windows, codex_window, codex_windows, failed_account,
    filled_up, payload_of, payload_value, plan_of, query_of, reset_label, token_account, token_plan, url_safe_bytes,
    used_of, QueryView, WindowView,
};
use crate::json::JsonView;
use crate::laws::requests::is_word;
use crate::number::NumberView;
use crate::text::{pieces, signed_numeral, trimmed};
use vstd::prelude::*;
use vstd::string::*;
use vstd::utf8::*;

verus! {

/// The number under a name of a value that itself stands under a name.
pub open spec fn number_within(v: JsonView, outer: Seq<char>, inner: Seq<char>) -> Option<NumberView> {
    match v.get(outer) {
        Some(w) => match w.get(inner) {
            Some(JsonView::Number(n)) => Some(n),
            _ => None,
        },
        None => None,
    }
}

/// The trimmed text under a name of a value, nothing where there is none.
pub open spec fn trimmed_at(v: JsonView, name: Seq<char>) -> Seq<char> {
    match v.get(name) {
        Some(JsonView::Str(t)) => trimmed(t),
        _ => trimmed(Seq::empty()),
    }
}

/// Whether a list of windows shows one part of an answer under an identifier and a label: it has
/// a window of that identifier exactly where the part tells its use, and that window tells the
/// use and the reset of that part.
pub open spec fn shows_part(
    s: Seq<WindowView>,
    body: JsonView,
    part: Seq<char>,
    id: Seq<char>,
    label: Seq<char>,
) -> bool {
    &&& (exists|i: int| 0 <= i < s.len() && (#[trigger] s[i]).id == id) <==> number_within(
        body,
        part,
        "utilization"@,
    ) is Some
    &&& forall|i: int|
        0 <= i < s.len() && (#[trigger] s[i]).id == id ==> s[i].used == Some(
            number_within(body, part, "utilization"@)->Some_0.double(),
        ) && s[i].label == label && s[i].reset_at == trimmed_at(body.get(part)->Some_0, "resets_at"@)
    &&& forall|i: int, j: int|
        0 <= i < s.len() && 0 <= j < s.len() && (#[trigger] s[i]).id == id && (#[trigger] s[j]).id == id ==> i == j
}

/// The windows of an Anthropic account: each comes from its own part of the answer and from no
/// other.
pub proof fn windows_come_from_their_parts(body: JsonView)
    ensures
        ({
            let s = claude_windows(body);
            &&& shows_part(s, body, "five_hour"@, "five_hour"@, "5h"@)
            &&& shows_part(s, body, "seven_day"@, "weekly"@, "7d"@)
            &&& shows_part(s, body, "seven_day_sonnet"@, "weekly_sonnet"@, "Sonnet 7d"@)
            &&& shows_part(s, body, "seven_day_opus"@, "weekly_opus"@, "Opus 7d"@)
            &&& forall|i: int|
                0 <= i < s.len() ==> (#[trigger] s[i]).id == "five_hour"@ || s[i].id == "weekly"@ || s[i].id
                    == "weekly_sonnet"@ || s[i].id == "weekly_opus"@
        }),
{
    reveal_strlit("five_hour");
    reveal_strlit("weekly");
    reveal_strlit("weekly_sonnet");
    reveal_strlit("weekly_opus");
    assert("five_hour"@.len() == 9);
    assert("weekly"@.len() == 6);
    assert("weekly_sonnet"@.len() == 13);
    assert("weekly_opus"@.len() == 11);
    let a = crate::handlers::quota::claude_window("five_hour"@, "5h"@, body.at("five_hour"@));
    let b = crate::handlers::quota::claude_window("weekly"@, "7d"@, body.at("seven_day"@));
    let c = crate::handlers::quota::claude_window("weekly_sonnet"@, "Sonnet 7d"@, body.at("seven_day_sonnet"@));
    let d = crate::handlers::quota::claude_window("weekly_opus"@, "Opus 7d"@, body.at("seven_day_opus"@));
    let s = claude_windows(body);
    assert(s == a + b + c + d);
    if a.len() > 0 {
        assert(s[0] == a[0]);
    }
    if b.len() > 0 {
        assert(s[a.len() as int] == b[0]);
    }
    if c.len() > 0 {
        assert(s[(a.len() + b.len()) as int] == c[0]);
    }
    if d.len() > 0 {
        assert(s[(a.len() + b.len() + c.len()) as int] == d[0]);
    }
}

/// The value under one of two names, the first counting where both are there.
pub open spec fn under_either(v: JsonView, first: Seq<char>, second: Seq<char>) -> Option<JsonView> {
    if v.get(first) is Some {
        v.get(first)
    } else {
        v.get(second)
    }
}

/// Whether a window says that it is so many seconds long.
pub open spec fn lasts(w: JsonView, seconds: int) -> bool {
    match under_either(w, "limit_window_seconds"@, "limitWindowSeconds"@) {
        Some(JsonView::Number(n)) => n.int64() == seconds,
        _ => false,
    }
}

/// Whether a limit is said to be reached.
pub open spec fn is_reached(limit: JsonView) -> bool {
    limit.get("limit_reached"@) == Some(JsonView::Bool(true)) || limit.get("limitReached"@) == Some(
        JsonView::Bool(true),
    ) || limit.get("allowed"@) == Some(JsonView::Bool(false))
}

/// Whether a list of windows shows a window under an identifier and a label.
pub open spec fn shows_window(
    s: Seq<WindowView>,
    id: Seq<char>,
    label: Seq<char>,
    w: Option<JsonView>,
    exhausted: bool,
) -> bool {
    match w {
        Some(v) => s.contains(
            WindowView { id, label, used: used_of(v, exhausted), reset_at: reset_label(v) },
        ),
        None => forall|i: int| 0 <= i < s.len() ==> (#[trigger] s[i]).id != id,
    }
}

/// The windows of a Codex account are told apart by their lengths, and by their places where the
/// lengths do not tell: the primary one is that of five hours, the secondary one that of a week.
pub proof fn codex_windows_are_told_apart(body: JsonView, limit: JsonView)
    requires
        under_either(body, "rate_limit"@, "rateLimit"@) == Some(limit),
    ensures
        ({
            let s = codex_windows(body);
            let p = under_either(limit, "primary_window"@, "primaryWindow"@);
            let q = under_either(limit, "secondary_window"@, "secondaryWindow"@);
            let out = is_reached(limit);
            &&& s.len() <= 2
            &&& q is Some && lasts(q->Some_0, 18_000) ==> shows_window(s, "five_hour"@, "5h"@, q, out)
            &&& !(q is Some && lasts(q->Some_0, 18_000)) ==> shows_window(s, "five_hour"@, "5h"@, p, out)
            &&& q is Some && lasts(q->Some_0, 604_800) ==> shows_window(s, "weekly"@, "7d"@, q, out)
            &&& !(q is Some && lasts(q->Some_0, 604_800)) && p is Some && lasts(p->Some_0, 604_800)
                ==> shows_window(s, "weekly"@, "7d"@, p, out)
            &&& !(q is Some && lasts(q->Some_0, 604_800)) && !(p is Some && lasts(p->Some_0, 604_800))
                ==> shows_window(s, "weekly"@, "7d"@, q, out)
        }),
{
    reveal_strlit("five_hour");
    reveal_strlit("weekly");
    assert("five_hour"@.len() == 9);
    assert("weekly"@.len() == 6);
    let s = codex_windows(body);
    let p = under_either(limit, "primary_window"@, "primaryWindow"@);
    let q = under_either(limit, "secondary_window"@, "secondaryWindow"@);
    let out = is_reached(limit);
    let w1 = if q is Some && lasts(q->Some_0, 18_000) {
        q
    } else {
        p
    };
    let w2 = if q is Some && lasts(q->Some_0, 604_800) {
        q
    } else if p is Some && lasts(p->Some_0, 604_800) {
        p
    } else {
        q
    };
    let a = codex_window("five_hour"@, "5h"@, w1, out);
    let b = codex_window("weekly"@, "7d"@, w2, out);
    assert(s == a + b);
    if a.len() > 0 {
        assert(s[0] == a[0]);
    }
    if b.len() > 0 {
        assert(s[a.len() as int] == b[0]);
    }
}

/// What a Codex window tells: its use as it says, all of it where it does not say and the limit
/// is reached; its reset as a time, or as seconds from now.
pub proof fn codex_windows_tell(w: JsonView, exhausted: bool)
    ensures
        match under_either(w, "used_percent"@, "usedPercent"@) {
            Some(JsonView::Number(n)) => used_of(w, exhausted) == Some(n.double()),
            None => used_of(w, exhausted) == (if exhausted {
                Some(NumberView::Int(100).double())
            } else {
                None
            }),
            _ => true,
        },
        match under_either(w, "reset_at"@, "resetAt"@) {
            Some(JsonView::Number(n)) => reset_label(w) == signed_numeral(n.int64() as int),
            _ => match under_either(w, "reset_after_seconds"@, "resetAfterSeconds"@) {
                Some(JsonView::Number(n)) => reset_label(w) == "+"@ + signed_numeral(n.int64() as int) + "s"@,
                _ => reset_label(w).len() == 0,
            },
        },
{
}

/// Whether a text that is not blank stands under a name, and is so when trimmed.
pub open spec fn has_word(v: JsonView, name: Seq<char>, t: Seq<char>) -> bool {
    match v.get(name) {
        Some(JsonView::Str(x)) => trimmed(x) == t && t.len() > 0,
        _ => false,
    }
}

/// Whether no text but blanks stands under a name.
pub open spec fn has_no_word(v: JsonView, name: Seq<char>) -> bool {
    match v.get(name) {
        Some(JsonView::Str(x)) => trimmed(x).len() == 0,
        _ => true,
    }
}

/// What a token that is an object says of its account and its plan.
pub proof fn tokens_tell(token: JsonView, auth: JsonView, t: Seq<char>)
    requires
        token is Object,
        token.get("https://api.openai.com/auth"@) == Some(auth),
    ensures
        has_word(token, "chatgpt_account_id"@, t) ==> token_account(token) == Some(t),
        has_no_word(token, "chatgpt_account_id"@) && has_word(auth, "chatgpt_account_id"@, t) ==> token_account(
            token,
        ) == Some(t),
        has_no_word(token, "chatgpt_account_id"@) && has_no_word(auth, "chatgpt_account_id"@) ==> token_account(
            token,
        ) is None,
        has_word(token, "plan_type"@, t) ==> token_plan(token) == Some(t),
        has_no_word(token, "plan_type"@) && has_word(token, "chatgpt_plan_type"@, t) ==> token_plan(token) == Some(
            t,
        ),
        has_no_word(token, "plan_type"@) && has_no_word(token, "chatgpt_plan_type"@) && has_word(
            auth,
            "chatgpt_plan_type"@,
            t,
        ) ==> token_plan(token) == Some(t),
        has_no_word(token, "plan_type"@) && has_no_word(token, "chatgpt_plan_type"@) && has_no_word(
            auth,
            "chatgpt_plan_type"@,
        ) ==> token_plan(token) is None,
{
}

/// A token that is a text says what its second part says, and two tokens that say the same name
/// the same account and plan. A text without dots says nothing.
pub proof fn tokens_carry_their_payload(s: Seq<char>, other: JsonView)
    ensures
        payload_of(JsonView::Str(s)) == (if pieces(trimmed(s), '.').len() > 1 {
            payload_value(url_safe_bytes(filled_up(pieces(trimmed(s), '.')[1])))
        } else {
            None
        }),
        payload_of(JsonView::Str(s)) == payload_of(other) ==> token_account(JsonView::Str(s)) == token_account(other)
            && token_plan(JsonView::Str(s)) == token_plan(other),
        payload_of(JsonView::Str(s)) is None ==> token_account(JsonView::Str(s)) is None && token_plan(
            JsonView::Str(s),
        ) is None,
{
}

proof fn bytes_add_up(a: Seq<char>, b: Seq<char>)
    ensures
        encode_utf8(a + b) == encode_utf8(a) + encode_utf8(b),
    decreases a.len(),
{
    if a.len() == 0 {
        assert(a + b =~= b);
        assert(encode_utf8(a) + encode_utf8(b) =~= encode_utf8(b));
    } else {
        bytes_add_up(a.drop_first(), b);
        assert((a + b).drop_first() =~= a.drop_first() + b);
        assert((a + b)[0] == a[0]);
        assert(encode_utf8(a + b) =~= encode_utf8(a) + encode_utf8(b));
    }
}

/// A text is filled up to a multiple of four bytes, with fewer than four signs behind it.
pub proof fn filling_up_pads(s: Seq<char>)
    ensures
        encode_utf8(filled_up(s)).len() % 4 == 0,
        s.is_prefix_of(filled_up(s)),
        filled_up(s).len() < s.len() + 4,
        forall|i: int| s.len() <= i < filled_up(s).len() ==> (#[trigger] filled_up(s)[i]) == '=',
{
    reveal_strlit("=");
    reveal_strlit("==");
    reveal_strlit("===");
    let t = filled_up(s);
    let pad = t.skip(s.len() as int);
    assert(s + pad =~= t);
    assert(s =~= t.subrange(0, s.len() as int));
    bytes_add_up(s, pad);
    assert(encode_utf8(pad).len() == pad.len()) by {
        assert forall|i: int| 0 <= i < pad.len() implies (#[trigger] pad[i]) == '=' by {
            assert(pad[i] == t[s.len() + i]);
        }
        is_ascii_chars_encode_utf8(pad);
    }
}

/// The account of an auth file: that of its token, under one name or the other, else as it says.
pub proof fn files_name_their_account(file: JsonView)
    ensures
        ({
            let a = match file.get("id_token"@) {
                Some(v) => token_account(v),
                None => None,
            };
            let b = match file.get("idToken"@) {
                Some(v) => token_account(v),
                None => None,
            };
            &&& a is Some ==> account_of(file) == a->Some_0
            &&& a is None && b is Some ==> account_of(file) == b->Some_0
            &&& a is None && b is None ==> account_of(file) == trimmed_at(file, "account_id"@)
        }),
        ({
            let a = match file.get("id_token"@) {
                Some(v) => token_plan(v),
                None => None,
            };
            let b = match file.get("idToken"@) {
                Some(v) => token_plan(v),
                None => None,
            };
            &&& a is Some ==> plan_of(file) == a
            &&& a is None && b is Some ==> plan_of(file) == b
            &&& a is None && b is None ==> forall|t: Seq<char>|
                #![trigger has_word(file, "plan_type"@, t)]
                #![trigger has_word(file, "planType"@, t)]
                {
                    &&& has_word(file, "plan_type"@, t) ==> plan_of(file) == Some(t)
                    &&& has_no_word(file, "plan_type"@) && has_word(file, "planType"@, t) ==> plan_of(file) == Some(
                        t,
                    )
                }
            &&& a is None && b is None && has_no_word(file, "plan_type"@) && has_no_word(file, "planType"@)
                ==> plan_of(file) is None
        }),
{
}

/// Whether a value is an account of a file and a provider.
pub open spec fn is_account_of(v: JsonView, file: JsonView, provider: Seq<char>) -> bool {
    &&& is_word(v.get("provider"@), provider)
    &&& is_word(v.get("name"@), trimmed_at(file, "name"@))
    &&& is_word(v.get("email"@), trimmed_at(file, "email"@))
    &&& v.get("windows"@) == Some(JsonView::Array(Seq::empty()))
}

/// Which accounts are asked for their quota, and how: those of Codex that have an index and an
/// account, and those of Anthropic's tool that have an index.
pub proof fn quotas_are_asked_for(file: JsonView, tool: Seq<char>, provider: Seq<char>)
    requires
        is_word(file.get("provider"@), provider),
    ensures
        provider == "codex"@ && trimmed_at(file, "auth_index"@).len() > 0 && account_of(file).len() > 0 ==> (
        match query_of(file, tool) {
            QueryView::Ask { account, payload } => {
                &&& is_account_of(account, file, provider)
                &&& is_word(payload.get("auth_index"@), trimmed_at(file, "auth_index"@))
                &&& is_word(payload.get("method"@), "GET"@)
                &&& is_word(payload.get("url"@), "https://chatgpt.com/backend-api/wham/usage"@)
                &&& is_word(payload.at("header"@).get("Chatgpt-Account-Id"@), account_of(file))
                &&& is_word(payload.at("header"@).get("Authorization"@), "Bearer $TOKEN$"@)
            },
            _ => false,
        }),
        provider == tool && provider != "codex"@ && trimmed_at(file, "auth_index"@).len() > 0 ==> (match query_of(
            file,
            tool,
        ) {
            QueryView::Ask { account, payload } => {
                &&& is_account_of(account, file, provider)
                &&& is_word(payload.get("auth_index"@), trimmed_at(file, "auth_index"@))
                &&& is_word(payload.get("method"@), "GET"@)
                &&& is_word(payload.get("url"@), "https://api.anthropic.com/api/oauth/usage"@)
                &&& is_word(payload.at("header"@).get("anthropic-beta"@), "oauth-2025-04-20"@)
                &&& is_word(payload.at("header"@).get("Authorization"@), "Bearer $TOKEN$"@)
            },
            _ => false,
        }),
        (provider == "codex"@ || provider == tool) && trimmed_at(file, "auth_index"@).len() == 0
            || provider == "codex"@ && account_of(file).len() == 0 ==> (match query_of(file, tool) {
            QueryView::Missing(account) => is_account_of(account, file, provider) && is_word(
                account.get("status"@),
                "missing"@,
            ) && account.get("error"@) is Some,
            _ => false,
        }),
        query_of(file, tool) is Skip <==> provider != "codex"@ && provider != tool,
{
    reveal_strlit("provider");
    reveal_strlit("name");
    reveal_strlit("email");
    reveal_strlit("status");
    reveal_strlit("windows");
    reveal_strlit("error");
    assert("provider"@.len() == 8);
    assert("name"@.len() == 4);
    assert("email"@.len() == 5);
    assert("status"@.len() == 6);
    assert("windows"@.len() == 7);
    assert("error"@.len() == 5);
    assert("email"@[1] == 'm' && "error"@[1] == 'r');
    reveal_strlit("auth_index");
    reveal_strlit("method");
    reveal_strlit("url");
    reveal_strlit("header");
    assert("auth_index"@.len() == 10);
    assert("method"@.len() == 6);
    assert("url"@.len() == 3);
    assert("header"@.len() == 6);
    assert("method"@[0] == 'm' && "header"@[0] == 'h');
    reveal_strlit("Authorization");
    reveal_strlit("Content-Type");
    reveal_strlit("User-Agent");
    reveal_strlit("Chatgpt-Account-Id");
    reveal_strlit("Accept");
    reveal_strlit("anthropic-beta");
    assert("Authorization"@.len() == 13);
    assert("Content-Type"@.len() == 12);
    assert("User-Agent"@.len() == 10);
    assert("Chatgpt-Account-Id"@.len() == 18);
    assert("Accept"@.len() == 6);
    assert("anthropic-beta"@.len() == 14);
}

/// A call succeeds with the value of its body where its status is one of success; else it fails
/// with what the body says, or with the status where it says nothing.
pub proof fn calls_come_back(response: JsonView, status: int, body: Seq<char>)
    requires
        i64::MIN <= status <= i64::MAX,
        response.get("status_code"@) == Some(JsonView::Number(NumberView::Int(status))) || response.get(
            "status_code"@,
        ) is None && response.get("statusCode"@) == Some(JsonView::Number(NumberView::Int(status))),
        is_word(response.get("body"@), body),
    ensures
        200 <= status < 300 && json_parse(body) is Some ==> call_result(response) == Ok::<JsonView, Seq<char>>(
            json_parse(body)->Some_0,
        ),
        200 <= status < 300 && json_parse(body) is None ==> call_result(response) == Err::<JsonView, Seq<char>>(
            "empty or invalid quota payload"@,
        ),
        !(200 <= status < 300) && trimmed(body).len() > 0 ==> call_result(response) == Err::<
            JsonView,
            Seq<char>,
        >(trimmed(body)),
        !(200 <= status < 300) && trimmed(body).len() == 0 ==> call_result(response) == Err::<
            JsonView,
            Seq<char>,
        >("quota request HTTP "@ + signed_numeral(status)),
{
}

/// Whether a value shows a list of accounts and how many they are.
pub open spec fn shows_accounts(v: Option<JsonView>, accounts: Seq<JsonView>) -> bool {
    match v {
        Some(g) => accounts.len() > 0 && g.get("accounts"@) == Some(JsonView::Array(accounts)) && g.get(
            "account_count"@,
        ) == Some(JsonView::Number(NumberView::Int(accounts.len() as int))),
        None => accounts.len() == 0,
    }
}

/// Accounts are shown under their provider, those of Codex under its name and the others under
/// that of the tool; a provider without accounts is left out.
pub proof fn accounts_are_grouped(codex: Seq<JsonView>, others: Seq<JsonView>, tool: Seq<char>, key: Seq<char>)
    requires
        tool != "codex"@,
        codex.len() <= u64::MAX,
        others.len() <= u64::MAX,
    ensures
        ({
            let g = all_groups(codex, others, tool).at("providers"@);
            &&& shows_accounts(g.get("codex"@), codex)
            &&& shows_accounts(g.get(tool), others)
            &&& key != "codex"@ && key != tool ==> g.get(key) is None
        }),
{
    reveal_strlit("accounts");
    reveal_strlit("account_count");
    assert("accounts"@.len() == 8);
    assert("account_count"@.len() == 13);
}

/// An account that fails says so and keeps the rest.
pub proof fn failures_are_told(file: JsonView, provider: Seq<char>, status: Seq<char>, error: Seq<char>)
    ensures
        ({
            let v = failed_account(base_account(file, provider), status, error);
            &&& is_account_of(v, file, provider)
            &&& is_word(v.get("status"@), status)
            &&& is_word(v.get("error"@), error)
            &&& is_word(base_account(file, provider).get("status"@), "unknown"@)
        }),
{
    reveal_strlit("provider");
    reveal_strlit("name");
    reveal_strlit("email");
    reveal_strlit("status");
    reveal_strlit("windows");
    reveal_strlit("error");
    assert("provider"@.len() == 8);
    assert("name"@.len() == 4);
    assert("email"@.len() == 5);
    assert("status"@.len() == 6);
    assert("windows"@.len() == 7);
    assert("error"@.len() == 5);
    assert("email"@[1] == 'm' && "error"@[1] == 'r');
}

} // verus!
