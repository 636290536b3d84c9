//! What becomes of a configuration: how its secrets are shown and restored, which clients it lets
//! in, and who is the administrator.
use crate::config::first_upstream_facts;
use crate::handlers::admin::{admin_check, sessions_after_check, setup_step, SetupView};
use crate::handlers::config_api::{
    accepted_config, first_masked, masked, masked_config, restored_keys, restored_upstreams,
    shown_config, stored_client_key,
};
use crate::handlers::{all_keys, client_may, normalized, with_normal_keys};
use crate::headers::{header_value, HeaderView};
use crate::json::JsonView;
use crate::laws::accounts::text_under;
use crate::laws::listing::begins_with;
use crate::laws::routing::{first_upstream_is_first, is_first_upstream};
use crate::models::{AppView, AuthView, KeyView, UpstreamView};
use crate::state::{counted, login_check, seconds_left, with_session, Tally};
use crate::text::trimmed;
use vstd::prelude::*;
use vstd::string::*;

verus! {

/// A masked secret shows four characters at each end, where it has more than eight, and none
/// where it has not.
pub proof fn masks_show_the_ends(key: Seq<char>)
    ensures
        key.len() > 8 ==> masked(key) == key.take(4) + "••••••"@ + key.skip(key.len() - 4),
        key.len() <= 8 ==> masked(key) == "••••••"@,
{
}

/// Whether a key is worth hiding.
pub open spec fn is_secret(k: Seq<char>) -> bool {
    k.len() > 0 && k != "none"@
}

/// What is shown of a configuration: all of it, with the keys of upstreams, of clients and of the
/// local proxy masked, and without the password.
pub proof fn configurations_are_shown_masked(c: AppView, i: int)
    ensures
        ({
            let m = masked_config(c);
            &&& m.upstreams.len() == c.upstreams.len()
            &&& m.client_api_keys.len() == c.client_api_keys.len()
            &&& m.aliases == c.aliases
            &&& m.allow_protocol_conversion == c.allow_protocol_conversion
            &&& m.cli_proxy_api_endpoint == c.cli_proxy_api_endpoint
            &&& m.cookie_secure == c.cookie_secure
            &&& 0 <= i < c.client_api_keys.len() ==> m.client_api_keys[i].name == c.client_api_keys[i].name
                && m.client_api_keys[i].key == masked(c.client_api_keys[i].key)
            &&& 0 <= i < c.upstreams.len() ==> (match c.upstreams[i].auth {
                AuthView::ApiKey { key: Some(k) } => m.upstreams[i] == (UpstreamView {
                    auth: AuthView::ApiKey {
                        key: Some(
                            if is_secret(k) {
                                masked(k)
                            } else {
                                k
                            },
                        ),
                    },
                    ..c.upstreams[i]
                }),
                _ => m.upstreams[i] == c.upstreams[i],
            })
            &&& match c.cli_proxy_api_api_key {
                Some(k) => m.cli_proxy_api_api_key == Some(
                    if k.len() > 0 {
                        masked(k)
                    } else {
                        k
                    },
                ),
                None => m.cli_proxy_api_api_key is None,
            }
        }),
        shown_config(c) == masked_config(AppView { admin_password_hash: None, ..with_normal_keys(c) }),
        shown_config(c).admin_password_hash is None,
{
}

/// Whether the upstream at a place is the first one whose key is masked so.
pub open spec fn is_first_masked(s: Seq<UpstreamView>, i: int, shown: Seq<char>) -> bool {
    &&& 0 <= i < s.len()
    &&& s[i].auth is ApiKey && s[i].auth->key is Some && masked(s[i].auth->key->Some_0) == shown
    &&& forall|j: int|
        0 <= j < i ==> !((#[trigger] s[j]).auth is ApiKey && s[j].auth->key is Some && masked(
            s[j].auth->key->Some_0,
        ) == shown)
}

proof fn first_masked_is_found(s: Seq<UpstreamView>, i: int, shown: Seq<char>)
    ensures
        is_first_masked(s, i, shown) ==> first_masked(s, shown) == Some(i),
        (forall|j: int|
            0 <= j < s.len() ==> !((#[trigger] s[j]).auth is ApiKey && s[j].auth->key is Some && masked(
                s[j].auth->key->Some_0,
            ) == shown)) ==> first_masked(s, shown) is None,
    decreases s.len(),
{
    if s.len() > 0 {
        let t = s.skip(1);
        first_masked_is_found(t, i - 1, shown);
        assert forall|j: int| 0 <= j < t.len() implies #[trigger] t[j] == s[j + 1] by {}
        let here = s[0].auth is ApiKey && s[0].auth->key is Some && masked(s[0].auth->key->Some_0) == shown;
        assert(here <==> s[0].auth.key() is Some && masked(s[0].auth.key()->Some_0) == shown);
        if is_first_masked(s, i, shown) && i > 0 {
            assert(is_first_masked(t, i - 1, shown));
        }
    }
}

/// A submitted upstream with a key in clear stays as it is. A masked key becomes the stored key of
/// the first upstream of its name; where there is none of that name, that of the first upstream
/// whose key is masked alike; where there is none of these, the configuration is refused.
pub proof fn upstream_keys_are_restored(
    s: Seq<UpstreamView>,
    u: UpstreamView,
    current: Seq<UpstreamView>,
    shown: Seq<char>,
    known: Seq<char>,
    i: int,
)
    requires
        restored_upstreams(s, current) is Ok,
    ensures
        ({
            let before = restored_upstreams(s, current)->Ok_0;
            let r = restored_upstreams(s.push(u), current);
            let restored = UpstreamView { auth: AuthView::ApiKey { key: Some(known) }, ..u };
            let unnamed = forall|j: int| 0 <= j < current.len() ==> (#[trigger] current[j]).name != u.name;
            &&& !(u.auth is ApiKey && u.auth->key is Some && u.auth->key->Some_0.contains('•')) ==> r is Ok
                && r->Ok_0 == before.push(u)
            &&& u.auth == (AuthView::ApiKey { key: Some(shown) }) && shown.contains('•') ==> {
                &&& is_first_upstream(current, i, u.name) && current[i].auth == (AuthView::ApiKey {
                    key: Some(known),
                }) ==> r is Ok && r->Ok_0 == before.push(restored)
                &&& is_first_upstream(current, i, u.name) && !(current[i].auth is ApiKey
                    && current[i].auth->key is Some) ==> r is Err
                &&& unnamed && is_first_masked(current, i, shown) && current[i].auth->key == Some(known) ==> r is Ok
                    && r->Ok_0 == before.push(restored)
                &&& unnamed && (forall|j: int|
                    0 <= j < current.len() ==> !((#[trigger] current[j]).auth is ApiKey
                        && current[j].auth->key is Some && masked(current[j].auth->key->Some_0) == shown)) ==> r is Err
            }
        }),
        restored_upstreams(Seq::empty(), current) == Ok::<Seq<UpstreamView>, Seq<char>>(Seq::empty()),
{
    assert(s.push(u).drop_last() =~= s);
    first_upstream_facts(current, u.name, false);
    if is_first_upstream(current, i, u.name) {
        first_upstream_is_first(current, i, u.name, false);
    }
    first_masked_is_found(current, i, shown);
    let unnamed = forall|j: int| 0 <= j < current.len() ==> (#[trigger] current[j]).name != u.name;
    if unnamed {
        assert(crate::config::first_upstream(current, u.name, false) is None);
    }
}

/// Whether the client key at a place is the last one that is masked so.
pub open spec fn is_last_masked(s: Seq<KeyView>, i: int, shown: Seq<char>) -> bool {
    &&& 0 <= i < s.len()
    &&& masked(s[i].key) == shown
    &&& forall|j: int| i < j < s.len() ==> masked((#[trigger] s[j]).key) != shown
}

proof fn last_masked_is_found(s: Seq<KeyView>, i: int, shown: Seq<char>)
    ensures
        is_last_masked(s, i, shown) ==> stored_client_key(s, shown) == Some(s[i].key),
        (forall|j: int| 0 <= j < s.len() ==> masked((#[trigger] s[j]).key) != shown) ==> stored_client_key(
            s,
            shown,
        ) is None,
    decreases s.len(),
{
    if s.len() > 0 {
        let t = s.drop_last();
        last_masked_is_found(t, i, shown);
        assert(s[s.len() - 1] == s.last());
        assert forall|j: int| 0 <= j < t.len() implies #[trigger] t[j] == s[j] by {}
        if is_last_masked(s, i, shown) && i < t.len() {
            assert(masked(s[s.len() - 1].key) != shown);
            assert(is_last_masked(t, i, shown));
        }
    }
}

/// A submitted client key in clear stays as it is; a masked one becomes the last stored key that
/// is masked alike, under the name that is submitted, and is refused where there is none.
pub proof fn client_keys_are_restored(s: Seq<KeyView>, k: KeyView, current: Seq<KeyView>, i: int)
    requires
        restored_keys(s, current) is Ok,
    ensures
        ({
            let before = restored_keys(s, current)->Ok_0;
            let r = restored_keys(s.push(k), current);
            &&& !k.key.contains('•') ==> r is Ok && r->Ok_0 == before.push(k)
            &&& k.key.contains('•') && is_last_masked(current, i, k.key) ==> r is Ok && r->Ok_0 == before.push(
                KeyView { name: k.name, key: current[i].key },
            )
            &&& k.key.contains('•') && (forall|j: int|
                0 <= j < current.len() ==> masked((#[trigger] current[j]).key) != k.key) ==> r is Err
        }),
        restored_keys(Seq::empty(), current) == Ok::<Seq<KeyView>, Seq<char>>(Seq::empty()),
{
    assert(s.push(k).drop_last() =~= s);
    last_masked_is_found(current, i, k.key);
}

/// A submitted configuration is taken as it is but for its masked keys, its client keys, which
/// are put in order, and the password, which stays.
pub proof fn configurations_are_taken(new: AppView, current: AppView)
    ensures
        ({
            let u = restored_upstreams(new.upstreams, current.upstreams);
            let k = restored_keys(new.client_api_keys, current.client_api_keys);
            let hidden = new.cli_proxy_api_api_key is Some && new.cli_proxy_api_api_key->Some_0.contains('•');
            match accepted_config(new, current) {
                Ok(c) => {
                    &&& u is Ok && c.upstreams == u->Ok_0
                    &&& k is Ok
                    &&& c.aliases == new.aliases
                    &&& c.allow_protocol_conversion == new.allow_protocol_conversion
                    &&& c.cli_proxy_api_endpoint == new.cli_proxy_api_endpoint
                    &&& c.cookie_secure == new.cookie_secure
                    &&& c.admin_password_hash == current.admin_password_hash
                    &&& !hidden ==> c.cli_proxy_api_api_key == new.cli_proxy_api_api_key
                    &&& hidden ==> c.cli_proxy_api_api_key is Some && c.cli_proxy_api_api_key
                        == current.cli_proxy_api_api_key
                    &&& c.client_api_key is None
                    &&& new.client_api_key is None ==> c.client_api_keys == normalized(k->Ok_0)
                },
                Err(_) => u is Err || k is Err || (hidden && current.cli_proxy_api_api_key is None),
            }
        }),
{
}

/// Client keys are put in order one by one: trimmed, without empty ones, the first of equal ones
/// counting.
pub proof fn client_keys_are_put_in_order(s: Seq<KeyView>, k: KeyView)
    ensures
        ({
            let before = normalized(s);
            let after = normalized(s.push(k));
            let known = exists|i: int| 0 <= i < before.len() && (#[trigger] before[i]).key == trimmed(k.key);
            &&& trimmed(k.key).len() == 0 || known ==> after == before
            &&& trimmed(k.key).len() > 0 && !known ==> after == before.push(
                KeyView { name: trimmed(k.name), key: trimmed(k.key) },
            )
        }),
        normalized(Seq::empty()).len() == 0,
{
    assert(s.push(k).drop_last() =~= s);
}

proof fn ordered_keys_are_all(s: Seq<KeyView>, key: Seq<char>)
    ensures
        (exists|i: int| 0 <= i < normalized(s).len() && (#[trigger] normalized(s)[i]).key == key) <==> key.len() > 0
            && exists|i: int| 0 <= i < s.len() && trimmed((#[trigger] s[i]).key) == key,
    decreases s.len(),
{
    if s.len() > 0 {
        let t = s.drop_last();
        ordered_keys_are_all(t, key);
        client_keys_are_put_in_order(t, s.last());
        assert(t.push(s.last()) =~= s);
        let a = normalized(t);
        let b = normalized(s);
        assert(s[s.len() - 1] == s.last());
        assert forall|i: int| 0 <= i < t.len() implies #[trigger] t[i] == s[i] by {}
        assert forall|i: int| 0 <= i < a.len() implies #[trigger] b[i] == a[i] by {}
        if exists|i: int| 0 <= i < b.len() && (#[trigger] b[i]).key == key {
            let i = choose|i: int| 0 <= i < b.len() && (#[trigger] b[i]).key == key;
            if i < a.len() {
                assert(a[i].key == key);
                let j = choose|j: int| 0 <= j < t.len() && trimmed((#[trigger] t[j]).key) == key;
                assert(trimmed(s[j].key) == key);
            } else {
                assert(trimmed(s[s.len() - 1].key) == key);
            }
        }
        if key.len() > 0 && exists|i: int| 0 <= i < s.len() && trimmed((#[trigger] s[i]).key) == key {
            let i = choose|i: int| 0 <= i < s.len() && trimmed((#[trigger] s[i]).key) == key;
            if i < t.len() {
                assert(trimmed(t[i].key) == key);
                let j = choose|j: int| 0 <= j < a.len() && (#[trigger] a[j]).key == key;
                assert(b[j].key == key);
            } else if exists|j: int| 0 <= j < a.len() && (#[trigger] a[j]).key == key {
                let j = choose|j: int| 0 <= j < a.len() && (#[trigger] a[j]).key == key;
                assert(b[j].key == key);
            } else {
                assert(b[a.len() as int].key == key);
            }
        }
    }
}

/// Whether a key is configured for clients, in the list or as the single one.
pub open spec fn is_client_key(c: AppView, key: Seq<char>) -> bool {
    key.len() > 0 && ((exists|i: int|
        0 <= i < c.client_api_keys.len() && trimmed((#[trigger] c.client_api_keys[i]).key) == key) || (
    c.client_api_key is Some && trimmed(c.client_api_key->Some_0) == key))
}

proof fn configured_keys_are_all(c: AppView, key: Seq<char>)
    ensures
        crate::handlers::has_key(normalized(all_keys(c)), key) <==> is_client_key(c, key),
{
    let s = all_keys(c);
    ordered_keys_are_all(s, key);
    let a = c.client_api_keys;
    if c.client_api_key is Some {
        assert(s[a.len() as int].key == c.client_api_key->Some_0);
    }
    assert forall|i: int| 0 <= i < a.len() implies #[trigger] s[i] == a[i] by {}
    if exists|i: int| 0 <= i < s.len() && trimmed((#[trigger] s[i]).key) == key {
        let i = choose|i: int| 0 <= i < s.len() && trimmed((#[trigger] s[i]).key) == key;
        if i < a.len() {
            assert(trimmed(a[i].key) == key);
        }
    }
    if exists|i: int| 0 <= i < a.len() && trimmed((#[trigger] a[i]).key) == key {
        let i = choose|i: int| 0 <= i < a.len() && trimmed((#[trigger] a[i]).key) == key;
        assert(trimmed(s[i].key) == key);
    }
}

/// A client is let in exactly where no key is configured, or where it shows a configured one:
/// behind `Bearer` in one header, or in the other by itself.
pub proof fn clients_need_a_key(c: AppView, headers: Seq<HeaderView>)
    ensures
        client_may(c, headers) <==> {
            ||| forall|key: Seq<char>| !#[trigger] is_client_key(c, key)
            ||| header_value(headers, "Authorization"@) is Some && begins_with(
                header_value(headers, "Authorization"@)->Some_0,
                "Bearer "@,
            ) && is_client_key(c, header_value(headers, "Authorization"@)->Some_0.skip(7))
            ||| header_value(headers, "x-api-key"@) is Some && is_client_key(
                c,
                header_value(headers, "x-api-key"@)->Some_0,
            )
        },
{
    reveal_strlit("Bearer ");
    assert("Bearer "@.len() == 7);
    let keys = normalized(all_keys(c));
    assert forall|key: Seq<char>| true implies (crate::handlers::has_key(keys, key) <==> #[trigger] is_client_key(
        c,
        key,
    )) by {
        configured_keys_are_all(c, key);
    }
    if keys.len() > 0 {
        let k = keys[0].key;
        assert(crate::handlers::has_key(keys, k));
        assert(is_client_key(c, k));
    }
    if header_value(headers, "Authorization"@) is Some {
        let v = header_value(headers, "Authorization"@)->Some_0;
        if begins_with(v, "Bearer "@) {
            assert("Bearer "@ =~= v.subrange(0, 7));
        }
        if "Bearer "@.is_prefix_of(v) {
            assert(v.take(7) =~= "Bearer "@);
        }
    }
}

/// Whether a session of a token has begun less than a day ago; times are in nanoseconds.
pub open spec fn is_open(sessions: Map<Seq<char>, Tally>, token: Seq<char>, now: i64) -> bool {
    sessions.dom().contains(token) && now - sessions[token].since < 86_400_000_000_000
}

/// The administrator is who shows the token of an open session, once there is a password.
pub proof fn administrators_show_a_token(
    has_password: bool,
    sessions: Map<Seq<char>, Tally>,
    token: Seq<char>,
    other: Seq<char>,
    now: i64,
)
    ensures
        admin_check(has_password, sessions, Some(token), now) is Granted <==> has_password && is_open(
            sessions,
            token,
            now,
        ),
        admin_check(has_password, sessions, Some(token), now) is Uninitialized <==> !has_password,
        admin_check(has_password, sessions, None, now) is LoginRequired <==> has_password,
        is_open(sessions, token, now) ==> sessions_after_check(has_password, sessions, Some(token), now) == sessions,
        is_open(sessions, other, now) ==> is_open(
            sessions_after_check(has_password, sessions, Some(token), now),
            other,
            now,
        ),
        has_password && !is_open(sessions, token, now) ==> !sessions_after_check(
            has_password,
            sessions,
            Some(token),
            now,
        ).dom().contains(token),
        is_open(with_session(sessions, token, now), token, now),
        is_open(sessions, other, now) ==> is_open(with_session(sessions, token, now), other, now),
        !is_open(sessions, other, now) && other != token ==> !with_session(sessions, token, now).dom().contains(other),
{
}

/// The first password is set where none is set, the address may try and the password is not blank.
pub proof fn first_passwords_are_set(
    attempts: Map<Seq<char>, Tally>,
    has_password: bool,
    ip: Seq<char>,
    body: JsonView,
    now: i64,
)
    ensures
        ({
            let p = trimmed(text_under(body, "password"@));
            let r = setup_step(attempts, has_password, ip, body, now);
            let free = login_check(attempts, ip, now) is Ok;
            &&& r is Proceed <==> free && p.len() > 0 && !has_password
            &&& r is Proceed ==> r == SetupView::Proceed(p)
            &&& r is EmptyPassword <==> free && p.len() == 0
            &&& r is AlreadySet <==> free && p.len() > 0 && has_password
            &&& r is TooMany <==> !free
            &&& r is TooMany ==> r == SetupView::TooMany(login_check(attempts, ip, now)->Err_0)
        }),
{
}

/// An address that has to wait is told whole seconds: at least one, and no more than are left of
/// the minute since its first failure.
pub proof fn waits_are_told(m: Map<Seq<char>, Tally>, ip: Seq<char>, now: i64)
    requires
        m.dom().contains(ip),
        0 <= now - m[ip].since < 60_000_000_000,
        m[ip].count >= 5,
    ensures
        ({
            let left = 60_000_000_000 - (now - m[ip].since);
            let told = seconds_left(m, ip, now);
            &&& login_check(m, ip, now) == Err::<(), int>(told)
            &&& 1 <= told <= 60
            &&& told > 1 ==> told * 1_000_000_000 <= left
            &&& left < (told + 1) * 1_000_000_000
        }),
{
}

/// A failure counts one more in its minute and begins a new one after it; other names keep their
/// counts.
pub proof fn failures_are_counted(m: Map<Seq<char>, Tally>, name: Seq<char>, other: Seq<char>, now: i64)
    ensures
        ({
            let r = counted(m, name, now);
            let running = m.dom().contains(name) && now - m[name].since < 60_000_000_000;
            &&& r.dom().contains(name)
            &&& running && m[name].count < u32::MAX ==> r[name].count == m[name].count + 1 && r[name].since
                == m[name].since
            &&& !running ==> r[name].count == 1 && r[name].since == now
            &&& other != name ==> (r.dom().contains(other) <==> m.dom().contains(other))
            &&& other != name && m.dom().contains(other) ==> r[other] == m[other]
        }),
{
}

} // verus!
