//! What the handlers of requests decide.
use crate::headers::{get_header, header_value, header_views, Header, HeaderView};
use crate::models::{key_views, AppConfig, AppView, ClientApiKeyConfig, KeyView};
use crate::seqs::{take_ends, take_step};
use crate::text::{copy, same, strip_prefix, stripped, trim, trimmed, trimmed_is_idempotent};
use vstd::prelude::*;

pub mod admin;
pub mod chat;
pub mod cli_proxy;
pub mod config_api;
pub mod models_api;
pub mod quota;

verus! {

/// Whether a key is among the keys.
pub open spec fn has_key(s: Seq<KeyView>, key: Seq<char>) -> bool {
    exists|i: int| 0 <= i < s.len() && (#[trigger] s[i]).key == key
}

/// The keys without the white space around them and their names, without empty ones and
/// without repetitions.
pub open spec fn normalized(s: Seq<KeyView>) -> Seq<KeyView>
    decreases s.len(),
{
    if s.len() == 0 {
        Seq::empty()
    } else {
        let before = normalized(s.drop_last());
        let key = trimmed(s.last().key);
        if key.len() == 0 || has_key(before, key) {
            before
        } else {
            before.push(KeyView { name: trimmed(s.last().name), key })
        }
    }
}

/// All keys of a configuration, the single one of the older form at the end.
pub open spec fn all_keys(c: AppView) -> Seq<KeyView> {
    match c.client_api_key {
        Some(key) => c.client_api_keys.push(KeyView { name: Seq::empty(), key }),
        None => c.client_api_keys,
    }
}

/// A configuration with its keys in order.
pub open spec fn with_normal_keys(c: AppView) -> AppView {
    AppView { client_api_key: None, client_api_keys: normalized(all_keys(c)), ..c }
}

/// Whether keys are in order: trimmed, not empty, each there once.
pub open spec fn keys_in_order(s: Seq<KeyView>) -> bool {
    &&& forall|i: int|
        0 <= i < s.len() ==> (#[trigger] s[i]).key.len() > 0 && s[i].key == trimmed(s[i].key) && s[i].name
            == trimmed(s[i].name)
    &&& forall|i: int, j: int| 0 <= i < j < s.len() ==> (#[trigger] s[i]).key != (#[trigger] s[j]).key
}

/// Normalized keys are in order.
pub proof fn normalized_keys_are_in_order(s: Seq<KeyView>)
    ensures
        keys_in_order(normalized(s)),
    decreases s.len(),
{
    if s.len() > 0 {
        normalized_keys_are_in_order(s.drop_last());
        let before = normalized(s.drop_last());
        let after = normalized(s);
        trimmed_is_idempotent(s.last().key);
        trimmed_is_idempotent(s.last().name);
        assert forall|i: int| 0 <= i < after.len() implies (#[trigger] after[i]).key.len() > 0
            && after[i].key == trimmed(after[i].key) && after[i].name == trimmed(after[i].name) by {
            if i < before.len() {
                assert(after[i] == before[i]);
            }
        }
        assert forall|i: int, j: int| 0 <= i < j < after.len() implies (#[trigger] after[i]).key != (
        #[trigger] after[j]).key by {
            assert(after[i] == before[i]);
            if j < before.len() {
                assert(after[j] == before[j]);
            }
        }
    }
}

/// Keys that are in order stay as they are.
pub proof fn ordered_keys_stay(s: Seq<KeyView>)
    requires
        keys_in_order(s),
    ensures
        normalized(s) == s,
    decreases s.len(),
{
    if s.len() > 0 {
        let t = s.drop_last();
        assert forall|i: int| 0 <= i < t.len() implies (#[trigger] t[i]).key.len() > 0 && t[i].key
            == trimmed(t[i].key) && t[i].name == trimmed(t[i].name) by {
            assert(t[i] == s[i]);
        }
        assert forall|i: int, j: int| 0 <= i < j < t.len() implies (#[trigger] t[i]).key != (
        #[trigger] t[j]).key by {
            assert(t[i] == s[i] && t[j] == s[j]);
        }
        ordered_keys_stay(t);
        let last = s[s.len() - 1];
        assert(last.key == trimmed(last.key));
        if has_key(t, last.key) {
            let i = choose|i: int| 0 <= i < t.len() && (#[trigger] t[i]).key == last.key;
            assert(s[i].key == last.key);
        }
        assert(s =~= t.push(last));
    } else {
        assert(s =~= Seq::<KeyView>::empty());
    }
}

/// Putting the keys in order twice changes nothing the second time.
pub proof fn normalizing_is_idempotent(c: AppView)
    ensures
        with_normal_keys(with_normal_keys(c)) == with_normal_keys(c),
{
    normalized_keys_are_in_order(all_keys(c));
    ordered_keys_stay(normalized(all_keys(c)));
}

/// Whether a key is among the keys.
fn any_key(keys: &Vec<ClientApiKeyConfig>, key: &str) -> (r: bool)
    ensures
        r == has_key(key_views(keys@), key@),
{
    let ghost all = key_views(keys@);
    let mut i: usize = 0;
    while i < keys.len()
        invariant
            i <= keys@.len(),
            all == key_views(keys@),
            forall|j: int| 0 <= j < i ==> (#[trigger] all[j]).key != key@,
        decreases keys@.len() - i,
    {
        assert(all[i as int] == keys@[i as int]@);
        if same(&keys[i].key, key) {
            return true;
        }
        i += 1;
    }
    false
}

/// The keys in order.
fn normalize_keys(keys: &Vec<ClientApiKeyConfig>) -> (r: Vec<ClientApiKeyConfig>)
    ensures
        key_views(r@) == normalized(key_views(keys@)),
{
    let ghost all = key_views(keys@);
    let mut out: Vec<ClientApiKeyConfig> = Vec::new();
    let mut i: usize = 0;
    proof {
        take_ends(all);
        assert(key_views(out@) =~= normalized(all.take(0)));
    }
    while i < keys.len()
        invariant
            i <= keys@.len(),
            all == key_views(keys@),
            key_views(out@) == normalized(all.take(i as int)),
        decreases keys@.len() - i,
    {
        proof {
            take_step(all, i as int);
            assert(all[i as int] == keys@[i as int]@);
        }
        let key = trim(&keys[i].key);
        if !key.is_empty() && !any_key(&out, key) {
            let ghost before = key_views(out@);
            let item = ClientApiKeyConfig { name: copy(trim(&keys[i].name)), key: copy(key) };
            out.push(item);
            assert(key_views(out@) =~= before.push(item@));
        }
        i += 1;
    }
    proof {
        take_ends(all);
    }
    out
}

/// Puts the keys of a configuration in order.
pub fn normalize_client_api_keys(config: &mut AppConfig)
    ensures
        final(config)@ == with_normal_keys(old(config)@),
{
    let mut single: Option<String> = None;
    core::mem::swap(&mut single, &mut config.client_api_key);
    if let Some(key) = single {
        let ghost before = key_views(config.client_api_keys@);
        let item = ClientApiKeyConfig { name: String::new(), key };
        config.client_api_keys.push(item);
        assert(key_views(config.client_api_keys@) =~= before.push(item@));
    }
    config.client_api_keys = normalize_keys(&config.client_api_keys);
}

/// All keys of a configuration, in order.
pub fn normal_keys(config: &AppConfig) -> (r: Vec<ClientApiKeyConfig>)
    ensures
        key_views(r@) == normalized(all_keys(config@)),
{
    let mut keys: Vec<ClientApiKeyConfig> = Vec::new();
    let mut i: usize = 0;
    while i < config.client_api_keys.len()
        invariant
            i <= config.client_api_keys@.len(),
            keys@.len() == i,
            forall|j: int| 0 <= j < i ==> (#[trigger] keys@[j])@ == config.client_api_keys@[j]@,
        decreases config.client_api_keys@.len() - i,
    {
        let k = &config.client_api_keys[i];
        keys.push(ClientApiKeyConfig { name: k.name.clone(), key: k.key.clone() });
        i += 1;
    }
    assert(key_views(keys@) =~= config@.client_api_keys);
    if let Some(key) = &config.client_api_key {
        let item = ClientApiKeyConfig { name: String::new(), key: key.clone() };
        keys.push(item);
        assert(key_views(keys@) =~= config@.client_api_keys.push(item@));
    }
    assert(key_views(keys@) =~= all_keys(config@));
    normalize_keys(&keys)
}

/// Whether a client may send requests: there are no keys, or it presents one of them, as a
/// bearer token or under `x-api-key`.
pub open spec fn client_may(c: AppView, headers: Seq<HeaderView>) -> bool {
    let keys = normalized(all_keys(c));
    let bearer = match header_value(headers, "Authorization"@) {
        Some(v) => stripped(v, "Bearer "@),
        None => None,
    };
    let api_key = header_value(headers, "x-api-key"@);
    ||| keys.len() == 0
    ||| (bearer is Some && has_key(keys, bearer->Some_0))
    ||| (api_key is Some && has_key(keys, api_key->Some_0))
}

/// Whether a client may send requests.
pub fn require_client_api_key(config: &AppConfig, headers: &Vec<Header>) -> (r: bool)
    ensures
        r == client_may(config@, header_views(headers@)),
{
    let keys = normal_keys(config);
    if keys.len() == 0 {
        return true;
    }
    if let Some(value) = get_header(headers, "Authorization") {
        if let Some(token) = strip_prefix(&value, "Bearer ") {
            if any_key(&keys, token) {
                return true;
            }
        }
    }
    if let Some(value) = get_header(headers, "x-api-key") {
        if any_key(&keys, &value) {
            return true;
        }
    }
    false
}

/// Without a valid key no request is let in: where there are keys, a client without either
/// header is refused.
pub proof fn keys_protect(c: AppView, headers: Seq<HeaderView>)
    requires
        normalized(all_keys(c)).len() > 0,
        header_value(headers, "Authorization"@) is None,
        header_value(headers, "x-api-key"@) is None,
    ensures
        !client_may(c, headers),
{
}

} // verus!
