//! What an administrator sees of the configuration, and how changes to it are taken. Secrets
//! are shown masked; a masked secret that comes back stands for the one that is stored.
use crate::config::{find_upstream, first_upstream, first_upstream_facts};
use crate::handlers::{all_keys, normal_keys, normalize_client_api_keys, normalized, with_normal_keys};
use crate::models::{
    key_views, upstream_views, AppConfig, AppView, AuthView, ClientApiKeyConfig, KeyView, UpstreamAuth,
    UpstreamConfig, UpstreamView,
};
use crate::seqs::{take_ends, take_step};
use crate::text::{cat3, chars_of, copy, find_char, first_index_facts, opt_text, same, text_of};
use vstd::prelude::*;
use vstd::string::*;

verus! {

/// What stands for the hidden part of a secret.
pub open spec fn mask_fill() -> Seq<char> {
    "••••••"@
}

/// A secret with its middle hidden; a short one is hidden whole.
pub open spec fn masked(key: Seq<char>) -> Seq<char> {
    if key.len() <= 8 {
        mask_fill()
    } else {
        key.take(4) + mask_fill() + key.skip(key.len() - 4)
    }
}

/// Whether a text is a masked secret.
pub open spec fn looks_masked(value: Seq<char>) -> bool {
    value.contains('•')
}

/// A masked secret is told to be masked, and shows at most four characters at each end.
pub proof fn masks_are_recognized(key: Seq<char>)
    ensures
        looks_masked(masked(key)),
        key.len() <= 8 ==> masked(key) == mask_fill(),
        key.len() > 8 ==> masked(key).len() == 14 && masked(key).subrange(4, 10) == mask_fill(),
{
    reveal_strlit("••••••");
    let m = masked(key);
    assert(mask_fill().len() == 6);
    if key.len() <= 8 {
        assert(m[0] == '•');
    } else {
        assert(m[4] == mask_fill()[0]);
        assert(m.subrange(4, 10) =~= mask_fill());
    }
}

/// A secret with its middle hidden.
pub fn mask_secret(key: &str) -> (r: String)
    ensures
        r@ == masked(key@),
{
    let c = chars_of(key);
    if c.len() <= 8 {
        copy("••••••")
    } else {
        let head = text_of(&c, 0, 4);
        let tail = text_of(&c, c.len() - 4, c.len());
        assert(head@ =~= key@.take(4));
        assert(tail@ =~= key@.skip(key@.len() - 4));
        cat3(&head, "••••••", &tail)
    }
}

/// Whether a text is a masked secret.
pub fn is_masked(value: &str) -> (r: bool)
    ensures
        r == looks_masked(value@),
{
    let c = chars_of(value);
    proof {
        first_index_facts(value@, '•');
    }
    match find_char(&c, '•') {
        Some(i) => {
            assert(value@[i as int] == '•');
            true
        },
        None => false,
    }
}

/// How an upstream's authentication is shown.
pub open spec fn shown_auth(a: AuthView) -> AuthView {
    match a {
        AuthView::ApiKey { key: Some(k) } => if k.len() == 0 || k == "none"@ {
            a
        } else {
            AuthView::ApiKey { key: Some(masked(k)) }
        },
        _ => a,
    }
}

/// How an upstream is shown.
pub open spec fn shown_upstream(u: UpstreamView) -> UpstreamView {
    UpstreamView { auth: shown_auth(u.auth), ..u }
}

/// How a client key is shown.
pub open spec fn shown_key(k: KeyView) -> KeyView {
    KeyView { name: k.name, key: masked(k.key) }
}

/// A configuration with its secrets masked.
pub open spec fn masked_config(c: AppView) -> AppView {
    AppView {
        upstreams: c.upstreams.map_values(|u: UpstreamView| shown_upstream(u)),
        client_api_keys: c.client_api_keys.map_values(|k: KeyView| shown_key(k)),
        cli_proxy_api_api_key: match c.cli_proxy_api_api_key {
            Some(k) => Some(
                if k.len() == 0 {
                    k
                } else {
                    masked(k)
                },
            ),
            None => None,
        },
        ..c
    }
}

/// Masks the secrets of a configuration.
pub fn mask_config_secrets(config: &mut AppConfig)
    ensures
        final(config)@ == masked_config(old(config)@),
{
    let ghost before = config@;
    let n: usize = config.upstreams.len();
    let mut i: usize = 0;
    while i < n
        invariant
            i <= n,
            n == config.upstreams@.len(),
            n == before.upstreams.len(),
            config@.aliases == before.aliases,
            config@ == (AppView { upstreams: config@.upstreams, ..before }),
            forall|j: int|
                0 <= j < i ==> (#[trigger] config.upstreams@[j])@ == shown_upstream(
                    before.upstreams[j],
                ),
            forall|j: int| i <= j < n ==> (#[trigger] config.upstreams@[j])@ == before.upstreams[j],
        decreases n - i,
    {
        let secret = match &config.upstreams[i].auth {
            UpstreamAuth::ApiKey { key: Some(k) } => if k.as_str().is_empty() || same(k, "none") {
                None
            } else {
                Some(mask_secret(k))
            },
            _ => None,
        };
        if let Some(k) = secret {
            config.upstreams[i].auth = UpstreamAuth::ApiKey { key: Some(k) };
        }
        i += 1;
    }
    let ghost shown = before.upstreams.map_values(|u: UpstreamView| shown_upstream(u));
    assert(config@.upstreams =~= shown);
    let m: usize = config.client_api_keys.len();
    let mut j: usize = 0;
    while j < m
        invariant
            j <= m,
            m == config.client_api_keys@.len(),
            m == before.client_api_keys.len(),
            config@ == (AppView {
                upstreams: shown,
                client_api_keys: config@.client_api_keys,
                ..before
            }),
            forall|k: int|
                0 <= k < j ==> (#[trigger] config.client_api_keys@[k])@ == shown_key(
                    before.client_api_keys[k],
                ),
            forall|k: int|
                j <= k < m ==> (#[trigger] config.client_api_keys@[k])@ == before.client_api_keys[k],
        decreases m - j,
    {
        let k = mask_secret(&config.client_api_keys[j].key);
        config.client_api_keys[j].key = k;
        j += 1;
    }
    assert(config@.client_api_keys =~= before.client_api_keys.map_values(
        |k: KeyView| shown_key(k),
    ));
    let secret = match &config.cli_proxy_api_api_key {
        Some(k) => if k.as_str().is_empty() {
            None
        } else {
            Some(mask_secret(k))
        },
        None => None,
    };
    if let Some(k) = secret {
        config.cli_proxy_api_api_key = Some(k);
    }
}

/// The first upstream whose key is masked as `shown`.
pub open spec fn first_masked(s: Seq<UpstreamView>, shown: Seq<char>) -> Option<int>
    decreases s.len(),
{
    if s.len() == 0 {
        None
    } else if s[0].auth.key() is Some && masked(s[0].auth.key()->Some_0) == shown {
        Some(0)
    } else {
        match first_masked(s.skip(1), shown) {
            Some(i) => Some(i + 1),
            None => None,
        }
    }
}

/// The stored key that a masked key of an upstream stands for: that of the upstream of the same
/// name, else that of the first upstream whose key is masked alike.
pub open spec fn stored_key(current: Seq<UpstreamView>, name: Seq<char>, shown: Seq<char>) -> Option<
    Seq<char>,
> {
    match (first_upstream(current, name, false), first_masked(current, shown)) {
        (Some(i), _) => current[i].auth.key(),
        (None, Some(i)) => current[i].auth.key(),
        (None, None) => None,
    }
}

/// What is said of a masked key of an upstream that stands for none.
pub open spec fn upstream_key_error(name: Seq<char>) -> Seq<char> {
    "上游 '"@ + name + "' 的 API Key 是掩码值但找不到原始值，请重新输入完整 Key"@
}

/// What is said of a masked client key that stands for none.
pub open spec fn client_key_error() -> Seq<char> {
    "客户端 API Key 是掩码值但找不到原始值，请重新输入完整 Key"@
}

/// What is said of a masked key of the local proxy that stands for none.
pub open spec fn proxy_key_error() -> Seq<char> {
    "CLIProxyAPI API Key 是掩码值但找不到原始值，请重新输入完整 Key"@
}

/// A submitted upstream with its key restored.
pub open spec fn restored_upstream(u: UpstreamView, current: Seq<UpstreamView>) -> Result<
    UpstreamView,
    Seq<char>,
> {
    match u.auth.key() {
        Some(k) => if looks_masked(k) {
            match stored_key(current, u.name, k) {
                Some(known) => Ok(
                    UpstreamView { auth: AuthView::ApiKey { key: Some(known) }, ..u },
                ),
                None => Err(upstream_key_error(u.name)),
            }
        } else {
            Ok(u)
        },
        None => Ok(u),
    }
}

/// Submitted upstreams with their keys restored; the first that cannot be decides.
pub open spec fn restored_upstreams(s: Seq<UpstreamView>, current: Seq<UpstreamView>) -> Result<
    Seq<UpstreamView>,
    Seq<char>,
>
    decreases s.len(),
{
    if s.len() == 0 {
        Ok(Seq::empty())
    } else {
        match restored_upstreams(s.drop_last(), current) {
            Err(e) => Err(e),
            Ok(done) => match restored_upstream(s.last(), current) {
                Err(e) => Err(e),
                Ok(u) => Ok(done.push(u)),
            },
        }
    }
}

/// The last stored client key that is masked as `shown`.
pub open spec fn stored_client_key(current: Seq<KeyView>, shown: Seq<char>) -> Option<Seq<char>>
    decreases current.len(),
{
    if current.len() == 0 {
        None
    } else if masked(current.last().key) == shown {
        Some(current.last().key)
    } else {
        stored_client_key(current.drop_last(), shown)
    }
}

/// A submitted client key, restored.
pub open spec fn restored_key(k: KeyView, current: Seq<KeyView>) -> Result<KeyView, Seq<char>> {
    if looks_masked(k.key) {
        match stored_client_key(current, k.key) {
            Some(known) => Ok(KeyView { name: k.name, key: known }),
            None => Err(client_key_error()),
        }
    } else {
        Ok(k)
    }
}

/// Submitted client keys, restored; the first that cannot be decides.
pub open spec fn restored_keys(s: Seq<KeyView>, current: Seq<KeyView>) -> Result<Seq<KeyView>, Seq<char>>
    decreases s.len(),
{
    if s.len() == 0 {
        Ok(Seq::empty())
    } else {
        match restored_keys(s.drop_last(), current) {
            Err(e) => Err(e),
            Ok(done) => match restored_key(s.last(), current) {
                Err(e) => Err(e),
                Ok(k) => Ok(done.push(k)),
            },
        }
    }
}

/// A submitted key of the local proxy, restored.
pub open spec fn restored_proxy_key(k: Option<Seq<char>>, current: Option<Seq<char>>) -> Result<
    Option<Seq<char>>,
    Seq<char>,
> {
    match k {
        Some(v) => if looks_masked(v) {
            match current {
                Some(known) => Ok(Some(known)),
                None => Err(proxy_key_error()),
            }
        } else {
            Ok(k)
        },
        None => Ok(k),
    }
}

/// A submitted configuration with its secrets restored from the current one.
pub open spec fn restored_config(new: AppView, current: AppView) -> Result<AppView, Seq<char>> {
    match restored_upstreams(new.upstreams, current.upstreams) {
        Err(e) => Err(e),
        Ok(upstreams) => match restored_keys(new.client_api_keys, current.client_api_keys) {
            Err(e) => Err(e),
            Ok(client_api_keys) => match restored_proxy_key(
                new.cli_proxy_api_api_key,
                current.cli_proxy_api_api_key,
            ) {
                Err(e) => Err(e),
                Ok(cli_proxy_api_api_key) => Ok(
                    AppView { upstreams, client_api_keys, cli_proxy_api_api_key, ..new },
                ),
            },
        },
    }
}

proof fn upstream_error_persists(s: Seq<UpstreamView>, current: Seq<UpstreamView>, n: int)
    requires
        0 <= n <= s.len(),
        restored_upstreams(s.take(n), current) is Err,
    ensures
        restored_upstreams(s, current) == restored_upstreams(s.take(n), current),
    decreases s.len() - n,
{
    if n == s.len() {
        assert(s.take(n) =~= s);
    } else {
        assert(s.take(n + 1).drop_last() =~= s.take(n));
        upstream_error_persists(s, current, n + 1);
    }
}

proof fn key_error_persists(s: Seq<KeyView>, current: Seq<KeyView>, n: int)
    requires
        0 <= n <= s.len(),
        restored_keys(s.take(n), current) is Err,
    ensures
        restored_keys(s, current) == restored_keys(s.take(n), current),
    decreases s.len() - n,
{
    if n == s.len() {
        assert(s.take(n) =~= s);
    } else {
        assert(s.take(n + 1).drop_last() =~= s.take(n));
        key_error_persists(s, current, n + 1);
    }
}

/// The first upstream whose key is masked as `shown`.
fn find_masked(list: &Vec<UpstreamConfig>, shown: &str) -> (r: Option<usize>)
    ensures
        match r {
            Some(i) => i < list@.len() && first_masked(upstream_views(list@), shown@) == Some(i as int),
            None => first_masked(upstream_views(list@), shown@) is None,
        },
{
    let ghost all = upstream_views(list@);
    let mut i: usize = 0;
    assert(all.skip(0) =~= all);
    while i < list.len()
        invariant
            i <= list@.len(),
            all == upstream_views(list@),
            first_masked(all, shown@) == match first_masked(all.skip(i as int), shown@) {
                Some(k) => Some(k + i),
                None => None,
            },
        decreases list@.len() - i,
    {
        assert(all.skip(i as int)[0] == list@[i as int]@);
        assert(all.skip(i as int).skip(1) =~= all.skip(i + 1));
        if let Some(k) = list[i].api_key_value() {
            let m = mask_secret(k);
            if same(&m, shown) {
                return Some(i);
            }
        }
        i += 1;
    }
    None
}

/// The stored key that a masked key of an upstream stands for.
fn find_stored_key(current: &Vec<UpstreamConfig>, name: &str, shown: &str) -> (r: Option<String>)
    ensures
        opt_text(r) == stored_key(upstream_views(current@), name@, shown@),
{
    let place = match find_upstream(current, name, false) {
        Some(i) => Some(i),
        None => find_masked(current, shown),
    };
    match place {
        Some(i) => match current[i].api_key_value() {
            Some(k) => Some(copy(k)),
            None => None,
        },
        None => None,
    }
}

/// A submitted upstream with its key restored.
fn restore_upstream(u: &UpstreamConfig, current: &Vec<UpstreamConfig>) -> (r: Result<
    UpstreamConfig,
    String,
>)
    ensures
        match r {
            Ok(v) => restored_upstream(u@, upstream_views(current@)) == Ok::<
                UpstreamView,
                Seq<char>,
            >(v@),
            Err(e) => restored_upstream(u@, upstream_views(current@)) == Err::<
                UpstreamView,
                Seq<char>,
            >(e@),
        },
{
    if let Some(k) = u.api_key_value() {
        if is_masked(k) {
            return match find_stored_key(current, &u.name, k) {
                Some(known) => {
                    let mut v = u.copy();
                    v.auth = UpstreamAuth::ApiKey { key: Some(known) };
                    Ok(v)
                },
                None => Err(
                    cat3(
                        "上游 '",
                        &u.name,
                        "' 的 API Key 是掩码值但找不到原始值，请重新输入完整 Key",
                    ),
                ),
            };
        }
    }
    Ok(u.copy())
}

/// The last stored client key that is masked as `shown`.
fn find_stored_client_key(current: &Vec<ClientApiKeyConfig>, shown: &str) -> (r: Option<String>)
    ensures
        opt_text(r) == stored_client_key(key_views(current@), shown@),
{
    let ghost all = key_views(current@);
    let mut n: usize = current.len();
    proof {
        take_ends(all);
    }
    while n > 0
        invariant
            n <= current@.len(),
            all == key_views(current@),
            stored_client_key(all, shown@) == stored_client_key(all.take(n as int), shown@),
        decreases n,
    {
        proof {
            take_step(all, n - 1);
        }
        let m = mask_secret(&current[n - 1].key);
        if same(&m, shown) {
            return Some(current[n - 1].key.clone());
        }
        n -= 1;
    }
    None
}

/// Restores the masked secrets of a submitted configuration from the current one. Where one of
/// them stands for none, the submitted configuration stays as it is.
pub fn restore_masked_secrets(new: &mut AppConfig, current: &AppConfig) -> (r: Result<(), String>)
    ensures
        match r {
            Ok(()) => restored_config(old(new)@, current@) == Ok::<AppView, Seq<char>>(final(new)@),
            Err(e) => restored_config(old(new)@, current@) == Err::<AppView, Seq<char>>(e@)
                && final(new)@ == old(new)@,
        },
{
    let ghost us = new@.upstreams;
    let ghost cu = current@.upstreams;
    let mut upstreams: Vec<UpstreamConfig> = Vec::new();
    let mut i: usize = 0;
    proof {
        take_ends(us);
        assert(upstream_views(upstreams@) =~= Seq::<UpstreamView>::empty());
    }
    while i < new.upstreams.len()
        invariant
            i <= new.upstreams@.len(),
            *new == *old(new),
            us == upstream_views(new.upstreams@),
            cu == upstream_views(current.upstreams@),
            restored_upstreams(us.take(i as int), cu) == Ok::<Seq<UpstreamView>, Seq<char>>(
                upstream_views(upstreams@),
            ),
        decreases new.upstreams@.len() - i,
    {
        proof {
            take_step(us, i as int);
        }
        match restore_upstream(&new.upstreams[i], &current.upstreams) {
            Ok(u) => {
                let ghost before = upstream_views(upstreams@);
                upstreams.push(u);
                assert(upstream_views(upstreams@) =~= before.push(u@));
            },
            Err(e) => {
                proof {
                    upstream_error_persists(us, cu, i + 1);
                }
                return Err(e);
            },
        }
        i += 1;
    }
    proof {
        take_ends(us);
    }
    let ghost ks = new@.client_api_keys;
    let ghost ck = current@.client_api_keys;
    let mut keys: Vec<ClientApiKeyConfig> = Vec::new();
    let mut j: usize = 0;
    proof {
        take_ends(ks);
        assert(key_views(keys@) =~= Seq::<KeyView>::empty());
    }
    while j < new.client_api_keys.len()
        invariant
            j <= new.client_api_keys@.len(),
            *new == *old(new),
            ks == key_views(new.client_api_keys@),
            ck == key_views(current.client_api_keys@),
            us == upstream_views(new.upstreams@),
            cu == upstream_views(current.upstreams@),
            restored_upstreams(us, cu) == Ok::<Seq<UpstreamView>, Seq<char>>(
                upstream_views(upstreams@),
            ),
            restored_keys(ks.take(j as int), ck) == Ok::<Seq<KeyView>, Seq<char>>(key_views(keys@)),
        decreases new.client_api_keys@.len() - j,
    {
        proof {
            take_step(ks, j as int);
        }
        let item = &new.client_api_keys[j];
        let key = if is_masked(&item.key) {
            match find_stored_client_key(&current.client_api_keys, &item.key) {
                Some(known) => known,
                None => {
                    proof {
                        key_error_persists(ks, ck, j + 1);
                    }
                    return Err(
                        copy("客户端 API Key 是掩码值但找不到原始值，请重新输入完整 Key"),
                    );
                },
            }
        } else {
            item.key.clone()
        };
        let ghost before = key_views(keys@);
        let k = ClientApiKeyConfig { name: item.name.clone(), key };
        keys.push(k);
        assert(key_views(keys@) =~= before.push(k@));
        j += 1;
    }
    proof {
        take_ends(ks);
    }
    let proxy_key = match &new.cli_proxy_api_api_key {
        Some(v) => if is_masked(v) {
            match &current.cli_proxy_api_api_key {
                Some(known) => Some(known.clone()),
                None => return Err(
                    copy("CLIProxyAPI API Key 是掩码值但找不到原始值，请重新输入完整 Key"),
                ),
            }
        } else {
            Some(v.clone())
        },
        None => None,
    };
    new.upstreams = upstreams;
    new.client_api_keys = keys;
    new.cli_proxy_api_api_key = proxy_key;
    Ok(())
}

/// What an administrator sees of a configuration: keys in order, secrets masked, and no trace
/// of the password.
pub open spec fn shown_config(c: AppView) -> AppView {
    masked_config(AppView { admin_password_hash: None, ..with_normal_keys(c) })
}

/// Turns a configuration into what an administrator sees of it.
pub fn get_config(config: &mut AppConfig)
    ensures
        final(config)@ == shown_config(old(config)@),
{
    normalize_client_api_keys(config);
    config.admin_password_hash = None;
    mask_config_secrets(config);
}

/// The configuration that a submitted one leads to: its secrets restored, its keys in order,
/// and the password that is set now.
pub open spec fn accepted_config(new: AppView, current: AppView) -> Result<AppView, Seq<char>> {
    match restored_config(
        AppView { admin_password_hash: current.admin_password_hash, ..new },
        current,
    ) {
        Ok(c) => Ok(with_normal_keys(c)),
        Err(e) => Err(e),
    }
}

/// Takes a submitted configuration.
pub fn update_config(new: AppConfig, current: &AppConfig) -> (r: Result<AppConfig, String>)
    ensures
        match r {
            Ok(c) => accepted_config(new@, current@) == Ok::<AppView, Seq<char>>(c@),
            Err(e) => accepted_config(new@, current@) == Err::<AppView, Seq<char>>(e@),
        },
{
    let mut config = new;
    config.admin_password_hash = current.admin_password_hash.clone();
    match restore_masked_secrets(&mut config, current) {
        Ok(()) => {
            normalize_client_api_keys(&mut config);
            Ok(config)
        },
        Err(e) => Err(e),
    }
}

/// The client key at a place of the list that is shown, in clear.
pub fn reveal_client_api_key(config: &AppConfig, index: usize) -> (r: Option<String>)
    ensures
        opt_text(r) == (if index < normalized(all_keys(config@)).len() {
            Some(normalized(all_keys(config@))[index as int].key)
        } else {
            None
        }),
{
    let keys = normal_keys(config);
    if index < keys.len() {
        Some(keys[index].key.clone())
    } else {
        None
    }
}

/// Whether no two upstreams bear the same name.
pub open spec fn distinct_names(s: Seq<UpstreamView>) -> bool {
    forall|i: int, j: int| 0 <= i < j < s.len() ==> (#[trigger] s[i]).name != (#[trigger] s[j]).name
}

/// Whether no two client keys look alike when masked.
pub open spec fn distinct_masks(s: Seq<KeyView>) -> bool {
    forall|i: int, j: int|
        0 <= i < j < s.len() ==> masked((#[trigger] s[i]).key) != masked((#[trigger] s[j]).key)
}

proof fn upstreams_round_trip(s: Seq<UpstreamView>, shown: Seq<UpstreamView>, n: int)
    requires
        0 <= n <= s.len(),
        distinct_names(s),
        shown == s.map_values(|u: UpstreamView| shown_upstream(u)),
    ensures
        restored_upstreams(shown.take(n), s) == Ok::<Seq<UpstreamView>, Seq<char>>(s.take(n)),
    decreases n,
{
    if n == 0 {
        assert(shown.take(0) =~= Seq::<UpstreamView>::empty());
        assert(s.take(0) =~= Seq::<UpstreamView>::empty());
    } else {
        upstreams_round_trip(s, shown, n - 1);
        assert(shown.take(n).drop_last() =~= shown.take(n - 1));
        assert(s.take(n) =~= s.take(n - 1).push(s[n - 1]));
        let u = s[n - 1];
        let v = shown[n - 1];
        assert(v == shown_upstream(u));
        first_upstream_facts(s, u.name, false);
        let k = first_upstream(s, u.name, false);
        assert(k is Some) by {
            if k is None {
                assert(!(s[n - 1].name == u.name));
            }
        }
        let i = k->Some_0;
        if i < n - 1 {
            assert(s[i].name != s[n - 1].name);
        } else if i > n - 1 {
            assert(s[n - 1].name != s[i].name);
        }
        if u.auth.key() is Some {
            masks_are_recognized(u.auth.key()->Some_0);
            reveal_strlit("none");
            assert(!looks_masked("none"@));
        }
    }
}

proof fn stored_client_key_is(s: Seq<KeyView>, i: int)
    requires
        0 <= i < s.len(),
        distinct_masks(s),
    ensures
        stored_client_key(s, masked(s[i].key)) == Some(s[i].key),
    decreases s.len(),
{
    if i < s.len() - 1 {
        assert(masked(s[i].key) != masked(s[s.len() - 1].key));
        let t = s.drop_last();
        assert forall|a: int, b: int| 0 <= a < b < t.len() implies masked((#[trigger] t[a]).key)
            != masked((#[trigger] t[b]).key) by {
            assert(t[a] == s[a] && t[b] == s[b]);
        }
        stored_client_key_is(t, i);
    }
}

proof fn keys_round_trip(s: Seq<KeyView>, shown: Seq<KeyView>, n: int)
    requires
        0 <= n <= s.len(),
        distinct_masks(s),
        shown == s.map_values(|k: KeyView| shown_key(k)),
    ensures
        restored_keys(shown.take(n), s) == Ok::<Seq<KeyView>, Seq<char>>(s.take(n)),
    decreases n,
{
    if n == 0 {
        assert(shown.take(0) =~= Seq::<KeyView>::empty());
        assert(s.take(0) =~= Seq::<KeyView>::empty());
    } else {
        keys_round_trip(s, shown, n - 1);
        assert(shown.take(n).drop_last() =~= shown.take(n - 1));
        assert(s.take(n) =~= s.take(n - 1).push(s[n - 1]));
        assert(shown[n - 1] == shown_key(s[n - 1]));
        masks_are_recognized(s[n - 1].key);
        stored_client_key_is(s, n - 1);
    }
}

/// A configuration that is shown masked and comes back unchanged is the stored one again,
/// where upstreams have names of their own and client keys do not look alike when masked.
pub proof fn masking_is_undone(c: AppView)
    requires
        distinct_names(c.upstreams),
        distinct_masks(c.client_api_keys),
    ensures
        restored_config(masked_config(c), c) == Ok::<AppView, Seq<char>>(c),
{
    let m = masked_config(c);
    upstreams_round_trip(c.upstreams, m.upstreams, c.upstreams.len() as int);
    assert(m.upstreams.take(c.upstreams.len() as int) =~= m.upstreams);
    assert(c.upstreams.take(c.upstreams.len() as int) =~= c.upstreams);
    keys_round_trip(c.client_api_keys, m.client_api_keys, c.client_api_keys.len() as int);
    assert(m.client_api_keys.take(c.client_api_keys.len() as int) =~= m.client_api_keys);
    assert(c.client_api_keys.take(c.client_api_keys.len() as int) =~= c.client_api_keys);
    match c.cli_proxy_api_api_key {
        Some(k) => {
            masks_are_recognized(k);
        },
        None => {},
    }
}

/// Whether no secret of a configuration looks masked.
pub open spec fn all_clear(c: AppView) -> bool {
    &&& forall|i: int|
        0 <= i < c.upstreams.len() ==> upstream_clear(#[trigger] c.upstreams[i])
    &&& forall|i: int|
        0 <= i < c.client_api_keys.len() ==> !looks_masked((#[trigger] c.client_api_keys[i]).key)
    &&& c.cli_proxy_api_api_key is Some ==> !looks_masked(c.cli_proxy_api_api_key->Some_0)
}

/// Whether the key of an upstream does not look masked.
pub open spec fn upstream_clear(u: UpstreamView) -> bool {
    u.auth.key() is Some ==> !looks_masked(u.auth.key()->Some_0)
}

proof fn first_masked_facts(s: Seq<UpstreamView>, shown: Seq<char>)
    ensures
        first_masked(s, shown) is Some ==> 0 <= first_masked(s, shown)->Some_0 < s.len(),
    decreases s.len(),
{
    if s.len() > 0 {
        first_masked_facts(s.skip(1), shown);
    }
}

proof fn restored_upstreams_clear(s: Seq<UpstreamView>, current: Seq<UpstreamView>)
    requires
        forall|i: int| 0 <= i < current.len() ==> upstream_clear(#[trigger] current[i]),
        restored_upstreams(s, current) is Ok,
    ensures
        ({
            let r = restored_upstreams(s, current)->Ok_0;
            forall|i: int| 0 <= i < r.len() ==> upstream_clear(#[trigger] r[i])
        }),
    decreases s.len(),
{
    if s.len() > 0 {
        restored_upstreams_clear(s.drop_last(), current);
        let u = s.last();
        first_upstream_facts(current, u.name, false);
        if u.auth.key() is Some {
            first_masked_facts(current, u.auth.key()->Some_0);
        }
    }
}

proof fn stored_client_key_clear(s: Seq<KeyView>, shown: Seq<char>)
    requires
        forall|i: int| 0 <= i < s.len() ==> !looks_masked((#[trigger] s[i]).key),
    ensures
        stored_client_key(s, shown) is Some ==> !looks_masked(stored_client_key(s, shown)->Some_0),
    decreases s.len(),
{
    if s.len() > 0 {
        assert(!looks_masked(s[s.len() - 1].key));
        let t = s.drop_last();
        assert forall|i: int| 0 <= i < t.len() implies !looks_masked((#[trigger] t[i]).key) by {
            assert(t[i] == s[i]);
        }
        stored_client_key_clear(t, shown);
    }
}

proof fn restored_keys_clear(s: Seq<KeyView>, current: Seq<KeyView>)
    requires
        forall|i: int| 0 <= i < current.len() ==> !looks_masked((#[trigger] current[i]).key),
        restored_keys(s, current) is Ok,
    ensures
        ({
            let r = restored_keys(s, current)->Ok_0;
            forall|i: int| 0 <= i < r.len() ==> !looks_masked((#[trigger] r[i]).key)
        }),
    decreases s.len(),
{
    if s.len() > 0 {
        restored_keys_clear(s.drop_last(), current);
        stored_client_key_clear(current, s.last().key);
    }
}

/// A mask never gets stored: where the stored secrets are clear, what a submitted configuration
/// leads to is clear too, whatever was submitted.
pub proof fn masks_are_never_stored(new: AppView, current: AppView)
    requires
        all_clear(current),
        restored_config(new, current) is Ok,
    ensures
        all_clear(restored_config(new, current)->Ok_0),
{
    restored_upstreams_clear(new.upstreams, current.upstreams);
    restored_keys_clear(new.client_api_keys, current.client_api_keys);
}

/// The password is never shown, and a submitted configuration never changes it.
pub proof fn password_stays(new: AppView, current: AppView)
    ensures
        shown_config(current).admin_password_hash is None,
        accepted_config(new, current) is Ok ==> accepted_config(
            new,
            current,
        )->Ok_0.admin_password_hash == current.admin_password_hash,
{
}

} // verus!
