//! What lists of models mean: which models an upstream has, how they are asked for, and what
//! clients see of them.
use crate::config::{first_alias, first_alias_facts, first_upstream, first_upstream_facts};
use crate::handlers::models_api::{
    alias_outcome, alias_upstreams, auto_alias, enabled_among, fetch_of, key_of_upstream, known_length, learned_aliases,
    listed_aliases, matching_models, models_of, test_request, FetchView, FetchedView, LocalProxy, TestError,
    UpstreamModelView,
};
use crate::json::JsonView;
use crate::laws::quotas::under_either;
use crate::laws::requests::is_word;
use crate::laws::routing::is_first_enabled;
use crate::laws::{has_no_text, number_at};
use crate::models::{AliasView, ApiType, AppView, AuthView, ModelAliasSource, UpstreamView};
use crate::text::{trimmed, without_trailing};
use crate::transform::chat_completions::items_at;
use vstd::prelude::*;
use vstd::string::*;

verus! {

/// Whether a length is the number that is given for it, where that fits.
pub open spec fn is_length(length: Option<u32>, given: Option<JsonView>) -> bool {
    match given {
        Some(v) => match v.as_u64() {
            Some(n) => length is Some && (n <= u32::MAX ==> length->Some_0 == n),
            None => length is None,
        },
        None => length is None,
    }
}

/// A list of models is read entry by entry: an entry with an identifier adds a model with its
/// length, any other adds nothing.
pub proof fn models_are_read(body: JsonView, a: Seq<JsonView>, v: JsonView, id: Seq<char>)
    requires
        body is Object,
    ensures
        ({
            let before = models_of(body.with("data"@, JsonView::Array(a)));
            let after = models_of(body.with("data"@, JsonView::Array(a.push(v))));
            &&& is_word(v.get("id"@), id) ==> after.len() == before.len() + 1 && after.drop_last() == before
                && after.last().id == id && is_length(after.last().max_len, v.get("max_model_len"@))
            &&& has_no_text(v, "id"@) ==> after == before
            &&& a.len() == 0 ==> before.len() == 0
        }),
        body.get("data"@) is None ==> ({
            let before = models_of(body.with("models"@, JsonView::Array(a)));
            let after = models_of(body.with("models"@, JsonView::Array(a.push(v))));
            &&& is_word(v.get("slug"@), id) ==> after.len() == before.len() + 1 && after.drop_last() == before
                && after.last().id == id && is_length(
                after.last().max_len,
                under_either(v, "max_model_len"@, "context_window"@),
            )
            &&& has_no_text(v, "slug"@) ==> after == before
            &&& a.len() == 0 ==> before.len() == 0
        }),
{
    reveal_strlit("data");
    reveal_strlit("models");
    assert("data"@.len() == 4);
    assert("models"@.len() == 6);
    assert(a.push(v).drop_last() =~= a);
    let b1 = body.with("data"@, JsonView::Array(a));
    let b2 = body.with("data"@, JsonView::Array(a.push(v)));
    assert(b1.array_at("data"@) == Some(a) && b2.array_at("data"@) == Some(a.push(v)));
    let m1 = models_of(b1);
    let m2 = models_of(b2);
    if is_word(v.get("id"@), id) {
        assert(m2.drop_last() =~= m1);
    }
    if body.get("data"@) is None {
        let c1 = body.with("models"@, JsonView::Array(a));
        let c2 = body.with("models"@, JsonView::Array(a.push(v)));
        assert(c1.array_at("data"@) is None && c2.array_at("data"@) is None);
        assert(items_at(c1, "models"@) == a && items_at(c2, "models"@) == a.push(v));
        if is_word(v.get("slug"@), id) {
            assert(models_of(c2).drop_last() =~= models_of(c1));
        }
    }
}

/// Whether a text begins with another.
pub open spec fn begins_with(s: Seq<char>, p: Seq<char>) -> bool {
    s.len() >= p.len() && s.take(p.len() as int) == p
}

/// Of the models that the local proxy lists, those that begin with the name of Anthropic's tool
/// belong to its account and the others to that of Codex; an upstream with a key of its own has
/// all that it lists.
pub proof fn models_belong_to_accounts(
    auth: AuthView,
    s: Seq<UpstreamModelView>,
    m: UpstreamModelView,
    tool: Seq<char>,
)
    ensures
        ({
            let before = matching_models(auth, s, tool);
            let after = matching_models(auth, s.push(m), tool);
            let own = begins_with(m.id, tool + "-"@);
            &&& auth is AnthropicOAuth ==> after == (if own {
                before.push(m)
            } else {
                before
            })
            &&& auth is CodexOAuth ==> after == (if own {
                before
            } else {
                before.push(m)
            })
            &&& !(auth is AnthropicOAuth) && !(auth is CodexOAuth) ==> after == before.push(m)
            &&& s.len() == 0 ==> before.len() == 0
        }),
{
    assert(s.push(m).drop_last() =~= s);
    let p = tool + "-"@;
    if begins_with(m.id, p) {
        assert(p =~= m.id.subrange(0, p.len() as int));
    }
    if p.is_prefix_of(m.id) {
        assert(m.id.take(p.len() as int) =~= p);
    }
}

/// Models are asked for at the upstream, with its key; those of an account at the local proxy,
/// with the key of the proxy, which has to run.
pub proof fn models_are_asked_for(u: UpstreamView, proxy: LocalProxy, tool: Seq<char>)
    ensures
        ({
            let carried = u.auth is AnthropicOAuth || u.auth is CodexOAuth;
            match fetch_of(u, proxy, tool) {
                Ok(f) => {
                    &&& !carried ==> f.url == u.base_url + (if u.api_type == ApiType::ChatGptCodex {
                        "/codex/models"@
                    } else {
                        "/v1/models"@
                    }) && f.user_agent is None
                    &&& !carried && f.bearer is Some ==> u.auth == (AuthView::ApiKey { key: f.bearer })
                    &&& !carried && u.auth is ApiKey && u.auth->key is Some && u.auth->key->Some_0.len() > 0
                        && u.auth->key->Some_0 != "none"@ ==> f.bearer == u.auth->key
                    &&& carried ==> proxy is Running && f.url == proxy->endpoint@ + "/v1/models"@ && f.bearer == Some(
                        proxy->api_key@,
                    )
                    &&& u.auth is AnthropicOAuth ==> f.user_agent == Some(tool + "-cli/llm-wrapper"@)
                    &&& u.auth is CodexOAuth ==> f.user_agent is None
                },
                Err(e) => {
                    &&& carried
                    &&& proxy is Absent ==> e is CliProxyNotConfigured
                    &&& proxy is Stopped ==> e is CliProxyNotRunning
                    &&& !(proxy is Running)
                },
            }
        }),
{
}

/// Whether an entry tells the length of a model of an upstream.
pub open spec fn tells_length(f: FetchedView, upstream: Seq<char>, model: Seq<char>) -> bool {
    f.upstream == upstream && f.id == model && f.max_len is Some
}

/// The length of a model is the last one that is told for it.
pub proof fn last_lengths_count(s: Seq<FetchedView>, upstream: Seq<char>, model: Seq<char>, i: int)
    ensures
        0 <= i < s.len() && tells_length(s[i], upstream, model) && (forall|j: int|
            i < j < s.len() ==> !tells_length(#[trigger] s[j], upstream, model)) ==> known_length(s, upstream, model)
            == s[i].max_len,
        (forall|j: int| 0 <= j < s.len() ==> !tells_length(#[trigger] s[j], upstream, model)) ==> known_length(
            s,
            upstream,
            model,
        ) is None,
    decreases s.len(),
{
    if s.len() > 0 {
        let t = s.drop_last();
        last_lengths_count(t, upstream, model, i);
        assert(s[s.len() - 1] == s.last());
        assert forall|j: int| 0 <= j < t.len() implies #[trigger] t[j] == s[j] by {}
        if 0 <= i < t.len() && (forall|j: int| i < j < s.len() ==> !tells_length(#[trigger] s[j], upstream, model)) {
            assert(!tells_length(s[s.len() - 1], upstream, model));
            assert forall|j: int| i < j < t.len() implies !tells_length(#[trigger] t[j], upstream, model) by {
                assert(!tells_length(s[j], upstream, model));
            }
        }
        if forall|j: int| 0 <= j < s.len() ==> !tells_length(#[trigger] s[j], upstream, model) {
            assert(!tells_length(s[s.len() - 1], upstream, model));
            assert forall|j: int| 0 <= j < t.len() implies !tells_length(#[trigger] t[j], upstream, model) by {
                assert(!tells_length(s[j], upstream, model));
            }
        }
    }
}

/// Clients see one entry for each alias, in their order: its name, its upstream and the length of
/// the model that it stands for, where that is known.
pub proof fn aliases_are_listed(s: Seq<AliasView>, fetched: Seq<FetchedView>, i: int)
    requires
        0 <= i < s.len(),
    ensures
        ({
            let list = listed_aliases(s, fetched);
            let data = items_at(list, "data"@);
            &&& is_word(list.get("object"@), "list"@)
            &&& data.len() == s.len()
            &&& is_word(data[i].get("id"@), s[i].alias)
            &&& is_word(data[i].get("object"@), "model"@)
            &&& is_word(data[i].get("owned_by"@), s[i].upstream)
            &&& number_at(data[i], "max_model_len"@) == (match known_length(
                fetched,
                s[i].upstream,
                s[i].target_model,
            ) {
                Some(n) => Some(n as u64),
                None => None,
            })
        }),
{
    reveal_strlit("object");
    reveal_strlit("data");
    assert("object"@.len() == 6);
    assert("data"@.len() == 4);
    reveal_strlit("id");
    reveal_strlit("created");
    reveal_strlit("owned_by");
    reveal_strlit("max_model_len");
    assert("id"@.len() == 2);
    assert("created"@.len() == 7);
    assert("owned_by"@.len() == 8);
    assert("max_model_len"@.len() == 13);
}

/// An alias learns the length of the model that it stands for and changes in nothing else; where
/// none is known it stays as it is.
pub proof fn aliases_learn_lengths(s: Seq<AliasView>, fetched: Seq<FetchedView>, i: int)
    requires
        0 <= i < s.len(),
    ensures
        ({
            let r = learned_aliases(s, fetched);
            let n = known_length(fetched, s[i].upstream, s[i].target_model);
            &&& r.len() == s.len()
            &&& n is None ==> r[i] == s[i]
            &&& n is Some ==> r[i] == (AliasView { max_model_len: n, ..s[i] })
        }),
{
}

/// The upstreams of aliases are each named once, and no others are.
pub proof fn upstreams_of_aliases_are_named(s: Seq<AliasView>, name: Seq<char>)
    ensures
        alias_upstreams(s).contains(name) <==> exists|i: int| 0 <= i < s.len() && (#[trigger] s[i]).upstream == name,
        alias_upstreams(s).no_duplicates(),
    decreases s.len(),
{
    if s.len() > 0 {
        let t = s.drop_last();
        upstreams_of_aliases_are_named(t, name);
        let a = alias_upstreams(t);
        let b = alias_upstreams(s);
        let last = s.last().upstream;
        assert(s[s.len() - 1].upstream == last);
        if !a.contains(last) {
            assert(b == a.push(last));
            assert(b[a.len() as int] == last);
            if a.contains(name) {
                let k = choose|k: int| 0 <= k < a.len() && a[k] == name;
                assert(b[k] == name);
            }
        }
        if b.contains(name) && name != last {
            let k = choose|k: int| 0 <= k < b.len() && b[k] == name;
            assert(a[k] == name);
            let i = choose|i: int| 0 <= i < t.len() && (#[trigger] t[i]).upstream == name;
            assert(s[i].upstream == name);
        }
        if exists|i: int| 0 <= i < s.len() && (#[trigger] s[i]).upstream == name {
            let i = choose|i: int| 0 <= i < s.len() && (#[trigger] s[i]).upstream == name;
            if i < t.len() {
                assert(t[i].upstream == name);
            }
        }
    }
}

/// The upstreams of names are the first enabled ones, in the order of the names; a name without
/// one is passed over.
pub proof fn enabled_upstreams_are_found(names: Seq<Seq<char>>, s: Seq<UpstreamView>, name: Seq<char>, k: int)
    ensures
        ({
            let before = enabled_among(names, s);
            let after = enabled_among(names.push(name), s);
            &&& is_first_enabled(s, k, name) ==> after == before.push(s[k])
            &&& (forall|i: int| 0 <= i < s.len() ==> !((#[trigger] s[i]).name == name && s[i].enabled)) ==> after
                == before
            &&& names.len() == 0 ==> before.len() == 0
        }),
{
    assert(names.push(name).drop_last() =~= names);
    first_upstream_facts(s, name, true);
    if is_first_enabled(s, k, name) {
        crate::laws::routing::first_upstream_is_first(s, k, name, true);
    }
}

/// Whether the upstream at a place is the first one of a name that has a key.
pub open spec fn is_first_with_key(s: Seq<UpstreamView>, i: int, name: Seq<char>, key: Seq<char>) -> bool {
    &&& 0 <= i < s.len()
    &&& s[i].name == name
    &&& s[i].auth == (AuthView::ApiKey { key: Some(key) })
    &&& forall|j: int| 0 <= j < i ==> !((#[trigger] s[j]).name == name && s[j].auth.key() is Some)
}

proof fn first_keys_count(s: Seq<UpstreamView>, i: int, name: Seq<char>, key: Seq<char>)
    ensures
        is_first_with_key(s, i, name, key) ==> key_of_upstream(s, name) == Some(key),
        (forall|j: int| 0 <= j < s.len() ==> !((#[trigger] s[j]).name == name && s[j].auth.key() is Some))
            ==> key_of_upstream(s, name) is None,
    decreases s.len(),
{
    if s.len() > 0 {
        let t = s.skip(1);
        first_keys_count(t, i - 1, name, key);
        if is_first_with_key(s, i, name, key) && i > 0 {
            assert(!(s[0].name == name && s[0].auth.key() is Some));
            assert forall|j: int| 0 <= j < i - 1 implies !((#[trigger] t[j]).name == name && t[j].auth.key() is Some) by {
                assert(t[j] == s[j + 1]);
            }
            assert(is_first_with_key(t, i - 1, name, key));
        }
        if forall|j: int| 0 <= j < s.len() ==> !((#[trigger] s[j]).name == name && s[j].auth.key() is Some) {
            assert(!(s[0].name == name && s[0].auth.key() is Some));
            assert forall|j: int| 0 <= j < t.len() implies !((#[trigger] t[j]).name == name && t[j].auth.key() is Some) by {
                assert(t[j] == s[j + 1]);
            }
        }
    }
}

/// Whether a key can be sent.
pub open spec fn is_sendable(k: Seq<char>) -> bool {
    k.len() > 0 && k != "none"@
}

/// A test of an upstream asks its base for the models, with the key that is given; a masked key
/// stands for the stored one of the named upstream, and is refused where there is none.
pub proof fn tests_ask_the_base(
    s: Seq<UpstreamView>,
    base_url: Seq<char>,
    api_key: Option<Seq<char>>,
    upstream: Option<Seq<char>>,
    i: int,
    stored: Seq<char>,
)
    ensures
        ({
            let base = without_trailing(trimmed(base_url), '/');
            let r = test_request(s, base_url, api_key, upstream);
            let given = api_key is Some && is_sendable(trimmed(api_key->Some_0));
            let hidden = given && trimmed(api_key->Some_0).contains('•');
            &&& base.len() == 0 ==> r == Err::<FetchView, TestError>(TestError::EmptyUrl)
            &&& r is Ok ==> base.len() > 0 && r->Ok_0.url == base + "/v1/models"@ && r->Ok_0.user_agent is None
            &&& base.len() > 0 && !hidden ==> r is Ok
            &&& r is Ok && given && !hidden ==> r->Ok_0.bearer == Some(trimmed(api_key->Some_0))
            &&& r is Ok && !given ==> r->Ok_0.bearer is None
            &&& base.len() > 0 && hidden && upstream is None ==> r == Err::<FetchView, TestError>(
                TestError::MaskedKey,
            )
            &&& base.len() > 0 && hidden && upstream is Some && is_first_with_key(s, i, upstream->Some_0, stored)
                ==> r is Ok && r->Ok_0.bearer == (if is_sendable(stored) {
                Some(stored)
            } else {
                None
            })
            &&& base.len() > 0 && hidden && upstream is Some && (forall|j: int|
                0 <= j < s.len() ==> !((#[trigger] s[j]).name == upstream->Some_0 && s[j].auth.key() is Some)) ==> r
                == Err::<FetchView, TestError>(TestError::MaskedKey)
        }),
{
    if upstream is Some {
        first_keys_count(s, i, upstream->Some_0, stored);
    }
}

/// An alias for a model is made where its upstream is enabled and no alias bears the name of the
/// model; it stands for that model of that upstream.
pub proof fn aliases_are_made(c: AppView, upstream: Seq<char>, model: Seq<char>)
    ensures
        ({
            let known = exists|i: int|
                0 <= i < c.upstreams.len() && (#[trigger] c.upstreams[i]).name == upstream && c.upstreams[i].enabled;
            let taken = exists|i: int| 0 <= i < c.aliases.len() && (#[trigger] c.aliases[i]).alias == model;
            &&& alias_outcome(c, upstream, model) is NoUpstream <==> !known
            &&& alias_outcome(c, upstream, model) is Taken <==> known && taken
            &&& alias_outcome(c, upstream, model) is Created <==> known && !taken
        }),
        ({
            let a = auto_alias(upstream, model);
            &&& a.alias == model && a.target_model == model && a.upstream == upstream
            &&& a.param_overrides.len() == 0
            &&& a.source == ModelAliasSource::Auto
            &&& a.max_model_len is None
        }),
{
    first_upstream_facts(c.upstreams, upstream, true);
    first_alias_facts(c.aliases, model);
    match first_upstream(c.upstreams, upstream, true) {
        Some(i) => assert(c.upstreams[i].name == upstream && c.upstreams[i].enabled),
        None => {},
    }
    match first_alias(c.aliases, model) {
        Some(i) => assert(c.aliases[i].alias == model),
        None => {},
    }
}

} // verus!
