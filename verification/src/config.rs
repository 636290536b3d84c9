//! Questions to a configuration.
use crate::models::{
    alias_views, upstream_views, AliasView, AppConfig, AppView, ModelAlias, UpstreamConfig, UpstreamView,
};
use crate::text::{same, texts};
use vstd::prelude::*;

verus! {

/// The first upstream with a name that meets a condition on whether it is enabled.
pub open spec fn first_upstream(s: Seq<UpstreamView>, name: Seq<char>, only_enabled: bool) -> Option<int>
    decreases s.len(),
{
    if s.len() == 0 {
        None
    } else if s[0].name == name && (!only_enabled || s[0].enabled) {
        Some(0)
    } else {
        match first_upstream(s.skip(1), name, only_enabled) {
            Some(i) => Some(i + 1),
            None => None,
        }
    }
}

/// The first alias with a name.
pub open spec fn first_alias(s: Seq<AliasView>, name: Seq<char>) -> Option<int>
    decreases s.len(),
{
    if s.len() == 0 {
        None
    } else if s[0].alias == name {
        Some(0)
    } else {
        match first_alias(s.skip(1), name) {
            Some(i) => Some(i + 1),
            None => None,
        }
    }
}

/// What a found upstream is: it has the name, and is enabled where that was asked for.
pub proof fn first_upstream_facts(s: Seq<UpstreamView>, name: Seq<char>, only_enabled: bool)
    ensures
        match first_upstream(s, name, only_enabled) {
            Some(i) => 0 <= i < s.len() && s[i].name == name && (only_enabled ==> s[i].enabled),
            None => forall|i: int|
                0 <= i < s.len() ==> !((#[trigger] s[i]).name == name && (!only_enabled
                    || s[i].enabled)),
        },
    decreases s.len(),
{
    if s.len() > 0 && !(s[0].name == name && (!only_enabled || s[0].enabled)) {
        first_upstream_facts(s.skip(1), name, only_enabled);
        assert forall|i: int| 0 < i < s.len() implies s[i] == s.skip(1)[i - 1] by {}
    }
}

/// What a found alias is: it has the name.
pub proof fn first_alias_facts(s: Seq<AliasView>, name: Seq<char>)
    ensures
        match first_alias(s, name) {
            Some(i) => 0 <= i < s.len() && s[i].alias == name,
            None => forall|i: int| 0 <= i < s.len() ==> (#[trigger] s[i]).alias != name,
        },
    decreases s.len(),
{
    if s.len() > 0 && s[0].alias != name {
        first_alias_facts(s.skip(1), name);
        assert forall|i: int| 0 < i < s.len() implies s[i] == s.skip(1)[i - 1] by {}
    }
}

/// The first upstream with a name, enabled where that is asked for.
pub fn find_upstream(list: &Vec<UpstreamConfig>, name: &str, only_enabled: bool) -> (r: Option<usize>)
    ensures
        match r {
            Some(i) => i < list@.len() && first_upstream(upstream_views(list@), name@, only_enabled)
                == Some(i as int),
            None => first_upstream(upstream_views(list@), name@, only_enabled) is None,
        },
{
    let ghost all = upstream_views(list@);
    let mut i: usize = 0;
    assert(all.skip(0) =~= all);
    while i < list.len()
        invariant
            i <= list@.len(),
            all == upstream_views(list@),
            first_upstream(all, name@, only_enabled) == match first_upstream(
                all.skip(i as int),
                name@,
                only_enabled,
            ) {
                Some(k) => Some(k + i),
                None => None,
            },
        decreases list@.len() - i,
    {
        assert(all.skip(i as int)[0] == list@[i as int]@);
        assert(all.skip(i as int).skip(1) =~= all.skip(i + 1));
        if same(&list[i].name, name) && (!only_enabled || list[i].enabled) {
            return Some(i);
        }
        i += 1;
    }
    None
}

/// The first alias with a name.
pub fn find_alias(list: &Vec<ModelAlias>, name: &str) -> (r: Option<usize>)
    ensures
        match r {
            Some(i) => i < list@.len() && first_alias(alias_views(list@), name@) == Some(i as int),
            None => first_alias(alias_views(list@), name@) is None,
        },
{
    let ghost all = alias_views(list@);
    let mut i: usize = 0;
    assert(all.skip(0) =~= all);
    while i < list.len()
        invariant
            i <= list@.len(),
            all == alias_views(list@),
            first_alias(all, name@) == match first_alias(all.skip(i as int), name@) {
                Some(k) => Some(k + i),
                None => None,
            },
        decreases list@.len() - i,
    {
        assert(all.skip(i as int)[0] == list@[i as int]@);
        assert(all.skip(i as int).skip(1) =~= all.skip(i + 1));
        if same(&list[i].alias, name) {
            return Some(i);
        }
        i += 1;
    }
    None
}

impl AppView {
    /// The enabled upstream with a name.
    pub open spec fn upstream(self, name: Seq<char>) -> Option<UpstreamView> {
        match first_upstream(self.upstreams, name, true) {
            Some(i) => Some(self.upstreams[i]),
            None => None,
        }
    }

    /// The model names that clients may use.
    pub open spec fn model_names(self) -> Seq<Seq<char>> {
        self.aliases.map_values(|a: AliasView| a.alias)
    }
}

impl AppConfig {
    /// The enabled upstream with a name.
    pub fn get_upstream(&self, upstream_name: &str) -> (r: Option<UpstreamConfig>)
        ensures
            match r {
                Some(u) => self@.upstream(upstream_name@) == Some(u@),
                None => self@.upstream(upstream_name@) is None,
            },
    {
        match find_upstream(&self.upstreams, upstream_name, true) {
            Some(i) => Some(self.upstreams[i].copy()),
            None => None,
        }
    }

    /// The model names that clients may use.
    pub fn get_available_models(&self) -> (r: Vec<String>)
        ensures
            texts(r@) == self@.model_names(),
    {
        let mut out: Vec<String> = Vec::new();
        let mut i: usize = 0;
        while i < self.aliases.len()
            invariant
                i <= self.aliases@.len(),
                out@.len() == i,
                forall|j: int| 0 <= j < i ==> (#[trigger] out@[j])@ == self.aliases@[j].alias@,
            decreases self.aliases@.len() - i,
        {
            out.push(self.aliases[i].alias.clone());
            i += 1;
        }
        assert(texts(out@) =~= self@.model_names());
        out
    }
}

} // verus!
