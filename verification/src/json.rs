//! JSON values as plain data, with the accessors and builders that the protocol conversions
//! use. An object keeps its entries in the order of their keys.
use crate::number::{JsonNumber, NumberView};
use crate::text::{chars_of, copy, is_text, opt_str, same, texts};
use vstd::prelude::*;

verus! {

/// A JSON value.
#[derive(Debug, PartialEq)]
pub enum Json {
    Null,
    Bool(bool),
    Number(JsonNumber),
    Str(String),
    Array(Vec<Json>),
    Object(JsonObject),
}

/// A JSON object: its entries, in increasing order of their keys.
#[derive(Debug, PartialEq)]
pub struct JsonObject {
    entries: Vec<(String, Json)>,
}

/// A JSON value as a mathematical value.
pub enum JsonView {
    Null,
    Bool(bool),
    Number(NumberView),
    Str(Seq<char>),
    Array(Seq<JsonView>),
    Object(Map<Seq<char>, JsonView>),
}

/// The views of a sequence of values.
pub open spec fn views(s: Seq<Json>) -> Seq<JsonView>
    decreases s,
{
    Seq::new(
        s.len(),
        |i: int|
            if 0 <= i < s.len() {
                s[i].view()
            } else {
                JsonView::Null
            },
    )
}

/// The views of a sequence, item by item.
pub broadcast proof fn views_are(s: Seq<Json>)
    ensures
        (#[trigger] views(s)).len() == s.len(),
        forall|i: int| 0 <= i < s.len() ==> #[trigger] views(s)[i] == s[i].view(),
{
}

/// The views of a sequence with one more value.
pub broadcast proof fn views_push(s: Seq<Json>, v: Json)
    ensures
        #[trigger] views(s.push(v)) == views(s).push(v@),
{
    broadcast use views_are;

    assert(views(s.push(v)) =~= views(s).push(v@));
}

/// The views of two sequences, one after the other.
pub broadcast proof fn views_append(s: Seq<Json>, t: Seq<Json>)
    ensures
        #[trigger] views(s + t) == views(s) + views(t),
{
    broadcast use views_are;

    assert(views(s + t) =~= views(s) + views(t));
}

/// The views of no values.
pub proof fn views_empty()
    ensures
        views(Seq::empty()) == Seq::<JsonView>::empty(),
{
    assert(views(Seq::empty()) =~= Seq::<JsonView>::empty());
}

/// The view of an optional value.
pub open spec fn opt_view(v: Option<&Json>) -> Option<JsonView> {
    match v {
        Some(x) => Some(x@),
        None => None,
    }
}

/// The view of an optional owned value.
pub open spec fn opt_json(v: Option<Json>) -> Option<JsonView> {
    match v {
        Some(x) => Some(x@),
        None => None,
    }
}

/// The map that a sequence of entries describes, later entries replacing earlier ones.
pub open spec fn entries_view(s: Seq<(String, Json)>) -> Map<Seq<char>, JsonView>
    decreases s,
{
    if s.len() == 0 {
        Map::empty()
    } else {
        entries_view(s.drop_last()).insert(s.last().0@, s.last().1.view())
    }
}

/// Whether `a` comes before `b` when texts are ordered character by character.
pub open spec fn precedes(a: Seq<char>, b: Seq<char>) -> bool
    decreases a.len(),
{
    if b.len() == 0 {
        false
    } else if a.len() == 0 {
        true
    } else if a[0] == b[0] {
        precedes(a.skip(1), b.skip(1))
    } else {
        a[0] < b[0]
    }
}

proof fn precedes_irreflexive(a: Seq<char>)
    ensures
        !precedes(a, a),
    decreases a.len(),
{
    if a.len() > 0 {
        precedes_irreflexive(a.skip(1));
    }
}

proof fn precedes_transitive(a: Seq<char>, b: Seq<char>, c: Seq<char>)
    requires
        precedes(a, b),
        precedes(b, c),
    ensures
        precedes(a, c),
    decreases a.len(),
{
    if a.len() > 0 && a[0] == b[0] && b[0] == c[0] {
        precedes_transitive(a.skip(1), b.skip(1), c.skip(1));
    }
}

proof fn precedes_total(a: Seq<char>, b: Seq<char>)
    requires
        a != b,
    ensures
        precedes(a, b) || precedes(b, a),
    decreases a.len(),
{
    if a.len() == 0 || b.len() == 0 {
        if a.len() == 0 && b.len() == 0 {
            assert(a =~= b);
        }
    } else if a[0] == b[0] {
        if a.skip(1) == b.skip(1) {
            assert(a =~= seq![a[0]] + a.skip(1));
            assert(b =~= seq![b[0]] + b.skip(1));
        } else {
            precedes_total(a.skip(1), b.skip(1));
        }
    }
}

/// Whether `a` comes before `b` when texts are ordered character by character.
pub fn comes_before(a: &str, b: &str) -> (r: bool)
    ensures
        r == precedes(a@, b@),
{
    let x = chars_of(a);
    let y = chars_of(b);
    let mut i: usize = 0;
    assert(a@.skip(0) =~= a@);
    assert(b@.skip(0) =~= b@);
    while i < x.len() && i < y.len() && x[i] == y[i]
        invariant
            i <= x@.len(),
            i <= y@.len(),
            x@ == a@,
            y@ == b@,
            precedes(a@, b@) == precedes(a@.skip(i as int), b@.skip(i as int)),
        decreases x@.len() - i,
    {
        assert(a@.skip(i as int).skip(1) =~= a@.skip(i + 1));
        assert(b@.skip(i as int).skip(1) =~= b@.skip(i + 1));
        i += 1;
    }
    if i >= y.len() {
        false
    } else if i >= x.len() {
        true
    } else {
        x[i] < y[i]
    }
}

/// Whether the texts stand in strictly increasing order.
pub open spec fn increasing(s: Seq<Seq<char>>) -> bool {
    forall|i: int, j: int| 0 <= i < j < s.len() ==> precedes(#[trigger] s[i], #[trigger] s[j])
}

/// Whether `s` lists the keys of `m`, each once, in increasing order.
pub open spec fn lists_keys(s: Seq<Seq<char>>, m: Map<Seq<char>, JsonView>) -> bool {
    &&& increasing(s)
    &&& forall|k: Seq<char>| #[trigger] m.dom().contains(k) <==> s.contains(k)
}

/// The keys of `m` in increasing order.
pub open spec fn sorted_keys(m: Map<Seq<char>, JsonView>) -> Seq<Seq<char>> {
    choose|s: Seq<Seq<char>>| lists_keys(s, m)
}

/// Two increasing sequences with the same elements are equal.
proof fn increasing_is_unique(a: Seq<Seq<char>>, b: Seq<Seq<char>>)
    requires
        increasing(a),
        increasing(b),
        forall|k: Seq<char>| a.contains(k) <==> b.contains(k),
    ensures
        a == b,
    decreases a.len(),
{
    if a.len() == 0 {
        if b.len() > 0 {
            assert(b.contains(b[0]));
            assert(a.contains(b[0]));
        }
        assert(a =~= b);
    } else {
        assert(a.contains(a.last()));
        assert(b.contains(a.last()));
        assert(b.contains(b.last()));
        assert(a.contains(b.last()));
        let i = choose|i: int| 0 <= i < b.len() && b[i] == a.last();
        let j = choose|j: int| 0 <= j < a.len() && a[j] == b.last();
        if i != b.len() - 1 {
            assert(precedes(b[i], b[b.len() - 1]));
            if j != a.len() - 1 {
                assert(precedes(a[j], a[a.len() - 1]));
                precedes_transitive(a.last(), b.last(), a.last());
                precedes_irreflexive(a.last());
            } else {
                precedes_irreflexive(a.last());
            }
        }
        assert(a.last() == b.last());
        let x = a.drop_last();
        let y = b.drop_last();
        assert forall|k: Seq<char>| x.contains(k) <==> y.contains(k) by {
            precedes_irreflexive(a.last());
            if x.contains(k) {
                let p = choose|p: int| 0 <= p < x.len() && x[p] == k;
                assert(precedes(a[p], a[a.len() - 1]));
                assert(a.contains(k));
                let q = choose|q: int| 0 <= q < b.len() && b[q] == k;
                assert(y[q] == k);
            }
            if y.contains(k) {
                let p = choose|p: int| 0 <= p < y.len() && y[p] == k;
                assert(precedes(b[p], b[b.len() - 1]));
                assert(b.contains(k));
                let q = choose|q: int| 0 <= q < a.len() && a[q] == k;
                assert(x[q] == k);
            }
        }
        increasing_is_unique(x, y);
        assert(a =~= x.push(a.last()));
        assert(b =~= y.push(b.last()));
    }
}

/// A list of the keys in increasing order is the list of sorted keys.
pub proof fn sorted_keys_are(s: Seq<Seq<char>>, m: Map<Seq<char>, JsonView>)
    requires
        lists_keys(s, m),
    ensures
        sorted_keys(m) == s,
{
    let t = sorted_keys(m);
    assert(lists_keys(t, m));
    assert forall|k: Seq<char>| s.contains(k) <==> t.contains(k) by {
        assert(m.dom().contains(k) <==> s.contains(k));
        assert(m.dom().contains(k) <==> t.contains(k));
    }
    increasing_is_unique(s, t);
}

spec fn keys_of(s: Seq<(String, Json)>) -> Seq<Seq<char>> {
    s.map_values(|e: (String, Json)| e.0@)
}

proof fn entries_dom(s: Seq<(String, Json)>, k: Seq<char>)
    ensures
        entries_view(s).dom().contains(k) <==> keys_of(s).contains(k),
    decreases s.len(),
{
    if s.len() > 0 {
        let t = s.drop_last();
        entries_dom(t, k);
        if keys_of(s).contains(k) {
            let i = choose|i: int| 0 <= i < s.len() && keys_of(s)[i] == k;
            if i < t.len() {
                assert(keys_of(t)[i] == k);
            }
        }
        if keys_of(t).contains(k) {
            let i = choose|i: int| 0 <= i < t.len() && keys_of(t)[i] == k;
            assert(keys_of(s)[i] == k);
        }
        if k == s.last().0@ {
            assert(keys_of(s)[s.len() - 1] == k);
        }
    }
}

proof fn entries_value(s: Seq<(String, Json)>, i: int)
    requires
        0 <= i < s.len(),
        increasing(keys_of(s)),
    ensures
        entries_view(s).dom().contains(s[i].0@),
        entries_view(s)[s[i].0@] == s[i].1@,
    decreases s.len(),
{
    if i < s.len() - 1 {
        let t = s.drop_last();
        assert forall|a: int, b: int| 0 <= a < b < t.len() implies precedes(
            #[trigger] keys_of(t)[a],
            #[trigger] keys_of(t)[b],
        ) by {
            assert(precedes(keys_of(s)[a], keys_of(s)[b]));
        }
        entries_value(t, i);
        assert(precedes(keys_of(s)[i], keys_of(s)[s.len() - 1]));
        precedes_irreflexive(s[i].0@);
    }
}

/// The first `n` entries of `m` in the order of their keys, without the one under `skip`.
pub open spec fn first_entries(m: Map<Seq<char>, JsonView>, n: int, skip: Option<Seq<char>>) -> Map<
    Seq<char>,
    JsonView,
>
    decreases n,
{
    if n <= 0 {
        Map::empty()
    } else {
        let k = sorted_keys(m)[n - 1];
        let before = first_entries(m, n - 1, skip);
        if skip == Some(k) {
            before
        } else {
            before.insert(k, m[k])
        }
    }
}

proof fn first_entries_facts(m: Map<Seq<char>, JsonView>, n: int, skip: Option<Seq<char>>, k: Seq<char>)
    requires
        0 <= n <= sorted_keys(m).len(),
    ensures
        first_entries(m, n, skip).dom().contains(k) <==> sorted_keys(m).take(n).contains(k) && skip
            != Some(k),
        first_entries(m, n, skip).dom().contains(k) ==> first_entries(m, n, skip)[k] == m[k],
    decreases n,
{
    let ks = sorted_keys(m);
    if n > 0 {
        first_entries_facts(m, n - 1, skip, k);
        let a = ks.take(n - 1);
        let b = ks.take(n);
        if b.contains(k) && k != ks[n - 1] {
            let i = choose|i: int| 0 <= i < b.len() && b[i] == k;
            assert(a[i] == k);
        }
        if a.contains(k) {
            let i = choose|i: int| 0 <= i < a.len() && a[i] == k;
            assert(b[i] == k);
        }
        assert(b[n - 1] == ks[n - 1]);
    }
}

/// All entries of `m`, without the one under `skip`.
pub proof fn first_entries_all(m: Map<Seq<char>, JsonView>, skip: Option<Seq<char>>)
    requires
        lists_keys(sorted_keys(m), m),
    ensures
        first_entries(m, sorted_keys(m).len() as int, skip) == match skip {
            Some(k) => m.remove(k),
            None => m,
        },
{
    let ks = sorted_keys(m);
    let n = ks.len() as int;
    assert(ks.take(n) =~= ks);
    let f = first_entries(m, n, skip);
    let g = match skip {
        Some(k) => m.remove(k),
        None => m,
    };
    assert forall|k: Seq<char>| #[trigger] f.dom().contains(k) <==> g.dom().contains(k) by {
        first_entries_facts(m, n, skip, k);
        assert(m.dom().contains(k) <==> ks.contains(k));
    }
    assert forall|k: Seq<char>| #[trigger] f.dom().contains(k) implies f[k] == g[k] by {
        first_entries_facts(m, n, skip, k);
    }
    assert(f =~= g);
}

impl JsonObject {
    #[verifier::type_invariant]
    spec fn inv(self) -> bool {
        increasing(keys_of(self.entries@))
    }

    /// The object as a map from keys to values.
    pub closed spec fn view(self) -> Map<Seq<char>, JsonView>
        decreases self,
    {
        entries_view(self.entries@)
    }

    proof fn facts(&self)
        requires
            increasing(keys_of(self.entries@)),
        ensures
            lists_keys(keys_of(self.entries@), self@),
            sorted_keys(self@) == keys_of(self.entries@),
            keys_of(self.entries@).len() == self.entries@.len(),
            forall|i: int|
                0 <= i < self.entries@.len() ==> self@[#[trigger] self.entries@[i].0@]
                    == self.entries@[i].1@,
    {
        assert forall|k: Seq<char>| #[trigger]
            self@.dom().contains(k) <==> keys_of(self.entries@).contains(k) by {
            entries_dom(self.entries@, k);
        }
        sorted_keys_are(keys_of(self.entries@), self@);
        assert forall|i: int| 0 <= i < self.entries@.len() implies self@[#[trigger] self.entries@[i].0@]
            == self.entries@[i].1@ by {
            entries_value(self.entries@, i);
        }
    }

    /// An object without entries.
    pub fn new() -> (r: JsonObject)
        ensures
            r@ == Map::<Seq<char>, JsonView>::empty(),
    {
        JsonObject { entries: Vec::new() }
    }

    /// The number of entries.
    pub fn len(&self) -> (r: usize)
        ensures
            r == sorted_keys(self@).len(),
            lists_keys(sorted_keys(self@), self@),
    {
        proof {
            use_type_invariant(self);
            self.facts();
        }
        self.entries.len()
    }

    /// The key at place `i` of the sorted keys.
    pub fn key_at(&self, i: usize) -> (r: &String)
        requires
            i < sorted_keys(self@).len(),
        ensures
            r@ == sorted_keys(self@)[i as int],
            self@.dom().contains(r@),
    {
        proof {
            use_type_invariant(self);
            self.facts();
            assert(keys_of(self.entries@).contains(keys_of(self.entries@)[i as int]));
        }
        &self.entries[i].0
    }

    /// The value at place `i` of the sorted keys.
    pub fn value_at(&self, i: usize) -> (r: &Json)
        requires
            i < sorted_keys(self@).len(),
        ensures
            r@ == self@[sorted_keys(self@)[i as int]],
            decreases_to!(self => r),
    {
        proof {
            use_type_invariant(self);
            self.facts();
            assert(self@[self.entries@[i as int].0@] == self.entries@[i as int].1@);
        }
        &self.entries[i].1
    }

    /// Where `key` stands, or where it would have to stand, and whether it is there.
    fn place(&self, key: &str) -> (r: (usize, bool))
        ensures
            r.0 <= self.entries@.len(),
            forall|j: int| 0 <= j < r.0 ==> precedes(#[trigger] self.entries@[j].0@, key@),
            r.1 ==> r.0 < self.entries@.len() && self.entries@[r.0 as int].0@ == key@,
            !r.1 ==> forall|j: int|
                r.0 <= j < self.entries@.len() ==> precedes(key@, #[trigger] self.entries@[j].0@),
            r.1 <==> self@.dom().contains(key@),
    {
        proof {
            use_type_invariant(self);
            self.facts();
        }
        let mut i: usize = 0;
        while i < self.entries.len() && comes_before(&self.entries[i].0, key)
            invariant
                i <= self.entries@.len(),
                forall|j: int| 0 <= j < i ==> precedes(#[trigger] self.entries@[j].0@, key@),
            ensures
                i <= self.entries@.len(),
                forall|j: int| 0 <= j < i ==> precedes(#[trigger] self.entries@[j].0@, key@),
                i < self.entries@.len() ==> !precedes(self.entries@[i as int].0@, key@),
            decreases self.entries@.len() - i,
        {
            i += 1;
        }
        let ghost keys = keys_of(self.entries@);
        if i < self.entries.len() && same(&self.entries[i].0, key) {
            assert(keys[i as int] == key@);
            (i, true)
        } else {
            proof {
                if i < self.entries@.len() {
                    precedes_total(self.entries@[i as int].0@, key@);
                }
                assert forall|j: int| i <= j < self.entries@.len() implies precedes(
                    key@,
                    #[trigger] self.entries@[j].0@,
                ) by {
                    if j > i {
                        assert(precedes(keys[i as int], keys[j]));
                        precedes_transitive(key@, self.entries@[i as int].0@, self.entries@[j].0@);
                    }
                }
                if keys.contains(key@) {
                    let j = choose|j: int| 0 <= j < keys.len() && keys[j] == key@;
                    precedes_irreflexive(key@);
                    assert(self.entries@[j].0@ == key@);
                }
            }
            (i, false)
        }
    }

    /// The value under `key`.
    pub fn get(&self, key: &str) -> (r: Option<&Json>)
        ensures
            opt_view(r) == (if self@.dom().contains(key@) {
                Some(self@[key@])
            } else {
                None
            }),
    {
        proof {
            use_type_invariant(self);
            self.facts();
        }
        let (i, found) = self.place(key);
        if found {
            assert(self@[self.entries@[i as int].0@] == self.entries@[i as int].1@);
            Some(&self.entries[i].1)
        } else {
            None
        }
    }

    /// Whether there is a value under `key`.
    pub fn contains_key(&self, key: &str) -> (r: bool)
        ensures
            r == self@.dom().contains(key@),
    {
        self.place(key).1
    }

    /// Puts `value` under `key`, in place of what stood there.
    pub fn insert(&mut self, key: &str, value: Json)
        ensures
            final(self)@ == old(self)@.insert(key@, value@),
    {
        proof {
            use_type_invariant(&*self);
        }
        let ghost before = self.entries@;
        let ghost old_map = self@;
        let (i, found) = self.place(key);
        let mut e: Vec<(String, Json)> = Vec::new();
        proof {
            self.facts();
        }
        core::mem::swap(&mut e, &mut self.entries);
        let ghost v = value@;
        if found {
            e.remove(i);
        }
        let k = copy(key);
        e.insert(i, (k, value));
        proof {
            let after = e@;
            let ks = keys_of(after);
            let kb = keys_of(before);
            assert(after.len() == before.len() + (if found { 0int } else { 1int }));
            assert forall|j: int| 0 <= j < i implies after[j] == before[j] by {}
            assert(after[i as int].0@ == key@);
            let d = if found { 0int } else { 1int };
            assert forall|j: int| i < j < after.len() implies after[j] == before[j - d] by {}
            assert forall|a: int, b: int| 0 <= a < b < ks.len() implies precedes(
                #[trigger] ks[a],
                #[trigger] ks[b],
            ) by {
                if a < i && b < i {
                    assert(precedes(kb[a], kb[b]));
                } else if a < i && b == i {
                    assert(precedes(before[a].0@, key@));
                } else if a < i {
                    assert(precedes(kb[a], kb[b - d]));
                } else if a == i {
                    if found {
                        assert(precedes(kb[a], kb[b]));
                    } else {
                        assert(precedes(key@, before[b - d].0@));
                    }
                } else {
                    assert(precedes(kb[a - d], kb[b - d]));
                }
            }
            let m = entries_view(after);
            assert forall|k: Seq<char>| #[trigger]
                m.dom().contains(k) <==> old_map.insert(key@, v).dom().contains(k) by {
                entries_dom(after, k);
                entries_dom(before, k);
                if ks.contains(k) {
                    let j = choose|j: int| 0 <= j < ks.len() && ks[j] == k;
                    if j < i {
                        assert(kb[j] == k);
                    } else if j > i {
                        assert(kb[j - d] == k);
                    }
                }
                if kb.contains(k) {
                    let j = choose|j: int| 0 <= j < kb.len() && kb[j] == k;
                    if j < i {
                        assert(ks[j] == k);
                    } else if j + d > i {
                        assert(ks[j + d] == k);
                    } else {
                        assert(ks[i as int] == k);
                    }
                }
                if k == key@ {
                    assert(ks[i as int] == k);
                }
            }
            assert forall|k: Seq<char>| #[trigger] m.dom().contains(k) implies m[k]
                == old_map.insert(key@, v)[k] by {
                entries_dom(after, k);
                let j = choose|j: int| 0 <= j < ks.len() && ks[j] == k;
                entries_value(after, j);
                precedes_irreflexive(k);
                if j < i {
                    entries_value(before, j);
                    assert(precedes(ks[j], ks[i as int]));
                } else if j > i {
                    entries_value(before, j - d);
                    assert(precedes(ks[i as int], ks[j]));
                }
            }
            assert(m =~= old_map.insert(key@, v));
        }
        self.entries = e;
    }

    /// Takes the entry under `key` out.
    pub fn remove(&mut self, key: &str)
        ensures
            final(self)@ == old(self)@.remove(key@),
    {
        proof {
            use_type_invariant(&*self);
        }
        let ghost before = self.entries@;
        let ghost old_map = self@;
        let (i, found) = self.place(key);
        if !found {
            assert(self@ =~= old_map.remove(key@));
            return ;
        }
        let mut e: Vec<(String, Json)> = Vec::new();
        core::mem::swap(&mut e, &mut self.entries);
        e.remove(i);
        proof {
            let after = e@;
            let ks = keys_of(after);
            let kb = keys_of(before);
            assert forall|j: int| 0 <= j < i implies after[j] == before[j] by {}
            assert forall|j: int| i <= j < after.len() implies after[j] == before[j + 1] by {}
            assert forall|a: int, b: int| 0 <= a < b < ks.len() implies precedes(
                #[trigger] ks[a],
                #[trigger] ks[b],
            ) by {
                let x = if a < i { a } else { a + 1 };
                let y = if b < i { b } else { b + 1 };
                assert(precedes(kb[x], kb[y]));
            }
            let m = entries_view(after);
            assert forall|k: Seq<char>| #[trigger]
                m.dom().contains(k) <==> old_map.remove(key@).dom().contains(k) by {
                entries_dom(after, k);
                entries_dom(before, k);
                precedes_irreflexive(k);
                if ks.contains(k) {
                    let j = choose|j: int| 0 <= j < ks.len() && ks[j] == k;
                    let x = if j < i { j } else { j + 1 };
                    assert(kb[x] == k);
                    if x < i {
                        assert(precedes(kb[x], kb[i as int]));
                    } else {
                        assert(precedes(kb[i as int], kb[x]));
                    }
                }
                if kb.contains(k) && k != key@ {
                    let j = choose|j: int| 0 <= j < kb.len() && kb[j] == k;
                    if j < i {
                        assert(ks[j] == k);
                    } else {
                        assert(ks[j - 1] == k);
                    }
                }
            }
            assert forall|k: Seq<char>| #[trigger] m.dom().contains(k) implies m[k]
                == old_map.remove(key@)[k] by {
                entries_dom(after, k);
                let j = choose|j: int| 0 <= j < ks.len() && ks[j] == k;
                entries_value(after, j);
                let x = if j < i { j } else { j + 1 };
                entries_value(before, x);
            }
            assert(m =~= old_map.remove(key@));
        }
        self.entries = e;
    }

    /// Whether there are no entries.
    pub fn is_empty(&self) -> (r: bool)
        ensures
            r == (sorted_keys(self@).len() == 0),
            lists_keys(sorted_keys(self@), self@),
    {
        self.len() == 0
    }

    /// Puts the entries of `other` in, but not the one under `skip`; they replace what stood
    /// there.
    pub fn put_all_but(&mut self, other: &JsonObject, skip: Option<&str>)
        ensures
            final(self)@ == old(self)@.union_prefer_right(
                match skip {
                    Some(k) => other@.remove(k@),
                    None => other@,
                },
            ),
    {
        let n: usize = other.len();
        let ghost start = self@;
        let ghost left = opt_str(skip);
        let mut i: usize = 0;
        assert(self@ =~= start.union_prefer_right(first_entries(other@, 0, left)));
        while i < n
            invariant
                i <= n,
                n == sorted_keys(other@).len(),
                left == opt_str(skip),
                self@ == start.union_prefer_right(first_entries(other@, i as int, left)),
            decreases n - i,
        {
            let key = other.key_at(i);
            if !is_text(skip, key) {
                self.insert(key, other.value_at(i).copy());
            }
            i += 1;
            assert(self@ =~= start.union_prefer_right(first_entries(other@, i as int, left)));
        }
        proof {
            first_entries_all(other@, left);
        }
    }

    /// Puts those entries of `other` in whose keys are still free, but not the one under
    /// `skip`.
    pub fn fill_all_but(&mut self, other: &JsonObject, skip: Option<&str>)
        ensures
            final(self)@ == (match skip {
                Some(k) => other@.remove(k@),
                None => other@,
            }).union_prefer_right(old(self)@),
    {
        let n: usize = other.len();
        let ghost start = self@;
        let ghost left = opt_str(skip);
        let mut i: usize = 0;
        assert(self@ =~= first_entries(other@, 0, left).union_prefer_right(start));
        while i < n
            invariant
                i <= n,
                n == sorted_keys(other@).len(),
                left == opt_str(skip),
                self@ == first_entries(other@, i as int, left).union_prefer_right(start),
            decreases n - i,
        {
            let key = other.key_at(i);
            proof {
                first_entries_facts(other@, i as int, left, key@);
            }
            if !is_text(skip, key) && !self.contains_key(key) {
                self.insert(key, other.value_at(i).copy());
            }
            i += 1;
            assert(self@ =~= first_entries(other@, i as int, left).union_prefer_right(start));
        }
        proof {
            first_entries_all(other@, left);
        }
    }

    /// The keys in increasing order.
    pub fn keys(&self) -> (r: Vec<String>)
        ensures
            texts(r@) == sorted_keys(self@),
            lists_keys(sorted_keys(self@), self@),
    {
        let n: usize = self.len();
        let mut out: Vec<String> = Vec::new();
        let mut i: usize = 0;
        while i < n
            invariant
                i <= n,
                n == sorted_keys(self@).len(),
                out@.len() == i,
                forall|j: int| 0 <= j < i ==> #[trigger] texts(out@)[j] == sorted_keys(self@)[j],
            decreases n - i,
        {
            let ghost before = texts(out@);
            out.push(self.key_at(i).clone());
            assert(texts(out@) =~= before.push(sorted_keys(self@)[i as int]));
            i += 1;
        }
        assert(texts(out@) =~= sorted_keys(self@));
        out
    }

    /// An equal object.
    pub fn copy(&self) -> (r: JsonObject)
        ensures
            r@ == self@,
        decreases self,
    {
        let mut out: Vec<(String, Json)> = Vec::new();
        let mut i: usize = 0;
        proof {
            use_type_invariant(self);
        }
        while i < self.entries.len()
            invariant
                i <= self.entries@.len(),
                out@.len() == i,
                keys_of(out@) == keys_of(self.entries@).take(i as int),
                entries_view(out@) == entries_view(self.entries@.take(i as int)),
            decreases self.entries@.len() - i,
        {
            let ghost before = out@;
            let k = self.entries[i].0.clone();
            let v = self.entries[i].1.copy();
            out.push((k, v));
            proof {
                assert(out@.drop_last() =~= before);
                assert(self.entries@.take(i + 1).drop_last() =~= self.entries@.take(i as int));
                assert(keys_of(out@) =~= keys_of(self.entries@).take(i + 1));
            }
            i += 1;
        }
        assert(self.entries@.take(i as int) =~= self.entries@);
        assert(keys_of(out@) =~= keys_of(self.entries@));
        JsonObject { entries: out }
    }
}

impl JsonView {
    /// An object without entries.
    pub open spec fn object() -> JsonView {
        JsonView::Object(Map::empty())
    }

    /// The object with `value` under `key`; any other value itself.
    pub open spec fn with(self, key: Seq<char>, value: JsonView) -> JsonView {
        match self {
            JsonView::Object(m) => JsonView::Object(m.insert(key, value)),
            _ => self,
        }
    }

    /// The object with `value` under `key` if there is one.
    pub open spec fn with_some(self, key: Seq<char>, value: Option<JsonView>) -> JsonView {
        match value {
            Some(v) => self.with(key, v),
            None => self,
        }
    }

    /// The value under `key` of an object.
    pub open spec fn get(self, key: Seq<char>) -> Option<JsonView> {
        match self {
            JsonView::Object(m) => if m.dom().contains(key) {
                Some(m[key])
            } else {
                None
            },
            _ => None,
        }
    }

    /// The text of a string.
    pub open spec fn as_str(self) -> Option<Seq<char>> {
        match self {
            JsonView::Str(s) => Some(s),
            _ => None,
        }
    }

    /// The items of an array.
    pub open spec fn as_array(self) -> Option<Seq<JsonView>> {
        match self {
            JsonView::Array(a) => Some(a),
            _ => None,
        }
    }

    /// The entries of an object.
    pub open spec fn as_object(self) -> Option<Map<Seq<char>, JsonView>> {
        match self {
            JsonView::Object(m) => Some(m),
            _ => None,
        }
    }

    /// The truth value of a boolean.
    pub open spec fn as_bool(self) -> Option<bool> {
        match self {
            JsonView::Bool(b) => Some(b),
            _ => None,
        }
    }

    /// The value of a number that is an integer in the range of `u64`.
    pub open spec fn as_u64(self) -> Option<u64> {
        match self {
            JsonView::Number(NumberView::Int(n)) => if 0 <= n <= u64::MAX {
                Some(n as u64)
            } else {
                None
            },
            _ => None,
        }
    }

    /// The value of a number that is an integer in the range of `i64`.
    pub open spec fn as_i64(self) -> Option<i64> {
        match self {
            JsonView::Number(NumberView::Int(n)) => if i64::MIN <= n <= i64::MAX {
                Some(n as i64)
            } else {
                None
            },
            _ => None,
        }
    }

    /// The text under `key`.
    pub open spec fn str_at(self, key: Seq<char>) -> Option<Seq<char>> {
        match self.get(key) {
            Some(v) => v.as_str(),
            None => None,
        }
    }

    /// The items under `key`.
    pub open spec fn array_at(self, key: Seq<char>) -> Option<Seq<JsonView>> {
        match self.get(key) {
            Some(v) => v.as_array(),
            None => None,
        }
    }

    /// The truth value under `key`.
    pub open spec fn bool_at(self, key: Seq<char>) -> Option<bool> {
        match self.get(key) {
            Some(v) => v.as_bool(),
            None => None,
        }
    }

    /// The unsigned integer under `key`.
    pub open spec fn u64_at(self, key: Seq<char>) -> Option<u64> {
        match self.get(key) {
            Some(v) => v.as_u64(),
            None => None,
        }
    }

    /// The text under `key`, or nothing.
    pub open spec fn text_at(self, key: Seq<char>) -> Seq<char> {
        match self.str_at(key) {
            Some(s) => s,
            None => Seq::empty(),
        }
    }

    /// The value under `key`, or null.
    pub open spec fn at(self, key: Seq<char>) -> JsonView {
        match self.get(key) {
            Some(v) => v,
            None => JsonView::Null,
        }
    }

    /// An unsigned integer.
    pub open spec fn uint(n: u64) -> JsonView {
        JsonView::Number(NumberView::Int(n as int))
    }

    /// An optional unsigned integer, null where there is none.
    pub open spec fn opt_uint(n: Option<u64>) -> JsonView {
        match n {
            Some(x) => JsonView::uint(x),
            None => JsonView::Null,
        }
    }

    /// A list of texts.
    pub open spec fn strings(s: Seq<Seq<char>>) -> JsonView {
        JsonView::Array(s.map_values(|x: Seq<char>| JsonView::Str(x)))
    }
}

/// An equal list of values.
pub fn copy_values(a: &Vec<Json>) -> (r: Vec<Json>)
    ensures
        views(r@) == views(a@),
    decreases a,
{
    let mut out: Vec<Json> = Vec::new();
    let mut i: usize = 0;
    while i < a.len()
        invariant
            i <= a@.len(),
            out@.len() == i,
            forall|j: int| 0 <= j < i ==> out@[j]@ == #[trigger] a@[j].view(),
        decreases a@.len() - i,
    {
        out.push(a[i].copy());
        i += 1;
    }
    broadcast use views_are;
    assert(views(out@) =~= views(a@));
    out
}

impl Json {
    pub open spec fn view(self) -> JsonView
        decreases self,
    {
        match self {
            Json::Null => JsonView::Null,
            Json::Bool(b) => JsonView::Bool(b),
            Json::Number(n) => JsonView::Number(n@),
            Json::Str(s) => JsonView::Str(s@),
            Json::Array(a) => JsonView::Array(views(a@)),
            Json::Object(o) => JsonView::Object(o.view()),
        }
    }

    /// An equal value.
    pub fn copy(&self) -> (r: Json)
        ensures
            r@ == self@,
        decreases self,
    {
        match self {
            Json::Null => Json::Null,
            Json::Bool(b) => Json::Bool(*b),
            Json::Number(n) => Json::Number(n.copy()),
            Json::Str(s) => Json::Str(s.clone()),
            Json::Array(a) => Json::Array(copy_values(a)),
            Json::Object(o) => Json::Object(o.copy()),
        }
    }

    /// An object without entries.
    pub fn object() -> (r: Json)
        ensures
            r@ == JsonView::object(),
    {
        Json::Object(JsonObject::new())
    }

    /// The object with `value` under `key`; any other value itself.
    pub fn with(self, key: &str, value: Json) -> (r: Json)
        ensures
            r@ == self@.with(key@, value@),
    {
        match self {
            Json::Object(mut o) => {
                o.insert(key, value);
                Json::Object(o)
            },
            other => other,
        }
    }

    /// The object with `value` under `key` if there is one.
    pub fn with_some(self, key: &str, value: Option<Json>) -> (r: Json)
        ensures
            r@ == self@.with_some(key@, opt_json(value)),
    {
        match value {
            Some(v) => self.with(key, v),
            None => self,
        }
    }

    /// A string.
    pub fn str(s: &str) -> (r: Json)
        ensures
            r@ == JsonView::Str(s@),
    {
        Json::Str(copy(s))
    }

    /// An unsigned integer.
    pub fn uint(n: u64) -> (r: Json)
        ensures
            r@ == JsonView::uint(n),
    {
        Json::Number(JsonNumber::PosInt(n))
    }

    /// An optional unsigned integer, null where there is none.
    pub fn opt_uint(n: Option<u64>) -> (r: Json)
        ensures
            r@ == JsonView::opt_uint(n),
    {
        match n {
            Some(x) => Json::uint(x),
            None => Json::Null,
        }
    }

    /// A list of texts.
    pub fn strings(v: &Vec<String>) -> (r: Json)
        ensures
            r@ == JsonView::strings(texts(v@)),
    {
        let mut out: Vec<Json> = Vec::new();
        let mut i: usize = 0;
        while i < v.len()
            invariant
                i <= v@.len(),
                out@.len() == i,
                forall|j: int| 0 <= j < i ==> #[trigger] out@[j]@ == JsonView::Str(v@[j]@),
            decreases v@.len() - i,
        {
            out.push(Json::Str(v[i].clone()));
            i += 1;
        }
        broadcast use views_are;
        assert(views(out@) =~= texts(v@).map_values(|x: Seq<char>| JsonView::Str(x)));
        Json::Array(out)
    }

    /// A list of one value.
    pub fn single(v: Json) -> (r: Json)
        ensures
            r@ == JsonView::Array(seq![v@]),
    {
        let ghost x = v@;
        let mut a: Vec<Json> = Vec::new();
        a.push(v);
        assert(views(a@) =~= seq![x]);
        Json::Array(a)
    }

    /// The value under `key` of an object.
    pub fn get(&self, key: &str) -> (r: Option<&Json>)
        ensures
            opt_view(r) == self@.get(key@),
    {
        match self {
            Json::Object(o) => o.get(key),
            _ => None,
        }
    }

    /// The text of a string.
    pub fn as_str(&self) -> (r: Option<&str>)
        ensures
            opt_str(r) == self@.as_str(),
    {
        match self {
            Json::Str(s) => Some(s.as_str()),
            _ => None,
        }
    }

    /// The items of an array.
    pub fn as_array(&self) -> (r: Option<&Vec<Json>>)
        ensures
            match r {
                Some(a) => self@.as_array() == Some(views(a@)),
                None => self@.as_array() is None,
            },
    {
        match self {
            Json::Array(a) => Some(a),
            _ => None,
        }
    }

    /// The entries of an object.
    pub fn as_object(&self) -> (r: Option<&JsonObject>)
        ensures
            match r {
                Some(o) => self@.as_object() == Some(o@),
                None => self@.as_object() is None,
            },
    {
        match self {
            Json::Object(o) => Some(o),
            _ => None,
        }
    }

    /// The truth value of a boolean.
    pub fn as_bool(&self) -> (r: Option<bool>)
        ensures
            r == self@.as_bool(),
    {
        match self {
            Json::Bool(b) => Some(*b),
            _ => None,
        }
    }

    /// The value of a number that is an integer in the range of `u64`.
    pub fn as_u64(&self) -> (r: Option<u64>)
        ensures
            r == self@.as_u64(),
    {
        match self {
            Json::Number(JsonNumber::PosInt(n)) => Some(*n),
            Json::Number(JsonNumber::NegInt(n)) => if *n >= 0 {
                Some(*n as u64)
            } else {
                None
            },
            _ => None,
        }
    }

    /// The value of a number that is an integer in the range of `i64`.
    pub fn as_i64(&self) -> (r: Option<i64>)
        ensures
            r == self@.as_i64(),
    {
        match self {
            Json::Number(JsonNumber::PosInt(n)) => if *n <= 0x7fff_ffff_ffff_ffff {
                Some(*n as i64)
            } else {
                None
            },
            Json::Number(JsonNumber::NegInt(n)) => Some(*n),
            _ => None,
        }
    }

    /// Whether the value is null.
    pub fn is_null(&self) -> (r: bool)
        ensures
            r == (self@ == JsonView::Null),
    {
        match self {
            Json::Null => true,
            _ => false,
        }
    }

    /// The text under `key`.
    pub fn str_at(&self, key: &str) -> (r: Option<&str>)
        ensures
            opt_str(r) == self@.str_at(key@),
    {
        match self.get(key) {
            Some(v) => v.as_str(),
            None => None,
        }
    }

    /// The items under `key`.
    pub fn array_at(&self, key: &str) -> (r: Option<&Vec<Json>>)
        ensures
            match r {
                Some(a) => self@.array_at(key@) == Some(views(a@)),
                None => self@.array_at(key@) is None,
            },
    {
        match self.get(key) {
            Some(v) => v.as_array(),
            None => None,
        }
    }

    /// The truth value under `key`.
    pub fn bool_at(&self, key: &str) -> (r: Option<bool>)
        ensures
            r == self@.bool_at(key@),
    {
        match self.get(key) {
            Some(v) => v.as_bool(),
            None => None,
        }
    }

    /// The unsigned integer under `key`.
    pub fn u64_at(&self, key: &str) -> (r: Option<u64>)
        ensures
            r == self@.u64_at(key@),
    {
        match self.get(key) {
            Some(v) => v.as_u64(),
            None => None,
        }
    }

    /// The text under `key`, or nothing.
    pub fn text_at(&self, key: &str) -> (r: String)
        ensures
            r@ == self@.text_at(key@),
    {
        match self.str_at(key) {
            Some(s) => copy(s),
            None => String::new(),
        }
    }

    /// A copy of the value under `key`, or null.
    pub fn at(&self, key: &str) -> (r: Json)
        ensures
            r@ == self@.at(key@),
    {
        match self.get(key) {
            Some(v) => v.copy(),
            None => Json::Null,
        }
    }

    /// A copy of the value under `key`.
    pub fn get_copy(&self, key: &str) -> (r: Option<Json>)
        ensures
            opt_json(r) == self@.get(key@),
    {
        match self.get(key) {
            Some(v) => Some(v.copy()),
            None => None,
        }
    }
}

} // verus!
