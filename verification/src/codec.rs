//! JSON values to and from text, through `serde_json`.
use crate::json::{
    first_entries, first_entries_all, opt_json, sorted_keys, views, views_are, Json, JsonObject, JsonView,
};
use crate::number::{number_parts, number_view};
use crate::text::copy;
use vstd::prelude::*;

verus! {

/// The value type of `serde_json`.
#[verifier::external_type_specification]
#[verifier::external_body]
pub struct ExValue(serde_json::Value);

/// What a value of `serde_json` holds.
pub uninterp spec fn value_view(v: serde_json::Value) -> JsonView;

/// The compact JSON text of a value.
pub uninterp spec fn json_text(v: JsonView) -> Seq<char>;

/// The value that a text denotes, if it is JSON.
pub uninterp spec fn json_parse(s: Seq<char>) -> Option<JsonView>;

/// One level of a value of `serde_json`.
pub enum Node<'a> {
    Null,
    Bool(bool),
    Number(&'a serde_json::Number),
    Str(&'a str),
    Array(&'a Vec<serde_json::Value>),
    Object(Vec<(&'a String, &'a serde_json::Value)>),
}

/// The map that a list of entries describes.
pub open spec fn pairs_view(s: Seq<(&String, &serde_json::Value)>) -> Map<Seq<char>, JsonView>
    decreases s.len(),
{
    if s.len() == 0 {
        Map::empty()
    } else {
        pairs_view(s.drop_last()).insert(s.last().0@, value_view(*s.last().1))
    }
}

/// The map that a list of owned entries describes.
pub open spec fn owned_pairs_view(s: Seq<(String, serde_json::Value)>) -> Map<Seq<char>, JsonView>
    decreases s.len(),
{
    if s.len() == 0 {
        Map::empty()
    } else {
        owned_pairs_view(s.drop_last()).insert(s.last().0@, value_view(s.last().1))
    }
}

impl<'a> Node<'a> {
    pub open spec fn view(self) -> JsonView {
        match self {
            Node::Null => JsonView::Null,
            Node::Bool(b) => JsonView::Bool(b),
            Node::Number(n) => JsonView::Number(number_view(*n)),
            Node::Str(s) => JsonView::Str(s@),
            Node::Array(a) => JsonView::Array(
                a@.map_values(|v: serde_json::Value| value_view(v)),
            ),
            Node::Object(e) => JsonView::Object(pairs_view(e@)),
        }
    }
}

/// Whether the keys of the entries differ from each other.
pub open spec fn distinct(s: Seq<(&String, &serde_json::Value)>) -> bool {
    forall|a: int, b: int| 0 <= a < b < s.len() ==> s[a].0@ != s[b].0@
}

/// The variants of `serde_json::Value`, told apart; `serde_json::Map::iter` lists an object's
/// entries, each key once.
#[verifier::external_body]
fn unfold(v: &serde_json::Value) -> (r: Node<'_>)
    ensures
        r@ == value_view(*v),
        r is Object ==> distinct(r->Object_0@),
{
    match v {
        serde_json::Value::Null => Node::Null,
        serde_json::Value::Bool(b) => Node::Bool(*b),
        serde_json::Value::Number(n) => Node::Number(n),
        serde_json::Value::String(s) => Node::Str(s),
        serde_json::Value::Array(a) => Node::Array(a),
        serde_json::Value::Object(m) => Node::Object(m.iter().collect()),
    }
}

/// One level of a value to be made.
enum Shape {
    Null,
    Bool(bool),
    Number(serde_json::Number),
    Str(String),
    Array(Vec<serde_json::Value>),
    Object(Vec<(String, serde_json::Value)>),
}

impl Shape {
    spec fn view(self) -> JsonView {
        match self {
            Shape::Null => JsonView::Null,
            Shape::Bool(b) => JsonView::Bool(b),
            Shape::Number(n) => JsonView::Number(number_view(n)),
            Shape::Str(s) => JsonView::Str(s@),
            Shape::Array(a) => JsonView::Array(
                a@.map_values(|v: serde_json::Value| value_view(v)),
            ),
            Shape::Object(e) => JsonView::Object(owned_pairs_view(e@)),
        }
    }
}

/// The variants of `serde_json::Value`, built; `serde_json::Map::from_iter` inserts the
/// entries in turn, a later one replacing an earlier one under the same key.
#[verifier::external_body]
fn fold(s: Shape) -> (r: serde_json::Value)
    ensures
        value_view(r) == s@,
{
    match s {
        Shape::Null => serde_json::Value::Null,
        Shape::Bool(b) => serde_json::Value::Bool(b),
        Shape::Number(n) => serde_json::Value::Number(n),
        Shape::Str(t) => serde_json::Value::String(t),
        Shape::Array(a) => serde_json::Value::Array(a),
        Shape::Object(e) => serde_json::Value::Object(e.into_iter().collect()),
    }
}

/// Whether a value holds no double and nests at most `depth` arrays and objects.
pub open spec fn plain(v: JsonView, depth: nat) -> bool
    decreases v,
{
    match v {
        JsonView::Number(n) => n is Int,
        JsonView::Array(a) => depth > 0 && forall|i: int|
            0 <= i < a.len() ==> plain(#[trigger] a[i], (depth - 1) as nat),
        JsonView::Object(m) => depth > 0 && m.dom().finite() && forall|k: Seq<char>|
            m.dom().contains(k) ==> plain(#[trigger] m[k], (depth - 1) as nat),
        _ => true,
    }
}

/// Whether a text is in one line.
pub open spec fn one_line(s: Seq<char>) -> bool {
    forall|i: int| 0 <= i < s.len() ==> #[trigger] s[i] != '\n'
}

/// What holds of the text that an object is written as: it stands in braces, in one line, and
/// reads back as the object.
pub open spec fn written_well(v: JsonView) -> bool {
    let t = json_text(v);
    &&& t.len() > 0
    &&& one_line(t)
    &&& t[0] == '{'
    &&& t.last() == '}'
    &&& json_parse(t) == Some(v)
}

/// An object without entries is plain.
pub broadcast proof fn empty_is_plain(depth: nat)
    requires
        depth > 0,
    ensures
        #[trigger] plain(JsonView::object(), depth),
{
}

/// A plain object stays plain with one more plain entry.
pub broadcast proof fn with_is_plain(o: JsonView, key: Seq<char>, v: JsonView, depth: nat)
    requires
        depth > 0,
        plain(o, depth),
        plain(v, (depth - 1) as nat),
    ensures
        #[trigger] plain(o.with(key, v), depth),
{
    match o {
        JsonView::Object(m) => {
            let n = m.insert(key, v);
            assert forall|k: Seq<char>| n.dom().contains(k) implies plain(
                #[trigger] n[k],
                (depth - 1) as nat,
            ) by {
                if k != key {
                    assert(plain(m[k], (depth - 1) as nat));
                }
            }
        },
        _ => {},
    }
}

/// A list of one plain value is plain.
pub broadcast proof fn single_is_plain(v: JsonView, depth: nat)
    requires
        depth > 0,
        plain(v, (depth - 1) as nat),
    ensures
        #[trigger] plain(JsonView::Array(seq![v]), depth),
{
    let a = seq![v];
    assert forall|i: int| 0 <= i < a.len() implies plain(#[trigger] a[i], (depth - 1) as nat) by {
        assert(a[i] == v);
    }
}

/// `Display` of `serde_json::Value`: the compact text of the value. It holds no line break,
/// since strings are written with their control characters escaped, and it is not empty; that of
/// an object stands in braces. It reads back as the same value where that value holds no double
/// and is not nested beyond what the reader accepts.
#[verifier::external_body]
fn value_text(v: &serde_json::Value) -> (r: String)
    ensures
        r@ == json_text(value_view(*v)),
        r@.len() > 0,
        forall|i: int| 0 <= i < r@.len() ==> r@[i] != '\n' && r@[i] != '\r',
        value_view(*v) is Object ==> r@[0] == '{' && r@.last() == '}',
        plain(value_view(*v), 127) ==> json_parse(r@) == Some(value_view(*v)),
{
    v.to_string()
}

/// `serde_json::from_str`: the value that the text denotes, or an error.
#[verifier::external_body]
fn parse_value(s: &str) -> (r: Option<serde_json::Value>)
    ensures
        match r {
            Some(v) => json_parse(s@) == Some(value_view(v)),
            None => json_parse(s@) is None,
        },
{
    serde_json::from_str(s).ok()
}

proof fn pair_is_entry(s: Seq<(&String, &serde_json::Value)>, i: int)
    requires
        0 <= i < s.len(),
        distinct(s),
    ensures
        pairs_view(s).dom().contains(s[i].0@),
        pairs_view(s)[s[i].0@] == value_view(*s[i].1),
    decreases s.len(),
{
    if i < s.len() - 1 {
        let t = s.drop_last();
        assert forall|a: int, b: int| 0 <= a < b < t.len() implies t[a].0@ != t[b].0@ by {
            assert(s[a].0@ != s[b].0@);
        }
        pair_is_entry(t, i);
        assert(s[i].0@ != s[s.len() - 1].0@);
    }
}

proof fn pairs_finite(s: Seq<(&String, &serde_json::Value)>)
    ensures
        pairs_view(s).dom().finite(),
    decreases s.len(),
{
    if s.len() > 0 {
        pairs_finite(s.drop_last());
    }
}

/// A value of `serde_json` as plain data.
pub fn from_value(v: &serde_json::Value) -> (r: Json)
    ensures
        r@ == value_view(*v),
    decreases value_view(*v),
{
    match unfold(v) {
        Node::Null => Json::Null,
        Node::Bool(b) => Json::Bool(b),
        Node::Number(n) => Json::Number(number_parts(n)),
        Node::Str(s) => Json::Str(copy(s)),
        Node::Array(a) => {
            let ghost all = a@.map_values(|x: serde_json::Value| value_view(x));
            let mut out: Vec<Json> = Vec::new();
            let mut i: usize = 0;
            while i < a.len()
                invariant
                    i <= a@.len(),
                    all == a@.map_values(|x: serde_json::Value| value_view(x)),
                    value_view(*v) == JsonView::Array(all),
                    out@.len() == i,
                    forall|j: int| 0 <= j < i ==> #[trigger] out@[j]@ == all[j],
                decreases a@.len() - i,
            {
                assert(all[i as int] == value_view(a@[i as int]));
                assert(decreases_to!(value_view(*v) => value_view(*v)->Array_0));
                assert(decreases_to!(all => all[i as int]));
                out.push(from_value(&a[i]));
                i += 1;
            }
            broadcast use views_are;

            assert(views(out@) =~= all);
            Json::Array(out)
        },
        Node::Object(e) => {
            let mut out = JsonObject::new();
            let mut i: usize = 0;
            while i < e.len()
                invariant
                    i <= e@.len(),
                    distinct(e@),
                    value_view(*v) == JsonView::Object(pairs_view(e@)),
                    out@ == pairs_view(e@.take(i as int)),
                decreases e@.len() - i,
            {
                proof {
                    pair_is_entry(e@, i as int);
                    pairs_finite(e@);
                    let m = pairs_view(e@);
                    assert(decreases_to!(value_view(*v) => value_view(*v)->Object_0));
                    assert(decreases_to!(m => m[e@[i as int].0@]));
                    assert(e@.take(i + 1).drop_last() =~= e@.take(i as int));
                }
                let (k, x) = e[i];
                out.insert(k, from_value(x));
                i += 1;
            }
            assert(e@.take(i as int) =~= e@);
            Json::Object(out)
        },
    }
}

/// Plain data as a value of `serde_json`.
pub fn to_value(v: &Json) -> (r: serde_json::Value)
    ensures
        value_view(r) == v@,
    decreases v,
{
    match v {
        Json::Null => fold(Shape::Null),
        Json::Bool(b) => fold(Shape::Bool(*b)),
        Json::Number(n) => fold(Shape::Number(n.to_number())),
        Json::Str(s) => fold(Shape::Str(s.clone())),
        Json::Array(a) => {
            let out = to_values(a);
            broadcast use views_are;

            assert(out@.map_values(|x: serde_json::Value| value_view(x)) =~= views(a@));
            fold(Shape::Array(out))
        },
        Json::Object(o) => object_to_value(o),
    }
}

fn object_to_value(o: &JsonObject) -> (r: serde_json::Value)
    ensures
        value_view(r) == JsonView::Object(o@),
    decreases o,
{
    let n: usize = o.len();
    let mut out: Vec<(String, serde_json::Value)> = Vec::new();
    let mut i: usize = 0;
    while i < n
        invariant
            i <= n,
            n == sorted_keys(o@).len(),
            owned_pairs_view(out@) == first_entries(o@, i as int, None),
        decreases n - i,
    {
        let ghost before = out@;
        let k = o.key_at(i).clone();
        let x = to_value(o.value_at(i));
        out.push((k, x));
        assert(out@.drop_last() =~= before);
        i += 1;
    }
    proof {
        first_entries_all(o@, None);
    }
    fold(Shape::Object(out))
}

fn to_values(a: &Vec<Json>) -> (r: Vec<serde_json::Value>)
    ensures
        r@.len() == a@.len(),
        forall|j: int| 0 <= j < a@.len() ==> value_view(#[trigger] r@[j]) == a@[j]@,
    decreases a,
{
    let mut out: Vec<serde_json::Value> = Vec::new();
    let mut i: usize = 0;
    while i < a.len()
        invariant
            i <= a@.len(),
            out@.len() == i,
            forall|j: int| 0 <= j < i ==> value_view(#[trigger] out@[j]) == a@[j]@,
        decreases a@.len() - i,
    {
        out.push(to_value(&a[i]));
        i += 1;
    }
    out
}

impl Json {
    /// The compact JSON text of the value. It holds no line break.
    pub fn text(&self) -> (r: String)
        ensures
            r@ == json_text(self@),
            r@.len() > 0,
            forall|i: int| 0 <= i < r@.len() ==> r@[i] != '\n' && r@[i] != '\r',
            self@ is Object ==> r@[0] == '{' && r@.last() == '}',
            plain(self@, 127) ==> json_parse(r@) == Some(self@),
            plain(self@, 127) && self@ is Object ==> written_well(self@),
    {
        value_text(&to_value(self))
    }

    /// The value that a text denotes, if it is JSON.
    pub fn parse(s: &str) -> (r: Option<Json>)
        ensures
            opt_json(r) == json_parse(s@),
    {
        match parse_value(s) {
            Some(v) => Some(from_value(&v)),
            None => None,
        }
    }
}

} // verus!
