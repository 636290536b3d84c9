//! What the operations on texts and values mean.
use crate::json::{precedes, JsonView};
use crate::number::NumberView;
use crate::text::{
    is_space, joined, lowered, numeral, occurs, occurs_at, pieces, signed_numeral, stripped, trimmed, trimmed_end,
    trimmed_start, without_trailing,
};
use vstd::prelude::*;
use vstd::string::*;

verus! {

/// Whether a text is nothing but white space.
pub open spec fn is_blank(s: Seq<char>) -> bool {
    forall|i: int| 0 <= i < s.len() ==> is_space(#[trigger] s[i])
}

proof fn starts_are_trimmed(s: Seq<char>) -> (k: int)
    ensures
        0 <= k <= s.len(),
        trimmed_start(s) == s.skip(k),
        is_blank(s.take(k)),
    decreases s.len(),
{
    if s.len() > 0 && is_space(s[0]) {
        let t = s.skip(1);
        let j = starts_are_trimmed(t);
        assert(t.skip(j) =~= s.skip(j + 1));
        assert forall|i: int| 0 <= i < j + 1 implies is_space(#[trigger] s.take(j + 1)[i]) by {
            if i > 0 {
                assert(t.take(j)[i - 1] == s[i]);
            }
        }
        j + 1
    } else {
        assert(s.skip(0) =~= s);
        0
    }
}

proof fn ends_are_trimmed(s: Seq<char>) -> (k: int)
    ensures
        0 <= k <= s.len(),
        trimmed_end(s) == s.take(k),
        is_blank(s.skip(k)),
    decreases s.len(),
{
    if s.len() > 0 && is_space(s.last()) {
        let t = s.drop_last();
        let j = ends_are_trimmed(t);
        assert(t.take(j) =~= s.take(j));
        assert forall|i: int| 0 <= i < s.len() - j implies is_space(#[trigger] s.skip(j)[i]) by {
            if i < t.len() - j {
                assert(t.skip(j)[i] == s.skip(j)[i]);
            }
        }
        j
    } else {
        assert(s.take(s.len() as int) =~= s);
        s.len() as int
    }
}

/// A trimmed text is what is left of a text when white space is taken off its ends, and none is
/// left there.
pub proof fn only_white_space_is_trimmed(s: Seq<char>)
    ensures
        exists|a: Seq<char>, b: Seq<char>|
            s == #[trigger] (a + trimmed(s) + b) && is_blank(a) && is_blank(b),
        trimmed(s).len() > 0 ==> !is_space(trimmed(s)[0]) && !is_space(trimmed(s).last()),
        is_blank(s) <==> trimmed(s).len() == 0,
{
    let j = starts_are_trimmed(s);
    let t = s.skip(j);
    let k = ends_are_trimmed(t);
    let a = s.take(j);
    let b = t.skip(k);
    assert(s =~= a + trimmed(s) + b);
    crate::text::trimmed_has_no_outer_space(s);
    if trimmed(s).len() == 0 {
        assert forall|i: int| 0 <= i < s.len() implies is_space(#[trigger] s[i]) by {
            if i < j {
                assert(a[i] == s[i]);
            } else {
                assert(b[i - j] == s[i]);
            }
        }
    } else if is_blank(s) {
        assert(trimmed(s)[0] == s[j]);
    }
}

/// Capitals of ASCII are made small, every other character stays, and small texts stay as they
/// are.
pub proof fn capitals_are_made_small(s: Seq<char>, i: int)
    requires
        0 <= i < s.len(),
    ensures
        lowered(s).len() == s.len(),
        !('A' <= s[i] <= 'Z') ==> lowered(s)[i] == s[i],
        'A' <= s[i] <= 'Z' ==> lowered(s)[i] as u32 == s[i] as u32 + 32,
{
}

/// Texts are joined one behind the other, with the separator between.
pub proof fn texts_are_joined(s: Seq<Seq<char>>, sep: Seq<char>, t: Seq<char>)
    ensures
        joined(Seq::empty(), sep).len() == 0,
        joined(seq![t], sep) == t,
        s.len() > 0 ==> joined(s.push(t), sep) == joined(s, sep) + sep + t,
{
    assert(s.push(t).drop_last() =~= s);
}

/// The pieces of a text, with the character between, are the text again, and none of them holds
/// the character.
pub proof fn pieces_are_joined_again(s: Seq<char>, c: char)
    ensures
        pieces(s, c).len() > 0,
        joined(pieces(s, c), seq![c]) == s,
        forall|i: int, j: int|
            0 <= i < pieces(s, c).len() && 0 <= j < pieces(s, c)[i].len() ==> (#[trigger] pieces(s, c)[i][j]) != c,
    decreases s.len(),
{
    let all = pieces(s, c);
    if s.len() == 0 {
        assert(joined(all, seq![c]) =~= s);
    } else {
        let t = s.drop_last();
        let x = s.last();
        pieces_are_joined_again(t, c);
        let p = pieces(t, c);
        if x == c {
            texts_are_joined(p, seq![c], Seq::empty());
            assert(joined(all, seq![c]) =~= t + seq![c] + Seq::<char>::empty());
            assert(t + seq![c] + Seq::<char>::empty() =~= s);
            assert forall|i: int, j: int| 0 <= i < all.len() && 0 <= j < all[i].len() implies (#[trigger] all[i][j])
                != c by {
                assert(i < p.len());
                assert(all[i] == p[i]);
                assert(p[i][j] != c);
            }
        } else {
            let head = p.drop_last();
            let last = p.last();
            assert(head.push(last) =~= p);
            if head.len() > 0 {
                texts_are_joined(head, seq![c], last);
                texts_are_joined(head, seq![c], last.push(x));
                assert(joined(head, seq![c]) + seq![c] + last.push(x) =~= (joined(head, seq![c]) + seq![c] + last).push(
                    x,
                ));
            } else {
                assert(p =~= seq![last]);
                assert(all =~= seq![last.push(x)]);
            }
            assert(joined(all, seq![c]) =~= s);
            assert forall|i: int, j: int| 0 <= i < all.len() && 0 <= j < all[i].len() implies (#[trigger] all[i][j])
                != c by {
                if i < head.len() {
                    assert(all[i] == p[i]);
                    assert(p[i][j] != c);
                } else {
                    assert(all[i] == last.push(x));
                    if j < last.len() {
                        assert(p[p.len() - 1][j] != c);
                    }
                }
            }
        }
    }
}

/// What stands behind a prefix is what is left without it.
pub proof fn prefixes_are_taken_off(p: Seq<char>, t: Seq<char>, s: Seq<char>)
    ensures
        stripped(p + t, p) == Some(t),
        stripped(s, p) is Some ==> s == p + stripped(s, p)->Some_0,
{
    assert(p =~= (p + t).subrange(0, p.len() as int));
    assert((p + t).skip(p.len() as int) =~= t);
    if stripped(s, p) is Some {
        assert(s =~= p + s.skip(p.len() as int));
    }
}

/// A text occurs in every text that it stands in.
pub proof fn texts_occur(a: Seq<char>, p: Seq<char>, b: Seq<char>)
    ensures
        occurs(a + p + b, p),
        p.len() > a.len() ==> !occurs(a, p),
{
    let s = a + p + b;
    let i = a.len() as int;
    assert(s.subrange(i, i + p.len()) =~= p);
    assert(occurs_at(s, p, i));
}

/// Characters at the end are taken off, all of them and no others.
pub proof fn ends_are_taken_off(s: Seq<char>, c: char)
    ensures
        without_trailing(s.push(c), c) == without_trailing(s, c),
        s.len() > 0 && s.last() != c ==> without_trailing(s, c) == s,
        without_trailing(Seq::empty(), c).len() == 0,
{
    assert(s.push(c).drop_last() =~= s);
}

/// Numerals of negative numbers are those of their amounts behind a sign.
pub proof fn signs_are_written(n: nat)
    ensures
        signed_numeral(n as int) == numeral(n),
        n > 0 ==> signed_numeral(-(n as int)) == "-"@ + numeral(n),
{
}

/// What is put under a key of an object is found there, and other keys stay as they are.
pub proof fn values_are_put_and_found(m: Map<Seq<char>, JsonView>, key: Seq<char>, other: Seq<char>, v: JsonView)
    ensures
        ({
            let o = JsonView::Object(m);
            &&& o.with(key, v).get(key) == Some(v)
            &&& other != key ==> o.with(key, v).get(other) == o.get(other)
            &&& o.get(key) is Some <==> m.dom().contains(key)
            &&& o.get(key) is Some ==> o.get(key)->Some_0 == m[key]
            &&& o.with_some(key, Some(v)) == o.with(key, v)
            &&& o.with_some(key, None) == o
            &&& o.with(key, v).at(key) == v
            &&& o.get(key) is None ==> o.at(key) is Null
        }),
        JsonView::object().get(key) is None,
{
}

/// What stands under a key is read by its kind.
pub proof fn values_are_read_by_kind(v: JsonView, key: Seq<char>, t: Seq<char>, n: u64, b: bool, a: Seq<JsonView>)
    ensures
        v.get(key) == Some(JsonView::Str(t)) ==> v.str_at(key) == Some(t) && v.text_at(key) == t,
        v.str_at(key) is Some ==> v.get(key) == Some(JsonView::Str(v.str_at(key)->Some_0)),
        v.str_at(key) is None ==> v.text_at(key).len() == 0,
        v.get(key) == Some(JsonView::Number(NumberView::Int(n as int))) ==> v.u64_at(key) == Some(n),
        v.u64_at(key) is Some ==> v.get(key) == Some(JsonView::Number(NumberView::Int(v.u64_at(key)->Some_0 as int))),
        v.get(key) == Some(JsonView::Bool(b)) ==> v.bool_at(key) == Some(b),
        v.bool_at(key) is Some ==> v.get(key) == Some(JsonView::Bool(v.bool_at(key)->Some_0)),
        v.get(key) == Some(JsonView::Array(a)) ==> v.array_at(key) == Some(a),
        v.array_at(key) is Some ==> v.get(key) == Some(JsonView::Array(v.array_at(key)->Some_0)),
        JsonView::uint(n).as_u64() == Some(n),
{
}

/// A list of texts holds each of them, in their order.
pub proof fn texts_are_listed(s: Seq<Seq<char>>, i: int)
    requires
        0 <= i < s.len(),
    ensures
        JsonView::strings(s) is Array,
        JsonView::strings(s)->Array_0.len() == s.len(),
        JsonView::strings(s)->Array_0[i] == JsonView::Str(s[i]),
{
}

/// Texts are ordered by the first character in which they differ; a beginning comes first.
pub proof fn texts_are_ordered(p: Seq<char>, a: Seq<char>, b: Seq<char>)
    requires
        a.len() > 0,
    ensures
        precedes(p, p + a),
        !precedes(p + a, p),
        b.len() > 0 && a[0] < b[0] ==> precedes(p + a, p + b) && !precedes(p + b, p + a),
    decreases p.len(),
{
    if p.len() > 0 {
        let q = p.skip(1);
        texts_are_ordered(q, a, b);
        assert((p + a).skip(1) =~= q + a);
        assert((p + b).skip(1) =~= q + b);
        assert((p + a)[0] == p[0] && (p + b)[0] == p[0]);
    } else {
        assert(p + a =~= a);
        assert(p + b =~= b);
    }
}

} // verus!
