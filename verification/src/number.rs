//! JSON numbers: 64-bit integers, and doubles held as decimal text.
use vstd::prelude::*;

verus! {

/// The number type of `serde_json`.
#[verifier::external_type_specification]
#[verifier::external_body]
pub struct ExNumber(serde_json::Number);

/// What a number of `serde_json` holds.
pub uninterp spec fn number_view(n: serde_json::Number) -> NumberView;

/// A finite double-precision number, held as the shortest decimal text that denotes it.
#[derive(Debug, PartialEq)]
pub struct Double {
    text: String,
}

/// Whether a text is what a finite double-precision number is written as.
pub uninterp spec fn is_double_text(s: Seq<char>) -> bool;

impl Double {
    #[verifier::type_invariant]
    spec fn inv(self) -> bool {
        is_double_text(self.text@)
    }

    /// The decimal text.
    pub closed spec fn view(self) -> Seq<char> {
        self.text@
    }

    /// The decimal text.
    pub fn as_str(&self) -> (r: &str)
        ensures
            r@ == self@,
    {
        self.text.as_str()
    }

    /// An equal number.
    pub fn copy(&self) -> (r: Double)
        ensures
            r@ == self@,
    {
        proof {
            use_type_invariant(self);
        }
        Double { text: self.text.clone() }
    }
}

/// A JSON number: an integer that fits 64 bits, or a double.
#[derive(Debug, PartialEq)]
pub enum JsonNumber {
    PosInt(u64),
    NegInt(i64),
    Float(Double),
}

/// A JSON number as a mathematical value; the text of a double stands for the double.
pub enum NumberView {
    Int(int),
    Float(Seq<char>),
}

impl JsonNumber {
    pub open spec fn view(self) -> NumberView {
        match self {
            JsonNumber::PosInt(n) => NumberView::Int(n as int),
            JsonNumber::NegInt(n) => NumberView::Int(n as int),
            JsonNumber::Float(d) => NumberView::Float(d@),
        }
    }

    /// An equal number.
    pub fn copy(&self) -> (r: JsonNumber)
        ensures
            r@ == self@,
    {
        match self {
            JsonNumber::PosInt(n) => JsonNumber::PosInt(*n),
            JsonNumber::NegInt(n) => JsonNumber::NegInt(*n),
            JsonNumber::Float(d) => JsonNumber::Float(d.copy()),
        }
    }
}

/// The text of the double nearest to an integer.
pub uninterp spec fn double_of(n: int) -> Seq<char>;

/// `serde_json::Number::{as_u64, as_i64}` tell the three forms of a number apart, and its
/// `Display` writes a double as the shortest text that reads back as that double. A number of
/// `serde_json` is an integer that fits 64 bits or a finite double.
#[verifier::external_body]
pub(crate) fn number_parts(n: &serde_json::Number) -> (r: JsonNumber)
    ensures
        r@ == number_view(*n),
        r is Float ==> is_double_text(r->Float_0@),
{
    match (n.as_u64(), n.as_i64()) {
        (Some(u), _) => JsonNumber::PosInt(u),
        (None, Some(i)) => JsonNumber::NegInt(i),
        (None, None) => JsonNumber::Float(Double { text: n.to_string() }),
    }
}

/// `serde_json::Number::from` and `serde_json::Number::from_f64`: the number with the given
/// content. The text of a double reads back as that double, which is finite.
#[verifier::external_body]
fn number_from(n: &JsonNumber) -> (r: serde_json::Number)
    requires
        n is Float ==> is_double_text(n->Float_0@),
    ensures
        number_view(r) == n@,
{
    match n {
        JsonNumber::PosInt(u) => serde_json::Number::from(*u),
        JsonNumber::NegInt(i) => serde_json::Number::from(*i),
        JsonNumber::Float(d) => {
            serde_json::Number::from_f64(d.text.parse().unwrap()).unwrap()
        },
    }
}

/// `serde_json::Number::as_f64` on an integer: the nearest double, which is finite. Here it is
/// written as text.
#[verifier::external_body]
fn int_as_double(n: &serde_json::Number) -> (r: Double)
    requires
        number_view(*n) is Int,
    ensures
        r@ == double_of(number_view(*n)->Int_0),
        is_double_text(r@),
{
    let d = n.as_f64().and_then(serde_json::Number::from_f64).unwrap();
    Double { text: d.to_string() }
}

/// The whole part of a double, brought into the range of `i64`.
pub uninterp spec fn whole_part(s: Seq<char>) -> i64;

/// `serde_json::Number::as_f64`, and the cast of a double to `i64`, which drops what stands
/// behind the point and takes the nearest number of the range for one outside of it.
#[verifier::external_body]
fn double_as_int(n: &serde_json::Number) -> (r: i64)
    ensures
        r == whole_part(number_view(*n).double()),
{
    n.as_f64().map(|v| v as i64).unwrap_or_default()
}

impl NumberView {
    /// The number as an `i64`: itself where it is one, else the whole part of the double.
    pub open spec fn int64(self) -> i64 {
        match self {
            NumberView::Int(n) => if i64::MIN <= n <= i64::MAX {
                n as i64
            } else {
                whole_part(self.double())
            },
            NumberView::Float(t) => whole_part(t),
        }
    }

    /// The number as a double.
    pub open spec fn double(self) -> Seq<char> {
        match self {
            NumberView::Int(n) => double_of(n),
            NumberView::Float(t) => t,
        }
    }
}

impl JsonNumber {
    /// The number as `serde_json` holds it.
    pub(crate) fn to_number(&self) -> (r: serde_json::Number)
        ensures
            number_view(r) == self@,
    {
        if let JsonNumber::Float(d) = self {
            proof {
                use_type_invariant(d);
            }
        }
        number_from(self)
    }

    /// The number as an `i64`: itself where it is one, else the whole part of the double.
    pub fn as_int64(&self) -> (r: i64)
        ensures
            r == self@.int64(),
    {
        match self {
            JsonNumber::NegInt(n) => *n,
            JsonNumber::PosInt(n) => if *n <= 0x7fff_ffff_ffff_ffff {
                *n as i64
            } else {
                double_as_int(&self.to_number())
            },
            JsonNumber::Float(_) => double_as_int(&self.to_number()),
        }
    }

    /// The number as a double.
    pub fn as_double(&self) -> (r: Double)
        ensures
            r@ == self@.double(),
    {
        match self {
            JsonNumber::Float(d) => d.copy(),
            _ => int_as_double(&number_from(self)),
        }
    }
}

} // verus!
