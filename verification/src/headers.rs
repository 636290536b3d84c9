//! Headers of requests and responses.
use crate::text::{copy, lowered, opt_text, same_ignoring_case};
use crate::transform::stream::utf8_text;
use vstd::prelude::*;
use vstd::utf8::*;

verus! {

/// A header: its name and the bytes of its value.
#[derive(Debug, PartialEq)]
pub struct Header {
    pub name: String,
    pub value: Vec<u8>,
}

/// A header as a mathematical value.
pub struct HeaderView {
    pub name: Seq<char>,
    pub value: Seq<u8>,
}

impl Header {
    pub open spec fn view(self) -> HeaderView {
        HeaderView { name: self.name@, value: self.value@ }
    }

    /// A header with a text as its value.
    pub fn new(name: &str, value: &str) -> (r: Header)
        ensures
            r@ == (HeaderView { name: name@, value: encode_utf8(value@) }),
    {
        let bytes = value.as_bytes();
        Header { name: copy(name), value: bytes_of(bytes) }
    }

    /// An equal header.
    pub fn copy(&self) -> (r: Header)
        ensures
            r@ == self@,
    {
        Header { name: self.name.clone(), value: bytes_of(self.value.as_slice()) }
    }
}

/// The bytes of a slice.
pub fn bytes_of(s: &[u8]) -> (r: Vec<u8>)
    ensures
        r@ == s@,
{
    let mut out: Vec<u8> = Vec::new();
    let mut i: usize = 0;
    while i < s.len()
        invariant
            i <= s@.len(),
            out@ == s@.take(i as int),
        decreases s@.len() - i,
    {
        out.push(s[i]);
        i += 1;
        assert(out@ =~= s@.take(i as int));
    }
    assert(out@ =~= s@);
    out
}

/// The views of a list of headers.
pub open spec fn header_views(s: Seq<Header>) -> Seq<HeaderView> {
    s.map_values(|h: Header| h@)
}

/// Whether a byte is a visible ASCII character, a blank or a tab.
pub open spec fn is_visible(b: u8) -> bool {
    32 <= b < 127 || b == 9
}

/// Whether a byte may stand in the value of a header.
pub open spec fn is_header_byte(b: u8) -> bool {
    (b >= 32 && b != 127) || b == 9
}

/// The text of a value, where all its bytes are visible.
pub open spec fn value_text(v: Seq<u8>) -> Option<Seq<char>> {
    if forall|i: int| 0 <= i < v.len() ==> is_visible(#[trigger] v[i]) {
        Some(decode_utf8(v))
    } else {
        None
    }
}

/// The value of the first header of a name, where it is text. Names are compared without
/// regard to case.
pub open spec fn header_value(s: Seq<HeaderView>, name: Seq<char>) -> Option<Seq<char>>
    decreases s.len(),
{
    if s.len() == 0 {
        None
    } else if lowered(s[0].name) == lowered(name) {
        value_text(s[0].value)
    } else {
        header_value(s.skip(1), name)
    }
}

proof fn visible_is_utf8(v: Seq<u8>)
    requires
        forall|i: int| 0 <= i < v.len() ==> is_visible(#[trigger] v[i]),
    ensures
        valid_utf8(v),
    decreases v.len(),
{
    if v.len() > 0 {
        assert(is_visible(v[0]));
        let b = v[0];
        assert(is_leading_byte_width_1(b)) by {
            assert(b < 128 ==> b & 0x80 == 0) by (bit_vector);
        }
        let rest = pop_first_scalar(v);
        assert forall|i: int| 0 <= i < rest.len() implies is_visible(#[trigger] rest[i]) by {
            assert(rest[i] == v[i + 1]);
        }
        visible_is_utf8(rest);
    }
}

/// The text of a value, where all its bytes are visible.
pub fn text_of_value(v: &Vec<u8>) -> (r: Option<String>)
    ensures
        opt_text(r) == value_text(v@),
{
    let mut i: usize = 0;
    while i < v.len()
        invariant
            i <= v@.len(),
            forall|j: int| 0 <= j < i ==> is_visible(#[trigger] v@[j]),
        decreases v@.len() - i,
    {
        let b: u8 = v[i];
        if !((32 <= b && b < 127) || b == 9) {
            assert(!is_visible(v@[i as int]));
            return None;
        }
        i += 1;
    }
    proof {
        visible_is_utf8(v@);
    }
    match utf8_text(v.as_slice()) {
        Some(t) => Some(copy(t)),
        None => None,
    }
}

/// The value of the first header of a name, where it is text.
pub fn get_header(headers: &Vec<Header>, name: &str) -> (r: Option<String>)
    ensures
        opt_text(r) == header_value(header_views(headers@), name@),
{
    let ghost all = header_views(headers@);
    let mut i: usize = 0;
    assert(all.skip(0) =~= all);
    while i < headers.len()
        invariant
            i <= headers@.len(),
            all == header_views(headers@),
            header_value(all, name@) == header_value(all.skip(i as int), name@),
        decreases headers@.len() - i,
    {
        assert(all.skip(i as int)[0] == headers@[i as int]@);
        assert(all.skip(i as int).skip(1) =~= all.skip(i + 1));
        if same_ignoring_case(&headers[i].name, name) {
            return text_of_value(&headers[i].value);
        }
        i += 1;
    }
    None
}

} // verus!
