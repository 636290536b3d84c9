//! Images that a request refers to by URL: which of them may be fetched, and how they are put
//! in place of the reference.
use crate::text::{
    cat, cat3, chars_of, copy, lowered, numeral, numeral_of, numerals_are_digits, numerals_differ, opt_str,
    opt_text, pieces, pieces_extend, same, split, starts_with, strip_prefix, stripped, text_of, to_lower,
};
use crate::transform::canonical::{
    blocks, blocks_are, messages, BlockView, CanonicalContentBlock, CanonicalImageSource, CanonicalRequest,
    ImageView, MessageView, RequestView,
};
use vstd::prelude::*;
use vstd::string::*;

verus! {

/// Why an image is not fetched.
#[derive(Debug, PartialEq)]
pub enum ImageError {
    /// The URL cannot be read.
    InvalidUrl,
    /// The scheme is neither http nor https.
    UnsupportedScheme(String),
    /// The host is a loopback, private or link-local address.
    PrivateIp(String),
    /// The image is of a type that is not accepted.
    UnsupportedType(String),
    /// The content is no image.
    NotAnImage(String),
    /// The image is too large.
    TooLarge(usize, usize),
}

/// Why an image is not fetched, as a mathematical value.
pub enum ImageErrorView {
    InvalidUrl,
    UnsupportedScheme(Seq<char>),
    PrivateIp(Seq<char>),
    UnsupportedType(Seq<char>),
    NotAnImage(Seq<char>),
    TooLarge(usize, usize),
}

impl ImageErrorView {
    /// What the error says.
    pub open spec fn text(self) -> Seq<char> {
        match self {
            ImageErrorView::InvalidUrl => "invalid image URL"@,
            ImageErrorView::UnsupportedScheme(s) => "Unsupported URL scheme: "@ + s
                + " (only http/https allowed)"@,
            ImageErrorView::PrivateIp(s) => "Refusing to download image from private IP: "@ + s,
            ImageErrorView::UnsupportedType(s) => "Unsupported image type: "@ + s
                + " (allowed: jpeg, png, gif, webp)"@,
            ImageErrorView::NotAnImage(s) => "Not an image: content_type="@ + s,
            ImageErrorView::TooLarge(n, max) => "Image exceeds size limit: "@ + numeral(n as nat)
                + " bytes (max "@ + numeral(max as nat) + " bytes)"@,
        }
    }
}

impl ImageError {
    pub open spec fn view(self) -> ImageErrorView {
        match self {
            ImageError::InvalidUrl => ImageErrorView::InvalidUrl,
            ImageError::UnsupportedScheme(s) => ImageErrorView::UnsupportedScheme(s@),
            ImageError::PrivateIp(s) => ImageErrorView::PrivateIp(s@),
            ImageError::UnsupportedType(s) => ImageErrorView::UnsupportedType(s@),
            ImageError::NotAnImage(s) => ImageErrorView::NotAnImage(s@),
            ImageError::TooLarge(n, max) => ImageErrorView::TooLarge(n, max),
        }
    }

    /// What the error says.
    pub fn message(&self) -> (r: String)
        ensures
            r@ == self@.text(),
    {
        match self {
            ImageError::InvalidUrl => copy("invalid image URL"),
            ImageError::UnsupportedScheme(s) => cat3(
                "Unsupported URL scheme: ",
                s,
                " (only http/https allowed)",
            ),
            ImageError::PrivateIp(s) => cat("Refusing to download image from private IP: ", s),
            ImageError::UnsupportedType(s) => cat3(
                "Unsupported image type: ",
                s,
                " (allowed: jpeg, png, gif, webp)",
            ),
            ImageError::NotAnImage(s) => cat("Not an image: content_type=", s),
            ImageError::TooLarge(n, max) => {
                let a = numeral_of(*n as u64);
                let b = numeral_of(*max as u64);
                let mut s = cat3("Image exceeds size limit: ", &a, " bytes (max ");
                s.append(&b);
                s.append(" bytes)");
                s
            },
        }
    }
}

/// The view of the outcome of a check.
pub open spec fn check_view(r: Result<(), ImageError>) -> Result<(), ImageErrorView> {
    match r {
        Ok(()) => Ok(()),
        Err(e) => Err(e@),
    }
}

/// Whether images may be fetched under a scheme.
pub open spec fn scheme_check(scheme: Seq<char>) -> Result<(), ImageErrorView> {
    if scheme == "http"@ || scheme == "https"@ {
        Ok(())
    } else {
        Err(ImageErrorView::UnsupportedScheme(scheme))
    }
}

/// Whether images may be fetched under a scheme.
pub fn assert_allowed_scheme(scheme: &str) -> (r: Result<(), ImageError>)
    ensures
        check_view(r) == scheme_check(scheme@),
{
    if same(scheme, "http") || same(scheme, "https") {
        Ok(())
    } else {
        Err(ImageError::UnsupportedScheme(copy(scheme)))
    }
}

/// Whether a text is the numeral of a number in a range.
pub open spec fn is_numeral(s: Seq<char>, low: nat, high: nat) -> bool {
    exists|n: nat| low <= n <= high && s == #[trigger] numeral(n)
}

/// Whether a text is an IPv4 address in dotted decimal form that is a loopback (127/8), private
/// (10/8, 172.16/12, 192.168/16) or link-local (169.254/16) address.
pub open spec fn is_private_v4(s: Seq<char>) -> bool {
    let p = pieces(s, '.');
    &&& p.len() == 4
    &&& is_numeral(p[0], 0, 255) && is_numeral(p[1], 0, 255)
    &&& is_numeral(p[2], 0, 255) && is_numeral(p[3], 0, 255)
    &&& {
        ||| p[0] == "127"@ || p[0] == "10"@
        ||| p[0] == "172"@ && is_numeral(p[1], 16, 31)
        ||| p[0] == "192"@ && p[1] == "168"@
        ||| p[0] == "169"@ && p[1] == "254"@
    }
}

/// Whether the first group of an IPv6 address makes it a private (fc00::/7) or link-local
/// (fe80::/10) address.
pub open spec fn is_local_group(g: Seq<char>) -> bool {
    &&& g.len() == 4 && g[0] == 'f'
    &&& g[1] == 'c' || g[1] == 'd' || (g[1] == 'e' && (g[2] == '8' || g[2] == '9' || g[2] == 'a'
        || g[2] == 'b'))
}

/// Whether a group of an IPv6 address holds the first half of a private IPv4 address.
pub open spec fn is_private_half(g: Seq<char>) -> bool {
    ||| g.len() == 4 && g[0] == '7' && g[1] == 'f'
    ||| g.len() == 3 && g[0] == 'a'
    ||| g.len() == 4 && g[0] == 'a' && g[1] == 'c' && g[2] == '1'
    ||| g == "c0a8"@ || g == "a9fe"@
}

/// Whether what follows `::ffff:` in an IPv6 address is a private IPv4 address, in dotted form
/// or as two groups.
pub open spec fn is_private_mapped(s: Seq<char>) -> bool {
    is_private_v4(s) || (pieces(s, ':').len() == 2 && is_private_half(pieces(s, ':')[0]))
}

/// Whether an IPv6 address in its shortest form is a loopback, private or link-local address, or
/// stands for such an IPv4 address. Every other one may be asked.
pub open spec fn is_private_v6(s: Seq<char>) -> bool {
    ||| s == "::1"@
    ||| pieces(s, ':').len() > 0 && is_local_group(pieces(s, ':')[0])
    ||| match stripped(s, "::ffff:"@) {
        Some(rest) => is_private_mapped(rest),
        None => false,
    }
}

/// The IPv6 address in brackets that a host is.
pub open spec fn bracketed(h: Seq<char>) -> Option<Seq<char>> {
    if h.len() >= 2 && h[0] == '[' && h.last() == ']' {
        Some(h.subrange(1, h.len() - 1))
    } else {
        None
    }
}

/// Whether images may be fetched from a host, which is written as URLs write it: an IPv4
/// address in dotted decimal form, an IPv6 address in brackets and in its shortest form.
pub open spec fn host_check(host: Option<Seq<char>>) -> Result<(), ImageErrorView> {
    match host {
        Some(h) => match bracketed(h) {
            Some(a) => if is_private_v6(lowered(a)) {
                Err(ImageErrorView::PrivateIp(a))
            } else {
                Ok(())
            },
            None => if is_private_v4(h) {
                Err(ImageErrorView::PrivateIp(h))
            } else {
                Ok(())
            },
        },
        None => Ok(()),
    }
}

/// Whether a text is the numeral of a number in a range.
fn check_numeral(s: &str, low: u64, high: u64) -> (r: bool)
    requires
        high < u64::MAX,
    ensures
        r == is_numeral(s@, low as nat, high as nat),
{
    let mut n: u64 = low;
    while n <= high
        invariant
            low <= n,
            high < u64::MAX,
            n <= high + 1 || n == low,
            forall|k: nat| low <= k < n ==> s@ != #[trigger] numeral(k),
        decreases high + 1 - n,
    {
        let digits = numeral_of(n);
        if same(s, &digits) {
            assert(s@ == numeral(n as nat));
            return true;
        }
        n += 1;
    }
    false
}

/// Whether a text is a loopback, private or link-local IPv4 address.
fn check_v4(s: &str) -> (r: bool)
    ensures
        r == is_private_v4(s@),
{
    let p = split(s, '.');
    let ghost q = pieces(s@, '.');
    if p.len() != 4 {
        return false;
    }
    assert(q[0] == p@[0]@ && q[1] == p@[1]@ && q[2] == p@[2]@ && q[3] == p@[3]@);
    check_numeral(&p[0], 0, 255) && check_numeral(&p[1], 0, 255) && check_numeral(&p[2], 0, 255)
        && check_numeral(&p[3], 0, 255) && (same(&p[0], "127") || same(&p[0], "10") || (same(
        &p[0],
        "172",
    ) && check_numeral(&p[1], 16, 31)) || (same(&p[0], "192") && same(&p[1], "168")) || (same(
        &p[0],
        "169",
    ) && same(&p[1], "254")))
}

/// Whether the first group of an IPv6 address makes it a private or link-local address.
fn check_local_group(s: &str) -> (r: bool)
    ensures
        r == is_local_group(s@),
{
    let g = chars_of(s);
    g.len() == 4 && g[0] == 'f' && (g[1] == 'c' || g[1] == 'd' || (g[1] == 'e' && (g[2] == '8'
        || g[2] == '9' || g[2] == 'a' || g[2] == 'b')))
}

/// Whether what follows `::ffff:` in an IPv6 address is a private IPv4 address.
fn check_mapped(s: &str) -> (r: bool)
    ensures
        r == is_private_mapped(s@),
{
    if check_v4(s) {
        return true;
    }
    let p = split(s, ':');
    let ghost q = pieces(s@, ':');
    if p.len() != 2 {
        return false;
    }
    assert(q[0] == p@[0]@);
    let g = chars_of(&p[0]);
    (g.len() == 4 && g[0] == '7' && g[1] == 'f') || (g.len() == 3 && g[0] == 'a') || (g.len() == 4
        && g[0] == 'a' && g[1] == 'c' && g[2] == '1') || same(&p[0], "c0a8") || same(&p[0], "a9fe")
}

/// Whether an IPv6 address is a loopback, private or link-local address.
fn check_v6(s: &str) -> (r: bool)
    ensures
        r == is_private_v6(s@),
{
    if same(s, "::1") {
        return true;
    }
    let p = split(s, ':');
    let ghost q = pieces(s@, ':');
    if p.len() > 0 {
        assert(q[0] == p@[0]@);
        if check_local_group(&p[0]) {
            return true;
        }
    }
    match strip_prefix(s, "::ffff:") {
        Some(rest) => check_mapped(rest),
        None => false,
    }
}

/// Whether images may be fetched from a host.
pub fn assert_not_private_ip(host: Option<&str>) -> (r: Result<(), ImageError>)
    ensures
        check_view(r) == host_check(opt_str(host)),
{
    let h = match host {
        Some(h) => h,
        None => return Ok(()),
    };
    let c = chars_of(h);
    if c.len() >= 2 && c[0] == '[' && c[c.len() - 1] == ']' {
        let a = text_of(&c, 1, c.len() - 1);
        let address = to_lower(&a);
        if check_v6(&address) {
            Err(ImageError::PrivateIp(a))
        } else {
            Ok(())
        }
    } else if check_v4(h) {
        Err(ImageError::PrivateIp(copy(h)))
    } else {
        Ok(())
    }
}

/// An IPv4 address in dotted decimal form.
pub open spec fn dotted(a: nat, b: nat, c: nat, d: nat) -> Seq<char> {
    numeral(a).push('.') + numeral(b).push('.') + numeral(c).push('.') + numeral(d)
}

proof fn dotted_pieces(a: nat, b: nat, c: nat, d: nat)
    ensures
        pieces(dotted(a, b, c, d), '.') == seq![numeral(a), numeral(b), numeral(c), numeral(d)],
        dotted(a, b, c, d)[0] == numeral(a)[0],
{
    numerals_are_digits(a);
    numerals_are_digits(b);
    numerals_are_digits(c);
    numerals_are_digits(d);
    let none = Seq::<char>::empty();
    let s0 = numeral(a);
    pieces_extend(none, '.', numeral(a));
    assert(none + numeral(a) =~= s0);
    assert(pieces(s0, '.') =~= seq![numeral(a)]);
    let t1 = s0.push('.');
    assert(t1.drop_last() =~= s0);
    assert(pieces(t1, '.') =~= seq![numeral(a), none]);
    pieces_extend(t1, '.', numeral(b));
    let s1 = t1 + numeral(b);
    assert(none + numeral(b) =~= numeral(b));
    assert(pieces(s1, '.') =~= seq![numeral(a), numeral(b)]);
    let t2 = s1.push('.');
    assert(t2.drop_last() =~= s1);
    assert(pieces(t2, '.') =~= seq![numeral(a), numeral(b), none]);
    pieces_extend(t2, '.', numeral(c));
    let s2 = t2 + numeral(c);
    assert(none + numeral(c) =~= numeral(c));
    assert(pieces(s2, '.') =~= seq![numeral(a), numeral(b), numeral(c)]);
    let t3 = s2.push('.');
    assert(t3.drop_last() =~= s2);
    assert(pieces(t3, '.') =~= seq![numeral(a), numeral(b), numeral(c), none]);
    pieces_extend(t3, '.', numeral(d));
    let s3 = t3 + numeral(d);
    assert(none + numeral(d) =~= numeral(d));
    assert(pieces(s3, '.') =~= seq![numeral(a), numeral(b), numeral(c), numeral(d)]);
    assert(dotted(a, b, c, d) =~= s3);
}

proof fn numerals_of_ranges()
    ensures
        numeral(127) == "127"@,
        numeral(10) == "10"@,
        numeral(172) == "172"@,
        numeral(192) == "192"@,
        numeral(168) == "168"@,
        numeral(169) == "169"@,
        numeral(254) == "254"@,
{
    reveal_with_fuel(numeral, 3);
    reveal_strlit("127");
    reveal_strlit("10");
    reveal_strlit("172");
    reveal_strlit("192");
    reveal_strlit("168");
    reveal_strlit("169");
    reveal_strlit("254");
    assert(numeral(127) =~= "127"@);
    assert(numeral(10) =~= "10"@);
    assert(numeral(172) =~= "172"@);
    assert(numeral(192) =~= "192"@);
    assert(numeral(168) =~= "168"@);
    assert(numeral(169) =~= "169"@);
    assert(numeral(254) =~= "254"@);
}

proof fn same_numeral(a: nat, b: nat)
    ensures
        numeral(a) == numeral(b) <==> a == b,
{
    if numeral(a) == numeral(b) {
        numerals_differ(a, b);
    }
}

/// An IPv4 address is refused just where it is a loopback (127/8), private (10/8, 172.16/12,
/// 192.168/16) or link-local (169.254/16) address.
pub proof fn private_addresses_are_refused(a: nat, b: nat, c: nat, d: nat)
    requires
        a <= 255 && b <= 255 && c <= 255 && d <= 255,
    ensures
        host_check(Some(dotted(a, b, c, d))) is Err <==> a == 127 || a == 10 || (a == 172 && 16 <= b
            <= 31) || (a == 192 && b == 168) || (a == 169 && b == 254),
{
    let h = dotted(a, b, c, d);
    dotted_pieces(a, b, c, d);
    numerals_of_ranges();
    numerals_are_digits(a);
    assert(bracketed(h) is None);
    assert(is_numeral(numeral(a), 0, 255) && is_numeral(numeral(b), 0, 255));
    assert(is_numeral(numeral(c), 0, 255) && is_numeral(numeral(d), 0, 255));
    same_numeral(a, 127);
    same_numeral(a, 10);
    same_numeral(a, 172);
    same_numeral(a, 192);
    same_numeral(a, 169);
    same_numeral(b, 168);
    same_numeral(b, 254);
    if is_numeral(numeral(b), 16, 31) {
        let n = choose|n: nat| 16 <= n <= 31 && numeral(b) == #[trigger] numeral(n);
        same_numeral(b, n);
    }
}

/// The IPv6 loopback address is refused.
pub proof fn the_ipv6_loopback_is_refused()
    ensures
        host_check(Some("[::1]"@)) == Err::<(), ImageErrorView>(ImageErrorView::PrivateIp("::1"@)),
{
    reveal_strlit("[::1]");
    reveal_strlit("::1");
    let h = "[::1]"@;
    assert(h.subrange(1, 4) =~= "::1"@);
    assert(bracketed(h) == Some("::1"@));
    assert(lowered("::1"@) =~= "::1"@);
}

/// The scheme and the host of a URL, where the text is a URL.
pub uninterp spec fn url_parts(s: Seq<char>) -> Option<(Seq<char>, Option<Seq<char>>)>;

/// `reqwest::Url` reads a URL; `scheme` and `host_str` give the two parts, an IPv4 host in
/// dotted decimal form and an IPv6 host in brackets and in its shortest form.
#[verifier::external_body]
fn parse_url(url: &str) -> (r: Option<(String, Option<String>)>)
    ensures
        match r {
            Some((s, h)) => url_parts(url@) == Some((s@, opt_text(h))),
            None => url_parts(url@) is None,
        },
{
    let parsed = url.parse::<reqwest::Url>().ok()?;
    Some((parsed.scheme().to_string(), parsed.host_str().map(|h| h.to_string())))
}

/// Whether the image under a URL with the given parts may be fetched.
pub open spec fn parts_check(parts: Option<(Seq<char>, Option<Seq<char>>)>) -> Result<
    (),
    ImageErrorView,
> {
    match parts {
        None => Err(ImageErrorView::InvalidUrl),
        Some((scheme, host)) => match scheme_check(scheme) {
            Err(e) => Err(e),
            Ok(()) => host_check(host),
        },
    }
}

/// Whether the image under a URL with the given parts may be fetched.
pub fn check_url_parts(parts: &Option<(String, Option<String>)>) -> (r: Result<(), ImageError>)
    ensures
        check_view(r) == parts_check(
            match *parts {
                Some((s, h)) => Some((s@, opt_text(h))),
                None => None,
            },
        ),
{
    match parts {
        None => Err(ImageError::InvalidUrl),
        Some((scheme, host)) => {
            match assert_allowed_scheme(scheme) {
                Err(e) => Err(e),
                Ok(()) => {
                    let h = match host {
                        Some(h) => Some(h.as_str()),
                        None => None,
                    };
                    assert_not_private_ip(h)
                },
            }
        },
    }
}

/// Whether the image under a URL may be fetched: the scheme is http or https, and the host is
/// no loopback, private or link-local address.
pub fn check_image_url(url: &str) -> (r: Result<(), ImageError>)
    ensures
        check_view(r) == parts_check(url_parts(url@)),
{
    let parts = parse_url(url);
    check_url_parts(&parts)
}

/// Whether content of a type is accepted as an image.
pub open spec fn type_check(content_type: Seq<char>) -> Result<(), ImageErrorView> {
    if content_type == "image/jpeg"@ || content_type == "image/png"@ || content_type == "image/gif"@
        || content_type == "image/webp"@ {
        Ok(())
    } else if "image/"@.is_prefix_of(content_type) {
        Err(ImageErrorView::UnsupportedType(content_type))
    } else {
        Err(ImageErrorView::NotAnImage(content_type))
    }
}

/// Whether content of a type is accepted as an image.
pub fn assert_allowed_image_type(content_type: &str) -> (r: Result<(), ImageError>)
    ensures
        check_view(r) == type_check(content_type@),
{
    if same(content_type, "image/jpeg") || same(content_type, "image/png") || same(
        content_type,
        "image/gif",
    ) || same(content_type, "image/webp") {
        Ok(())
    } else if starts_with(content_type, "image/") {
        Err(ImageError::UnsupportedType(copy(content_type)))
    } else {
        Err(ImageError::NotAnImage(copy(content_type)))
    }
}

/// Whether content is small enough.
pub fn assert_size_limit(bytes: &[u8], max: usize) -> (r: Result<(), ImageError>)
    ensures
        check_view(r) == if bytes@.len() > max {
            Err::<(), ImageErrorView>(ImageErrorView::TooLarge(bytes@.len() as usize, max))
        } else {
            Ok::<(), ImageErrorView>(())
        },
{
    if bytes.len() > max {
        Err(ImageError::TooLarge(bytes.len(), max))
    } else {
        Ok(())
    }
}

/// The base64 text of bytes, in the standard alphabet with padding.
pub uninterp spec fn base64_text(bytes: Seq<u8>) -> Seq<char>;

/// `base64::engine::general_purpose::STANDARD.encode`: the base64 text of the bytes. Four
/// characters stand for three bytes, the last group being filled up.
#[verifier::external_body]
fn base64_encode(bytes: &[u8]) -> (r: String)
    ensures
        r@ == base64_text(bytes@),
        r@.len() == (bytes@.len() + 2) / 3 * 4,
{
    base64::Engine::encode(&base64::engine::general_purpose::STANDARD, bytes)
}

/// The largest image that is accepted, in bytes.
pub const MAX_IMAGE_BYTES: usize = 20_971_520;

/// What fetched content amounts to: its base64 text and its type, where it is accepted.
pub open spec fn accepted(content_type: Seq<char>, bytes: Seq<u8>) -> Result<
    (Seq<char>, Seq<char>),
    ImageErrorView,
> {
    match type_check(content_type) {
        Err(e) => Err(e),
        Ok(()) => if bytes.len() > MAX_IMAGE_BYTES {
            Err(ImageErrorView::TooLarge(bytes.len() as usize, MAX_IMAGE_BYTES))
        } else {
            Ok((base64_text(bytes), content_type))
        },
    }
}

/// Accepts fetched content as an image: its base64 text and its type.
pub fn accept_image(content_type: &str, bytes: &[u8]) -> (r: Result<(String, String), ImageError>)
    ensures
        match r {
            Ok((data, kind)) => accepted(content_type@, bytes@) == Ok::<
                (Seq<char>, Seq<char>),
                ImageErrorView,
            >((data@, kind@)),
            Err(e) => accepted(content_type@, bytes@) == Err::<
                (Seq<char>, Seq<char>),
                ImageErrorView,
            >(e@),
        },
{
    match assert_allowed_image_type(content_type) {
        Err(e) => Err(e),
        Ok(()) => match assert_size_limit(bytes, MAX_IMAGE_BYTES) {
            Err(e) => Err(e),
            Ok(()) => Ok((base64_encode(bytes), copy(content_type))),
        },
    }
}

/// Whether a block is an image that is given by a URL.
pub open spec fn is_remote(b: BlockView) -> bool {
    b is Image && b->source is Url
}

/// Where an image stands in a request.
#[derive(Debug, Clone, Copy, PartialEq, Eq, Structural)]
pub struct ImageSlot {
    pub message: usize,
    pub block: usize,
}

/// Whether a slot lies in a request.
pub open spec fn in_request(q: RequestView, slot: ImageSlot) -> bool {
    slot.message < q.messages.len() && slot.block < q.messages[slot.message as int].content.len()
}

/// The block in a slot.
pub open spec fn block_in(q: RequestView, slot: ImageSlot) -> BlockView {
    q.messages[slot.message as int].content[slot.block as int]
}

/// The request with another block in a slot.
pub open spec fn with_block(q: RequestView, slot: ImageSlot, b: BlockView) -> RequestView {
    let m = q.messages[slot.message as int];
    RequestView {
        messages: q.messages.update(
            slot.message as int,
            MessageView { role: m.role, content: m.content.update(slot.block as int, b) },
        ),
        ..q
    }
}

/// Whether none of the first `n` blocks is given by a URL.
pub open spec fn no_remote(s: Seq<BlockView>, n: int) -> bool {
    forall|j: int| 0 <= j < n ==> !is_remote(#[trigger] s[j])
}

/// Whether none of the first `n` messages holds an image that is given by a URL.
pub open spec fn all_local(s: Seq<MessageView>, n: int) -> bool {
    forall|i: int| 0 <= i < n ==> no_remote((#[trigger] s[i]).content, s[i].content.len() as int)
}

/// The first image of a request that is given by a URL, with the URL.
pub fn next_image(q: &CanonicalRequest) -> (r: Option<(ImageSlot, String)>)
    ensures
        match r {
            Some((slot, url)) => in_request(q@, slot) && block_in(q@, slot) == (BlockView::Image {
                source: ImageView::Url { url: url@ },
            }) && all_local(q@.messages, slot.message as int) && no_remote(
                q@.messages[slot.message as int].content,
                slot.block as int,
            ),
            None => all_local(q@.messages, q@.messages.len() as int),
        },
{
    broadcast use blocks_are;

    let mut i: usize = 0;
    while i < q.messages.len()
        invariant
            i <= q.messages@.len(),
            all_local(q@.messages, i as int),
        decreases q.messages@.len() - i,
    {
        let content = &q.messages[i].content;
        let mut j: usize = 0;
        assert(q@.messages[i as int].content == blocks(content@));
        while j < content.len()
            invariant
                i < q.messages@.len(),
                j <= content@.len(),
                content == q.messages@[i as int].content,
                q@.messages[i as int].content == blocks(content@),
                all_local(q@.messages, i as int),
                no_remote(blocks(content@), j as int),
            decreases content@.len() - j,
        {
            assert(blocks(content@)[j as int] == content@[j as int]@);
            if let CanonicalContentBlock::Image { source: CanonicalImageSource::Url { url } } = &content[j] {
                return Some((ImageSlot { message: i, block: j }, url.clone()));
            }
            j += 1;
        }
        i += 1;
    }
    None
}

/// Puts the data of an image into a slot.
pub fn put_image(q: &mut CanonicalRequest, slot: ImageSlot, media_type: String, data: String)
    requires
        in_request(old(q)@, slot),
    ensures
        final(q)@ == with_block(
            old(q)@,
            slot,
            BlockView::Image {
                source: ImageView::Base64 { media_type: media_type@, data: data@ },
            },
        ),
{
    broadcast use blocks_are;

    let ghost before = q@;
    let ghost b = BlockView::Image {
        source: ImageView::Base64 { media_type: media_type@, data: data@ },
    };
    let ghost content = q.messages@[slot.message as int].content@;
    assert(before.messages[slot.message as int].content == blocks(content));
    q.messages[slot.message].content[slot.block] = CanonicalContentBlock::Image {
        source: CanonicalImageSource::Base64 { media_type, data },
    };
    proof {
        let after = q.messages@[slot.message as int].content@;
        assert(blocks(after) =~= blocks(content).update(slot.block as int, b));
        assert(q@.messages =~= with_block(before, slot, b).messages);
    }
}

/// The number of images that are given by a URL.
pub open spec fn remote_count(s: Seq<BlockView>) -> nat
    decreases s.len(),
{
    if s.len() == 0 {
        0
    } else {
        remote_count(s.drop_last()) + if is_remote(s.last()) {
            1nat
        } else {
            0nat
        }
    }
}

/// The number of images in the messages that are given by a URL.
pub open spec fn remote_total(s: Seq<MessageView>) -> nat
    decreases s.len(),
{
    if s.len() == 0 {
        0
    } else {
        remote_total(s.drop_last()) + remote_count(s.last().content)
    }
}

proof fn count_after_update(s: Seq<BlockView>, k: int, b: BlockView)
    requires
        0 <= k < s.len(),
        is_remote(s[k]),
        !is_remote(b),
    ensures
        remote_count(s.update(k, b)) + 1 == remote_count(s),
    decreases s.len(),
{
    let t = s.update(k, b);
    if k == s.len() - 1 {
        assert(t.drop_last() =~= s.drop_last());
    } else {
        count_after_update(s.drop_last(), k, b);
        assert(t.drop_last() =~= s.drop_last().update(k, b));
    }
}

/// Each image that is put in place of a URL leaves one URL less, so fetching them one after
/// the other comes to an end with none left.
pub proof fn putting_an_image_leaves_one_less(q: RequestView, slot: ImageSlot, b: BlockView)
    requires
        in_request(q, slot),
        is_remote(block_in(q, slot)),
        !is_remote(b),
    ensures
        remote_total(with_block(q, slot, b).messages) + 1 == remote_total(q.messages),
{
    total_after_update(q.messages, slot, b);
}

proof fn total_after_update(s: Seq<MessageView>, slot: ImageSlot, b: BlockView)
    requires
        slot.message < s.len(),
        slot.block < s[slot.message as int].content.len(),
        is_remote(s[slot.message as int].content[slot.block as int]),
        !is_remote(b),
    ensures
        ({
            let m = s[slot.message as int];
            let n = MessageView { role: m.role, content: m.content.update(slot.block as int, b) };
            remote_total(s.update(slot.message as int, n)) + 1 == remote_total(s)
        }),
    decreases s.len(),
{
    let i = slot.message as int;
    let m = s[i];
    let n = MessageView { role: m.role, content: m.content.update(slot.block as int, b) };
    let t = s.update(i, n);
    if i == s.len() - 1 {
        count_after_update(m.content, slot.block as int, b);
        assert(t.drop_last() =~= s.drop_last());
    } else {
        total_after_update(s.drop_last(), slot, b);
        assert(t.drop_last() =~= s.drop_last().update(i, n));
    }
}

} // verus!
