//! What lines of a stream and fetched images mean.
use crate::laws::listing::begins_with;
use crate::text::{lowered, pieces, trimmed};
use crate::transform::canonical::{BlockView, RequestView};
use crate::transform::image::{
    accepted, base64_text, block_in, host_check, in_request, is_numeral, parts_check, with_block, ImageErrorView,
    ImageSlot,
};
use crate::transform::stream::{fed, line_step, ParserView, SseView};
use vstd::prelude::*;
use vstd::string::*;

verus! {

/// What a line of a stream does: one that names an event names the next one, one with data
/// completes an event of that name, an empty one forgets the name, and any other does nothing.
pub proof fn lines_are_read(event: Option<Seq<char>>, s: Seq<char>)
    ensures
        line_step(event, "event:"@ + s) == (Some(trimmed(s)), None::<SseView>),
        trimmed(s).len() > 0 ==> line_step(event, "data:"@ + s) == (
            None::<Seq<char>>,
            Some(SseView { event, data: trimmed(s) }),
        ),
        trimmed(s).len() == 0 ==> line_step(event, "data:"@ + s) == (event, None::<SseView>),
        line_step(event, Seq::empty()) == (None::<Seq<char>>, None::<SseView>),
        s.len() > 0 && !begins_with(s, "event:"@) && !begins_with(s, "data:"@) ==> line_step(event, s) == (
            event,
            None::<SseView>,
        ),
{
    reveal_strlit("event:");
    reveal_strlit("data:");
    assert("event:"@.len() == 6);
    assert("data:"@.len() == 5);
    let e = "event:"@ + s;
    let d = "data:"@ + s;
    assert("event:"@ =~= e.subrange(0, 6));
    assert(e.skip(6) =~= s);
    assert("data:"@ =~= d.subrange(0, 5));
    assert(d.skip(5) =~= s);
    assert("event:"@[0] == 'e' && "data:"@[0] == 'd');
    assert(!"event:"@.is_prefix_of(d)) by {
        if "event:"@.is_prefix_of(d) {
            assert(d[0] == "event:"@[0]);
        }
    }
    if "event:"@.is_prefix_of(s) {
        assert(s.take(6) =~= "event:"@);
    }
    if "data:"@.is_prefix_of(s) {
        assert(s.take(5) =~= "data:"@);
    }
}

/// Text is read character by character: a line break ends the line, and any other character is
/// put behind it.
pub proof fn characters_are_read(p: ParserView, s: Seq<char>, c: char)
    ensures
        fed(p, Seq::empty()) == (p, Seq::<SseView>::empty()),
        c != '\n' ==> fed(p, s.push(c)) == (
            ParserView { line: fed(p, s).0.line.push(c), event: fed(p, s).0.event },
            fed(p, s).1,
        ),
        ({
            let (q, events) = fed(p, s);
            let (event, done) = line_step(q.event, q.line);
            let r = fed(p, s.push('\n'));
            &&& r.0 == (ParserView { line: Seq::empty(), event })
            &&& done is Some ==> r.1 == events.push(done->Some_0)
            &&& done is None ==> r.1 == events
        }),
{
    assert(s.push(c).drop_last() =~= s);
    assert(s.push('\n').drop_last() =~= s);
}

/// Whether a type is one of the four that are accepted.
pub open spec fn is_accepted_type(t: Seq<char>) -> bool {
    t == "image/jpeg"@ || t == "image/png"@ || t == "image/gif"@ || t == "image/webp"@
}

/// Fetched content is accepted exactly where it is of an accepted type and no larger than twenty
/// megabytes, and amounts to its base64 text and its type.
pub proof fn images_are_accepted(t: Seq<char>, bytes: Seq<u8>)
    requires
        bytes.len() <= usize::MAX,
    ensures
        is_accepted_type(t) && bytes.len() <= 20_971_520 ==> accepted(t, bytes) == Ok::<
            (Seq<char>, Seq<char>),
            ImageErrorView,
        >((base64_text(bytes), t)),
        is_accepted_type(t) && bytes.len() > 20_971_520 ==> accepted(t, bytes) == Err::<
            (Seq<char>, Seq<char>),
            ImageErrorView,
        >(ImageErrorView::TooLarge(bytes.len() as usize, 20_971_520)),
        !is_accepted_type(t) && begins_with(t, "image/"@) ==> accepted(t, bytes) == Err::<
            (Seq<char>, Seq<char>),
            ImageErrorView,
        >(ImageErrorView::UnsupportedType(t)),
        !begins_with(t, "image/"@) && !is_accepted_type(t) ==> accepted(t, bytes) == Err::<
            (Seq<char>, Seq<char>),
            ImageErrorView,
        >(ImageErrorView::NotAnImage(t)),
{
    reveal_strlit("image/");
    assert("image/"@.len() == 6);
    if begins_with(t, "image/"@) {
        assert("image/"@ =~= t.subrange(0, 6));
    }
    if "image/"@.is_prefix_of(t) {
        assert(t.take(6) =~= "image/"@);
    }
}

/// An image is fetched only under the two schemes of the web, and then where its host may be
/// asked; a text that is no URL is refused.
pub proof fn urls_are_checked(scheme: Seq<char>, host: Option<Seq<char>>)
    ensures
        parts_check(None) == Err::<(), ImageErrorView>(ImageErrorView::InvalidUrl),
        scheme == "http"@ || scheme == "https"@ ==> parts_check(Some((scheme, host))) == host_check(host),
        scheme != "http"@ && scheme != "https"@ ==> parts_check(Some((scheme, host))) == Err::<(), ImageErrorView>(
            ImageErrorView::UnsupportedScheme(scheme),
        ),
{
}

/// A host that is no address may be asked: one that has not four parts between dots, or whose
/// parts are not all numbers up to 255, and that is not in brackets.
pub proof fn names_may_be_asked(h: Seq<char>)
    requires
        h.len() > 0,
        h[0] != '[',
        pieces(h, '.').len() != 4 || !is_numeral(pieces(h, '.')[0], 0, 255) || !is_numeral(pieces(h, '.')[1], 0, 255)
            || !is_numeral(pieces(h, '.')[2], 0, 255) || !is_numeral(pieces(h, '.')[3], 0, 255),
    ensures
        host_check(Some(h)) is Ok,
{
}

/// A host that is refused is named: an address in brackets without them, any other as it is.
pub proof fn refused_hosts_are_named(h: Seq<char>)
    ensures
        host_check(Some(h)) is Err && h.len() > 0 && h[0] != '[' ==> host_check(Some(h)) == Err::<
            (),
            ImageErrorView,
        >(ImageErrorView::PrivateIp(h)),
        host_check(Some("["@ + h + "]"@)) is Err ==> host_check(Some("["@ + h + "]"@)) == Err::<(), ImageErrorView>(
            ImageErrorView::PrivateIp(h),
        ),
        host_check(None) is Ok,
{
    reveal_strlit("[");
    reveal_strlit("]");
    let b = "["@ + h + "]"@;
    assert(b[0] == '[' && b.last() == ']');
    assert(b.subrange(1, b.len() - 1) =~= h);
}

/// An IPv6 address is refused where its first group is one of the private or link-local ones.
pub proof fn local_groups_are_refused(g: Seq<char>, a: Seq<char>)
    requires
        g.len() == 4,
        g[0] == 'f',
        g[1] == 'c' || g[1] == 'd' || (g[1] == 'e' && (g[2] == '8' || g[2] == '9' || g[2] == 'a' || g[2] == 'b')),
        pieces(lowered(a), ':').len() > 0,
        pieces(lowered(a), ':')[0] == g,
    ensures
        host_check(Some("["@ + a + "]"@)) == Err::<(), ImageErrorView>(ImageErrorView::PrivateIp(a)),
{
    reveal_strlit("[");
    assert("["@.len() == 1);
    reveal_strlit("]");
    let h = "["@ + a + "]"@;
    assert(h[0] == '[' && h.last() == ']');
    assert(h.subrange(1, h.len() - 1) =~= a);
}

/// A block that is put into a slot stands there, and every other block stays where it is.
pub proof fn blocks_are_put_in_place(q: RequestView, slot: ImageSlot, b: BlockView, i: int, j: int)
    requires
        in_request(q, slot),
        0 <= i < q.messages.len(),
        0 <= j < q.messages[i].content.len(),
    ensures
        ({
            let r = with_block(q, slot, b);
            &&& block_in(r, slot) == b
            &&& r.messages.len() == q.messages.len()
            &&& r.messages[i].role == q.messages[i].role
            &&& r.messages[i].content.len() == q.messages[i].content.len()
            &&& i != slot.message || j != slot.block ==> r.messages[i].content[j] == q.messages[i].content[j]
            &&& r.system == q.system && r.tools == q.tools && r.model == q.model
        }),
{
}

} // verus!
