//! Requests that the local proxy for command line tools carries. It is given the request as it
//! came, with another model; it sees to authentication and conversion itself.
use crate::headers::{header_views, is_header_byte, Header, HeaderView};
use crate::json::{Json, JsonView};
use crate::proxy::{build_endpoint_path_with_query, path_with_query, replace_model_only};
use crate::seqs::{take_ends, take_step};
use crate::text::{
    cat, cat3, contains, copy, lowered, occurs, opt_str, same_ignoring_case, trim_end_matches,
    without_trailing,
};
use vstd::prelude::*;
use vstd::string::*;
use vstd::utf8::*;

verus! {

/// Whether two names differ at most in case.
pub open spec fn names_same(a: Seq<char>, b: Seq<char>) -> bool {
    lowered(a) == lowered(b)
}

/// Whether a header is about one connection only.
pub open spec fn hop_by_hop(name: Seq<char>) -> bool {
    names_same(name, "connection"@) || names_same(name, "keep-alive"@) || names_same(
        name,
        "proxy-authenticate"@,
    ) || names_same(name, "proxy-authorization"@) || names_same(name, "te"@) || names_same(
        name,
        "trailer"@,
    ) || names_same(name, "transfer-encoding"@) || names_same(name, "upgrade"@)
}

/// Whether a header of the client's request is handed on.
pub open spec fn request_forwards(name: Seq<char>) -> bool {
    !hop_by_hop(name) && !names_same(name, "host"@) && !names_same(name, "content-length"@)
        && !names_same(name, "authorization"@)
}

/// Whether a header of the answer is handed on.
pub open spec fn response_forwards(name: Seq<char>) -> bool {
    !hop_by_hop(name) && !names_same(name, "content-length"@)
}

/// Whether a header is about one connection only.
pub fn is_hop_by_hop_header(name: &str) -> (r: bool)
    ensures
        r == hop_by_hop(name@),
{
    same_ignoring_case(name, "connection") || same_ignoring_case(name, "keep-alive")
        || same_ignoring_case(name, "proxy-authenticate") || same_ignoring_case(
        name,
        "proxy-authorization",
    ) || same_ignoring_case(name, "te") || same_ignoring_case(name, "trailer")
        || same_ignoring_case(name, "transfer-encoding") || same_ignoring_case(name, "upgrade")
}

/// Whether a header of the client's request is handed on.
pub fn should_forward_request_header(name: &str) -> (r: bool)
    ensures
        r == request_forwards(name@),
{
    !is_hop_by_hop_header(name) && !same_ignoring_case(name, "host") && !same_ignoring_case(
        name,
        "content-length",
    ) && !same_ignoring_case(name, "authorization")
}

/// Whether a header of the answer is handed on.
pub fn should_forward_response_header(name: &str) -> (r: bool)
    ensures
        r == response_forwards(name@),
{
    !is_hop_by_hop_header(name) && !same_ignoring_case(name, "content-length")
}

/// The headers of the client's request that are handed on.
pub open spec fn forwarded_requests(s: Seq<HeaderView>) -> Seq<HeaderView>
    decreases s.len(),
{
    if s.len() == 0 {
        Seq::empty()
    } else if request_forwards(s.last().name) {
        forwarded_requests(s.drop_last()).push(s.last())
    } else {
        forwarded_requests(s.drop_last())
    }
}

/// The headers of the answer that are handed on.
pub open spec fn forwarded_responses(s: Seq<HeaderView>) -> Seq<HeaderView>
    decreases s.len(),
{
    if s.len() == 0 {
        Seq::empty()
    } else if response_forwards(s.last().name) {
        forwarded_responses(s.drop_last()).push(s.last())
    } else {
        forwarded_responses(s.drop_last())
    }
}

/// Whether a header of a name is there.
pub open spec fn has_header(s: Seq<HeaderView>, name: Seq<char>) -> bool {
    exists|i: int| 0 <= i < s.len() && names_same((#[trigger] s[i]).name, name)
}

/// Whether a text may be the value of a header.
pub open spec fn is_header_text(s: Seq<char>) -> bool {
    forall|i: int| 0 <= i < encode_utf8(s).len() ==> is_header_byte(#[trigger] encode_utf8(s)[i])
}

/// A header with a text as its value.
pub open spec fn text_header(name: Seq<char>, value: Seq<char>) -> HeaderView {
    HeaderView { name, value: encode_utf8(value) }
}

/// The headers of a request to the local proxy: those of the client that are handed on, a type
/// where the client gave none, and the key of the proxy.
pub open spec fn proxy_headers(client: Seq<HeaderView>, api_key: Option<Seq<char>>) -> Seq<HeaderView> {
    let kept = forwarded_requests(client);
    let typed = if has_header(kept, "content-type"@) {
        kept
    } else {
        kept.push(text_header("content-type"@, "application/json"@))
    };
    match api_key {
        Some(key) => if key.len() > 0 && is_header_text("Bearer "@ + key) {
            typed.push(text_header("authorization"@, "Bearer "@ + key))
        } else {
            typed
        },
        None => typed,
    }
}

/// Only what may be handed on is among the headers that are kept.
pub proof fn kept_headers_may_be_forwarded(s: Seq<HeaderView>)
    ensures
        forall|i: int|
            0 <= i < forwarded_requests(s).len() ==> request_forwards(
                (#[trigger] forwarded_requests(s)[i]).name,
            ),
    decreases s.len(),
{
    if s.len() > 0 {
        kept_headers_may_be_forwarded(s.drop_last());
        let before = forwarded_requests(s.drop_last());
        assert forall|i: int| 0 <= i < forwarded_requests(s).len() implies request_forwards(
            (#[trigger] forwarded_requests(s)[i]).name,
        ) by {
            if i < before.len() {
                assert(forwarded_requests(s)[i] == before[i]);
            }
        }
    }
}

/// The client's own credentials do not reach the local proxy: the only authorization that a
/// request to it can carry is the last header, made of the key of the proxy.
pub proof fn client_authorization_is_dropped(client: Seq<HeaderView>, api_key: Option<Seq<char>>, i: int)
    requires
        0 <= i < proxy_headers(client, api_key).len(),
        names_same(proxy_headers(client, api_key)[i].name, "authorization"@),
    ensures
        api_key is Some,
        i == proxy_headers(client, api_key).len() - 1,
        proxy_headers(client, api_key)[i] == text_header(
            "authorization"@,
            "Bearer "@ + api_key->Some_0,
        ),
{
    kept_headers_may_be_forwarded(client);
    let kept = forwarded_requests(client);
    if i < kept.len() {
        assert(proxy_headers(client, api_key)[i] == kept[i]);
    } else {
        reveal_strlit("content-type");
        reveal_strlit("authorization");
        assert(lowered("content-type"@).len() == 12);
        assert(lowered("authorization"@).len() == 13);
    }
}

/// Whether a text may be the value of a header.
fn check_header_text(s: &str) -> (r: bool)
    ensures
        r == is_header_text(s@),
{
    let bytes = s.as_bytes();
    let mut i: usize = 0;
    while i < bytes.len()
        invariant
            i <= bytes@.len(),
            bytes@ == encode_utf8(s@),
            forall|j: int| 0 <= j < i ==> is_header_byte(#[trigger] bytes@[j]),
        decreases bytes@.len() - i,
    {
        let b: u8 = bytes[i];
        if !((b >= 32 && b != 127) || b == 9) {
            assert(!is_header_byte(encode_utf8(s@)[i as int]));
            return false;
        }
        i += 1;
    }
    true
}

/// The headers of a request to the local proxy.
pub fn build_cli_proxy_request_headers(client_headers: &Vec<Header>, api_key: Option<&str>) -> (r: Vec<
    Header,
>)
    ensures
        header_views(r@) == proxy_headers(header_views(client_headers@), opt_str(api_key)),
{
    let ghost all = header_views(client_headers@);
    let mut out: Vec<Header> = Vec::new();
    let mut typed = false;
    let mut i: usize = 0;
    proof {
        take_ends(all);
        assert(header_views(out@) =~= forwarded_requests(all.take(0)));
    }
    while i < client_headers.len()
        invariant
            i <= client_headers@.len(),
            all == header_views(client_headers@),
            header_views(out@) == forwarded_requests(all.take(i as int)),
            typed == has_header(header_views(out@), "content-type"@),
        decreases client_headers@.len() - i,
    {
        proof {
            take_step(all, i as int);
            assert(all[i as int] == client_headers@[i as int]@);
        }
        let h = &client_headers[i];
        if should_forward_request_header(&h.name) {
            let ghost before = header_views(out@);
            let is_type = same_ignoring_case(&h.name, "content-type");
            out.push(h.copy());
            proof {
                let after = header_views(out@);
                assert(after =~= before.push(h@));
                if has_header(before, "content-type"@) {
                    let k = choose|k: int|
                        0 <= k < before.len() && names_same((#[trigger] before[k]).name, "content-type"@);
                    assert(names_same(after[k].name, "content-type"@));
                }
                if is_type {
                    assert(names_same(after[before.len() as int].name, "content-type"@));
                }
                if has_header(after, "content-type"@) && !is_type {
                    let k = choose|k: int|
                        0 <= k < after.len() && names_same((#[trigger] after[k]).name, "content-type"@);
                    assert(names_same(before[k].name, "content-type"@));
                }
            }
            if is_type {
                typed = true;
            }
        }
        i += 1;
    }
    proof {
        take_ends(all);
    }
    if !typed {
        let ghost before = header_views(out@);
        let h = Header::new("content-type", "application/json");
        out.push(h);
        assert(header_views(out@) =~= before.push(h@));
    }
    if let Some(key) = api_key {
        if !key.is_empty() {
            let value = cat("Bearer ", key);
            if check_header_text(&value) {
                let ghost before = header_views(out@);
                let h = Header::new("authorization", &value);
                out.push(h);
                assert(header_views(out@) =~= before.push(h@));
            }
        }
    }
    out
}

/// The headers of the answer that are handed on.
pub fn select_cli_proxy_response_headers(headers: &Vec<Header>) -> (r: Vec<Header>)
    ensures
        header_views(r@) == forwarded_responses(header_views(headers@)),
{
    let ghost all = header_views(headers@);
    let mut out: Vec<Header> = Vec::new();
    let mut i: usize = 0;
    proof {
        take_ends(all);
        assert(header_views(out@) =~= forwarded_responses(all.take(0)));
    }
    while i < headers.len()
        invariant
            i <= headers@.len(),
            all == header_views(headers@),
            header_views(out@) == forwarded_responses(all.take(i as int)),
        decreases headers@.len() - i,
    {
        proof {
            take_step(all, i as int);
            assert(all[i as int] == headers@[i as int]@);
        }
        if should_forward_response_header(&headers[i].name) {
            let ghost before = header_views(out@);
            let h = headers[i].copy();
            out.push(h);
            assert(header_views(out@) =~= before.push(h@));
        }
        i += 1;
    }
    proof {
        take_ends(all);
    }
    out
}

/// Everything that is sent to the local proxy.
#[derive(Debug, PartialEq)]
pub struct CliProxyRequest {
    pub url: String,
    pub body: Json,
    pub headers: Vec<Header>,
}

/// What is sent to the local proxy for a request: the request with another model.
pub fn prepare_cli_proxy_request(
    cli_proxy_api_endpoint: &str,
    api_key: Option<&str>,
    target_model: &str,
    endpoint_path: &str,
    query_string: &str,
    client_headers: &Vec<Header>,
    body: &Json,
) -> (r: CliProxyRequest)
    ensures
        r.url@ == without_trailing(cli_proxy_api_endpoint@, '/') + path_with_query(
            endpoint_path@,
            query_string@,
        ),
        r.body@ == body@.with("model"@, JsonView::Str(target_model@)),
        header_views(r.headers@) == proxy_headers(header_views(client_headers@), opt_str(api_key)),
{
    let path = build_endpoint_path_with_query(endpoint_path, query_string);
    let mut request = body.copy();
    replace_model_only(&mut request, target_model);
    CliProxyRequest {
        url: cat(trim_end_matches(cli_proxy_api_endpoint, '/'), &path),
        body: request,
        headers: build_cli_proxy_request_headers(client_headers, api_key),
    }
}

/// Whether the answer of the local proxy comes in pieces.
pub fn is_event_stream(content_type: &str) -> (r: bool)
    ensures
        r == occurs(content_type@, "text/event-stream"@),
{
    contains(content_type, "text/event-stream")
}

/// What is said where the local proxy cannot be reached.
pub fn connect_error_message(cli_proxy_api_endpoint: &str) -> (r: String)
    ensures
        r@ == "Cannot connect to CLIProxyAPI at "@ + cli_proxy_api_endpoint@ + ". Is it running?"@,
{
    cat3("Cannot connect to CLIProxyAPI at ", cli_proxy_api_endpoint, ". Is it running?")
}

} // verus!
