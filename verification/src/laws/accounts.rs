//! What is known of accounts at the local proxy: their files, their logins, and what is handed to
//! and from the proxy.
use crate::cli_proxy_api_manager::{
    account_count, digits_value, file_accounts, file_provider, host_and_port, is_account, key_in, login_option, marked,
    port_number, scanned, secret_in, with_account, without_leading, AccountFileView, ScanView, YamlView,
};
use crate::cli_proxy_api_proxy::{forwarded_requests, forwarded_responses, proxy_headers};
use crate::codec::{json_parse, json_text};
use crate::handlers::cli_proxy::{first_proxied, poll_step, provider_of, status_accounts};
use crate::headers::HeaderView;
use crate::json::JsonView;
use crate::laws::listing::begins_with;
use crate::laws::number_at;
use crate::laws::requests::is_word;
use crate::models::{AppView, UpstreamView};
use crate::text::{digit, first_index_is, first_index_none, lowered, numeral, numerals_are_digits, occurs, trimmed};
use crate::transform::chat_completions::items_at;
use vstd::prelude::*;
use vstd::string::*;
use vstd::utf8::*;

verus! {

/// The key of the proxy is the first of its keys, and its secret stands under its management.
pub proof fn keys_are_found(doc: YamlView, a: Seq<YamlView>, table: YamlView, t: Seq<char>)
    ensures
        doc.get("api-keys"@) == Some(YamlView::List(a)) && a.len() > 0 && a[0] == YamlView::Text(t) ==> key_in(
            Some(doc),
        ) == Some(t),
        doc.get("api-keys"@) is None ==> key_in(Some(doc)) is None,
        doc.get("api-keys"@) == Some(YamlView::List(Seq::empty())) ==> key_in(Some(doc)) is None,
        key_in(None) is None,
        doc.get("remote-management"@) == Some(table) && table.get("secret-key"@) == Some(YamlView::Text(t))
            ==> secret_in(Some(doc)) == Some(t),
        doc.get("remote-management"@) is None ==> secret_in(Some(doc)) is None,
        secret_in(None) is None,
{
}

proof fn numerals_have_their_value(n: nat)
    ensures
        digits_value(numeral(n)) == Some(n),
    decreases n,
{
    reveal_with_fuel(digits_value, 2);
    if n < 10 {
        let s = seq![digit(n as int)];
        assert(s.drop_last() =~= Seq::<char>::empty());
        assert(s.last() == digit(n as int));
    } else {
        numerals_have_their_value(n / 10);
        let s = numeral(n);
        assert(s.drop_last() =~= numeral(n / 10));
        assert(n == (n / 10) * 10 + n % 10);
    }
}

/// The decimal numeral of a port denotes that port; a larger number denotes none, and neither
/// does a text that is empty.
pub proof fn ports_are_read(n: nat)
    ensures
        n <= 65535 ==> port_number(numeral(n)) == Some(n),
        n > 65535 ==> port_number(numeral(n)) is None,
        port_number(Seq::empty()) is None,
{
    numerals_have_their_value(n);
    numerals_are_digits(n);
    assert(numeral(n)[0] != '+');
}

/// An endpoint names a host and a port; without a port that can be read, the usual one counts,
/// and without a colon the usual host as well.
pub proof fn endpoints_name_host_and_port(host: Seq<char>, port: Seq<char>, n: nat)
    requires
        forall|i: int| 0 <= i < host.len() ==> host[i] != ':',
    ensures
        n <= 65535 ==> host_and_port("http://"@ + host + ":"@ + numeral(n)) == (host, n),
        port_number(port) is None ==> host_and_port("http://"@ + host + ":"@ + port) == (host, 8317nat),
        host_and_port("http://"@ + host) == ("127.0.0.1"@, 8317nat),
{
    ports_are_read(n);
    reveal_strlit("http://");
    reveal_strlit(":");
    endpoint_parts(host, numeral(n));
    endpoint_parts(host, port);
    let e = "http://"@ + host;
    assert("http://"@ =~= e.subrange(0, 7));
    assert(e.skip(7) =~= host);
    first_index_none(host, ':');
}

proof fn endpoint_parts(host: Seq<char>, port: Seq<char>)
    requires
        forall|i: int| 0 <= i < host.len() ==> host[i] != ':',
    ensures
        ({
            let e = "http://"@ + host + ":"@ + port;
            let addr = e.skip(7);
            &&& "http://"@.len() == 7 && "http://"@.is_prefix_of(e)
            &&& crate::text::first_index(addr, ':') == Some(host.len() as int)
            &&& addr.take(host.len() as int) == host
            &&& addr.skip(host.len() as int + 1) == port
        }),
{
    reveal_strlit("http://");
    reveal_strlit(":");
    let e = "http://"@ + host + ":"@ + port;
    let addr = e.skip(7);
    assert("http://"@ =~= e.subrange(0, 7));
    assert(addr =~= host + ":"@ + port);
    first_index_is(addr, ':', host.len() as int);
    assert(addr.take(host.len() as int) =~= host);
    assert(addr.skip(host.len() as int + 1) =~= port);
}

/// Whether a text ends with another.
pub open spec fn ends_in(s: Seq<char>, p: Seq<char>) -> bool {
    s.len() >= p.len() && s.skip(s.len() - p.len()) == p
}

proof fn beginnings_and_ends(s: Seq<char>, p: Seq<char>)
    ensures
        begins_with(s, p) <==> p.is_prefix_of(s),
        ends_in(s, p) <==> p.is_suffix_of(s),
{
    if begins_with(s, p) {
        assert(p =~= s.subrange(0, p.len() as int));
    }
    if p.is_prefix_of(s) {
        assert(s.take(p.len() as int) =~= p);
    }
    if ends_in(s, p) {
        assert(p =~= s.subrange(s.len() - p.len(), s.len() as int));
    }
    if p.is_suffix_of(s) {
        assert(s.skip(s.len() - p.len()) =~= p);
    }
}

/// An account file is a JSON file whose name begins with that of its provider: that of
/// Anthropic's tool, or Codex.
pub proof fn files_name_their_provider(name: Seq<char>, tool: Seq<char>, p: Seq<char>)
    ensures
        ({
            let json = ends_in(name, ".json"@);
            &&& json && begins_with(name, tool) ==> file_provider(name, tool) == Some(tool)
            &&& json && !begins_with(name, tool) && begins_with(name, "codex"@) ==> file_provider(name, tool) == Some(
                "codex"@,
            )
            &&& !json || (!begins_with(name, tool) && !begins_with(name, "codex"@)) ==> file_provider(
                name,
                tool,
            ) is None
            &&& is_account(name, None, tool) <==> file_provider(name, tool) is Some
            &&& is_account(name, Some(p), tool) <==> json && begins_with(name, p)
        }),
{
    beginnings_and_ends(name, ".json"@);
    beginnings_and_ends(name, tool);
    beginnings_and_ends(name, "codex"@);
    beginnings_and_ends(name, p);
}

/// Accounts are counted file by file.
pub proof fn accounts_are_counted(s: Seq<Seq<char>>, name: Seq<char>, provider: Seq<char>)
    ensures
        account_count(Seq::empty(), provider) == 0,
        ends_in(name, ".json"@) && begins_with(name, provider) ==> account_count(s.push(name), provider)
            == account_count(s, provider) + 1,
        !(ends_in(name, ".json"@) && begins_with(name, provider)) ==> account_count(s.push(name), provider)
            == account_count(s, provider),
{
    assert(s.push(name).drop_last() =~= s);
    beginnings_and_ends(name, ".json"@);
    beginnings_and_ends(name, provider);
}

/// An account is put behind the others of its provider, which are counted; other providers stay
/// as they are.
pub proof fn accounts_are_added(v: JsonView, p: Seq<char>, other: Seq<char>, account: JsonView)
    requires
        v is Object,
        items_at(v.at(p), "accounts"@).len() < u64::MAX,
    ensures
        ({
            let r = with_account(v, p, account);
            let before = items_at(v.at(p), "accounts"@);
            &&& r is Object
            &&& items_at(r.at(p), "accounts"@) == before.push(account)
            &&& number_at(r.at(p), "account_count"@) == Some((before.len() + 1) as u64)
            &&& other != p ==> r.get(other) == v.get(other)
        }),
{
    reveal_strlit("accounts");
    reveal_strlit("account_count");
    assert("accounts"@.len() == 8);
    assert("account_count"@.len() == 13);
}

/// The text under a name of the value of a text, nothing where there is none.
pub open spec fn told_in(content: Option<Seq<char>>, name: Seq<char>) -> Seq<char> {
    match content {
        Some(c) => match json_parse(c) {
            Some(v) => match v.get(name) {
                Some(JsonView::Str(t)) => t,
                _ => Seq::empty(),
            },
            None => Seq::empty(),
        },
        None => Seq::empty(),
    }
}

/// A file adds an account to its provider, with the address and the end that it tells; a file
/// that is no account file adds nothing.
pub proof fn files_add_accounts(s: Seq<AccountFileView>, f: AccountFileView, tool: Seq<char>)
    ensures
        file_provider(f.name, tool) is None ==> file_accounts(s.push(f), tool) == file_accounts(s, tool),
        file_provider(f.name, tool) is Some ==> exists|account: JsonView|
            {
                &&& file_accounts(s.push(f), tool) == #[trigger] with_account(
                    file_accounts(s, tool),
                    file_provider(f.name, tool)->Some_0,
                    account,
                )
                &&& is_word(account.get("email"@), told_in(f.content, "email"@))
                &&& is_word(account.get("expiresAt"@), told_in(f.content, "expired"@))
                &&& is_word(account.get("status"@), "active"@)
            },
        file_accounts(Seq::empty(), tool) == JsonView::object(),
{
    reveal_strlit("email");
    reveal_strlit("expiresAt");
    reveal_strlit("status");
    assert("email"@.len() == 5);
    assert("expiresAt"@.len() == 9);
    assert("status"@.len() == 6);
    assert(s.push(f).drop_last() =~= s);
    let account = crate::cli_proxy_api_manager::file_account(crate::cli_proxy_api_manager::file_value(f.content));
    if file_provider(f.name, tool) is Some {
        assert(file_accounts(s.push(f), tool) == with_account(
            file_accounts(s, tool),
            file_provider(f.name, tool)->Some_0,
            account,
        ));
    }
}

/// The text under a name, nothing where there is none.
pub open spec fn text_under(v: JsonView, name: Seq<char>) -> Seq<char> {
    match v.get(name) {
        Some(JsonView::Str(t)) => t,
        _ => Seq::empty(),
    }
}

/// A file that the proxy reports adds an account to its provider, with what the file tells of it.
pub proof fn reports_add_accounts(s: Seq<JsonView>, f: JsonView, t: Seq<char>)
    ensures
        exists|account: JsonView|
            {
                &&& status_accounts(s.push(f)) == #[trigger] with_account(
                    status_accounts(s),
                    text_under(f, "provider"@),
                    account,
                )
                &&& is_word(account.get("email"@), text_under(f, "email"@))
                &&& is_word(account.get("lastRefresh"@), text_under(f, "last_refresh"@))
                &&& is_word(f.get("status"@), t) ==> is_word(account.get("status"@), t)
                &&& crate::laws::has_no_text(f, "status"@) ==> is_word(account.get("status"@), "unknown"@)
                &&& is_word(f.get("expiresAt"@), t) ==> is_word(account.get("expiresAt"@), t)
                &&& crate::laws::has_no_text(f, "expiresAt"@) ==> is_word(
                    account.get("expiresAt"@),
                    text_under(f, "expired"@),
                )
            },
        status_accounts(Seq::empty()) == JsonView::object(),
{
    reveal_strlit("email");
    reveal_strlit("status");
    reveal_strlit("expiresAt");
    reveal_strlit("lastRefresh");
    assert("email"@.len() == 5);
    assert("status"@.len() == 6);
    assert("expiresAt"@.len() == 9);
    assert("lastRefresh"@.len() == 11);
    assert(s.push(f).drop_last() =~= s);
    let account = crate::handlers::cli_proxy::status_account(f);
    assert(status_accounts(s.push(f)) == with_account(status_accounts(s), text_under(f, "provider"@), account));
}

/// A login is begun with the option of its provider; only that with a device needs a code.
pub proof fn logins_are_begun(provider: Seq<char>, tool: Seq<char>)
    requires
        tool != "codex"@,
        tool != "codex-device"@,
    ensures
        login_option(tool, tool) == Some((tool + "-login"@, false)),
        login_option("codex"@, tool) == Some(("codex-login"@, false)),
        login_option("codex-device"@, tool) == Some(("codex-device-login"@, true)),
        provider != tool && provider != "codex"@ && provider != "codex-device"@ ==> login_option(
            provider,
            tool,
        ) is None,
{
    reveal_strlit("codex");
    reveal_strlit("codex-device");
    assert("codex"@.len() == 5);
    assert("codex-device"@.len() == 12);
}

/// The URL of a login stands in the line behind the one that announces it.
pub proof fn login_urls_are_found(s: ScanView, announced: Seq<char>, line: Seq<char>)
    requires
        !s.is_device,
        s.auth_url is None,
        !s.expecting,
    ensures
        occurs(trimmed(announced), "Visit the following URL to continue authentication:"@) ==> scanned(
            scanned(s, announced),
            line,
        ).auth_url == Some(trimmed(line)),
        !occurs(trimmed(announced), "Visit the following URL to continue authentication:"@) ==> scanned(s, announced)
            == s,
        scanned(s, line).auth_url is None,
{
}

proof fn marks_are_taken_off(p: Seq<char>, rest: Seq<char>)
    requires
        p.len() > 0,
        !begins_with(rest, p),
    ensures
        marked(p + rest, p) == Some(trimmed(rest)),
{
    beginnings_and_ends(rest, p);
    let s = p + rest;
    assert(p =~= s.subrange(0, p.len() as int));
    assert(s.skip(p.len() as int) =~= rest);
    assert(without_leading(rest, p) == rest);
    assert(without_leading(s, p) == without_leading(s.skip(p.len() as int), p));
}

/// The URL and the code of a login with a device stand behind their marks, in whatever order the
/// code comes before the URL; once the URL is known nothing changes.
pub proof fn device_logins_are_found(s: ScanView, line: Seq<char>, rest: Seq<char>)
    requires
        s.is_device,
        s.auth_url is None,
    ensures
        trimmed(line) == "Codex device URL: "@ + rest && !begins_with(rest, "Codex device URL: "@) ==> scanned(
            s,
            line,
        ) == (ScanView { auth_url: Some(trimmed(rest)), ..s }),
        trimmed(line) == "Codex device code: "@ + rest && !begins_with(rest, "Codex device code: "@) ==> scanned(
            s,
            line,
        ) == (ScanView { device_code: Some(trimmed(rest)), ..s }),
        !begins_with(trimmed(line), "Codex device URL: "@) && !begins_with(trimmed(line), "Codex device code: "@)
            ==> scanned(s, line) == s,
        ({
            let known = ScanView { auth_url: Some(rest), ..s };
            scanned(known, line) == known
        }),
{
    reveal_strlit("Codex device URL: ");
    reveal_strlit("Codex device code: ");
    assert("Codex device URL: "@.len() == 18);
    assert("Codex device code: "@.len() == 19);
    let u = "Codex device URL: "@;
    let c = "Codex device code: "@;
    assert(u[13] == 'U' && c[13] == 'c');
    beginnings_and_ends(trimmed(line), u);
    beginnings_and_ends(trimmed(line), c);
    if trimmed(line) == u + rest {
        if !begins_with(rest, u) {
            marks_are_taken_off(u, rest);
        }
        if c.is_prefix_of(u + rest) {
            assert((u + rest)[13] == c[13]);
        }
    }
    if trimmed(line) == c + rest {
        if !begins_with(rest, c) {
            marks_are_taken_off(c, rest);
        }
        if u.is_prefix_of(c + rest) {
            assert((c + rest)[13] == u[13]);
        }
    }
}

/// Waiting for a login ends with success as soon as the provider has an account, with a timeout
/// after the last look, and goes on otherwise.
pub proof fn logins_are_awaited(status: JsonView, provider: Seq<char>, upstream: Seq<char>, attempt: u16)
    ensures
        ({
            let p = status.at("providers"@).at(provider);
            let n = match number_at(p, "account_count"@) {
                Some(x) => x,
                None => 0,
            };
            let (chunk, finished) = poll_step(status, provider, upstream, attempt);
            &&& n == 0 && attempt < 150 ==> !finished && chunk == ": keep-alive\n\n"@
            &&& n > 0 || attempt >= 150 ==> finished && exists|v: JsonView|
                {
                    &&& chunk == "data: "@ + #[trigger] json_text(v) + "\n\n"@
                    &&& is_word(v.get("upstream"@), upstream)
                    &&& n > 0 ==> is_word(v.at("status"@).get("status"@), "success"@)
                    &&& n == 0 ==> is_word(v.at("status"@).get("status"@), "timeout"@)
                    &&& n > 0 && items_at(p, "accounts"@).len() > 0 ==> is_word(
                        v.at("status"@).get("email"@),
                        text_under(items_at(p, "accounts"@)[0], "email"@),
                    ) && is_word(
                        v.at("status"@).get("expires_at"@),
                        text_under(items_at(p, "accounts"@)[0], "expiresAt"@),
                    ) && is_word(
                        v.at("status"@).get("lastRefresh"@),
                        text_under(items_at(p, "accounts"@)[0], "lastRefresh"@),
                    )
                }
        }),
{
    reveal_strlit("upstream");
    reveal_strlit("status");
    reveal_strlit("message");
    reveal_strlit("email");
    reveal_strlit("expires_at");
    reveal_strlit("lastRefresh");
    assert("upstream"@.len() == 8);
    assert("status"@.len() == 6);
    assert("message"@.len() == 7);
    assert("email"@.len() == 5);
    assert("expires_at"@.len() == 10);
    assert("lastRefresh"@.len() == 11);
    let p = status.at("providers"@).at(provider);
    let ok = crate::handlers::cli_proxy::login_success(upstream, crate::handlers::cli_proxy::first_account(p));
    let late = crate::handlers::cli_proxy::login_timeout(upstream);
    let a = json_text(ok);
    let b = json_text(late);
    assert(a == json_text(ok) && b == json_text(late));
}

/// Whether the upstream at a place is the first one of a name whose account the proxy manages.
pub open spec fn is_first_managed(s: Seq<UpstreamView>, i: int, name: Seq<char>) -> bool {
    &&& 0 <= i < s.len()
    &&& s[i].name == name && (s[i].auth is AnthropicOAuth || s[i].auth is CodexOAuth)
    &&& forall|j: int|
        0 <= j < i ==> !((#[trigger] s[j]).name == name && (s[j].auth is AnthropicOAuth || s[j].auth is CodexOAuth))
}

proof fn first_managed_is_found(s: Seq<UpstreamView>, i: int, name: Seq<char>)
    ensures
        is_first_managed(s, i, name) ==> first_proxied(s, name) == Some(i),
        (forall|j: int|
            0 <= j < s.len() ==> !((#[trigger] s[j]).name == name && (s[j].auth is AnthropicOAuth
                || s[j].auth is CodexOAuth))) ==> first_proxied(s, name) is None,
    decreases s.len(),
{
    if s.len() > 0 {
        let t = s.skip(1);
        first_managed_is_found(t, i - 1, name);
        assert forall|j: int| 0 <= j < t.len() implies #[trigger] t[j] == s[j + 1] by {}
        if is_first_managed(s, i, name) && i > 0 {
            assert(!(s[0].name == name && (s[0].auth is AnthropicOAuth || s[0].auth is CodexOAuth)));
            assert(is_first_managed(t, i - 1, name));
        }
        if forall|j: int|
            0 <= j < s.len() ==> !((#[trigger] s[j]).name == name && (s[j].auth is AnthropicOAuth
                || s[j].auth is CodexOAuth)) {
            assert(!(s[0].name == name && (s[0].auth is AnthropicOAuth || s[0].auth is CodexOAuth)));
        }
    }
}

/// The provider of an upstream is that of the first one of its name whose account the proxy
/// manages.
pub proof fn upstreams_have_their_provider(c: AppView, name: Seq<char>, tool: Seq<char>, i: int)
    ensures
        is_first_managed(c.upstreams, i, name) && c.upstreams[i].auth is AnthropicOAuth ==> provider_of(c, name, tool)
            == Some(tool),
        is_first_managed(c.upstreams, i, name) && c.upstreams[i].auth is CodexOAuth ==> provider_of(c, name, tool)
            == Some("codex"@),
        (forall|j: int|
            0 <= j < c.upstreams.len() ==> !((#[trigger] c.upstreams[j]).name == name && (
            c.upstreams[j].auth is AnthropicOAuth || c.upstreams[j].auth is CodexOAuth))) ==> provider_of(
            c,
            name,
            tool,
        ) is None,
{
    first_managed_is_found(c.upstreams, i, name);
}

/// Whether a header, named in lower case, is about one connection only.
pub open spec fn is_of_the_connection(name: Seq<char>) -> bool {
    name == lowered("connection"@) || name == lowered("keep-alive"@) || name == lowered("proxy-authenticate"@) || name
        == lowered("proxy-authorization"@) || name == lowered("te"@) || name == lowered("trailer"@) || name == lowered(
        "transfer-encoding"@,
    ) || name == lowered("upgrade"@)
}

/// Headers are handed on one by one: those of a request unless they are about the connection, the
/// host, the length or the client's key; those of an answer unless they are about the connection
/// or the length.
pub proof fn headers_are_handed_on(s: Seq<HeaderView>, h: HeaderView)
    ensures
        ({
            let n = lowered(h.name);
            let dropped = is_of_the_connection(n) || n == lowered("content-length"@);
            let hidden = dropped || n == lowered("host"@) || n == lowered("authorization"@);
            &&& hidden ==> forwarded_requests(s.push(h)) == forwarded_requests(s)
            &&& !hidden ==> forwarded_requests(s.push(h)) == forwarded_requests(s).push(h)
            &&& dropped ==> forwarded_responses(s.push(h)) == forwarded_responses(s)
            &&& !dropped ==> forwarded_responses(s.push(h)) == forwarded_responses(s).push(h)
        }),
        forwarded_requests(Seq::empty()).len() == 0,
        forwarded_responses(Seq::empty()).len() == 0,
{
    assert(s.push(h).drop_last() =~= s);
}

/// Whether a list has a header of a name, case aside.
pub open spec fn has_named(s: Seq<HeaderView>, name: Seq<char>) -> bool {
    exists|i: int| 0 <= i < s.len() && lowered((#[trigger] s[i]).name) == lowered(name)
}

/// The proxy gets the headers that are handed on, a type where the client gave none, and its own
/// key last, where it has one that a header can hold.
pub proof fn the_proxy_gets_its_key(client: Seq<HeaderView>, key: Option<Seq<char>>)
    ensures
        ({
            let kept = forwarded_requests(client);
            let r = proxy_headers(client, key);
            let typed = has_named(kept, "content-type"@);
            let json = HeaderView { name: "content-type"@, value: encode_utf8("application/json"@) };
            let sent = key is Some && key->Some_0.len() > 0 && forall|i: int|
                0 <= i < encode_utf8("Bearer "@ + key->Some_0).len() ==> {
                    let b = #[trigger] encode_utf8("Bearer "@ + key->Some_0)[i];
                    (b >= 32 && b != 127) || b == 9
                };
            let bearer = HeaderView { name: "authorization"@, value: encode_utf8("Bearer "@ + key->Some_0) };
            &&& typed && !sent ==> r == kept
            &&& !typed && !sent ==> r == kept.push(json)
            &&& typed && sent ==> r == kept.push(bearer)
            &&& !typed && sent ==> r == kept.push(json).push(bearer)
        }),
{
    let kept = forwarded_requests(client);
    assert(has_named(kept, "content-type"@) <==> crate::cli_proxy_api_proxy::has_header(kept, "content-type"@)) by {
        if has_named(kept, "content-type"@) {
            let i = choose|i: int| 0 <= i < kept.len() && lowered((#[trigger] kept[i]).name) == lowered("content-type"@);
            assert(crate::cli_proxy_api_proxy::names_same(kept[i].name, "content-type"@));
        }
        if crate::cli_proxy_api_proxy::has_header(kept, "content-type"@) {
            let i = choose|i: int|
                0 <= i < kept.len() && crate::cli_proxy_api_proxy::names_same(
                    (#[trigger] kept[i]).name,
                    "content-type"@,
                );
            assert(lowered(kept[i].name) == lowered("content-type"@));
        }
    }
    if key is Some {
        let t = encode_utf8("Bearer "@ + key->Some_0);
        if crate::cli_proxy_api_proxy::is_header_text("Bearer "@ + key->Some_0) {
            assert forall|i: int| 0 <= i < t.len() implies {
                let b = #[trigger] t[i];
                (b >= 32 && b != 127) || b == 9
            } by {
                assert(crate::headers::is_header_byte(t[i]));
            }
        }
    }
}

} // verus!
