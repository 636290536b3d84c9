//! Logins at the local proxy, and the accounts that it manages.
use crate::cli_proxy_api_manager::{add_account, with_account};
use crate::config::{find_upstream, first_upstream};
use crate::json::{views, views_are, Json, JsonView};
use crate::models::{upstream_views, AppConfig, AppView, UpstreamView};
use crate::seqs::{take_ends, take_step};
use crate::state::LOGIN_POLL_MAX_ATTEMPTS;
use crate::text::{cat3, copy, opt_str, same};
use crate::transform::chat_completions::{count_at, items_at, parse_count};
use crate::transform::emit::{data_frame, make_data_frame};
use vstd::prelude::*;
use vstd::string::*;

verus! {

/// What is said of a login that goes elsewhere.
pub open spec fn elsewhere(name: Seq<char>) -> Seq<char> {
    "上游 '"@ + name + "' 的登录由 CLIProxyAPI 管理，请使用 /api/cli-proxy-api/login/"@ + name
}

/// The answer to a request for a login at an upstream: the HTTP status and the message. Logins
/// are made at the local proxy.
pub fn auth_login(config: &AppConfig, upstream_name: &str) -> (r: (u16, String))
    ensures
        match first_upstream(config@.upstreams, upstream_name@, true) {
            None => r.0 == 404 && r.1@ == "上游不存在或未启用"@,
            Some(i) => r.0 == 400 && r.1@ == (if config@.upstreams[i].auth.is_cli_proxy_api() {
                elsewhere(upstream_name@)
            } else {
                "该上游不使用 OAuth 认证"@
            }),
        },
{
    match find_upstream(&config.upstreams, upstream_name, true) {
        None => (404, copy("上游不存在或未启用")),
        Some(i) => if config.upstreams[i].auth.is_cli_proxy_api() {
            let mut s = cat3(
                "上游 '",
                upstream_name,
                "' 的登录由 CLIProxyAPI 管理，请使用 /api/cli-proxy-api/login/",
            );
            s.append(upstream_name);
            (400, s)
        } else {
            (400, copy("该上游不使用 OAuth 认证"))
        },
    }
}

/// The first upstream of a name whose requests the local proxy carries.
pub open spec fn first_proxied(s: Seq<UpstreamView>, name: Seq<char>) -> Option<int>
    decreases s.len(),
{
    if s.len() == 0 {
        None
    } else if s[0].name == name && s[0].auth.is_cli_proxy_api() {
        Some(0)
    } else {
        match first_proxied(s.skip(1), name) {
            Some(i) => Some(i + 1),
            None => None,
        }
    }
}

/// The provider under which the local proxy knows an upstream.
pub open spec fn provider_of(c: AppView, name: Seq<char>, tool: Seq<char>) -> Option<Seq<char>> {
    match first_proxied(c.upstreams, name) {
        Some(i) => c.upstreams[i].auth.provider(tool),
        None => None,
    }
}

proof fn proxied_has_provider(s: Seq<UpstreamView>, name: Seq<char>, tool: Seq<char>)
    ensures
        match first_proxied(s, name) {
            Some(i) => 0 <= i < s.len() && s[i].auth.provider(tool) is Some,
            None => true,
        },
    decreases s.len(),
{
    if s.len() > 0 {
        proxied_has_provider(s.skip(1), name, tool);
    }
}

/// The provider under which the local proxy knows an upstream, else what is said.
pub fn login_provider<'a>(config: &AppConfig, upstream_name: &str, tool: &'a str) -> (r: Result<
    &'a str,
    String,
>)
    ensures
        match r {
            Ok(p) => provider_of(config@, upstream_name@, tool@) == Some(p@),
            Err(e) => provider_of(config@, upstream_name@, tool@) is None && e@ == "上游 '"@
                + upstream_name@ + "' 不存在或不是 CLIProxyAPI 类型"@,
        },
{
    let ghost all = upstream_views(config.upstreams@);
    proof {
        proxied_has_provider(all, upstream_name@, tool@);
    }
    let mut i: usize = 0;
    assert(all.skip(0) =~= all);
    while i < config.upstreams.len()
        invariant
            i <= config.upstreams@.len(),
            all == upstream_views(config.upstreams@),
            first_proxied(all, upstream_name@) == match first_proxied(
                all.skip(i as int),
                upstream_name@,
            ) {
                Some(k) => Some(k + i),
                None => None,
            },
        decreases config.upstreams@.len() - i,
    {
        assert(all.skip(i as int)[0] == config.upstreams@[i as int]@);
        assert(all.skip(i as int).skip(1) =~= all.skip(i + 1));
        let u = &config.upstreams[i];
        if same(&u.name, upstream_name) {
            if let Some(p) = u.auth.cli_proxy_api_provider(tool) {
                return Ok(p);
            }
        }
        i += 1;
    }
    Err(cat3("上游 '", upstream_name, "' 不存在或不是 CLIProxyAPI 类型"))
}

/// The answer to a request for a login at the local proxy.
pub fn login_answer(auth_url: &str, provider: &str, device_code: Option<&str>) -> (r: Json)
    ensures
        r@ == JsonView::object().with("auth_url"@, JsonView::Str(auth_url@)).with(
            "provider"@,
            JsonView::Str(provider@),
        ).with(
            "device_code"@,
            crate::transform::chat_completions::text_or_null(opt_str(device_code)),
        ).with("manual"@, JsonView::Bool(true)),
{
    let code = match device_code {
        Some(c) => Json::str(c),
        None => Json::Null,
    };
    Json::object().with("auth_url", Json::str(auth_url)).with("provider", Json::str(provider)).with(
        "device_code",
        code,
    ).with("manual", Json::Bool(true))
}

/// What is sent to whoever waits for a login, and whether that is all.
#[derive(Debug, PartialEq)]
pub struct PollStep {
    pub chunk: String,
    pub finished: bool,
}

/// The first account of a provider in a status, an empty one where there is none.
pub open spec fn first_account(provider_status: JsonView) -> JsonView {
    let accounts = items_at(provider_status, "accounts"@);
    if accounts.len() > 0 {
        accounts[0]
    } else {
        JsonView::object()
    }
}

/// The message that a login succeeded.
pub open spec fn login_success(upstream: Seq<char>, account: JsonView) -> JsonView {
    JsonView::object().with("upstream"@, JsonView::Str(upstream)).with(
        "status"@,
        JsonView::object().with("status"@, JsonView::Str("success"@)).with(
            "message"@,
            JsonView::Str("登录成功"@),
        ).with("email"@, JsonView::Str(account.text_at("email"@))).with(
            "expires_at"@,
            JsonView::Str(account.text_at("expiresAt"@)),
        ).with("lastRefresh"@, JsonView::Str(account.text_at("lastRefresh"@))),
    )
}

/// The message that a login took too long.
pub open spec fn login_timeout(upstream: Seq<char>) -> JsonView {
    JsonView::object().with("upstream"@, JsonView::Str(upstream)).with(
        "status"@,
        JsonView::object().with("status"@, JsonView::Str("timeout"@)).with(
            "message"@,
            JsonView::Str("登录超时，请重新发起登录"@),
        ),
    )
}

/// What is sent at one look at the accounts of the local proxy: that the login succeeded once
/// there is an account, that it took too long after the last look, else a sign of life.
pub open spec fn poll_step(status: JsonView, provider: Seq<char>, upstream: Seq<char>, attempt: u16) -> (
    Seq<char>,
    bool,
) {
    let provider_status = status.at("providers"@).at(provider);
    if count_at(provider_status, "account_count"@) > 0 {
        (data_frame(login_success(upstream, first_account(provider_status))), true)
    } else if attempt >= LOGIN_POLL_MAX_ATTEMPTS {
        (data_frame(login_timeout(upstream)), true)
    } else {
        (": keep-alive\n\n"@, false)
    }
}

/// What is sent at one look at the accounts of the local proxy.
pub fn login_poll(status: &Json, provider: &str, upstream_name: &str, attempt: u16) -> (r: PollStep)
    ensures
        (r.chunk@, r.finished) == poll_step(status@, provider@, upstream_name@, attempt),
{
    broadcast use views_are;

    let provider_status = status.at("providers").at(provider);
    if parse_count(&provider_status, "account_count") > 0 {
        let account = match provider_status.array_at("accounts") {
            Some(a) => if a.len() > 0 {
                a[0].copy()
            } else {
                Json::object()
            },
            None => Json::object(),
        };
        let inner = Json::object().with("status", Json::str("success")).with(
            "message",
            Json::str("登录成功"),
        ).with("email", Json::Str(account.text_at("email"))).with(
            "expires_at",
            Json::Str(account.text_at("expiresAt")),
        ).with("lastRefresh", Json::Str(account.text_at("lastRefresh")));
        let payload = Json::object().with("upstream", Json::str(upstream_name)).with("status", inner);
        return PollStep { chunk: make_data_frame(&payload), finished: true };
    }
    if attempt >= LOGIN_POLL_MAX_ATTEMPTS {
        let inner = Json::object().with("status", Json::str("timeout")).with(
            "message",
            Json::str("登录超时，请重新发起登录"),
        );
        let payload = Json::object().with("upstream", Json::str(upstream_name)).with("status", inner);
        return PollStep { chunk: make_data_frame(&payload), finished: true };
    }
    PollStep { chunk: copy(": keep-alive\n\n"), finished: false }
}

/// The account that an auth file of the local proxy describes.
pub open spec fn status_account(file: JsonView) -> JsonView {
    JsonView::object().with("email"@, JsonView::Str(file.text_at("email"@))).with(
        "status"@,
        JsonView::Str(
            match file.str_at("status"@) {
                Some(s) => s,
                None => "unknown"@,
            },
        ),
    ).with(
        "expiresAt"@,
        JsonView::Str(
            match file.str_at("expiresAt"@) {
                Some(s) => s,
                None => file.text_at("expired"@),
            },
        ),
    ).with("lastRefresh"@, JsonView::Str(file.text_at("last_refresh"@)))
}

/// The accounts of auth files, by provider.
pub open spec fn status_accounts(s: Seq<JsonView>) -> JsonView
    decreases s.len(),
{
    if s.len() == 0 {
        JsonView::object()
    } else {
        with_account(
            status_accounts(s.drop_last()),
            s.last().text_at("provider"@),
            status_account(s.last()),
        )
    }
}

/// The accounts that the local proxy reports, by provider.
pub fn transform_cli_proxy_api_status(body: &Json) -> (r: Json)
    ensures
        r@ == JsonView::object().with("providers"@, status_accounts(items_at(body@, "files"@))),
{
    broadcast use views_are;

    let none: Vec<Json> = Vec::new();
    assert(views(none@) =~= Seq::<JsonView>::empty());
    let files = match body.array_at("files") {
        Some(a) => a,
        None => &none,
    };
    let ghost all = views(files@);
    let mut providers = Json::object();
    let mut i: usize = 0;
    proof {
        take_ends(all);
    }
    while i < files.len()
        invariant
            i <= files@.len(),
            all == views(files@),
            providers@ == status_accounts(all.take(i as int)),
        decreases files@.len() - i,
    {
        proof {
            take_step(all, i as int);
        }
        let file = &files[i];
        let status = match file.str_at("status") {
            Some(s) => copy(s),
            None => copy("unknown"),
        };
        let expires = match file.str_at("expiresAt") {
            Some(s) => copy(s),
            None => file.text_at("expired"),
        };
        let account = Json::object().with("email", Json::Str(file.text_at("email"))).with(
            "status",
            Json::Str(status),
        ).with("expiresAt", Json::Str(expires)).with(
            "lastRefresh",
            Json::Str(file.text_at("last_refresh")),
        );
        let provider = file.text_at("provider");
        providers = add_account(providers, &provider, account);
        i += 1;
    }
    proof {
        take_ends(all);
    }
    Json::object().with("providers", providers)
}

} // verus!
