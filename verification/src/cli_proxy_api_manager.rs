//! The local proxy for command line tools: its configuration, its accounts and its logins.
use crate::json::{views, views_are, views_push, Json, JsonView};
use crate::seqs::{take_ends, take_step};
use crate::state::random_token;
use crate::text::{
    cat, cat3, chars_of, contains, copy, ends_with, find_char, first_index, numeral, numeral_of, occurs, opt_str, opt_text, same,
    starts_with, strip_prefix, stripped, text_of, texts, trim, trimmed,
};
use crate::transform::chat_completions::items_at;
use vstd::prelude::*;
use vstd::string::*;

verus! {

/// What a login begins with: where to go, and a code where one has to be entered.
#[derive(Debug, PartialEq)]
pub struct LoginResult {
    pub auth_url: String,
    pub device_code: Option<String>,
}

/// The value type of `serde_yaml`.
#[verifier::external_type_specification]
#[verifier::external_body]
pub struct ExYaml(serde_yaml::Value);

/// A YAML value as far as it is read here: texts, lists, and tables by their text keys.
pub enum YamlView {
    Text(Seq<char>),
    List(Seq<YamlView>),
    Table(Map<Seq<char>, YamlView>),
    Other,
}

/// What a value of `serde_yaml` holds, tags left aside.
pub uninterp spec fn yaml_view(v: serde_yaml::Value) -> YamlView;

/// The value that a text denotes, if it is YAML.
pub uninterp spec fn yaml_parse(s: Seq<char>) -> Option<YamlView>;

impl YamlView {
    /// The value under a key of a table.
    pub open spec fn get(self, key: Seq<char>) -> Option<YamlView> {
        match self {
            YamlView::Table(m) => if m.dom().contains(key) {
                Some(m[key])
            } else {
                None
            },
            _ => None,
        }
    }

    /// The first item of a list.
    pub open spec fn first(self) -> Option<YamlView> {
        match self {
            YamlView::List(s) => if s.len() > 0 {
                Some(s[0])
            } else {
                None
            },
            _ => None,
        }
    }

    /// The text.
    pub open spec fn text(self) -> Option<Seq<char>> {
        match self {
            YamlView::Text(t) => Some(t),
            _ => None,
        }
    }
}

/// The view of an optional value.
pub open spec fn opt_yaml(v: Option<&serde_yaml::Value>) -> Option<YamlView> {
    match v {
        Some(x) => Some(yaml_view(*x)),
        None => None,
    }
}

/// `serde_yaml::from_str`: the value that the text denotes, or an error.
#[verifier::external_body]
fn read_yaml(s: &str) -> (r: Option<serde_yaml::Value>)
    ensures
        match r {
            Some(v) => yaml_parse(s@) == Some(yaml_view(v)),
            None => yaml_parse(s@) is None,
        },
{
    serde_yaml::from_str(s).ok()
}

/// `serde_yaml::Value::get` with a text: the value under that key of a mapping.
#[verifier::external_body]
fn yaml_get<'a>(v: &'a serde_yaml::Value, key: &str) -> (r: Option<&'a serde_yaml::Value>)
    ensures
        opt_yaml(r) == yaml_view(*v).get(key@),
{
    v.get(key)
}

/// `serde_yaml::Value::as_sequence`, and its first item.
#[verifier::external_body]
fn yaml_first(v: &serde_yaml::Value) -> (r: Option<&serde_yaml::Value>)
    ensures
        opt_yaml(r) == yaml_view(*v).first(),
{
    v.as_sequence().and_then(|s| s.first())
}

/// `serde_yaml::Value::as_str`: the text of a string.
#[verifier::external_body]
fn yaml_text(v: &serde_yaml::Value) -> (r: Option<&str>)
    ensures
        opt_str(r) == yaml_view(*v).text(),
{
    v.as_str()
}

/// The key in a configuration of the proxy.
pub open spec fn key_in(doc: Option<YamlView>) -> Option<Seq<char>> {
    match doc {
        Some(d) => match d.get("api-keys"@) {
            Some(keys) => match keys.first() {
                Some(k) => k.text(),
                None => None,
            },
            None => None,
        },
        None => None,
    }
}

/// The management secret in a configuration of the proxy.
pub open spec fn secret_in(doc: Option<YamlView>) -> Option<Seq<char>> {
    match doc {
        Some(d) => match d.get("remote-management"@) {
            Some(m) => match m.get("secret-key"@) {
                Some(k) => k.text(),
                None => None,
            },
            None => None,
        },
        None => None,
    }
}

/// The key in a configuration of the proxy.
pub fn stored_api_key(content: &str) -> (r: Option<String>)
    ensures
        opt_text(r) == key_in(yaml_parse(content@)),
{
    let doc = match read_yaml(content) {
        Some(d) => d,
        None => return None,
    };
    let keys = match yaml_get(&doc, "api-keys") {
        Some(k) => k,
        None => return None,
    };
    match yaml_first(keys) {
        Some(k) => match yaml_text(k) {
            Some(t) => Some(copy(t)),
            None => None,
        },
        None => None,
    }
}

/// The management secret in a configuration of the proxy.
pub fn stored_management_secret(content: &str) -> (r: Option<String>)
    ensures
        opt_text(r) == secret_in(yaml_parse(content@)),
{
    let doc = match read_yaml(content) {
        Some(d) => d,
        None => return None,
    };
    let management = match yaml_get(&doc, "remote-management") {
        Some(m) => m,
        None => return None,
    };
    match yaml_get(management, "secret-key") {
        Some(k) => match yaml_text(k) {
            Some(t) => Some(copy(t)),
            None => None,
        },
        None => None,
    }
}

/// The key of the proxy: the configured one, else a new random one.
pub fn load_or_create_api_key(content: Option<&str>) -> (r: String)
    ensures
        ({
            let stored = match content {
                Some(c) => key_in(yaml_parse(c@)),
                None => None,
            };
            &&& stored is Some ==> r@ == stored->Some_0
            &&& stored is None ==> "sk-"@.is_prefix_of(r@) && r@.len() == "sk-"@.len() + 36
        }),
{
    if let Some(c) = content {
        if let Some(k) = stored_api_key(c) {
            return k;
        }
    }
    let token = random_token();
    let key = cat("sk-", &token);
    assert("sk-"@ =~= key@.subrange(0, "sk-"@.len() as int));
    key
}

/// The management secret of the proxy: the configured one, else a new random one, and whether
/// it is new.
pub fn load_or_create_management_secret(content: Option<&str>) -> (r: (String, bool))
    ensures
        ({
            let stored = match content {
                Some(c) => secret_in(yaml_parse(c@)),
                None => None,
            };
            &&& r.1 == (stored is None)
            &&& stored is Some ==> r.0@ == stored->Some_0
            &&& stored is None ==> "sec-"@.is_prefix_of(r.0@) && r.0@.len() == "sec-"@.len() + 36
        }),
{
    if let Some(c) = content {
        if let Some(k) = stored_management_secret(c) {
            return (k, false);
        }
    }
    let token = random_token();
    let secret = cat("sec-", &token);
    assert("sec-"@ =~= secret@.subrange(0, "sec-"@.len() as int));
    (secret, true)
}

/// The value of a decimal digit.
pub open spec fn digit_value(c: char) -> Option<int> {
    if '0' <= c && c <= '9' {
        Some(c as int - '0' as int)
    } else {
        None
    }
}

/// The number that a row of digits denotes.
pub open spec fn digits_value(s: Seq<char>) -> Option<nat>
    decreases s.len(),
{
    if s.len() == 0 {
        Some(0)
    } else {
        match (digits_value(s.drop_last()), digit_value(s.last())) {
            (Some(n), Some(d)) => Some((n * 10 + d) as nat),
            _ => None,
        }
    }
}

/// The port that a text denotes: digits, a plus sign before them being allowed, and no more
/// than 65535.
pub open spec fn port_number(s: Seq<char>) -> Option<nat> {
    let digits = if s.len() > 0 && s[0] == '+' {
        s.skip(1)
    } else {
        s
    };
    if digits.len() == 0 {
        None
    } else {
        match digits_value(digits) {
            Some(n) => if n <= 65535 {
                Some(n)
            } else {
                None
            },
            None => None,
        }
    }
}

proof fn value_grows(s: Seq<char>, n: int)
    requires
        0 <= n <= s.len(),
    ensures
        digits_value(s.take(n)) is None ==> digits_value(s) is None,
        digits_value(s.take(n)) is Some && digits_value(s) is Some ==> digits_value(s)->Some_0
            >= digits_value(s.take(n))->Some_0,
    decreases s.len() - n,
{
    if n == s.len() {
        assert(s.take(n) =~= s);
    } else {
        assert(s.take(n + 1).drop_last() =~= s.take(n));
        value_grows(s, n + 1);
    }
}

/// The port that a text denotes.
pub fn parse_port(s: &str) -> (r: Option<u64>)
    ensures
        match r {
            Some(n) => port_number(s@) == Some(n as nat),
            None => port_number(s@) is None,
        },
{
    let c = chars_of(s);
    let start: usize = if c.len() > 0 && c[0] == '+' {
        1
    } else {
        0
    };
    let ghost digits = if s@.len() > 0 && s@[0] == '+' {
        s@.skip(1)
    } else {
        s@
    };
    if c.len() == start {
        return None;
    }
    let mut value: u64 = 0;
    let mut i: usize = start;
    assert(digits.take(0) =~= Seq::<char>::empty());
    while i < c.len()
        invariant
            start <= i <= c@.len(),
            c@ == s@,
            digits == (if s@.len() > 0 && s@[0] == '+' {
                s@.skip(1)
            } else {
                s@
            }),
            start == (if s@.len() > 0 && s@[0] == '+' {
                1int
            } else {
                0int
            }),
            digits.len() == c@.len() - start,
            digits.len() > 0,
            value <= 65535,
            digits_value(digits.take(i - start)) == Some(value as nat),
        decreases c@.len() - i,
    {
        let d = c[i];
        proof {
            take_step(digits, i - start);
            assert(digits[i - start] == d);
        }
        if !('0' <= d && d <= '9') {
            proof {
                value_grows(digits, i - start + 1);
            }
            return None;
        }
        let next: u64 = value * 10 + ((d as u32 - '0' as u32) as u64);
        assert(digits_value(digits.take(i - start + 1)) == Some(next as nat));
        if next > 65535 {
            proof {
                value_grows(digits, i - start + 1);
            }
            return None;
        }
        value = next;
        i += 1;
    }
    assert(digits.take(i - start) =~= digits);
    Some(value)
}

/// The host and the port of an endpoint, with what stands for them where they are missing.
pub open spec fn host_and_port(endpoint: Seq<char>) -> (Seq<char>, nat) {
    let addr = match stripped(endpoint, "http://"@) {
        Some(a) => a,
        None => endpoint,
    };
    match first_index(addr, ':') {
        Some(i) => (
            addr.take(i),
            match port_number(addr.skip(i + 1)) {
                Some(n) => n,
                None => 8317,
            },
        ),
        None => ("127.0.0.1"@, 8317),
    }
}

/// The configuration that is written for the proxy.
pub open spec fn proxy_config(endpoint: Seq<char>, dir: Seq<char>, api_key: Seq<char>, secret: Seq<char>) -> Seq<
    char,
> {
    let (host, port) = host_and_port(endpoint);
    "host: \""@ + host + "\"\nport: "@ + numeral(port) + "\nauth-dir: \""@ + dir
        + "/cli-proxy-api\"\napi-keys:\n  - \""@ + api_key
        + "\"\nremote-management:\n  secret-key: \""@ + secret
        + "\"\ndebug: false\ncodex-header-defaults:\n  user-agent: \"codex_cli_rs/0.128.0 (macos; arm64)\"\n"@
}

/// The configuration that is written for the proxy.
pub fn generate_config(endpoint: &str, dir: &str, api_key: &str, management_secret: &str) -> (r: String)
    ensures
        r@ == proxy_config(endpoint@, dir@, api_key@, management_secret@),
{
    let addr = match strip_prefix(endpoint, "http://") {
        Some(a) => a,
        None => endpoint,
    };
    let c = chars_of(addr);
    let n: usize = c.len();
    let (host, port) = match find_char(&c, ':') {
        Some(i) => {
            let h = text_of(&c, 0, i);
            let p = text_of(&c, i + 1, n);
            assert(h@ =~= addr@.take(i as int));
            assert(p@ =~= addr@.skip(i + 1));
            let number: u64 = match parse_port(&p) {
                Some(n) => n,
                None => 8317,
            };
            (h, number)
        },
        None => (copy("127.0.0.1"), 8317),
    };
    let digits = numeral_of(port);
    let mut s = cat3("host: \"", &host, "\"\nport: ");
    s.append(&digits);
    s.append("\nauth-dir: \"");
    s.append(dir);
    s.append("/cli-proxy-api\"\napi-keys:\n  - \"");
    s.append(api_key);
    s.append("\"\nremote-management:\n  secret-key: \"");
    s.append(management_secret);
    s.append(
        "\"\ndebug: false\ncodex-header-defaults:\n  user-agent: \"codex_cli_rs/0.128.0 (macos; arm64)\"\n",
    );
    s
}

/// The provider that the name of an account file tells: Anthropic's command line tool goes by
/// the name `tool`.
pub open spec fn file_provider(name: Seq<char>, tool: Seq<char>) -> Option<Seq<char>> {
    if !".json"@.is_suffix_of(name) {
        None
    } else if tool.is_prefix_of(name) {
        Some(tool)
    } else if "codex"@.is_prefix_of(name) {
        Some("codex"@)
    } else {
        None
    }
}

/// The provider that the name of an account file tells.
pub fn provider_of_file<'a>(name: &str, tool: &'a str) -> (r: Option<&'a str>)
    ensures
        opt_str(r) == file_provider(name@, tool@),
{
    if !ends_with(name, ".json") {
        None
    } else if starts_with(name, tool) {
        Some(tool)
    } else if starts_with(name, "codex") {
        Some("codex")
    } else {
        None
    }
}

/// Whether a file is an account file, of a provider where one is given.
pub open spec fn is_account(name: Seq<char>, provider: Option<Seq<char>>, tool: Seq<char>) -> bool {
    ".json"@.is_suffix_of(name) && match provider {
        Some(p) => p.is_prefix_of(name),
        None => tool.is_prefix_of(name) || "codex"@.is_prefix_of(name),
    }
}

/// Whether a file is an account file, of a provider where one is given.
pub fn is_account_file(name: &str, provider: Option<&str>, tool: &str) -> (r: bool)
    ensures
        r == is_account(name@, opt_str(provider), tool@),
{
    if !ends_with(name, ".json") {
        return false;
    }
    match provider {
        Some(p) => starts_with(name, p),
        None => starts_with(name, tool) || starts_with(name, "codex"),
    }
}

/// The number of account files of a provider among names.
pub open spec fn account_count(s: Seq<Seq<char>>, provider: Seq<char>) -> nat
    decreases s.len(),
{
    if s.len() == 0 {
        0
    } else {
        account_count(s.drop_last(), provider) + if is_account(s.last(), Some(provider), provider) {
            1nat
        } else {
            0nat
        }
    }
}

/// The number of account files of a provider among the names of a directory.
pub fn count_provider_accounts(names: &Vec<String>, prefix: &str) -> (r: usize)
    ensures
        r == account_count(texts(names@), prefix@),
{
    let ghost all = texts(names@);
    let mut n: usize = 0;
    let mut i: usize = 0;
    proof {
        take_ends(all);
    }
    while i < names.len()
        invariant
            i <= names@.len(),
            all == texts(names@),
            n <= i,
            n == account_count(all.take(i as int), prefix@),
        decreases names@.len() - i,
    {
        proof {
            take_step(all, i as int);
            assert(all[i as int] == names@[i as int]@);
        }
        if is_account_file(&names[i], Some(prefix), prefix) {
            n += 1;
        }
        i += 1;
    }
    proof {
        take_ends(all);
    }
    n
}

/// Whether there is an account file among the names of a directory.
pub fn check_auth_dir(names: &Vec<String>, provider: Option<&str>, tool: &str) -> (r: bool)
    ensures
        r == exists|i: int|
            0 <= i < names@.len() && is_account((#[trigger] names@[i])@, opt_str(provider), tool@),
{
    let mut i: usize = 0;
    while i < names.len()
        invariant
            i <= names@.len(),
            forall|j: int| 0 <= j < i ==> !is_account((#[trigger] names@[j])@, opt_str(provider), tool@),
        decreases names@.len() - i,
    {
        if is_account_file(&names[i], provider, tool) {
            return true;
        }
        i += 1;
    }
    false
}

/// Accounts by provider, with one more.
pub open spec fn with_account(providers: JsonView, provider: Seq<char>, account: JsonView) -> JsonView {
    let accounts = items_at(providers.at(provider), "accounts"@).push(account);
    providers.with(
        provider,
        JsonView::object().with("account_count"@, JsonView::uint(accounts.len() as u64)).with(
            "accounts"@,
            JsonView::Array(accounts),
        ),
    )
}

/// Accounts by provider, with one more.
pub fn add_account(providers: Json, provider: &str, account: Json) -> (r: Json)
    ensures
        r@ == with_account(providers@, provider@, account@),
{
    broadcast use {views_are, views_push};

    let entry = providers.at(provider);
    let mut accounts = match entry.array_at("accounts") {
        Some(a) => crate::json::copy_values(a),
        None => Vec::new(),
    };
    let ghost before = items_at(providers@.at(provider@), "accounts"@);
    let ghost new = account@;
    assert(views(accounts@) =~= before);
    accounts.push(account);
    assert(views(accounts@) == before.push(new));
    let n: u64 = accounts.len() as u64;
    providers.with(
        provider,
        Json::object().with("account_count", Json::uint(n)).with("accounts", Json::Array(accounts)),
    )
}

/// An account file: its name, and its content where it can be read.
#[derive(Debug)]
pub struct AccountFile {
    pub name: String,
    pub content: Option<String>,
}

/// An account file as a mathematical value.
pub struct AccountFileView {
    pub name: Seq<char>,
    pub content: Option<Seq<char>>,
}

impl AccountFile {
    pub open spec fn view(self) -> AccountFileView {
        AccountFileView { name: self.name@, content: opt_text(self.content) }
    }
}

/// The views of a list of account files.
pub open spec fn file_views(s: Seq<AccountFile>) -> Seq<AccountFileView> {
    s.map_values(|f: AccountFile| f@)
}

/// The value that the content of an account file holds, null where there is none.
pub open spec fn file_value(content: Option<Seq<char>>) -> JsonView {
    match content {
        Some(c) => match crate::codec::json_parse(c) {
            Some(v) => v,
            None => JsonView::Null,
        },
        None => JsonView::Null,
    }
}

/// The account that the value of an account file describes.
pub open spec fn file_account(v: JsonView) -> JsonView {
    JsonView::object().with("email"@, JsonView::Str(v.text_at("email"@))).with(
        "expiresAt"@,
        JsonView::Str(v.text_at("expired"@)),
    ).with("status"@, JsonView::Str("active"@))
}

/// The accounts of account files, by provider.
pub open spec fn file_accounts(s: Seq<AccountFileView>, tool: Seq<char>) -> JsonView
    decreases s.len(),
{
    if s.len() == 0 {
        JsonView::object()
    } else {
        let before = file_accounts(s.drop_last(), tool);
        match file_provider(s.last().name, tool) {
            Some(p) => with_account(before, p, file_account(file_value(s.last().content))),
            None => before,
        }
    }
}

/// The accounts that the files of a directory describe.
pub fn get_account_status(files: &Vec<AccountFile>, tool: &str) -> (r: Json)
    ensures
        r@ == JsonView::object().with("providers"@, file_accounts(file_views(files@), tool@)),
{
    let ghost all = file_views(files@);
    let mut providers = Json::object();
    let mut i: usize = 0;
    proof {
        take_ends(all);
    }
    while i < files.len()
        invariant
            i <= files@.len(),
            all == file_views(files@),
            providers@ == file_accounts(all.take(i as int), tool@),
        decreases files@.len() - i,
    {
        proof {
            take_step(all, i as int);
            assert(all[i as int] == files@[i as int]@);
        }
        if let Some(p) = provider_of_file(&files[i].name, tool) {
            let value = match &files[i].content {
                Some(c) => match Json::parse(c) {
                    Some(v) => v,
                    None => Json::Null,
                },
                None => Json::Null,
            };
            let account = Json::object().with("email", Json::Str(value.text_at("email"))).with(
                "expiresAt",
                Json::Str(value.text_at("expired")),
            ).with("status", Json::str("active"));
            providers = add_account(providers, p, account);
        }
        i += 1;
    }
    proof {
        take_ends(all);
    }
    Json::object().with("providers", providers)
}

/// The option with which the proxy begins a login, and whether a code has to be entered.
pub open spec fn login_option(provider: Seq<char>, tool: Seq<char>) -> Option<(Seq<char>, bool)> {
    if provider == tool {
        Some((tool + "-login"@, false))
    } else if provider == "codex"@ {
        Some(("codex-login"@, false))
    } else if provider == "codex-device"@ {
        Some(("codex-device-login"@, true))
    } else {
        None
    }
}

/// The option with which the proxy begins a login, and whether a code has to be entered:
/// Anthropic's command line tool goes by the name `tool`.
pub fn login_flag(provider: &str, tool: &str) -> (r: Option<(String, bool)>)
    ensures
        match r {
            Some((flag, device)) => login_option(provider@, tool@) == Some((flag@, device)),
            None => login_option(provider@, tool@) is None,
        },
{
    if same(provider, tool) {
        Some((cat(tool, "-login"), false))
    } else if same(provider, "codex") {
        Some((copy("codex-login"), false))
    } else if same(provider, "codex-device") {
        Some((copy("codex-device-login"), true))
    } else {
        None
    }
}

/// `s` without the copies of `p` at its start.
pub open spec fn without_leading(s: Seq<char>, p: Seq<char>) -> Seq<char>
    decreases s.len(),
{
    if p.len() > 0 && p.is_prefix_of(s) {
        without_leading(s.skip(p.len() as int), p)
    } else {
        s
    }
}

/// `s` without the copies of `p` at its start.
fn strip_leading(s: &str, p: &str) -> (r: String)
    ensures
        r@ == without_leading(s@, p@),
    decreases s@.len(),
{
    if !p.is_empty() {
        if let Some(rest) = strip_prefix(s, p) {
            return strip_leading(rest, p);
        }
    }
    copy(s)
}

/// What has been found in the output of a login so far.
pub struct ScanView {
    pub is_device: bool,
    /// The next line is the URL.
    pub expecting: bool,
    pub auth_url: Option<Seq<char>>,
    pub device_code: Option<Seq<char>>,
}

/// What follows a mark at the start of a line, where the mark is there.
pub open spec fn marked(line: Seq<char>, mark: Seq<char>) -> Option<Seq<char>> {
    if mark.is_prefix_of(line) {
        Some(trimmed(without_leading(line, mark)))
    } else {
        None
    }
}

/// What is found in one more line of the output of a login.
pub open spec fn scanned(s: ScanView, line: Seq<char>) -> ScanView {
    let text = trimmed(line);
    if s.auth_url is Some {
        s
    } else if s.is_device {
        ScanView {
            auth_url: marked(text, "Codex device URL: "@),
            device_code: match marked(text, "Codex device code: "@) {
                Some(c) => Some(c),
                None => s.device_code,
            },
            ..s
        }
    } else if s.expecting {
        ScanView { auth_url: Some(text), ..s }
    } else {
        ScanView {
            expecting: occurs(text, "Visit the following URL to continue authentication:"@),
            ..s
        }
    }
}

/// Reads the output of a login, line by line, until it tells where to go.
#[derive(Debug)]
pub struct LoginScan {
    is_device: bool,
    expecting: bool,
    auth_url: Option<String>,
    device_code: Option<String>,
}

impl LoginScan {
    pub closed spec fn view(self) -> ScanView {
        ScanView {
            is_device: self.is_device,
            expecting: self.expecting,
            auth_url: opt_text(self.auth_url),
            device_code: opt_text(self.device_code),
        }
    }

    /// Nothing has been read.
    pub fn new(is_device: bool) -> (r: LoginScan)
        ensures
            r@ == (ScanView { is_device, expecting: false, auth_url: None, device_code: None }),
    {
        LoginScan { is_device, expecting: false, auth_url: None, device_code: None }
    }

    /// Reads a line and tells whether the URL is known.
    pub fn feed(&mut self, line: &str) -> (r: bool)
        ensures
            final(self)@ == scanned(old(self)@, line@),
            r == (final(self)@.auth_url is Some),
    {
        if self.auth_url.is_some() {
            return true;
        }
        let text = trim(line);
        if self.is_device {
            if starts_with(text, "Codex device URL: ") {
                let rest = strip_leading(text, "Codex device URL: ");
                self.auth_url = Some(copy(trim(&rest)));
            }
            if starts_with(text, "Codex device code: ") {
                let rest = strip_leading(text, "Codex device code: ");
                self.device_code = Some(copy(trim(&rest)));
            }
            self.auth_url.is_some()
        } else if self.expecting {
            self.auth_url = Some(copy(text));
            true
        } else {
            self.expecting = contains(text, "Visit the following URL to continue authentication:");
            false
        }
    }

    /// What the login begins with, where the URL is known.
    pub fn result(self) -> (r: Option<LoginResult>)
        ensures
            match r {
                Some(l) => self@.auth_url == Some(l.auth_url@) && self@.device_code == opt_text(
                    l.device_code,
                ),
                None => self@.auth_url is None,
            },
    {
        match self.auth_url {
            Some(url) => Some(LoginResult { auth_url: url, device_code: self.device_code }),
            None => None,
        }
    }
}

/// What is known of the process of the proxy.
#[derive(Debug, Clone, Copy, PartialEq, Eq, Structural)]
pub enum ChildState {
    Alive,
    Exited,
    /// There is none, or it cannot be asked.
    Unknown,
}

/// What the monitor of the proxy does next.
#[derive(Debug, Clone, Copy, PartialEq, Eq, Structural)]
pub enum MonitorAction {
    /// End the monitor.
    Stop,
    /// Look again later.
    Wait,
    /// Note that the proxy does not run, and start it again.
    RestartExited,
    /// Start it again.
    Restart,
    /// Ask it whether it is well.
    CheckHealth,
}

/// What the monitor does on seeing the process.
pub fn monitor_step(shutdown: bool, running: bool, child: ChildState) -> (r: MonitorAction)
    ensures
        r == (if shutdown {
            MonitorAction::Stop
        } else if !running {
            MonitorAction::Wait
        } else {
            match child {
                ChildState::Exited => MonitorAction::RestartExited,
                ChildState::Unknown => MonitorAction::Restart,
                ChildState::Alive => MonitorAction::CheckHealth,
            }
        }),
{
    if shutdown {
        MonitorAction::Stop
    } else if !running {
        MonitorAction::Wait
    } else {
        match child {
            ChildState::Exited => MonitorAction::RestartExited,
            ChildState::Unknown => MonitorAction::Restart,
            ChildState::Alive => MonitorAction::CheckHealth,
        }
    }
}

/// How often the proxy is looked after while something is awaited of it.
pub const WAIT_MAX_ATTEMPTS: u16 = 30;

/// How waiting for the proxy goes on.
#[derive(Debug, Clone, Copy, PartialEq, Eq, Structural)]
pub enum WaitAction {
    /// What was awaited is there.
    Done,
    /// Look again later.
    Again,
    /// It has taken too long.
    GiveUp,
}

/// How waiting for the proxy goes on after a look at it; the first look is number one.
pub fn wait_step(attempt: u16, ready: bool) -> (r: WaitAction)
    ensures
        r == (if ready {
            WaitAction::Done
        } else if attempt < WAIT_MAX_ATTEMPTS {
            WaitAction::Again
        } else {
            WaitAction::GiveUp
        }),
{
    if ready {
        WaitAction::Done
    } else if attempt < WAIT_MAX_ATTEMPTS {
        WaitAction::Again
    } else {
        WaitAction::GiveUp
    }
}

/// Where the proxy tells whether it is well.
pub fn health_url(endpoint: &str) -> (r: String)
    ensures
        r@ == endpoint@ + "/healthz"@,
{
    cat(endpoint, "/healthz")
}

} // verus!
