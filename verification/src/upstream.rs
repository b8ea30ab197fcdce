//! Where a supplier is reached: the base URL that is saved, and the URL of a request.

use vstd::prelude::*;
use vstd::utf8::*;

use crate::text;
use crate::text::{concat2, decimal, same, strip_suffix_or_all, trim_end_char};

verus! {

/// A URL, and what the gateway reads of it.
pub struct UpstreamUrl {
    pub text: String,
    pub scheme: String,
    pub path: String,
    pub host: Option<String>,
    pub port: Option<u16>,
    /// The path is opaque: it does not begin with a slash, and no host stands before it.
    pub opaque: bool,
    /// The bytes before the path.
    pub path_start: usize,
    /// The bytes before the fragment, or all bytes where there is none.
    pub query_end: usize,
}

pub ghost struct UrlView {
    pub text: Seq<char>,
    pub scheme: Seq<char>,
    pub path: Seq<char>,
    pub host: Option<Seq<char>>,
    pub port: Option<u16>,
    pub opaque: bool,
    pub path_start: usize,
    pub query_end: usize,
}

impl View for UpstreamUrl {
    type V = UrlView;

    open spec fn view(&self) -> UrlView {
        UrlView {
            text: self.text@,
            scheme: self.scheme@,
            path: self.path@,
            host: text::opt_string_view(self.host),
            port: self.port,
            opaque: self.opaque,
            path_start: self.path_start,
            query_end: self.query_end,
        }
    }
}

impl UpstreamUrl {
    /// The whole URL.
    pub fn as_str(&self) -> (text: &str)
        ensures
            text@ == self@.text,
    {
        self.text.as_str()
    }
}

/// What `url::Url::parse` makes of a text: the URL, or the message of its error.
pub uninterp spec fn url_parsed(text: Seq<char>) -> Result<UrlView, Seq<char>>;

/// The URL that comes of `Url::set_path` and `Url::set_query` on the URL of a text.
pub uninterp spec fn url_with(
    base: Seq<char>,
    path: Seq<char>,
    query: Option<Seq<char>>,
) -> UrlView;

/// What a result of a URL stands for.
pub open spec fn url_result_view(result: Result<UpstreamUrl, String>) -> Result<
    UrlView,
    Seq<char>,
> {
    match result {
        Ok(url) => Ok(url@),
        Err(message) => Err(message@),
    }
}

/// `url::Url::parse`: its result depends on the text alone. The error is kept as its message.
#[verifier::external_body]
fn parse_url(text: &str) -> (result: Result<UpstreamUrl, String>)
    ensures
        url_result_view(result) == url_parsed(text@),
{
    let url = url::Url::parse(text).map_err(|err| err.to_string())?;
    Ok(UpstreamUrl {
        text: url.as_str().to_string(),
        scheme: url.scheme().to_string(),
        path: url.path().to_string(),
        host: url.host_str().map(str::to_string),
        port: url.port(),
        opaque: url.cannot_be_a_base(),
        path_start: url[..url::Position::BeforePath].len(),
        query_end: url[..url::Position::AfterQuery].len(),
    })
}

/// The bytes of a URL that `url` can count: its offsets have this type.
pub const MAX_URL_BYTES: u128 = 4_294_967_295;

/// A part of a URL, by the bytes that are escaped in it.
#[derive(Clone, Copy, Debug, PartialEq, Eq, Structural)]
pub enum UrlPart {
    Path,
    OpaquePath,
    Query,
    /// The query of a scheme such as those of the web.
    SpecialQuery,
}

/// A byte that is escaped in a part of a URL.
pub open spec fn is_escaped(part: UrlPart, byte: u8) -> bool {
    ||| byte < 0x20 || byte >= 0x7f
    ||| part != UrlPart::OpaquePath && (byte == 0x20 || byte == 0x22 || byte == 0x23 || byte == 0x3c
        || byte == 0x3e)
    ||| part == UrlPart::Path && (byte == 0x3f || byte == 0x60 || byte == 0x7b || byte == 0x7d)
    ||| part == UrlPart::SpecialQuery && byte == 0x27
}

/// The bytes that a byte takes in a part of a URL: none for a tab or the end of a line, three where
/// it is escaped.
pub open spec fn byte_cost(part: UrlPart, byte: u8) -> nat {
    if byte == 0x09 || byte == 0x0a || byte == 0x0d {
        0
    } else if is_escaped(part, byte) {
        3
    } else {
        1
    }
}

/// The bytes that the first `n` bytes take in a part of a URL.
pub open spec fn cost(part: UrlPart, bytes: Seq<u8>, n: nat) -> nat
    decreases n,
{
    if n == 0 {
        0
    } else {
        cost(part, bytes, (n - 1) as nat) + byte_cost(part, bytes[n - 1])
    }
}

/// The bytes that a text takes in a part of a URL.
pub open spec fn text_cost(part: UrlPart, value: Seq<char>) -> nat {
    cost(part, encode_utf8(value), encode_utf8(value).len())
}

/// The schemes that escape the apostrophe in a query.
pub open spec fn is_special(scheme: Seq<char>) -> bool {
    scheme == "http"@ || scheme == "https"@ || scheme == "ws"@ || scheme == "wss"@ || scheme
        == "ftp"@ || scheme == "file"@
}

/// The bytes that a new path takes. A slash is put before a path without one, and may be put behind
/// the letter of a drive in a path of files; the slash before an opaque path is escaped. Segments
/// of dots are counted as they are written.
pub open spec fn path_cost(url: UrlView, path: Seq<char>) -> nat {
    let slash = path.len() > 0 && path[0] == '/';
    if url.opaque {
        text_cost(UrlPart::OpaquePath, path) + if slash {
            2nat
        } else {
            0
        }
    } else {
        text_cost(UrlPart::Path, path) + (if slash {
            0nat
        } else {
            1
        }) + (if url.scheme == "file"@ {
            1nat
        } else {
            0
        })
    }
}

/// The bytes that a new query takes, with its question mark.
pub open spec fn query_cost(url: UrlView, query: Option<Seq<char>>) -> nat {
    match query {
        Some(query) => if is_special(url.scheme) {
            1 + text_cost(UrlPart::SpecialQuery, query)
        } else {
            1 + text_cost(UrlPart::Query, query)
        },
        None => 0,
    }
}

/// A URL can get a new path and a new query: `url` counts where its path ends before and after, and
/// where its fragment begins if it has one.
pub open spec fn has_room(url: UrlView, path: Seq<char>, query: Option<Seq<char>>) -> bool {
    let old_end = url.path_start + encode_utf8(url.path).len();
    let end = url.path_start + path_cost(url, path);
    &&& old_end <= MAX_URL_BYTES
    &&& end <= MAX_URL_BYTES
    &&& url.query_end < encode_utf8(url.text).len() ==> {
        &&& end + (url.query_end - old_end) < MAX_URL_BYTES
        &&& end + query_cost(url, query) <= MAX_URL_BYTES
    }
}

/// The URL of a text, with another path and another query, can be counted.
pub open spec fn fits(base: Seq<char>, path: Seq<char>, query: Option<Seq<char>>) -> bool {
    match url_parsed(base) {
        Ok(url) => has_room(url, path, query),
        Err(_) => true,
    }
}

/// `url::Url::parse`, then `Url::set_path` and `Url::set_query`: the result depends on the texts
/// alone, and fails as the parse does. Neither changes the scheme, the host or the port. What the
/// two write for a path and a query is left unsaid. They panic where an offset is too large to be
/// counted.
#[verifier::external_body]
fn compose_url(base: &str, path: &str, query: Option<&str>) -> (result: Result<UpstreamUrl, String>)
    requires
        fits(base@, path@, text::opt_str_view(query)),
    ensures
        match result {
            Ok(url) => {
                &&& url_parsed(base@) is Ok
                &&& url@ == url_with(base@, path@, text::opt_str_view(query))
                &&& url@.scheme == url_parsed(base@)->Ok_0.scheme
                &&& url@.host == url_parsed(base@)->Ok_0.host
                &&& url@.port == url_parsed(base@)->Ok_0.port
            },
            Err(message) => url_parsed(base@) == Err::<UrlView, Seq<char>>(message@),
        },
{
    let mut url = url::Url::parse(base).map_err(|err| err.to_string())?;
    url.set_path(path);
    url.set_query(query);
    Ok(UpstreamUrl {
        text: url.as_str().to_string(),
        scheme: url.scheme().to_string(),
        path: url.path().to_string(),
        host: url.host_str().map(str::to_string),
        port: url.port(),
        opaque: url.cannot_be_a_base(),
        path_start: url[..url::Position::BeforePath].len(),
        query_end: url[..url::Position::AfterQuery].len(),
    })
}

/// A base URL without the blanks round it and the slashes behind it.
pub open spec fn trimmed_base_url(value: Seq<char>) -> Seq<char> {
    text::trim_end_char_view(text::trim_view(value), '/')
}

/// A base URL that may be saved: one of the web. `parsed` is what the URL parser makes of it.
pub open spec fn accepted_base_url(
    base_url: Seq<char>,
    parsed: Result<UrlView, Seq<char>>,
) -> Result<Seq<char>, Seq<char>> {
    if base_url.len() == 0 {
        Err("base_url must not be empty"@)
    } else {
        match parsed {
            Ok(url) => if url.scheme == "http"@ || url.scheme == "https"@ {
                Ok(base_url)
            } else {
                Err("unsupported base_url scheme: "@ + url.scheme)
            },
            Err(message) => Err("invalid base_url: "@ + message),
        }
    }
}

/// The base URL that is saved for a value.
pub open spec fn normal_base_url(value: Seq<char>) -> Result<Seq<char>, Seq<char>> {
    accepted_base_url(trimmed_base_url(value), url_parsed(trimmed_base_url(value)))
}

/// What a result of a text stands for.
pub open spec fn text_result_view(result: Result<String, String>) -> Result<Seq<char>, Seq<char>> {
    match result {
        Ok(text) => Ok(text@),
        Err(message) => Err(message@),
    }
}

/// Whether a base URL may be saved, where `parsed` is what the URL parser makes of it.
pub fn accept_base_url(base_url: String, parsed: Result<UpstreamUrl, String>) -> (result: Result<
    String,
    String,
>)
    ensures
        text_result_view(result) == accepted_base_url(base_url@, url_result_view(parsed)),
{
    if base_url.as_str().is_empty() {
        return Err("base_url must not be empty".to_string());
    }
    match parsed {
        Ok(url) => if same(url.scheme.as_str(), "http") || same(url.scheme.as_str(), "https") {
            Ok(base_url)
        } else {
            Err(concat2("unsupported base_url scheme: ", url.scheme.as_str()))
        },
        Err(message) => Err(concat2("invalid base_url: ", message.as_str())),
    }
}

/// The base URL that is saved for a value.
pub fn normalize_base_url(value: &str) -> (result: Result<String, String>)
    ensures
        text_result_view(result) == normal_base_url(value@),
{
    let base_url = trim_end_char(value.trim(), '/').to_string();
    let parsed = parse_url(base_url.as_str());
    accept_base_url(base_url, parsed)
}

/// The path of a base URL without the version and the slashes behind it.
pub open spec fn base_path_view(url_path: Seq<char>) -> Seq<char> {
    text::trim_end_char_view(
        text::without_suffix(text::trim_end_char_view(url_path, '/'), "/v1"@),
        '/',
    )
}

/// The path of a request: that of the base URL, without a version of its own, and then the path
/// that the endpoint has there.
pub open spec fn combined_path_view(url_path: Seq<char>, path: Seq<char>) -> Seq<char> {
    base_path_view(url_path) + path
}

/// The path of a request.
pub fn combined_path(url_path: &str, path: &str) -> (combined: String)
    ensures
        combined@ == combined_path_view(url_path@, path@),
{
    let base_path = trim_end_char(
        strip_suffix_or_all(trim_end_char(url_path, '/'), "/v1"),
        '/',
    );
    concat2(base_path, path)
}

/// The URL of a request.
pub open spec fn upstream_url(
    base_url: Seq<char>,
    path: Seq<char>,
    query: Option<Seq<char>>,
) -> Result<UrlView, Seq<char>> {
    match url_parsed(base_url) {
        Ok(base) => Ok(url_with(base_url, combined_path_view(base.path, path), query)),
        Err(message) => Err("Invalid base_url: "@ + message),
    }
}

/// The URL of a request can be counted.
pub open spec fn countable(base: Seq<char>, path: Seq<char>, query: Option<Seq<char>>) -> bool {
    match url_parsed(base) {
        Ok(url) => fits(base, combined_path_view(url.path, path), query),
        Err(_) => true,
    }
}

/// The URL of a request, where it can be counted.
pub fn build_upstream_url(base_url: &str, path: &str, query: Option<&str>) -> (result: Result<
    UpstreamUrl,
    String,
>)
    requires
        countable(base_url@, path@, text::opt_str_view(query)),
    ensures
        url_result_view(result) == upstream_url(base_url@, path@, text::opt_str_view(query)),
        result matches Ok(url) ==> {
            &&& url@.scheme == url_parsed(base_url@)->Ok_0.scheme
            &&& url@.host == url_parsed(base_url@)->Ok_0.host
            &&& url@.port == url_parsed(base_url@)->Ok_0.port
        },
{
    let base = match parse_url(base_url) {
        Ok(base) => base,
        Err(message) => {
            return Err(concat2("Invalid base_url: ", message.as_str()));
        },
    };
    let path = combined_path(base.path.as_str(), path);
    match compose_url(base_url, path.as_str(), query) {
        Ok(url) => Ok(url),
        Err(message) => Err(concat2("Invalid base_url: ", message.as_str())),
    }
}

/// The bytes that a byte takes in a part of a URL.
fn count_byte(part: UrlPart, byte: u8) -> (count: u128)
    ensures
        count == byte_cost(part, byte),
{
    if byte == 0x09 || byte == 0x0a || byte == 0x0d {
        return 0;
    }
    let mark = byte == 0x20 || byte == 0x22 || byte == 0x23 || byte == 0x3c || byte == 0x3e;
    let escaped = byte < 0x20 || byte >= 0x7f || match part {
        UrlPart::Path => mark || byte == 0x3f || byte == 0x60 || byte == 0x7b || byte == 0x7d,
        UrlPart::OpaquePath => false,
        UrlPart::Query => mark,
        UrlPart::SpecialQuery => mark || byte == 0x27,
    };
    if escaped {
        3
    } else {
        1
    }
}

/// The bytes that a text takes in a part of a URL.
fn count_text(part: UrlPart, value: &str) -> (count: u128)
    ensures
        count == text_cost(part, value@),
        count <= 3 * usize::MAX,
{
    let bytes = value.as_bytes();
    let mut count: u128 = 0;
    let mut i: usize = 0;
    while i < bytes.len()
        invariant
            i <= bytes@.len(),
            bytes@ == encode_utf8(value@),
            count == cost(part, bytes@, i as nat),
            count <= 3 * i,
        decreases bytes@.len() - i,
    {
        count = count + count_byte(part, bytes[i]);
        i = i + 1;
    }
    count
}

/// The bytes that a new path takes.
fn count_path(url: &UpstreamUrl, path: &str) -> (count: u128)
    ensures
        count == path_cost(url@, path@),
        count <= 3 * usize::MAX + 2,
{
    let slash = path.unicode_len() > 0 && path.get_char(0) == '/';
    if url.opaque {
        let extra: u128 = if slash {
            2
        } else {
            0
        };
        count_text(UrlPart::OpaquePath, path) + extra
    } else {
        let before: u128 = if slash {
            0
        } else {
            1
        };
        let drive: u128 = if same(url.scheme.as_str(), "file") {
            1
        } else {
            0
        };
        count_text(UrlPart::Path, path) + before + drive
    }
}

/// The bytes that a new query takes.
fn count_query(url: &UpstreamUrl, query: Option<&str>) -> (count: u128)
    ensures
        count == query_cost(url@, text::opt_str_view(query)),
        count <= 3 * usize::MAX + 1,
{
    let scheme = url.scheme.as_str();
    match query {
        Some(query) => {
            let special = same(scheme, "http") || same(scheme, "https") || same(scheme, "ws")
                || same(scheme, "wss") || same(scheme, "ftp") || same(scheme, "file");
            if special {
                1 + count_text(UrlPart::SpecialQuery, query)
            } else {
                1 + count_text(UrlPart::Query, query)
            }
        },
        None => 0,
    }
}

/// Whether a URL can get a new path and a new query.
fn check_room(url: &UpstreamUrl, path: &str, query: Option<&str>) -> (room: bool)
    ensures
        room == has_room(url@, path@, text::opt_str_view(query)),
{
    let path_bytes: usize = url.path.as_str().as_bytes().len();
    let old_end: u128 = url.path_start as u128 + path_bytes as u128;
    let end: u128 = url.path_start as u128 + count_path(url, path);
    if old_end > MAX_URL_BYTES || end > MAX_URL_BYTES {
        return false;
    }
    let text_bytes: usize = url.text.as_str().as_bytes().len();
    if url.query_end >= text_bytes {
        return true;
    }
    end + (url.query_end as u128) < MAX_URL_BYTES + old_end && end + count_query(url, query)
        <= MAX_URL_BYTES
}

/// The URL of a request; none where it cannot be counted.
pub fn try_build_upstream_url(base_url: &str, path: &str, query: Option<&str>) -> (result: Option<
    Result<UpstreamUrl, String>,
>)
    ensures
        match result {
            Some(result) => {
                &&& countable(base_url@, path@, text::opt_str_view(query))
                &&& url_result_view(result) == upstream_url(
                    base_url@,
                    path@,
                    text::opt_str_view(query),
                )
            },
            None => !countable(base_url@, path@, text::opt_str_view(query)),
        },
{
    if let Ok(base) = parse_url(base_url) {
        let combined = combined_path(base.path.as_str(), path);
        if !check_room(&base, combined.as_str(), query) {
            return None;
        }
    }
    Some(build_upstream_url(base_url, path, query))
}

/// The host, and the port where it is not the one that the scheme has.
pub open spec fn authority_view(url: UrlView) -> Result<Seq<char>, Seq<char>> {
    match url.host {
        Some(host) => match url.port {
            Some(port) => Ok(host + ":"@ + text::decimal_view(port as nat)),
            None => Ok(host),
        },
        None => Err("upstream url is missing host"@),
    }
}

/// The host, and the port where it is not the one that the scheme has.
pub fn upstream_authority(url: &UpstreamUrl) -> (result: Result<String, String>)
    ensures
        text_result_view(result) == authority_view(url@),
{
    match &url.host {
        Some(host) => match url.port {
            Some(port) => Ok(
                concat2(concat2(host.as_str(), ":").as_str(), decimal(port as u128).as_str()),
            ),
            None => Ok(host.clone()),
        },
        None => Err("upstream url is missing host".to_string()),
    }
}

/// A base URL may name the version of the interface or not: requests go to the same path.
pub proof fn version_is_not_doubled(url_path: Seq<char>, path: Seq<char>)
    requires
        !text::has_suffix(text::trim_end_char_view(url_path, '/'), "/v1"@),
    ensures
        combined_path_view(url_path + "/v1"@, path) == combined_path_view(url_path, path),
{
    reveal_strlit("/v1");
    let named = url_path + "/v1"@;
    assert(named.last() == '1');
    assert(text::trim_end_char_view(named, '/') == named);
    assert(named.skip(named.len() - 3) =~= "/v1"@);
    assert(named.take(named.len() - 3) =~= url_path);
    text::trim_end_char_twice(url_path, '/');
}

/// Slashes behind a base URL make no difference.
pub proof fn slashes_make_no_difference(url_path: Seq<char>, path: Seq<char>)
    ensures
        combined_path_view(url_path.push('/'), path) == combined_path_view(url_path, path),
{
    assert(url_path.push('/').drop_last() =~= url_path);
}

/// A saved base URL is saved as it is when it is saved again, where it has no blank at its end.
pub proof fn saved_base_url_is_stable(value: Seq<char>)
    requires
        normal_base_url(value) is Ok,
        !text::is_white(normal_base_url(value)->Ok_0.last()),
    ensures
        normal_base_url(normal_base_url(value)->Ok_0) == normal_base_url(value),
{
    let saved = trimmed_base_url(value);
    text::trim_end_char_prefix(text::trim_view(value), '/');
    text::trim_view_ends(value);
    assert(saved.len() > 0);
    assert(saved[0] == text::trim_view(value)[0]);
    assert(text::trim_start_view(saved) == saved);
    assert(text::trim_end_view(saved) == saved);
    text::trim_end_char_twice(text::trim_view(value), '/');
}

} // verus!
