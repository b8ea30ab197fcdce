//! Headers: which of a client's headers go to the supplier, which of the supplier's come back, and
//! who may come in.

use vstd::prelude::*;
use vstd::utf8::*;

use axum::http::{HeaderMap, HeaderName, HeaderValue};
use base64::Engine;

use crate::text;
use crate::text::{
    ascii_lower,
    concat2,
    same,
    same_ignoring_case,
    split_at_char,
    strip_prefix,
    text_of_bytes,
};

verus! {

/// `http::HeaderMap`, the headers of a request or an answer.
#[verifier::external_type_specification]
#[verifier::external_body]
#[verifier::reject_recursive_types(T)]
pub struct ExHeaderMap<T>(axum::http::HeaderMap<T>);

/// `http::HeaderName`, the name of a header.
#[verifier::external_type_specification]
#[verifier::external_body]
pub struct ExHeaderName(axum::http::HeaderName);

/// `http::HeaderValue`, a value of a header.
#[verifier::external_type_specification]
#[verifier::external_body]
pub struct ExHeaderValue(axum::http::HeaderValue);

/// Headers: the values of each name, in their order.
pub type HeadersView = Map<Seq<char>, Seq<Seq<u8>>>;

/// What a `HeaderMap` holds.
pub uninterp spec fn header_contents(headers: axum::http::HeaderMap) -> HeadersView;

/// The characters that a `HeaderName` holds.
pub uninterp spec fn name_text(name: axum::http::HeaderName) -> Seq<char>;

/// The bytes that a `HeaderValue` holds.
pub uninterp spec fn value_bytes(value: axum::http::HeaderValue) -> Seq<u8>;

/// The number of names below which a `HeaderMap` always takes one more: it refuses to grow beyond
/// its largest table, which it may have reached once a fifth of that table is in use.
pub const MAX_NAMES: usize = 6_500;

/// No headers.
pub open spec fn no_headers() -> HeadersView {
    Map::empty()
}

/// The headers with one more value of a name.
pub open spec fn appended(headers: HeadersView, name: Seq<char>, value: Seq<u8>) -> HeadersView {
    if headers.contains_key(name) {
        headers.insert(name, headers[name].push(value))
    } else {
        headers.insert(name, seq![value])
    }
}

/// The headers that a list of names and values stands for.
pub open spec fn grouped(entries: Seq<(HeaderName, HeaderValue)>) -> HeadersView
    decreases entries.len(),
{
    if entries.len() == 0 {
        Map::empty()
    } else {
        appended(
            grouped(entries.drop_last()),
            name_text(entries.last().0),
            value_bytes(entries.last().1),
        )
    }
}

/// `HeaderMap::new`: no headers.
#[verifier::external_body]
pub(crate) fn new_headers() -> (headers: HeaderMap)
    ensures
        header_contents(headers) == no_headers(),
{
    HeaderMap::new()
}

/// `HeaderMap::iter`: each name with each of its values. The values of a name come in their order;
/// in which order the names come is left unsaid.
#[verifier::external_body]
fn header_entries(headers: &HeaderMap) -> (entries: Vec<(HeaderName, HeaderValue)>)
    ensures
        grouped(entries@) == header_contents(*headers),
{
    headers.iter().map(|(name, value)| (name.clone(), value.clone())).collect()
}

/// `HeaderMap::append`: the value comes behind those that the name has.
#[verifier::external_body]
fn append_header(headers: &mut HeaderMap, name: &HeaderName, value: &HeaderValue)
    requires
        header_contents(*old(headers)).dom().finite(),
        header_contents(*old(headers)).dom().len() < MAX_NAMES,
    ensures
        header_contents(*final(headers)) == appended(
            header_contents(*old(headers)),
            name_text(*name),
            value_bytes(*value),
        ),
{
    headers.append(name.clone(), value.clone());
}

/// `HeaderMap::insert`: the value comes in place of those that the name has.
#[verifier::external_body]
fn insert_header(headers: &mut HeaderMap, name: HeaderName, value: HeaderValue)
    requires
        header_contents(*old(headers)).dom().finite(),
        header_contents(*old(headers)).dom().len() < MAX_NAMES,
    ensures
        header_contents(*final(headers)) == header_contents(*old(headers)).insert(
            name_text(name),
            seq![value_bytes(value)],
        ),
{
    headers.insert(name, value);
}

/// `HeaderMap::get`: the first value of the name.
#[verifier::external_body]
fn get_header<'a>(headers: &'a HeaderMap, name: &HeaderName) -> (value: Option<&'a HeaderValue>)
    ensures
        match value {
            Some(value) => {
                &&& header_contents(*headers).contains_key(name_text(*name))
                &&& header_contents(*headers)[name_text(*name)].len() > 0
                &&& value_bytes(*value) == header_contents(*headers)[name_text(*name)][0]
            },
            None => !header_contents(*headers).contains_key(name_text(*name)),
        },
{
    headers.get(name)
}

/// `HeaderName::as_str`: the characters of the name.
#[verifier::external_body]
fn header_name_str(name: &HeaderName) -> (text: &str)
    ensures
        text@ == name_text(*name),
{
    name.as_str()
}

/// `http::header::HOST`.
#[verifier::external_body]
fn host_name() -> (name: HeaderName)
    ensures
        name_text(name) == "host"@,
{
    axum::http::header::HOST
}

/// `http::header::AUTHORIZATION`.
#[verifier::external_body]
fn authorization_name() -> (name: HeaderName)
    ensures
        name_text(name) == "authorization"@,
{
    axum::http::header::AUTHORIZATION
}

/// `http::header::CONTENT_TYPE`.
#[verifier::external_body]
fn content_type_name() -> (name: HeaderName)
    ensures
        name_text(name) == "content-type"@,
{
    axum::http::header::CONTENT_TYPE
}

/// A byte that a header may hold.
pub open spec fn is_header_byte(b: u8) -> bool {
    (b >= 32 && b != 127) || b == 9
}

/// A text that a header may hold.
pub open spec fn is_header_text(text: Seq<char>) -> bool {
    forall|i: int|
        0 <= i < encode_utf8(text).len() ==> is_header_byte(#[trigger] encode_utf8(text)[i])
}

/// A byte that is a character of ASCII with a shape, a blank or a tab.
pub open spec fn is_visible_byte(b: u8) -> bool {
    (32 <= b < 127) || b == 9
}

/// `HeaderValue::from_str`: the bytes of the text, where all of them may stand in a header.
#[verifier::external_body]
fn header_value(text: &str) -> (value: Result<HeaderValue, String>)
    ensures
        match value {
            Ok(value) => is_header_text(text@) && value_bytes(value) == encode_utf8(text@),
            Err(message) => !is_header_text(text@) && message@ == "failed to parse header value"@,
        },
{
    HeaderValue::from_str(text).map_err(|err| err.to_string())
}

/// `HeaderValue::from_static`: the bytes of the text, all of which must be visible.
#[verifier::external_body]
fn static_header_value(text: &'static str) -> (value: HeaderValue)
    requires
        forall|i: int|
            0 <= i < encode_utf8(text@).len() ==> is_visible_byte(#[trigger] encode_utf8(text@)[i]),
    ensures
        value_bytes(value) == encode_utf8(text@),
{
    HeaderValue::from_static(text)
}

/// All of the bytes are visible.
pub open spec fn is_visible(bytes: Seq<u8>) -> bool {
    forall|i: int| 0 <= i < bytes.len() ==> is_visible_byte(#[trigger] bytes[i])
}

/// The text of visible bytes.
pub open spec fn visible_text(bytes: Seq<u8>) -> Seq<char> {
    bytes.map_values(|b: u8| b as char)
}

/// `HeaderValue::to_str`: the text, where all of the bytes are visible.
#[verifier::external_body]
fn header_value_str(value: &HeaderValue) -> (text: Option<&str>)
    ensures
        match text {
            Some(text) => is_visible(value_bytes(*value)) && text@ == visible_text(
                value_bytes(*value),
            ),
            None => !is_visible(value_bytes(*value)),
        },
{
    value.to_str().ok()
}

/// The headers that concern one connection alone.
pub open spec fn hop_by_hop_headers() -> Seq<Seq<char>> {
    seq![
        "connection"@,
        "keep-alive"@,
        "proxy-authenticate"@,
        "proxy-authorization"@,
        "te"@,
        "trailer"@,
        "trailers"@,
        "transfer-encoding"@,
        "upgrade"@,
    ]
}

/// The texts of a list.
pub open spec fn texts(list: Seq<&str>) -> Seq<Seq<char>> {
    list.map_values(|text: &str| text@)
}

/// Whether the name, in lower case, is on the list.
pub fn should_skip_header(name: &str, skipped: &[&str]) -> (skip: bool)
    ensures
        skip == texts(skipped@).contains(text::lower_view(name@)),
{
    let lower = ascii_lower(name);
    let mut i: usize = 0;
    while i < skipped.len()
        invariant
            i <= skipped@.len(),
            lower@ == text::lower_view(name@),
            forall|j: int| 0 <= j < i ==> (#[trigger] texts(skipped@)[j]) != lower@,
        decreases skipped@.len() - i,
    {
        assert(texts(skipped@)[i as int] == skipped@[i as int]@);
        if same(skipped[i], lower.as_str()) {
            return true;
        }
        i = i + 1;
    }
    false
}

/// The name is that of a header that concerns one connection alone.
pub open spec fn is_hop_by_hop(name: Seq<char>) -> bool {
    hop_by_hop_headers().contains(text::lower_view(name))
}

fn is_hop_by_hop_name(name: &str) -> (hop: bool)
    ensures
        hop == is_hop_by_hop(name@),
{
    let list: [&str; 9] = [
        "connection",
        "keep-alive",
        "proxy-authenticate",
        "proxy-authorization",
        "te",
        "trailer",
        "trailers",
        "transfer-encoding",
        "upgrade",
    ];
    assert(texts(list@) =~= hop_by_hop_headers());
    should_skip_header(name, &list)
}

/// The name is that one, in lower case or not.
pub open spec fn is_named(name: Seq<char>, wanted: Seq<char>) -> bool {
    text::lower_view(name) == text::lower_view(wanted)
}

/// A header of the client that does not go to the supplier.
pub open spec fn stays_with_client(name: Seq<char>) -> bool {
    is_hop_by_hop(name) || is_named(name, "host"@) || is_named(name, "authorization"@) || is_named(
        name,
        "content-length"@,
    )
}

/// A header of the supplier that does not go to the client.
pub open spec fn stays_with_supplier(name: Seq<char>, body_was_transformed: bool) -> bool {
    is_hop_by_hop(name) || (body_was_transformed && (is_named(name, "content-length"@) || is_named(
        name,
        "content-encoding"@,
    )))
}

/// The headers without those that stay.
pub open spec fn without(headers: HeadersView, stays: spec_fn(Seq<char>) -> bool) -> HeadersView {
    Map::new(
        |name: Seq<char>| headers.contains_key(name) && !stays(name),
        |name: Seq<char>| headers[name],
    )
}

proof fn grouped_finite(entries: Seq<(HeaderName, HeaderValue)>)
    ensures
        grouped(entries).dom().finite(),
    decreases entries.len(),
{
    if entries.len() > 0 {
        grouped_finite(entries.drop_last());
    }
}

proof fn grouped_names_grow(entries: Seq<(HeaderName, HeaderValue)>, n: int)
    requires
        0 <= n <= entries.len(),
    ensures
        grouped(entries.take(n)).dom().subset_of(grouped(entries).dom()),
    decreases entries.len() - n,
{
    if n < entries.len() {
        grouped_names_grow(entries, n + 1);
        assert(entries.take(n + 1).drop_last() =~= entries.take(n));
    } else {
        assert(entries.take(n) =~= entries);
    }
}

/// The part of a list of headers that has been gone through leaves room for one more.
proof fn room_for_one(
    entries: Seq<(HeaderName, HeaderValue)>,
    n: int,
    stays: spec_fn(Seq<char>) -> bool,
)
    requires
        0 <= n <= entries.len(),
    ensures
        without(grouped(entries.take(n)), stays).dom().finite(),
        without(grouped(entries.take(n)), stays).dom().len() <= grouped(entries).dom().len(),
{
    grouped_finite(entries);
    grouped_names_grow(entries, n);
    let part = without(grouped(entries.take(n)), stays).dom();
    assert(part.subset_of(grouped(entries).dom()));
    vstd::set_lib::lemma_len_subset(part, grouped(entries).dom());
}

proof fn without_next(
    entries: Seq<(HeaderName, HeaderValue)>,
    n: int,
    stays: spec_fn(Seq<char>) -> bool,
)
    requires
        0 <= n < entries.len(),
    ensures
        ({
            let name = name_text(entries[n].0);
            let before = without(grouped(entries.take(n)), stays);
            let after = without(grouped(entries.take(n + 1)), stays);
            if stays(name) {
                after == before
            } else {
                after == appended(before, name, value_bytes(entries[n].1))
            }
        }),
{
    assert(entries.take(n + 1).drop_last() =~= entries.take(n));
    let name = name_text(entries[n].0);
    let before = without(grouped(entries.take(n)), stays);
    let after = without(grouped(entries.take(n + 1)), stays);
    if stays(name) {
        assert(after =~= before);
    } else {
        assert(after =~= appended(before, name, value_bytes(entries[n].1)));
    }
}

/// The supplier gets the value of a `Bearer` authorization with its key.
pub open spec fn bearer_view(api_key: Seq<char>) -> Seq<char> {
    "Bearer "@ + api_key
}

/// The headers for the supplier: those of the client that go there, its host and its key.
pub open spec fn upstream_headers(
    source: HeadersView,
    authority: Seq<char>,
    api_key: Seq<char>,
) -> Result<HeadersView, Seq<char>> {
    if !is_header_text(authority) {
        Err("Invalid host header '"@ + authority + "': failed to parse header value"@)
    } else if !is_header_text(bearer_view(api_key)) {
        Err("Invalid upstream authorization header: failed to parse header value"@)
    } else {
        Ok(
            without(source, |name: Seq<char>| stays_with_client(name)).insert(
                "host"@,
                seq![encode_utf8(authority)],
            ).insert("authorization"@, seq![encode_utf8(bearer_view(api_key))]),
        )
    }
}

/// What a result of headers stands for.
pub open spec fn headers_result_view(result: Result<HeaderMap, String>) -> Result<
    HeadersView,
    Seq<char>,
> {
    match result {
        Ok(headers) => Ok(header_contents(headers)),
        Err(message) => Err(message@),
    }
}

/// Puts the host in place of any that the headers have.
pub fn set_host_header(headers: &mut HeaderMap, authority: &str) -> (result: Result<(), String>)
    requires
        header_contents(*old(headers)).dom().finite(),
        header_contents(*old(headers)).dom().len() < MAX_NAMES,
    ensures
        match result {
            Ok(_) => {
                &&& is_header_text(authority@)
                &&& header_contents(*final(headers)) == header_contents(*old(headers)).insert(
                    "host"@,
                    seq![encode_utf8(authority@)],
                )
            },
            Err(message) => {
                &&& !is_header_text(authority@)
                &&& message@ == "Invalid host header '"@ + authority@
                    + "': failed to parse header value"@
                &&& header_contents(*final(headers)) == header_contents(*old(headers))
            },
        },
{
    match header_value(authority) {
        Ok(value) => {
            insert_header(headers, host_name(), value);
            Ok(())
        },
        Err(message) => {
            let mut text = concat2("Invalid host header '", authority);
            text.append("': ");
            text.append(message.as_str());
            proof {
                reveal_strlit("': ");
                reveal_strlit("failed to parse header value");
                reveal_strlit("': failed to parse header value");
                assert("': "@ + "failed to parse header value"@
                    =~= "': failed to parse header value"@);
                assert(text@ =~= "Invalid host header '"@ + authority@
                    + "': failed to parse header value"@);
            }
            Err(text)
        },
    }
}

/// The headers for the supplier.
pub fn build_upstream_headers(source: &HeaderMap, authority: &str, api_key: &str) -> (result:
    Result<HeaderMap, String>)
    requires
        header_contents(*source).dom().len() + 2 < MAX_NAMES,
    ensures
        headers_result_view(result) == upstream_headers(
            header_contents(*source),
            authority@,
            api_key@,
        ),
{
    let ghost stays = |name: Seq<char>| stays_with_client(name);
    let entries = header_entries(source);
    let mut headers = new_headers();
    let mut i: usize = 0;
    assert(header_contents(headers) =~= without(grouped(entries@.take(0)), stays));
    while i < entries.len()
        invariant
            i <= entries@.len(),
            stays == (|name: Seq<char>| stays_with_client(name)),
            grouped(entries@).dom().len() + 2 < MAX_NAMES,
            header_contents(headers) == without(grouped(entries@.take(i as int)), stays),
        decreases entries@.len() - i,
    {
        let entry = &entries[i];
        let name = header_name_str(&entry.0);
        proof {
            without_next(entries@, i as int, stays);
            room_for_one(entries@, i as int, stays);
        }
        if !is_hop_by_hop_name(name) && !same_ignoring_case(name, "host") && !same_ignoring_case(
            name,
            "authorization",
        ) && !same_ignoring_case(name, "content-length") {
            append_header(&mut headers, &entry.0, &entry.1);
        }
        i = i + 1;
    }
    proof {
        room_for_one(entries@, i as int, stays);
        assert(entries@.take(i as int) =~= entries@);
    }
    if let Err(message) = set_host_header(&mut headers, authority) {
        return Err(message);
    }
    match header_value(concat2("Bearer ", api_key).as_str()) {
        Ok(value) => {
            insert_header(&mut headers, authorization_name(), value);
            Ok(headers)
        },
        Err(message) => {
            proof {
                reveal_strlit("Invalid upstream authorization header: ");
                reveal_strlit("failed to parse header value");
                reveal_strlit(
                    "Invalid upstream authorization header: failed to parse header value",
                );
                assert("Invalid upstream authorization header: "@
                    + "failed to parse header value"@
                    =~= "Invalid upstream authorization header: failed to parse header value"@);
            }
            Err(concat2("Invalid upstream authorization header: ", message.as_str()))
        },
    }
}

/// The headers for the client: those of the supplier that go there, and the type of a body that
/// the gateway made.
pub open spec fn client_headers(
    source: HeadersView,
    body_was_transformed: bool,
    content_type: Option<Seq<char>>,
) -> HeadersView {
    let kept = without(
        source,
        |name: Seq<char>| stays_with_supplier(name, body_was_transformed),
    );
    match content_type {
        Some(content_type) => kept.insert("content-type"@, seq![encode_utf8(content_type)]),
        None => kept,
    }
}

/// The headers for the client.
pub fn response_headers(
    source: &HeaderMap,
    body_was_transformed: bool,
    content_type: Option<&'static str>,
) -> (result: Result<HeaderMap, String>)
    requires
        header_contents(*source).dom().len() + 1 < MAX_NAMES,
        content_type matches Some(content_type) ==> is_visible(encode_utf8(content_type@)),
    ensures
        result is Ok,
        header_contents(result->Ok_0) == client_headers(
            header_contents(*source),
            body_was_transformed,
            text::opt_str_view(content_type),
        ),
{
    let ghost stays = |name: Seq<char>| stays_with_supplier(name, body_was_transformed);
    let entries = header_entries(source);
    let mut headers = new_headers();
    let mut i: usize = 0;
    assert(header_contents(headers) =~= without(grouped(entries@.take(0)), stays));
    while i < entries.len()
        invariant
            i <= entries@.len(),
            stays == (|name: Seq<char>| stays_with_supplier(name, body_was_transformed)),
            grouped(entries@).dom().len() + 1 < MAX_NAMES,
            header_contents(headers) == without(grouped(entries@.take(i as int)), stays),
        decreases entries@.len() - i,
    {
        let entry = &entries[i];
        let name = header_name_str(&entry.0);
        proof {
            without_next(entries@, i as int, stays);
            room_for_one(entries@, i as int, stays);
        }
        if !is_hop_by_hop_name(name) && !(body_was_transformed && (same_ignoring_case(
            name,
            "content-length",
        ) || same_ignoring_case(name, "content-encoding"))) {
            append_header(&mut headers, &entry.0, &entry.1);
        }
        i = i + 1;
    }
    proof {
        room_for_one(entries@, i as int, stays);
        assert(entries@.take(i as int) =~= entries@);
    }
    if let Some(content_type) = content_type {
        insert_header(&mut headers, content_type_name(), static_header_value(content_type));
    }
    Ok(headers)
}

/// The text of the authorization, where it is visible.
pub open spec fn authorization_text(headers: HeadersView) -> Option<Seq<char>> {
    if headers.contains_key("authorization"@) && headers["authorization"@].len() > 0 && is_visible(
        headers["authorization"@][0],
    ) {
        Some(visible_text(headers["authorization"@][0]))
    } else {
        None
    }
}

fn get_authorization(headers: &HeaderMap) -> (text: Option<&str>)
    ensures
        text::opt_str_view(text) == authorization_text(header_contents(*headers)),
{
    match get_header(headers, &authorization_name()) {
        Some(value) => header_value_str(value),
        None => None,
    }
}

/// What follows a prefix.
pub open spec fn after_prefix(text: Option<Seq<char>>, prefix: Seq<char>) -> Option<Seq<char>> {
    match text {
        Some(text) => if text::has_prefix(text, prefix) {
            Some(text.skip(prefix.len() as int))
        } else {
            None
        },
        None => None,
    }
}

/// The access key in the authorization.
pub open spec fn bearer_of(headers: HeadersView) -> Option<Seq<char>> {
    after_prefix(authorization_text(headers), "Bearer "@)
}

/// The access key in the authorization.
pub fn parse_bearer_auth(headers: &HeaderMap) -> (key: Option<String>)
    ensures
        text::opt_string_view(key) == bearer_of(header_contents(*headers)),
{
    match get_authorization(headers) {
        Some(text) => match strip_prefix(text, "Bearer ") {
            Some(key) => Some(key.to_string()),
            None => None,
        },
        None => None,
    }
}

/// What the standard engine of `base64` decodes a text to, where it is base64.
pub uninterp spec fn base64_decoded(text: Seq<char>) -> Option<Seq<u8>>;

/// `Engine::decode` of `base64::engine::general_purpose::STANDARD`: its result depends on the text
/// alone.
#[verifier::external_body]
fn decode_base64(text: &str) -> (bytes: Option<Vec<u8>>)
    ensures
        match bytes {
            Some(bytes) => base64_decoded(text@) == Some(bytes@),
            None => base64_decoded(text@) is None,
        },
{
    base64::engine::general_purpose::STANDARD.decode(text).ok()
}

/// The name and the password in decoded credentials: what stands before and behind the first
/// colon.
pub open spec fn credentials_in(decoded: Seq<u8>) -> Option<(Seq<char>, Seq<char>)> {
    if valid_utf8(decoded) {
        text::split_view(decode_utf8(decoded), ':')
    } else {
        None
    }
}

/// What a pair of texts stands for.
pub open spec fn pair_view(pair: Option<(String, String)>) -> Option<(Seq<char>, Seq<char>)> {
    match pair {
        Some((a, b)) => Some((a@, b@)),
        None => None,
    }
}

/// The name and the password in decoded credentials.
pub fn decoded_credentials(decoded: Vec<u8>) -> (credentials: Option<(String, String)>)
    ensures
        pair_view(credentials) == credentials_in(decoded@),
{
    match text_of_bytes(decoded) {
        Some(text) => split_at_char(text.as_str(), ':'),
        None => None,
    }
}

/// The name and the password in the authorization.
pub open spec fn basic_of(headers: HeadersView) -> Option<(Seq<char>, Seq<char>)> {
    match after_prefix(authorization_text(headers), "Basic "@) {
        Some(encoded) => match base64_decoded(encoded) {
            Some(decoded) => credentials_in(decoded),
            None => None,
        },
        None => None,
    }
}

/// The name and the password in the authorization.
pub fn parse_basic_auth(headers: &HeaderMap) -> (credentials: Option<(String, String)>)
    ensures
        pair_view(credentials) == basic_of(header_contents(*headers)),
{
    let text = match get_authorization(headers) {
        Some(text) => text,
        None => {
            return None;
        },
    };
    let encoded = match strip_prefix(text, "Basic ") {
        Some(encoded) => encoded,
        None => {
            return None;
        },
    };
    match decode_base64(encoded) {
        Some(decoded) => decoded_credentials(decoded),
        None => None,
    }
}

/// Who may administer the gateway.
pub struct AdminCredentials {
    pub username: String,
    pub password: String,
}

/// The credentials of the administrator: both must be set, and neither may be empty.
pub fn load_admin_credentials(username: Option<String>, password: Option<String>) -> (result:
    Result<AdminCredentials, String>)
    ensures
        match result {
            Ok(admin) => {
                &&& username == Some(admin.username)
                &&& password == Some(admin.password)
                &&& admin.username@.len() > 0
                &&& admin.password@.len() > 0
            },
            Err(message) => if username is None {
                message@ == "ADMIN_USERNAME is required"@
            } else if password is None {
                message@ == "ADMIN_PASSWORD is required"@
            } else {
                &&& username->0@.len() == 0 || password->0@.len() == 0
                &&& message@ == "ADMIN_USERNAME and ADMIN_PASSWORD must not be empty"@
            },
        },
{
    let username = match username {
        Some(username) => username,
        None => {
            return Err("ADMIN_USERNAME is required".to_string());
        },
    };
    let password = match password {
        Some(password) => password,
        None => {
            return Err("ADMIN_PASSWORD is required".to_string());
        },
    };
    if username.as_str().is_empty() || password.as_str().is_empty() {
        return Err("ADMIN_USERNAME and ADMIN_PASSWORD must not be empty".to_string());
    }
    Ok(AdminCredentials { username, password })
}

/// The credentials are the administrator's.
pub open spec fn admits(
    admin: AdminCredentials,
    credentials: Option<(Seq<char>, Seq<char>)>,
) -> bool {
    credentials == Some((admin.username@, admin.password@))
}

/// Whether the credentials are the administrator's.
pub fn admin_admits(admin: &AdminCredentials, credentials: Option<(String, String)>) -> (admitted:
    bool)
    ensures
        admitted == admits(*admin, pair_view(credentials)),
{
    match credentials {
        Some((username, password)) => same(username.as_str(), admin.username.as_str()) && same(
            password.as_str(),
            admin.password.as_str(),
        ),
        None => false,
    }
}

/// Whether a request comes from the administrator.
pub fn admin_auth(headers: &HeaderMap, admin: &AdminCredentials) -> (admitted: bool)
    ensures
        admitted == admits(*admin, basic_of(header_contents(*headers))),
{
    admin_admits(admin, parse_basic_auth(headers))
}

/// A header that concerns one connection alone goes neither to the supplier nor to the client.
pub proof fn hop_by_hop_headers_stay(
    source: HeadersView,
    authority: Seq<char>,
    api_key: Seq<char>,
    transformed: bool,
    content_type: Option<Seq<char>>,
    name: Seq<char>,
)
    requires
        is_hop_by_hop(name),
    ensures
        upstream_headers(source, authority, api_key) matches Ok(headers) ==> !headers.contains_key(
            name,
        ),
        !client_headers(source, transformed, content_type).contains_key(name),
{
    standard_names_differ();
    let lower = text::lower_view(name);
    assert(lower.len() == name.len());
    let i = choose|i: int| 0 <= i < hop_by_hop_headers().len() && hop_by_hop_headers()[i] == lower;
    assert(hop_by_hop_headers()[i].len() == name.len());
}

/// The names that the gateway sets are of other lengths than those of one connection.
proof fn standard_names_differ()
    ensures
        "host"@.len() == 4,
        "authorization"@.len() == 13,
        "content-type"@.len() == 12,
        forall|i: int|
            0 <= i < hop_by_hop_headers().len() ==> {
                let n = (#[trigger] hop_by_hop_headers()[i]).len();
                n != 4 && n != 13 && n != 12
            },
{
    reveal_strlit("host");
    reveal_strlit("authorization");
    reveal_strlit("content-type");
    reveal_strlit("connection");
    reveal_strlit("keep-alive");
    reveal_strlit("proxy-authenticate");
    reveal_strlit("proxy-authorization");
    reveal_strlit("te");
    reveal_strlit("trailer");
    reveal_strlit("trailers");
    reveal_strlit("transfer-encoding");
    reveal_strlit("upgrade");
}

/// The supplier never sees the client's authorization: it gets its own key, and that alone.
pub proof fn supplier_gets_its_own_key(
    source: HeadersView,
    authority: Seq<char>,
    api_key: Seq<char>,
    name: Seq<char>,
)
    requires
        is_named(name, "authorization"@),
    ensures
        upstream_headers(source, authority, api_key) matches Ok(headers) ==> {
            &&& headers["authorization"@] == seq![encode_utf8(bearer_view(api_key))]
            &&& headers.contains_key(name) ==> name == "authorization"@
        },
{
    standard_names_differ();
    assert(text::lower_view(name).len() == name.len());
    assert(text::lower_view("authorization"@).len() == "authorization"@.len());
}

/// Every other header goes to the supplier with the values that it came with.
pub proof fn other_headers_are_kept(
    source: HeadersView,
    authority: Seq<char>,
    api_key: Seq<char>,
    name: Seq<char>,
)
    requires
        source.contains_key(name),
        !stays_with_client(name),
    ensures
        upstream_headers(source, authority, api_key) matches Ok(headers) ==> headers.contains_key(
            name,
        ) && headers[name] == source[name],
{
    assert(is_named("host"@, "host"@) && is_named("authorization"@, "authorization"@));
}

} // verus!
