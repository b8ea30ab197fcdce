//! What holds of headers, credentials and addresses, read off their text.

use vstd::prelude::*;
use vstd::utf8::*;

use crate::access;
use crate::answer::RefusalView;
use crate::config::{AccessKeyConfig, PoolConfig};
use crate::headers;
use crate::headers::{AdminCredentials, HeadersView};
use crate::proxy;
use crate::text;
use crate::upstream;
use crate::upstream::{UrlPart, UrlView};

verus! {

proof fn header_names()
    ensures
        text::word_mark("connection"@) == (10nat, 'c', 'c', 'n'),
        text::word_mark("keep-alive"@) == (10nat, 'k', 'a', 'e'),
        text::word_mark("proxy-authenticate"@) == (18nat, 'p', 'h', 'e'),
        text::word_mark("proxy-authorization"@) == (19nat, 'p', 'h', 'n'),
        text::word_mark("te"@) == (2nat, 't', 'e', 'e'),
        text::word_mark("trailer"@) == (7nat, 't', 'i', 'r'),
        text::word_mark("trailers"@) == (8nat, 't', 'l', 's'),
        text::word_mark("transfer-encoding"@) == (17nat, 't', '-', 'g'),
        text::word_mark("upgrade"@) == (7nat, 'u', 'r', 'e'),
        text::word_mark("host"@) == (4nat, 'h', 's', 't'),
        text::word_mark("authorization"@) == (13nat, 'a', 'i', 'n'),
        text::word_mark("content-length"@) == (14nat, 'c', '-', 'h'),
        text::word_mark("content-encoding"@) == (16nat, 'c', 'e', 'g'),
        text::word_mark("content-type"@) == (12nat, 'c', 't', 'e'),
{
    reveal_strlit("connection");
    reveal_strlit("keep-alive");
    reveal_strlit("proxy-authenticate");
    reveal_strlit("proxy-authorization");
    reveal_strlit("te");
    reveal_strlit("trailer");
    reveal_strlit("trailers");
    reveal_strlit("transfer-encoding");
    reveal_strlit("upgrade");
    reveal_strlit("host");
    reveal_strlit("authorization");
    reveal_strlit("content-length");
    reveal_strlit("content-encoding");
    reveal_strlit("content-type");
    assert("connection"@.len() == 10);
    assert("keep-alive"@.len() == 10);
    assert("proxy-authenticate"@.len() == 18);
    assert("proxy-authorization"@.len() == 19);
    assert("te"@.len() == 2);
    assert("trailer"@.len() == 7);
    assert("trailers"@.len() == 8);
    assert("transfer-encoding"@.len() == 17);
    assert("upgrade"@.len() == 7);
    assert("host"@.len() == 4);
    assert("authorization"@.len() == 13);
    assert("content-length"@.len() == 14);
    assert("content-encoding"@.len() == 16);
    assert("content-type"@.len() == 12);
}

/// A header that speaks of one connection only, whatever case its name is in.
pub open spec fn is_of_the_connection(name: Seq<char>) -> bool {
    ||| text::lower_view(name) == "connection"@
    ||| text::lower_view(name) == "keep-alive"@
    ||| text::lower_view(name) == "proxy-authenticate"@
    ||| text::lower_view(name) == "proxy-authorization"@
    ||| text::lower_view(name) == "te"@
    ||| text::lower_view(name) == "trailer"@
    ||| text::lower_view(name) == "trailers"@
    ||| text::lower_view(name) == "transfer-encoding"@
    ||| text::lower_view(name) == "upgrade"@
}

/// Only the letters from A to Z have another form in lower case, and it stands 32 places on.
pub proof fn letters_in_lower_case(s: Seq<char>, i: int)
    requires
        0 <= i < s.len(),
    ensures
        text::lower_view(s).len() == s.len(),
        'A' <= s[i] <= 'Z' ==> text::lower_view(s)[i] as u32 == s[i] as u32 + 32,
        !('A' <= s[i] <= 'Z') ==> text::lower_view(s)[i] == s[i],
{
}

proof fn names_in_lower_case()
    ensures
        text::lower_view("host"@) == "host"@,
        text::lower_view("authorization"@) == "authorization"@,
        text::lower_view("content-length"@) == "content-length"@,
        text::lower_view("content-encoding"@) == "content-encoding"@,
        text::lower_view("content-type"@) == "content-type"@,
{
    reveal_strlit("host");
    reveal_strlit("authorization");
    reveal_strlit("content-length");
    reveal_strlit("content-encoding");
    reveal_strlit("content-type");
    assert(text::lower_view("host"@) =~= "host"@);
    assert(text::lower_view("authorization"@) =~= "authorization"@);
    assert(text::lower_view("content-length"@) =~= "content-length"@);
    assert(text::lower_view("content-encoding"@) =~= "content-encoding"@);
    assert(text::lower_view("content-type"@) =~= "content-type"@);
}

proof fn connection_names(name: Seq<char>)
    ensures
        headers::is_hop_by_hop(name) <==> is_of_the_connection(name),
{
    let list = headers::hop_by_hop_headers();
    let lower = text::lower_view(name);
    assert(list.len() == 9);
    if list.contains(lower) {
        let i = choose|i: int| 0 <= i < list.len() && list[i] == lower;
        assert(list[i] == lower);
    }
    assert(list[0] == "connection"@);
    assert(list[1] == "keep-alive"@);
    assert(list[2] == "proxy-authenticate"@);
    assert(list[3] == "proxy-authorization"@);
    assert(list[4] == "te"@);
    assert(list[5] == "trailer"@);
    assert(list[6] == "trailers"@);
    assert(list[7] == "transfer-encoding"@);
    assert(list[8] == "upgrade"@);
}

/// The headers that go to a supplier: its own host and its own key, and of the client's headers all
/// but the host, the key and the length of the body, and but those of the connection.
pub proof fn headers_for_the_supplier(
    source: HeadersView,
    authority: Seq<char>,
    api_key: Seq<char>,
    name: Seq<char>,
)
    ensures
        headers::upstream_headers(source, authority, api_key) matches Ok(sent) ==> {
            let stays = is_of_the_connection(name) || text::lower_view(name) == "host"@
                || text::lower_view(name) == "authorization"@ || text::lower_view(name)
                == "content-length"@;
            &&& sent.get("host"@) == Some(seq![encode_utf8(authority)])
            &&& sent.get("authorization"@) == Some(seq![encode_utf8("Bearer "@ + api_key)])
            &&& stays && name != "host"@ && name != "authorization"@ ==> !sent.contains_key(name)
            &&& !stays ==> sent.get(name) == source.get(name)
        },
        headers::upstream_headers(source, authority, api_key) is Ok
            <==> headers::is_header_text(authority) && headers::is_header_text(
            "Bearer "@ + api_key,
        ),
        !headers::is_header_text(authority) ==> headers::upstream_headers(
            source,
            authority,
            api_key,
        ) == Err::<HeadersView, Seq<char>>(
            "Invalid host header '"@ + authority + "': failed to parse header value"@,
        ),
        headers::is_header_text(authority) && !headers::is_header_text("Bearer "@ + api_key)
            ==> headers::upstream_headers(source, authority, api_key) == Err::<
            HeadersView,
            Seq<char>,
        >("Invalid upstream authorization header: failed to parse header value"@),
{
    header_names();
    names_in_lower_case();
    connection_names(name);
}

/// The headers that go to the client: those of the supplier but for those of the connection, and,
/// where the body was made anew, but for its length and its encoding. Such a body has its own type.
pub proof fn headers_for_the_client(
    source: HeadersView,
    transformed: bool,
    content_type: Option<Seq<char>>,
    name: Seq<char>,
)
    ensures
        ({
            let sent = headers::client_headers(source, transformed, content_type);
            let stays = is_of_the_connection(name) || (transformed && (text::lower_view(name)
                == "content-length"@ || text::lower_view(name) == "content-encoding"@));
            &&& content_type matches Some(content_type) ==> sent.get("content-type"@) == Some(
                seq![encode_utf8(content_type)],
            )
            &&& stays ==> !sent.contains_key(name)
            &&& !stays && !(content_type is Some && name == "content-type"@) ==> sent.get(name)
                == source.get(name)
        }),
{
    header_names();
    names_in_lower_case();
    connection_names(name);
}

/// The bytes of a header that can be read as text, one for one.
pub open spec fn reads(value: Seq<u8>, text: Seq<char>) -> bool {
    &&& value.len() == text.len()
    &&& forall|i: int|
        0 <= i < value.len() ==> (32 <= #[trigger] value[i] < 127 || value[i] == 9) && text[i]
            == value[i] as char
}

proof fn readable_text(value: Seq<u8>, text: Seq<char>)
    ensures
        reads(value, text) <==> headers::is_visible(value) && headers::visible_text(value) == text,
{
    let read = headers::visible_text(value);
    if reads(value, text) {
        assert(headers::is_visible(value));
        assert forall|i: int| 0 <= i < value.len() implies read[i] == text[i] by {
            assert(32 <= value[i] < 127 || value[i] == 9);
        }
        assert(read =~= text);
    }
    if headers::is_visible(value) && read == text {
        assert forall|i: int| 0 <= i < value.len() implies (32 <= #[trigger] value[i] < 127
            || value[i] == 9) && text[i] == value[i] as char by {
            assert(headers::is_visible_byte(value[i]));
            assert(read[i] == value[i] as char);
        }
    }
}

/// The client's key is what stands behind the word Bearer in the first authorization header, where
/// that can be read. Nothing else is a key.
pub proof fn bearers_are_read(headers: HeadersView, key: Seq<char>)
    ensures
        headers::bearer_of(headers) == Some(key) <==> headers.contains_key("authorization"@)
            && headers["authorization"@].len() > 0 && reads(
            headers["authorization"@][0],
            "Bearer "@ + key,
        ),
{
    if headers.contains_key("authorization"@) && headers["authorization"@].len() > 0 {
        let value = headers["authorization"@][0];
        readable_text(value, "Bearer "@ + key);
        cut_behind(headers::visible_text(value), "Bearer "@, key);
    }
}

proof fn cut_behind(text: Seq<char>, prefix: Seq<char>, rest: Seq<char>)
    ensures
        text == prefix + rest <==> text::has_prefix(text, prefix) && text.skip(prefix.len() as int)
            == rest,
{
    if text == prefix + rest {
        assert(text.take(prefix.len() as int) =~= prefix);
        assert(text.skip(prefix.len() as int) =~= rest);
    }
    if text::has_prefix(text, prefix) && text.skip(prefix.len() as int) == rest {
        assert(text =~= text.take(prefix.len() as int) + text.skip(prefix.len() as int));
    }
}

proof fn place_of(s: Seq<char>, c: char, i: nat)
    requires
        i <= s.len(),
    ensures
        i <= text::first_place(s, c, i) <= s.len(),
        forall|k: int| i <= k < text::first_place(s, c, i) ==> s[k] != c,
        text::first_place(s, c, i) < s.len() ==> s[text::first_place(s, c, i) as int] == c,
    decreases s.len() - i,
{
    if i < s.len() && s[i as int] != c {
        place_of(s, c, i + 1);
    }
}

/// Text is split at the first place of a character: what stands before holds it nowhere.
pub proof fn texts_are_split(s: Seq<char>, c: char, before: Seq<char>, behind: Seq<char>)
    ensures
        text::split_view(s, c) == Some((before, behind)) <==> s == before + seq![c] + behind
            && !before.contains(c),
        text::split_view(s, c) is None <==> !s.contains(c),
{
    place_of(s, c, 0);
    let at = text::first_place(s, c, 0);
    if at < s.len() {
        assert(s =~= s.take(at as int) + seq![c] + s.skip((at + 1) as int));
        assert(s.contains(c));
        if s == before + seq![c] + behind && !before.contains(c) {
            assert(s[before.len() as int] == c);
            assert(at <= before.len());
            if at < before.len() {
                assert(before[at as int] == s[at as int]);
                assert(before.contains(c));
            }
            assert(s.take(at as int) =~= before);
            assert(s.skip((at + 1) as int) =~= behind);
        }
        assert forall|k: int| 0 <= k < at implies s.take(at as int)[k] != c by {}
    } else {
        assert(!s.contains(c));
        if s == before + seq![c] + behind {
            assert(s[before.len() as int] == c);
        }
    }
}

/// The name and password of an administrator stand behind the word Basic in the first authorization
/// header, encoded, with a colon between them that is the first.
pub proof fn basic_credentials_are_read(
    headers: HeadersView,
    name: Seq<char>,
    password: Seq<char>,
    encoded: Seq<char>,
    decoded: Seq<u8>,
)
    requires
        headers.contains_key("authorization"@),
        headers["authorization"@].len() > 0,
        reads(headers["authorization"@][0], "Basic "@ + encoded),
        headers::base64_decoded(encoded) == Some(decoded),
    ensures
        headers::basic_of(headers) == Some((name, password)) <==> valid_utf8(decoded)
            && decode_utf8(decoded) == name + seq![':'] + password && !name.contains(':'),
{
    let value = headers["authorization"@][0];
    readable_text(value, "Basic "@ + encoded);
    cut_behind(headers::visible_text(value), "Basic "@, encoded);
    texts_are_split(decode_utf8(decoded), ':', name, password);
}

/// What cannot be read, or does not begin with the word Basic, or is no code, names nobody. An
/// administrator is let in with the right name and the right password, and nobody else is.
pub proof fn others_are_not_let_in(
    headers: HeadersView,
    admin: AdminCredentials,
    name: Seq<char>,
    password: Seq<char>,
)
    ensures
        !headers.contains_key("authorization"@) ==> headers::basic_of(headers) is None
            && headers::bearer_of(headers) is None,
        headers::basic_of(headers) is Some ==> exists|encoded: Seq<char>|
            reads(headers["authorization"@][0], "Basic "@ + encoded)
                && #[trigger] headers::base64_decoded(encoded) is Some,
        headers::admits(admin, Some((name, password))) <==> name == admin.username@ && password
            == admin.password@,
        !headers::admits(admin, None),
{
    if headers::basic_of(headers) is Some {
        let value = headers["authorization"@][0];
        let encoded = headers::visible_text(value).skip("Basic "@.len() as int);
        readable_text(value, "Basic "@ + encoded);
        cut_behind(headers::visible_text(value), "Basic "@, encoded);
        assert(headers::base64_decoded(encoded) is Some);
    }
}

proof fn cut_at_the_end(s: Seq<char>, c: char)
    ensures
        ({
            let kept = text::trim_end_char_view(s, c);
            &&& kept.len() <= s.len()
            &&& kept == s.take(kept.len() as int)
            &&& kept.len() > 0 ==> kept.last() != c
            &&& forall|i: int| kept.len() <= i < s.len() ==> s[i] == c
        }),
    decreases s.len(),
{
    if s.len() > 0 && s.last() == c {
        let less = s.drop_last();
        cut_at_the_end(less, c);
        let kept = text::trim_end_char_view(s, c);
        assert(kept =~= s.take(kept.len() as int));
        assert forall|i: int| kept.len() <= i < s.len() implies s[i] == c by {
            if i < less.len() {
                assert(less[i] == c);
            }
        }
    } else {
        assert(s =~= s.take(s.len() as int));
    }
}

proof fn nothing_to_cut(s: Seq<char>, c: char)
    requires
        s.len() == 0 || s.last() != c,
    ensures
        text::trim_end_char_view(s, c) == s,
{
}

/// The path of a request stands behind that of the supplier, from which a version at its end and
/// slashes are taken.
pub proof fn paths_are_joined(base: Seq<char>, path: Seq<char>)
    requires
        base.len() == 0 || base.last() != '/',
        !text::has_suffix(base, "/v1"@),
    ensures
        upstream::combined_path_view(base, path) == base + path,
        upstream::combined_path_view(base.push('/'), path) == base + path,
        upstream::combined_path_view(base + "/v1"@, path) == base + path,
        upstream::combined_path_view((base + "/v1"@).push('/'), path) == base + path,
{
    nothing_to_cut(base, '/');
    upstream::version_is_not_doubled(base, path);
    upstream::slashes_make_no_difference(base, path);
    upstream::slashes_make_no_difference(base + "/v1"@, path);
}

/// The text without the slashes at its end, and without the white space around it before that.
pub open spec fn is_cut_from(base_url: Seq<char>, value: Seq<char>) -> bool {
    let trimmed = text::trim_view(value);
    &&& base_url.len() <= trimmed.len()
    &&& base_url == trimmed.take(base_url.len() as int)
    &&& base_url.len() > 0 ==> base_url.last() != '/'
    &&& forall|i: int| base_url.len() <= i < trimmed.len() ==> trimmed[i] == '/'
}

/// A supplier's URL is taken without slashes at its end. It has to be one of http or https.
pub proof fn base_urls_are_checked(value: Seq<char>, base_url: Seq<char>)
    requires
        is_cut_from(base_url, value),
    ensures
        upstream::normal_base_url(value) == match (base_url.len() == 0, upstream::url_parsed(base_url)) {
            (true, _) => Err("base_url must not be empty"@),
            (false, Err(message)) => Err("invalid base_url: "@ + message),
            (false, Ok(url)) => if url.scheme == "http"@ || url.scheme == "https"@ {
                Ok(base_url)
            } else {
                Err("unsupported base_url scheme: "@ + url.scheme)
            },
        },
{
    let trimmed = text::trim_view(value);
    let kept = text::trim_end_char_view(trimmed, '/');
    cut_at_the_end(trimmed, '/');
    if kept.len() < base_url.len() {
        assert(trimmed[base_url.len() - 1] == '/');
        assert(base_url.last() == trimmed[base_url.len() - 1]);
    }
    if base_url.len() < kept.len() {
        assert(trimmed[kept.len() - 1] == '/');
        assert(kept.last() == trimmed[kept.len() - 1]);
    }
    assert(kept =~= base_url);
}

/// A request goes to the URL of its supplier with the joined path and the query of the client.
pub proof fn urls_are_made_of_path_and_query(
    base_url: Seq<char>,
    path: Seq<char>,
    query: Option<Seq<char>>,
)
    ensures
        upstream::upstream_url(base_url, path, query) == match upstream::url_parsed(base_url) {
            Ok(url) => Ok(
                upstream::url_with(
                    base_url,
                    upstream::combined_path_view(url.path, path),
                    query,
                ),
            ),
            Err(message) => Err("Invalid base_url: "@ + message),
        },
{
}

/// The host of a URL, with its port where it names one.
pub proof fn hosts_are_named(url: UrlView)
    ensures
        url.host is None ==> upstream::authority_view(url) == Err::<Seq<char>, Seq<char>>(
            "upstream url is missing host"@,
        ),
        url.host matches Some(host) ==> {
            &&& url.port is None ==> upstream::authority_view(url) == Ok::<Seq<char>, Seq<char>>(
                host,
            )
            &&& url.port matches Some(port) ==> upstream::authority_view(url) == Ok::<
                Seq<char>,
                Seq<char>,
            >(host + seq![':'] + text::decimal_view(port as nat))
        },
{
    reveal_strlit(":");
    assert(":"@ =~= seq![':']);
}

proof fn cost_bound(part: UrlPart, bytes: Seq<u8>, n: nat)
    requires
        n <= bytes.len(),
    ensures
        upstream::cost(part, bytes, n) <= 3 * n,
    decreases n,
{
    if n > 0 {
        cost_bound(part, bytes, (n - 1) as nat);
    }
}

/// A URL, a path and a query are never too long where three times their bytes, with three more, stay
/// within the limit of the lengths of URLs.
pub proof fn ordinary_urls_are_not_too_long(
    base_url: Seq<char>,
    path: Seq<char>,
    query: Option<Seq<char>>,
)
    ensures
        upstream::url_parsed(base_url) matches Ok(url) ==> {
            let joined = upstream::combined_path_view(url.path, path);
            let asked = match query {
                Some(query) => encode_utf8(query).len(),
                None => 0,
            };
            url.path_start + encode_utf8(url.path).len() <= url.query_end && url.query_end
                + url.path_start + 3 * encode_utf8(joined).len() + 3 * asked + 3 < 0x1_0000_0000
                ==> upstream::countable(base_url, path, query)
        },
        upstream::url_parsed(base_url) is Err ==> upstream::countable(base_url, path, query),
{
    if let Ok(url) = upstream::url_parsed(base_url) {
        let joined = encode_utf8(upstream::combined_path_view(url.path, path));
        cost_bound(UrlPart::OpaquePath, joined, joined.len());
        cost_bound(UrlPart::Path, joined, joined.len());
        if let Some(query) = query {
            let asked = encode_utf8(query);
            cost_bound(UrlPart::SpecialQuery, asked, asked.len());
            cost_bound(UrlPart::Query, asked, asked.len());
        }
    }
}

/// The value of a digit from 0 to 9 or from a to f.
pub open spec fn hex_value(c: char) -> int {
    if '0' <= c <= '9' {
        c as u32 - '0' as u32
    } else {
        c as u32 - 'a' as u32 + 10
    }
}

/// An access key is its mark and two digits for each byte, of which it can be read back.
pub proof fn access_keys_spell_their_bytes(bytes: Seq<u8>, byte: u8)
    ensures
        access::access_key_view(Seq::empty()) == "me-"@,
        ({
            let key = access::access_key_view(bytes);
            let more = access::access_key_view(bytes.push(byte));
            let n = key.len() as int;
            &&& more.len() == n + 2
            &&& more.take(n) == key
            &&& '0' <= more[n] <= '9' || 'a' <= more[n] <= 'f'
            &&& '0' <= more[n + 1] <= '9' || 'a' <= more[n + 1] <= 'f'
            &&& 16 * hex_value(more[n]) + hex_value(more[n + 1]) == byte
        }),
{
    let all = bytes.push(byte);
    assert(all.drop_last() =~= bytes);
    assert(access::access_key_view(Seq::empty()) =~= "me-"@);
    let key = access::access_key_view(bytes);
    let more = access::access_key_view(all);
    assert(more.take(key.len() as int) =~= key);
}

proof fn two_digits_each(bytes: Seq<u8>, n: int)
    requires
        0 <= n <= bytes.len(),
    ensures
        access::hex_view(bytes.take(n)).len() == 2 * n,
        forall|i: int|
            0 <= i < 2 * n ==> '0' <= #[trigger] access::hex_view(bytes.take(n))[i] <= '9' || 'a'
                <= access::hex_view(bytes.take(n))[i] <= 'f',
    decreases n,
{
    if n > 0 {
        two_digits_each(bytes, n - 1);
        assert(bytes.take(n).drop_last() =~= bytes.take(n - 1));
    }
}

/// An access key is its mark and the digits of 32 bytes.
pub proof fn access_keys_have_their_form(key: Seq<char>)
    requires
        access::is_access_key(key),
    ensures
        key.len() == 67,
        text::has_prefix(key, "me-"@),
        forall|i: int|
            3 <= i < 67 ==> '0' <= #[trigger] key[i] <= '9' || 'a' <= key[i] <= 'f',
{
    reveal_strlit("me-");
    let bytes = choose|bytes: Seq<u8>|
        bytes.len() == 32 && key == #[trigger] access::access_key_view(bytes);
    two_digits_each(bytes, 32);
    assert(bytes.take(32) =~= bytes);
    assert(key.take(3) =~= "me-"@);
    assert forall|i: int| 3 <= i < 67 implies '0' <= #[trigger] key[i] <= '9' || 'a' <= key[i]
        <= 'f' by {
        assert(key[i] == access::hex_view(bytes)[i - 3]);
    }
}

/// What is shown of a key: a short one whole, else its first six and its last four characters, with
/// three dots between.
pub proof fn keys_are_shown_masked(key: Seq<char>)
    ensures
        key.len() <= 10 ==> access::masked(key) == key,
        key.len() > 10 ==> {
            let shown = access::masked(key);
            &&& shown.len() == 13
            &&& forall|i: int| 0 <= i < 6 ==> shown[i] == key[i]
            &&& shown[6] == '.' && shown[7] == '.' && shown[8] == '.'
            &&& forall|i: int| 9 <= i < 13 ==> shown[i] == key[key.len() - 13 + i]
        },
{
    reveal_strlit("...");
}

/// The access key with that value, if any: the first of them.
pub open spec fn is_first_with(
    access_keys: Seq<AccessKeyConfig>,
    value: Seq<char>,
    at: int,
) -> bool {
    &&& 0 <= at < access_keys.len()
    &&& access_keys[at].access_key@ == value
    &&& forall|i: int| 0 <= i < at ==> (#[trigger] access_keys[i]).access_key@ != value
}

proof fn found_is_first(access_keys: Seq<AccessKeyConfig>, value: Seq<char>)
    ensures
        match access::access_key_of(access_keys, value) {
            Some(found) => exists|at: int| #[trigger]
                is_first_with(access_keys, value, at) && access_keys[at] == found,
            None => forall|i: int|
                0 <= i < access_keys.len() ==> (#[trigger] access_keys[i]).access_key@ != value,
        },
    decreases access_keys.len(),
{
    if access_keys.len() > 0 {
        if access_keys[0].access_key@ == value {
            assert(is_first_with(access_keys, value, 0));
        } else {
            let rest = access_keys.skip(1);
            found_is_first(rest, value);
            match access::access_key_of(rest, value) {
                Some(found) => {
                    let k = choose|k: int| #[trigger]
                        is_first_with(rest, value, k) && rest[k] == found;
                    assert forall|i: int| 0 <= i < k + 1 implies (#[trigger]
                    access_keys[i]).access_key@ != value by {
                        if i > 0 {
                            assert(rest[i - 1] == access_keys[i]);
                        }
                    }
                    assert(is_first_with(access_keys, value, k + 1));
                },
                None => {
                    assert forall|i: int| 0 <= i < access_keys.len() implies (#[trigger]
                    access_keys[i]).access_key@ != value by {
                        if i > 0 {
                            assert(rest[i - 1] == access_keys[i]);
                        }
                    }
                },
            }
        }
    }
}

/// A client is let in with the value of an access key, to the pool that the key is bound to: for a
/// request for an image the one for images, where the key has one. Who has no key, or a wrong one,
/// is not authorized; where the pool is missing, the service is.
pub proof fn clients_are_let_in_with_a_key(
    access_keys: Seq<AccessKeyConfig>,
    pools: Seq<PoolConfig>,
    bearer: Option<Seq<char>>,
    for_image: bool,
)
    ensures
        bearer is None ==> access::admitted(access_keys, pools, bearer, for_image) == Err::<
            (PoolConfig, AccessKeyConfig),
            RefusalView,
        >(
            (RefusalView {
                status: 401,
                json: true,
                message: "Authorization: Bearer me-... is required"@,
            }),
        ),
        bearer matches Some(value) ==> {
            let given = access::admitted(access_keys, pools, bearer, for_image);
            &&& (forall|i: int|
                0 <= i < access_keys.len() ==> (#[trigger] access_keys[i]).access_key@ != value)
                ==> given == Err::<(PoolConfig, AccessKeyConfig), RefusalView>(
                (RefusalView { status: 401, json: true, message: "Invalid access key"@ }),
            )
            &&& forall|at: int| #[trigger]
                is_first_with(access_keys, value, at) ==> {
                    let access_key = access_keys[at];
                    let id = if for_image && access_key.image_proxy_id is Some {
                        access_key.image_proxy_id->0
                    } else {
                        access_key.proxy_id
                    };
                    given == match crate::config::pool_of(pools, id) {
                        Some(pool) => Ok((pool, access_key)),
                        None => Err(
                            RefusalView {
                                status: 503,
                                json: true,
                                message: if for_image {
                                    "Bound image proxy not found for this access key"@
                                } else {
                                    "Bound proxy not found for this access key"@
                                },
                            },
                        ),
                    }
                }
        },
{
    if let Some(value) = bearer {
        found_is_first(access_keys, value);
        assert forall|at: int| #[trigger] is_first_with(access_keys, value, at) implies
            access::access_key_of(access_keys, value) == Some(access_keys[at]) by {
            match access::access_key_of(access_keys, value) {
                Some(found) => {
                    let k = choose|k: int| #[trigger]
                        is_first_with(access_keys, value, k) && access_keys[k] == found;
                    if k < at {
                        assert(access_keys[k].access_key@ != value);
                    }
                    if at < k {
                        assert(access_keys[at].access_key@ != value);
                    }
                },
                None => {
                    assert(access_keys[at].access_key@ != value);
                },
            }
        }
    }
}

/// The limits of the gateway: the bytes of a request, and the tries to make a new access key.
pub proof fn limits_are_kept()
    ensures
        proxy::MAX_REQUEST_BODY_BYTES == 20 * 1024 * 1024,
        access::ACCESS_KEY_TRIES == 16,
{
}

} // verus!
