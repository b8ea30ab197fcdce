//! Access keys: how they are made, how keys are shown, and which pool a client's key leads to.

use vstd::prelude::*;

use axum::http::HeaderMap;
use rand::RngCore;

use crate::answer;
use crate::answer::{json_error, Refusal, RefusalView, SERVICE_UNAVAILABLE, UNAUTHORIZED};
use crate::config;
use crate::config::{find_pool, AccessKeyConfig, PoolConfig};
use crate::headers;
use crate::headers::parse_bearer_auth;
use crate::text;
use crate::text::{concat2, same};

verus! {

/// A digit of base sixteen.
pub open spec fn hex_digit(d: int) -> char {
    if d < 10 {
        (48 + d) as char
    } else {
        (87 + d) as char
    }
}

/// Bytes in base sixteen, two digits each.
pub open spec fn hex_view(bytes: Seq<u8>) -> Seq<char>
    decreases bytes.len(),
{
    if bytes.len() == 0 {
        Seq::empty()
    } else {
        hex_view(bytes.drop_last()).push(hex_digit(bytes.last() as int / 16)).push(
            hex_digit(bytes.last() as int % 16),
        )
    }
}

fn to_hex_digit(d: u8) -> (c: char)
    requires
        d < 16,
    ensures
        c == hex_digit(d as int),
{
    if d < 10 {
        (48 + d) as char
    } else {
        (87 + d) as char
    }
}

/// The access key that random bytes give.
pub open spec fn access_key_view(bytes: Seq<u8>) -> Seq<char> {
    "me-"@ + hex_view(bytes)
}

/// The access key that random bytes give.
pub fn access_key_from_bytes(bytes: &[u8]) -> (key: String)
    ensures
        key@ == access_key_view(bytes@),
{
    let mut key = "me-".to_string();
    let mut i: usize = 0;
    assert(key@ =~= "me-"@ + hex_view(bytes@.take(0)));
    while i < bytes.len()
        invariant
            i <= bytes@.len(),
            key@ == "me-"@ + hex_view(bytes@.take(i as int)),
        decreases bytes@.len() - i,
    {
        let byte: u8 = bytes[i];
        let ghost before = hex_view(bytes@.take(i as int));
        key.push(to_hex_digit(byte / 16));
        key.push(to_hex_digit(byte % 16));
        proof {
            assert(bytes@.take(i + 1).drop_last() =~= bytes@.take(i as int));
            assert(bytes@.take(i + 1).last() == byte);
            assert(key@ =~= "me-"@ + hex_view(bytes@.take(i + 1)));
        }
        i = i + 1;
    }
    assert(bytes@.take(i as int) =~= bytes@);
    key
}

/// `rand::thread_rng().fill_bytes(..)`: random bytes, of which nothing is said.
#[verifier::external_body]
fn random_bytes() -> [u8; 32] {
    let mut bytes = [0u8; 32];
    rand::thread_rng().fill_bytes(&mut bytes);
    bytes
}

/// A key that may be an access key: sixty-four digits of base sixteen behind `me-`.
pub open spec fn is_access_key(key: Seq<char>) -> bool {
    exists|bytes: Seq<u8>| bytes.len() == 32 && key == #[trigger] access_key_view(bytes)
}

/// A new access key.
pub fn generate_access_key_value() -> (key: String)
    ensures
        is_access_key(key@),
        key@.len() == 67,
        text::has_prefix(key@, "me-"@),
{
    let bytes = random_bytes();
    let key = access_key_from_bytes(&bytes);
    proof {
        assert(bytes@.len() == 32);
        assert(key@ == access_key_view(bytes@));
        hex_len(bytes@);
        reveal_strlit("me-");
        assert(key@.take(3) =~= "me-"@);
    }
    key
}

proof fn hex_len(bytes: Seq<u8>)
    ensures
        hex_view(bytes).len() == 2 * bytes.len(),
    decreases bytes.len(),
{
    if bytes.len() > 0 {
        hex_len(bytes.drop_last());
    }
}

proof fn hex_injective(a: Seq<u8>, b: Seq<u8>)
    requires
        hex_view(a) == hex_view(b),
    ensures
        a == b,
    decreases a.len(),
{
    hex_len(a);
    hex_len(b);
    if a.len() > 0 {
        let ha = hex_view(a);
        let hb = hex_view(b);
        assert(ha[ha.len() - 1] == hex_digit(a.last() as int % 16));
        assert(ha[ha.len() - 2] == hex_digit(a.last() as int / 16));
        assert(hb[hb.len() - 1] == hex_digit(b.last() as int % 16));
        assert(hb[hb.len() - 2] == hex_digit(b.last() as int / 16));
        assert(ha.drop_last().drop_last() =~= hex_view(a.drop_last()));
        assert(hb.drop_last().drop_last() =~= hex_view(b.drop_last()));
        hex_injective(a.drop_last(), b.drop_last());
        assert(a =~= a.drop_last().push(a.last()));
        assert(b =~= b.drop_last().push(b.last()));
    } else {
        assert(a =~= b);
    }
}

/// Different random bytes give different access keys.
pub proof fn access_keys_differ(a: Seq<u8>, b: Seq<u8>)
    requires
        access_key_view(a) == access_key_view(b),
    ensures
        a == b,
{
    let n = "me-"@.len() as int;
    assert(access_key_view(a).skip(n) =~= hex_view(a));
    assert(access_key_view(b).skip(n) =~= hex_view(b));
    hex_injective(a, b);
}

/// How many new access keys are tried before giving up.
pub const ACCESS_KEY_TRIES: u32 = 16;

/// The next access key to try, after some were found to be in use already.
pub fn generate_unique_access_key(tried: u32) -> (result: Result<String, String>)
    ensures
        match result {
            Ok(key) => tried < ACCESS_KEY_TRIES && is_access_key(key@),
            Err(message) => tried >= ACCESS_KEY_TRIES && message@
                == "Failed to generate a unique access key"@,
        },
{
    if tried < ACCESS_KEY_TRIES {
        Ok(generate_access_key_value())
    } else {
        Err("Failed to generate a unique access key".to_string())
    }
}

/// A key as it is shown: of a long one the beginning and the end.
pub open spec fn masked(key: Seq<char>) -> Seq<char> {
    if key.len() <= 10 {
        key
    } else {
        key.take(6) + "..."@ + key.skip(key.len() - 4)
    }
}

/// A key as it is shown.
pub fn mask_key(api_key: &str) -> (shown: String)
    ensures
        shown@ == masked(api_key@),
{
    let len: usize = api_key.unicode_len();
    if len <= 10 {
        return api_key.to_string();
    }
    assert(api_key@.subrange(0, 6) =~= api_key@.take(6));
    assert(api_key@.subrange(len - 4, len as int) =~= api_key@.skip(len - 4));
    concat2(
        concat2(api_key.substring_char(0, 6), "...").as_str(),
        api_key.substring_char(len - 4, len),
    )
}

/// What is shown of a long key does not depend on its middle.
pub proof fn mask_hides_middle(a: Seq<char>, b: Seq<char>)
    requires
        a.len() > 10,
        b.len() > 10,
        a.take(6) == b.take(6),
        a.skip(a.len() - 4) == b.skip(b.len() - 4),
    ensures
        masked(a) == masked(b),
        masked(a).len() == 13,
{
    reveal_strlit("...");
}

/// A key that is shown already is shown as it is.
pub proof fn masking_twice_changes_nothing(key: Seq<char>)
    ensures
        masked(masked(key)) == masked(key),
{
    reveal_strlit("...");
    let shown = masked(key);
    if key.len() > 10 {
        assert(shown.len() == 13);
        assert(shown.take(6) =~= key.take(6));
        assert(shown.skip(9) =~= key.skip(key.len() - 4));
    }
}

/// The pool of an access key, for images or for anything else.
pub open spec fn proxy_id_for(access_key: AccessKeyConfig, is_image_request: bool) -> i64 {
    match access_key.image_proxy_id {
        Some(id) => if is_image_request {
            id
        } else {
            access_key.proxy_id
        },
        None => access_key.proxy_id,
    }
}

/// The pool of an access key, for images or for anything else.
pub fn access_key_proxy_id(access_key: &AccessKeyConfig, is_image_request: bool) -> (id: i64)
    ensures
        id == proxy_id_for(*access_key, is_image_request),
{
    if is_image_request {
        match access_key.image_proxy_id {
            Some(id) => id,
            None => access_key.proxy_id,
        }
    } else {
        access_key.proxy_id
    }
}

/// The first access key of that value.
pub open spec fn access_key_of(access_keys: Seq<AccessKeyConfig>, value: Seq<char>) -> Option<
    AccessKeyConfig,
>
    decreases access_keys.len(),
{
    if access_keys.len() == 0 {
        None
    } else if access_keys[0].access_key@ == value {
        Some(access_keys[0])
    } else {
        access_key_of(access_keys.skip(1), value)
    }
}

fn find_access_key<'a>(access_keys: &'a Vec<AccessKeyConfig>, value: &str) -> (found: Option<
    &'a AccessKeyConfig,
>)
    ensures
        match found {
            Some(access_key) => access_key_of(access_keys@, value@) == Some(*access_key),
            None => access_key_of(access_keys@, value@) is None,
        },
{
    let mut i: usize = 0;
    assert(access_keys@.skip(0) =~= access_keys@);
    while i < access_keys.len()
        invariant
            i <= access_keys@.len(),
            access_key_of(access_keys@, value@) == access_key_of(
                access_keys@.skip(i as int),
                value@,
            ),
        decreases access_keys@.len() - i,
    {
        assert(access_keys@.skip(i as int)[0] == access_keys@[i as int]);
        assert(access_keys@.skip(i as int).skip(1) =~= access_keys@.skip(i + 1));
        if same(access_keys[i].access_key.as_str(), value) {
            return Some(&access_keys[i]);
        }
        i = i + 1;
    }
    None
}

/// The pool that a client's key leads to, or the refusal: without a key, with one that there is
/// not, or with one whose pool there is not.
pub open spec fn admitted(
    access_keys: Seq<AccessKeyConfig>,
    pools: Seq<PoolConfig>,
    bearer: Option<Seq<char>>,
    is_image_request: bool,
) -> Result<(PoolConfig, AccessKeyConfig), RefusalView> {
    match bearer {
        None => Err(
            answer::json_refusal(UNAUTHORIZED, "Authorization: Bearer me-... is required"@),
        ),
        Some(value) => match access_key_of(access_keys, value) {
            None => Err(answer::json_refusal(UNAUTHORIZED, "Invalid access key"@)),
            Some(access_key) => match config::pool_of(
                pools,
                proxy_id_for(access_key, is_image_request),
            ) {
                Some(pool) => Ok((pool, access_key)),
                None => Err(
                    answer::json_refusal(
                        SERVICE_UNAVAILABLE,
                        if is_image_request {
                            "Bound image proxy not found for this access key"@
                        } else {
                            "Bound proxy not found for this access key"@
                        },
                    ),
                ),
            },
        },
    }
}

/// The pool that a client's key leads to, and that key.
pub fn proxy_for_access_key<'a>(
    access_keys: &'a Vec<AccessKeyConfig>,
    pools: &'a Vec<PoolConfig>,
    headers: &HeaderMap,
    is_image_request: bool,
) -> (result: Result<(&'a PoolConfig, &'a AccessKeyConfig), Refusal>)
    ensures
        ({
            let expected = admitted(
                access_keys@,
                pools@,
                headers::bearer_of(headers::header_contents(*headers)),
                is_image_request,
            );
            match result {
                Ok((pool, access_key)) => expected == Ok::<
                    (PoolConfig, AccessKeyConfig),
                    RefusalView,
                >((*pool, *access_key)),
                Err(refusal) => expected == Err::<(PoolConfig, AccessKeyConfig), RefusalView>(
                    refusal@,
                ),
            }
        }),
{
    let value = match parse_bearer_auth(headers) {
        Some(value) => value,
        None => {
            return Err(
                json_error(UNAUTHORIZED, "Authorization: Bearer me-... is required".to_string()),
            );
        },
    };
    let access_key = match find_access_key(access_keys, value.as_str()) {
        Some(access_key) => access_key,
        None => {
            return Err(json_error(UNAUTHORIZED, "Invalid access key".to_string()));
        },
    };
    match find_pool(pools, access_key_proxy_id(access_key, is_image_request)) {
        Some(pool) => Ok((pool, access_key)),
        None => {
            let message = if is_image_request {
                "Bound image proxy not found for this access key"
            } else {
                "Bound proxy not found for this access key"
            };
            Err(json_error(SERVICE_UNAVAILABLE, message.to_string()))
        },
    }
}

/// Whoever is let in holds an access key that there is, and gets the pool that it is bound to.
pub proof fn admitted_client_holds_a_key(
    access_keys: Seq<AccessKeyConfig>,
    pools: Seq<PoolConfig>,
    bearer: Option<Seq<char>>,
    is_image_request: bool,
)
    ensures
        admitted(access_keys, pools, bearer, is_image_request) matches Ok((pool, access_key)) ==> {
            &&& bearer == Some(access_key.access_key@)
            &&& access_keys.contains(access_key)
            &&& pools.contains(pool)
            &&& pool.id == proxy_id_for(access_key, is_image_request)
        },
{
    if let Ok((pool, access_key)) = admitted(access_keys, pools, bearer, is_image_request) {
        access_key_of_found(access_keys, bearer->0);
        pool_of_found(pools, proxy_id_for(access_key, is_image_request));
    }
}

proof fn access_key_of_found(access_keys: Seq<AccessKeyConfig>, value: Seq<char>)
    requires
        access_key_of(access_keys, value) is Some,
    ensures
        access_key_of(access_keys, value)->0.access_key@ == value,
        access_keys.contains(access_key_of(access_keys, value)->0),
    decreases access_keys.len(),
{
    if access_keys[0].access_key@ == value {
        assert(access_keys.contains(access_keys[0]));
    } else {
        let rest = access_keys.skip(1);
        access_key_of_found(rest, value);
        let i = choose|i: int| 0 <= i < rest.len() && rest[i] == access_key_of(rest, value)->0;
        assert(access_keys[i + 1] == rest[i]);
    }
}

proof fn pool_of_found(pools: Seq<PoolConfig>, id: i64)
    requires
        config::pool_of(pools, id) is Some,
    ensures
        config::pool_of(pools, id)->0.id == id,
        pools.contains(config::pool_of(pools, id)->0),
    decreases pools.len(),
{
    if pools[0].id == id {
        assert(pools.contains(pools[0]));
    } else {
        let rest = pools.skip(1);
        pool_of_found(rest, id);
        let i = choose|i: int| 0 <= i < rest.len() && rest[i] == config::pool_of(rest, id)->0;
        assert(pools[i + 1] == rest[i]);
    }
}

} // verus!
