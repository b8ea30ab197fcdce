//! What an administrator asks for beyond saving a pool whole: single pools, suppliers, keys and
//! access keys are made, changed, deleted, switched and unbanned.

use vstd::prelude::*;

use crate::answer;
use crate::answer::{json_error, Refusal, RefusalView, BAD_REQUEST, NOT_FOUND};
use crate::config;
use crate::config::{PoolConfig, ProtocolMode};
use crate::payload;
use crate::payload::{
    normalize_access_key_name,
    normalize_api_key,
    normalize_note,
    normalize_pool_name,
};
use crate::runtime;
use crate::runtime::{
    clear_image_key_runtime,
    clear_key_runtime,
    clear_pool_runtime,
    KeyRuntimeState,
    RuntimeView,
};
use crate::text;
use crate::upstream;
use crate::upstream::normalize_base_url;
use crate::usage;

verus! {

/// What a result without a value stands for.
pub open spec fn done_view(result: Result<(), Refusal>) -> Result<(), RefusalView> {
    match result {
        Ok(_) => Ok(()),
        Err(refusal) => Err(refusal@),
    }
}

/// Something that must be there; where it is not, the request is refused.
pub open spec fn must_exist(exists: bool, missing: Seq<char>) -> Result<(), RefusalView> {
    if exists {
        Ok(())
    } else {
        Err(answer::json_refusal(NOT_FOUND, missing))
    }
}

/// Refuses a request for something that is not there.
pub fn require_found(exists: bool, missing: &str) -> (result: Result<(), Refusal>)
    ensures
        done_view(result) == must_exist(exists, missing@),
{
    if exists {
        Ok(())
    } else {
        Err(json_error(NOT_FOUND, missing.to_string()))
    }
}

/// A pool as it is sent.
pub struct PoolPayload {
    pub name: String,
    pub note: Option<String>,
}

/// A pool that can be written.
pub struct PoolDraft {
    pub name: String,
    pub note: String,
}

/// The note that was sent, or an empty one.
pub open spec fn note_of(note: Option<String>) -> Seq<char> {
    match note {
        Some(note) => text::trim_view(note@),
        None => Seq::empty(),
    }
}

/// A pool that can be written: its name may not be blank.
pub fn prepare_pool(payload: &PoolPayload) -> (result: Result<PoolDraft, Refusal>)
    ensures
        match result {
            Ok(draft) => {
                &&& payload::required_text(payload.name@, "pool name must not be empty"@) == Ok::<
                    Seq<char>,
                    Seq<char>,
                >(draft.name@)
                &&& draft.note@ == note_of(payload.note)
            },
            Err(refusal) => {
                &&& text::trim_view(payload.name@).len() == 0
                &&& refusal@ == answer::json_refusal(BAD_REQUEST, "pool name must not be empty"@)
            },
        },
{
    let name = match normalize_pool_name(payload.name.as_str()) {
        Ok(name) => name,
        Err(message) => {
            return Err(json_error(BAD_REQUEST, message));
        },
    };
    let note = match &payload.note {
        Some(note) => normalize_note(note.as_str()),
        None => String::new(),
    };
    Ok(PoolDraft { name, note })
}

/// A name that another pool has is refused.
pub open spec fn name_must_be_free(taken: bool) -> Result<(), RefusalView> {
    if taken {
        Err(answer::json_refusal(BAD_REQUEST, "proxy name already exists"@))
    } else {
        Ok(())
    }
}

/// Whether a new pool becomes the active one: the first one does. A name that is taken is refused.
pub fn create_pool(name_taken: bool, pool_count: i64) -> (result: Result<bool, Refusal>)
    ensures
        match result {
            Ok(is_active) => !name_taken && is_active == (pool_count == 0),
            Err(refusal) => name_must_be_free(name_taken) == Err::<(), RefusalView>(refusal@),
        },
{
    if name_taken {
        Err(json_error(BAD_REQUEST, "proxy name already exists".to_string()))
    } else {
        Ok(pool_count == 0)
    }
}

/// Refuses to give a pool a name that another one has.
pub fn update_pool(name_taken: bool) -> (result: Result<(), Refusal>)
    ensures
        done_view(result) == name_must_be_free(name_taken),
{
    if name_taken {
        Err(json_error(BAD_REQUEST, "proxy name already exists".to_string()))
    } else {
        Ok(())
    }
}

/// Places in their order: each id with its place.
pub open spec fn places(ids: Seq<i64>) -> Seq<(i64, i64)> {
    Seq::new(ids.len(), |i: int| (ids[i], i as i64))
}

/// The place of each id of a list.
pub fn normalize_orders(ids: &Vec<i64>) -> (orders: Vec<(i64, i64)>)
    ensures
        orders@ == places(ids@),
{
    let mut orders: Vec<(i64, i64)> = Vec::new();
    let mut i: usize = 0;
    while i < ids.len()
        invariant
            i <= ids@.len(),
            orders@.len() == i,
            forall|j: int| 0 <= j < i ==> (#[trigger] orders@[j]) == (ids@[j], j as i64),
        decreases ids@.len() - i,
    {
        orders.push((ids[i], i as i64));
        i = i + 1;
    }
    assert(orders@ =~= places(ids@));
    orders
}

/// A pool among the others.
#[derive(Clone, Copy, Debug, PartialEq, Eq, Structural)]
pub struct PoolPlace {
    pub id: i64,
    pub is_active: bool,
    pub created_at: i64,
}

/// What an access key is bound to.
#[derive(Clone, Copy, Debug, PartialEq, Eq, Structural)]
pub struct Binding {
    pub access_key_id: i64,
    pub proxy_id: i64,
    pub image_proxy_id: Option<i64>,
}

/// What is done to delete a pool.
pub struct DeletePlan {
    /// The access keys that lose their pool for images.
    pub unbound_images: Vec<i64>,
    /// The places of the pools that are left.
    pub orders: Vec<(i64, i64)>,
    /// The pool that becomes the active one.
    pub activated: Option<i64>,
    /// The access keys whose uses are forgotten.
    pub forgotten_access_keys: Vec<i64>,
}

/// The ids of the pools, without that one, in their order.
pub open spec fn others(pools: Seq<PoolPlace>, id: i64, n: nat) -> Seq<i64>
    decreases n,
{
    if n == 0 {
        Seq::empty()
    } else if pools[n - 1].id == id {
        others(pools, id, (n - 1) as nat)
    } else {
        others(pools, id, (n - 1) as nat).push(pools[n - 1].id)
    }
}

/// The first pool of that id.
pub open spec fn place_of(pools: Seq<PoolPlace>, id: i64, n: nat) -> Option<PoolPlace>
    decreases n,
{
    if n == 0 {
        None
    } else {
        match place_of(pools, id, (n - 1) as nat) {
            Some(place) => Some(place),
            None => if pools[n - 1].id == id {
                Some(pools[n - 1])
            } else {
                None
            },
        }
    }
}

/// A pool was made before another; of two made at one time, the one with the smaller id.
pub open spec fn is_older(a: PoolPlace, b: PoolPlace) -> bool {
    a.created_at < b.created_at || (a.created_at == b.created_at && a.id < b.id)
}

/// The oldest of the first `n` pools, without that one.
pub open spec fn oldest_other(pools: Seq<PoolPlace>, id: i64, n: nat) -> Option<PoolPlace>
    decreases n,
{
    if n == 0 {
        None
    } else {
        let before = oldest_other(pools, id, (n - 1) as nat);
        if pools[n - 1].id == id {
            before
        } else {
            match before {
                Some(oldest) => if is_older(pools[n - 1], oldest) {
                    Some(pools[n - 1])
                } else {
                    Some(oldest)
                },
                None => Some(pools[n - 1]),
            }
        }
    }
}

/// An access key is bound to the pool, for images or for anything else.
pub open spec fn binds(binding: Binding, id: i64) -> bool {
    binding.proxy_id == id || binding.image_proxy_id == Some(id)
}

/// The access keys that are bound to the pool, among the first `n`.
pub open spec fn bound_to(bindings: Seq<Binding>, id: i64, n: nat) -> Seq<i64>
    decreases n,
{
    if n == 0 {
        Seq::empty()
    } else if binds(bindings[n - 1], id) {
        bound_to(bindings, id, (n - 1) as nat).push(bindings[n - 1].access_key_id)
    } else {
        bound_to(bindings, id, (n - 1) as nat)
    }
}

/// The access keys that are bound to the pool for images alone, among the first `n`.
pub open spec fn bound_for_images(bindings: Seq<Binding>, id: i64, n: nat) -> Seq<i64>
    decreases n,
{
    if n == 0 {
        Seq::empty()
    } else if bindings[n - 1].image_proxy_id == Some(id) && bindings[n - 1].proxy_id != id {
        bound_for_images(bindings, id, (n - 1) as nat).push(bindings[n - 1].access_key_id)
    } else {
        bound_for_images(bindings, id, (n - 1) as nat)
    }
}

/// What is done to delete a pool: the other pools close up, the oldest of them becomes the active
/// one where the deleted one was, and access keys that had it for images alone stay without.
pub open spec fn deletes_pool(
    pools: Seq<PoolPlace>,
    bindings: Seq<Binding>,
    id: i64,
    plan: DeletePlan,
) -> bool {
    let oldest = oldest_other(pools, id, pools.len());
    &&& plan.unbound_images@ == bound_for_images(bindings, id, bindings.len())
    &&& plan.orders@ == places(others(pools, id, pools.len()))
    &&& plan.activated == if place_of(pools, id, pools.len())->0.is_active && oldest is Some {
        Some(oldest->0.id)
    } else {
        None
    }
    &&& plan.forgotten_access_keys@ == bound_to(bindings, id, bindings.len())
}

/// What is done to delete a pool. The pools come in their order.
pub fn delete_pool(pools: &Vec<PoolPlace>, bindings: &Vec<Binding>, id: i64) -> (result: Result<
    DeletePlan,
    Refusal,
>)
    ensures
        match result {
            Ok(plan) => {
                &&& place_of(pools@, id, pools@.len()) is Some
                &&& deletes_pool(pools@, bindings@, id, plan)
            },
            Err(refusal) => {
                &&& place_of(pools@, id, pools@.len()) is None
                &&& refusal@ == answer::json_refusal(NOT_FOUND, "proxy not found"@)
            },
        },
{
    let mut place: Option<PoolPlace> = None;
    let mut oldest: Option<PoolPlace> = None;
    let mut left: Vec<i64> = Vec::new();
    let mut i: usize = 0;
    while i < pools.len()
        invariant
            i <= pools@.len(),
            place == place_of(pools@, id, i as nat),
            oldest == oldest_other(pools@, id, i as nat),
            left@ == others(pools@, id, i as nat),
        decreases pools@.len() - i,
    {
        let pool = pools[i];
        if pool.id == id {
            if place.is_none() {
                place = Some(pool);
            }
        } else {
            left.push(pool.id);
            let first = match oldest {
                Some(other) => pool.created_at < other.created_at || (pool.created_at
                    == other.created_at && pool.id < other.id),
                None => true,
            };
            if first {
                oldest = Some(pool);
            }
        }
        i = i + 1;
    }
    let place = match place {
        Some(place) => place,
        None => {
            return Err(json_error(NOT_FOUND, "proxy not found".to_string()));
        },
    };
    let mut unbound_images: Vec<i64> = Vec::new();
    let mut forgotten_access_keys: Vec<i64> = Vec::new();
    let mut i: usize = 0;
    while i < bindings.len()
        invariant
            i <= bindings@.len(),
            unbound_images@ == bound_for_images(bindings@, id, i as nat),
            forgotten_access_keys@ == bound_to(bindings@, id, i as nat),
        decreases bindings@.len() - i,
    {
        let binding = bindings[i];
        let for_images = match binding.image_proxy_id {
            Some(other) => other == id,
            None => false,
        };
        if binding.proxy_id == id || for_images {
            forgotten_access_keys.push(binding.access_key_id);
        }
        if for_images && binding.proxy_id != id {
            unbound_images.push(binding.access_key_id);
        }
        i = i + 1;
    }
    let activated = match oldest {
        Some(oldest) => if place.is_active {
            Some(oldest.id)
        } else {
            None
        },
        None => None,
    };
    Ok(
        DeletePlan {
            unbound_images,
            orders: normalize_orders(&left),
            activated,
            forgotten_access_keys,
        },
    )
}

/// The pool that becomes the active one is another one than the deleted one, and there.
pub proof fn activated_pool_is_left(pools: Seq<PoolPlace>, id: i64, n: nat)
    ensures
        oldest_other(pools, id, n) matches Some(oldest) ==> oldest.id != id && others(
            pools,
            id,
            n,
        ).contains(oldest.id),
        oldest_other(pools, id, n) is None ==> others(pools, id, n).len() == 0,
    decreases n,
{
    if n > 0 {
        activated_pool_is_left(pools, id, (n - 1) as nat);
        let before = others(pools, id, (n - 1) as nat);
        if pools[n - 1].id != id {
            let after = others(pools, id, n);
            assert(after[before.len() as int] == pools[n - 1].id);
            if let Some(oldest) = oldest_other(pools, id, (n - 1) as nat) {
                let j = choose|j: int| 0 <= j < before.len() && before[j] == oldest.id;
                assert(after[j] == oldest.id);
            }
        }
    }
}

/// A deleted pool is not among those that are left.
pub proof fn deleted_pool_has_no_place(pools: Seq<PoolPlace>, id: i64, n: nat)
    ensures
        !others(pools, id, n).contains(id),
    decreases n,
{
    if n > 0 {
        deleted_pool_has_no_place(pools, id, (n - 1) as nat);
        let before = others(pools, id, (n - 1) as nat);
        let after = others(pools, id, n);
        if after.contains(id) {
            let j = choose|j: int| 0 <= j < after.len() && after[j] == id;
            if j < before.len() {
                assert(before[j] == id);
            }
        }
    }
}

/// A refusal to make a pool the active one: there is no such thing any more.
pub fn activate_pool(pools: &Vec<PoolConfig>, id: i64) -> (refusal: Refusal)
    ensures
        refusal@ == if config::pool_of(pools@, id) is None {
            answer::json_refusal(NOT_FOUND, "proxy not found"@)
        } else {
            answer::json_refusal(
                BAD_REQUEST,
                "global proxy activation has been removed; bind a me-key to use this proxy"@,
            )
        },
{
    match config::find_pool(pools, id) {
        Some(_) => json_error(
            BAD_REQUEST,
            "global proxy activation has been removed; bind a me-key to use this proxy".to_string(),
        ),
        None => json_error(NOT_FOUND, "proxy not found".to_string()),
    }
}

/// An access key as it is sent.
pub struct AccessKeyPayload {
    pub name: String,
    pub proxy_id: i64,
    pub image_proxy_id: Option<i64>,
    pub override_model: String,
}

/// An access key that can be written.
pub struct AccessKeyDraft {
    pub name: String,
    pub proxy_id: i64,
    pub image_proxy_id: Option<i64>,
    pub override_model: String,
}

/// An access key that can be written: its name may not be blank.
pub fn prepare_access_key(payload: &AccessKeyPayload) -> (result: Result<AccessKeyDraft, Refusal>)
    ensures
        match result {
            Ok(draft) => {
                &&& payload::required_text(
                    payload.name@,
                    "access key name must not be empty"@,
                ) == Ok::<Seq<char>, Seq<char>>(draft.name@)
                &&& draft.proxy_id == payload.proxy_id
                &&& draft.image_proxy_id == payload.image_proxy_id
                &&& draft.override_model@ == text::trim_view(payload.override_model@)
            },
            Err(refusal) => {
                &&& text::trim_view(payload.name@).len() == 0
                &&& refusal@ == answer::json_refusal(
                    BAD_REQUEST,
                    "access key name must not be empty"@,
                )
            },
        },
{
    match normalize_access_key_name(payload.name.as_str()) {
        Ok(name) => Ok(
            AccessKeyDraft {
                name,
                proxy_id: payload.proxy_id,
                image_proxy_id: payload.image_proxy_id,
                override_model: payload.override_model.as_str().trim().to_string(),
            },
        ),
        Err(message) => Err(json_error(BAD_REQUEST, message)),
    }
}

/// The pools that an access key is bound to must be there.
pub open spec fn pools_must_exist(
    proxy_exists: bool,
    image_proxy_exists: Option<bool>,
) -> Result<(), RefusalView> {
    if !proxy_exists {
        Err(answer::json_refusal(BAD_REQUEST, "proxy not found"@))
    } else if image_proxy_exists == Some(false) {
        Err(answer::json_refusal(BAD_REQUEST, "image proxy not found"@))
    } else {
        Ok(())
    }
}

/// Refuses to bind an access key to a pool that is not there; `image_proxy_exists` is none where
/// it is to have no pool for images.
pub fn create_access_key(proxy_exists: bool, image_proxy_exists: Option<bool>) -> (result: Result<
    (),
    Refusal,
>)
    ensures
        done_view(result) == pools_must_exist(proxy_exists, image_proxy_exists),
{
    if !proxy_exists {
        return Err(json_error(BAD_REQUEST, "proxy not found".to_string()));
    }
    if let Some(exists) = image_proxy_exists {
        if !exists {
            return Err(json_error(BAD_REQUEST, "image proxy not found".to_string()));
        }
    }
    Ok(())
}

/// Whether the uses of an access key are forgotten when it is changed: where it gets another pool.
pub fn update_access_key(draft: &AccessKeyDraft, current: Option<(i64, Option<i64>)>) -> (result:
    Result<bool, Refusal>)
    ensures
        match result {
            Ok(forget) => current matches Some((proxy_id, image_proxy_id)) && forget == (proxy_id
                != draft.proxy_id || image_proxy_id != draft.image_proxy_id),
            Err(refusal) => {
                &&& current is None
                &&& refusal@ == answer::json_refusal(NOT_FOUND, "access key not found"@)
            },
        },
{
    match current {
        Some((proxy_id, image_proxy_id)) => {
            let same_images = match (image_proxy_id, draft.image_proxy_id) {
                (Some(a), Some(b)) => a == b,
                (None, None) => true,
                _ => false,
            };
            Ok(proxy_id != draft.proxy_id || !same_images)
        },
        None => Err(json_error(NOT_FOUND, "access key not found".to_string())),
    }
}

/// A supplier as it is sent.
pub struct BaseUrlPayload {
    pub name: String,
    pub base_url: String,
    pub protocol: ProtocolMode,
    pub override_model: String,
    pub sort_order: Option<i64>,
}

/// A supplier that can be written.
pub struct BaseUrlDraft {
    pub name: String,
    pub base_url: String,
    pub protocol: ProtocolMode,
    pub override_model: String,
    pub sort_order: Option<i64>,
}

/// A supplier that can be written: its base URL must be one of the web.
pub fn prepare_base_url(payload: &BaseUrlPayload) -> (result: Result<BaseUrlDraft, Refusal>)
    ensures
        match result {
            Ok(draft) => {
                &&& draft.name@ == text::trim_view(payload.name@)
                &&& upstream::normal_base_url(payload.base_url@) == Ok::<Seq<char>, Seq<char>>(
                    draft.base_url@,
                )
                &&& draft.protocol == payload.protocol
                &&& draft.override_model@ == payload.override_model@
                &&& draft.sort_order == payload.sort_order
            },
            Err(refusal) => {
                &&& refusal@.status == BAD_REQUEST
                &&& refusal@.json
                &&& upstream::normal_base_url(payload.base_url@) == Err::<Seq<char>, Seq<char>>(
                    refusal@.message,
                )
            },
        },
{
    match normalize_base_url(payload.base_url.as_str()) {
        Ok(base_url) => Ok(
            BaseUrlDraft {
                name: payload.name.as_str().trim().to_string(),
                base_url,
                protocol: payload.protocol,
                override_model: payload.override_model.clone(),
                sort_order: payload.sort_order,
            },
        ),
        Err(message) => Err(json_error(BAD_REQUEST, message)),
    }
}

/// The order in which something new is placed: the one that was asked for, or else the next one.
pub open spec fn new_order(asked: Option<i64>, next: Option<i64>) -> i64 {
    match asked {
        Some(order) => order,
        None => match next {
            Some(order) => order,
            None => 0,
        },
    }
}

fn choose_order(asked: Option<i64>, next: Option<i64>) -> (order: i64)
    ensures
        order == new_order(asked, next),
{
    match asked {
        Some(order) => order,
        None => match next {
            Some(order) => order,
            None => 0,
        },
    }
}

/// The order of a new supplier. It is refused where its pool is not there or has a supplier of
/// that base URL.
pub fn create_base_url(
    draft: &BaseUrlDraft,
    pool_exists: bool,
    duplicate: bool,
    next_order: Option<i64>,
) -> (result: Result<i64, Refusal>)
    ensures
        match result {
            Ok(order) => pool_exists && !duplicate && order == new_order(
                draft.sort_order,
                next_order,
            ),
            Err(refusal) => if !pool_exists {
                refusal@ == answer::json_refusal(NOT_FOUND, "proxy not found"@)
            } else {
                duplicate && refusal@ == answer::json_refusal(
                    BAD_REQUEST,
                    "base_url already exists in proxy"@,
                )
            },
        },
{
    if !pool_exists {
        return Err(json_error(NOT_FOUND, "proxy not found".to_string()));
    }
    if duplicate {
        return Err(json_error(BAD_REQUEST, "base_url already exists in proxy".to_string()));
    }
    Ok(choose_order(draft.sort_order, next_order))
}

/// The order of a supplier that is changed: the one that was asked for, or else the one that it
/// has. It is refused where it is not there, or where another supplier of the pool has the base
/// URL.
pub fn update_base_url(draft: &BaseUrlDraft, current_order: Option<i64>, duplicate: bool) -> (
    result: Result<i64, Refusal>)
    ensures
        match result {
            Ok(order) => current_order is Some && !duplicate && order == new_order(
                draft.sort_order,
                current_order,
            ),
            Err(refusal) => if current_order is None {
                refusal@ == answer::json_refusal(NOT_FOUND, "supplier not found"@)
            } else {
                duplicate && refusal@ == answer::json_refusal(
                    BAD_REQUEST,
                    "base_url already exists in proxy"@,
                )
            },
        },
{
    if current_order.is_none() {
        return Err(json_error(NOT_FOUND, "supplier not found".to_string()));
    }
    if duplicate {
        return Err(json_error(BAD_REQUEST, "base_url already exists in proxy".to_string()));
    }
    Ok(choose_order(draft.sort_order, current_order))
}

/// A key as it is sent.
pub struct ApiKeyPayload {
    pub api_key: String,
    pub sort_order: Option<i64>,
}

/// A key that can be written: it may not be blank.
pub fn prepare_api_key(payload: &ApiKeyPayload) -> (result: Result<String, Refusal>)
    ensures
        match result {
            Ok(api_key) => payload::required_text(
                payload.api_key@,
                "api_key must not be empty"@,
            ) == Ok::<Seq<char>, Seq<char>>(api_key@),
            Err(refusal) => {
                &&& text::trim_view(payload.api_key@).len() == 0
                &&& refusal@ == answer::json_refusal(BAD_REQUEST, "api_key must not be empty"@)
            },
        },
{
    match normalize_api_key(payload.api_key.as_str()) {
        Ok(api_key) => Ok(api_key),
        Err(message) => Err(json_error(BAD_REQUEST, message)),
    }
}

/// The order of a new key. It is refused where its supplier is not there or has that key.
pub fn create_key(
    asked_order: Option<i64>,
    supplier_exists: bool,
    duplicate: bool,
    next_order: Option<i64>,
) -> (result: Result<i64, Refusal>)
    ensures
        match result {
            Ok(order) => supplier_exists && !duplicate && order == new_order(
                asked_order,
                next_order,
            ),
            Err(refusal) => if !supplier_exists {
                refusal@ == answer::json_refusal(NOT_FOUND, "supplier not found"@)
            } else {
                duplicate && refusal@ == answer::json_refusal(
                    BAD_REQUEST,
                    "api_key already exists in supplier"@,
                )
            },
        },
{
    if !supplier_exists {
        return Err(json_error(NOT_FOUND, "supplier not found".to_string()));
    }
    if duplicate {
        return Err(json_error(BAD_REQUEST, "api_key already exists in supplier".to_string()));
    }
    Ok(choose_order(asked_order, next_order))
}

/// The order of a key that is changed: the one that was asked for, or else the one that it has. It
/// is refused where it is not there, or where another key of the supplier is the same.
pub fn update_key(asked_order: Option<i64>, current_order: Option<i64>, duplicate: bool) -> (result:
    Result<i64, Refusal>)
    ensures
        match result {
            Ok(order) => current_order is Some && !duplicate && order == new_order(
                asked_order,
                current_order,
            ),
            Err(refusal) => if current_order is None {
                refusal@ == answer::json_refusal(NOT_FOUND, "api_key not found"@)
            } else {
                duplicate && refusal@ == answer::json_refusal(
                    BAD_REQUEST,
                    "api_key already exists in supplier"@,
                )
            },
        },
{
    if current_order.is_none() {
        return Err(json_error(NOT_FOUND, "api_key not found".to_string()));
    }
    if duplicate {
        return Err(json_error(BAD_REQUEST, "api_key already exists in supplier".to_string()));
    }
    Ok(choose_order(asked_order, current_order))
}

/// Lifts the ban of a key and forgets its failures.
pub fn unban_key(pools: &Vec<PoolConfig>, state: &mut KeyRuntimeState, id: i64) -> (result: Result<
    (),
    Refusal,
>)
    ensures
        done_view(result) == must_exist(
            usage::all_key_ids(pools@, pools@.len()).contains(id),
            "api_key not found"@,
        ),
        final(state)@ == if result is Ok {
            RuntimeView { keys: old(state)@.keys.remove(id), ..old(state)@ }
        } else {
            old(state)@
        },
{
    let ids = usage::collect_key_ids(pools, false);
    if !usage::contains_id(&ids, id) {
        return Err(json_error(NOT_FOUND, "api_key not found".to_string()));
    }
    clear_key_runtime(state, id);
    Ok(())
}

/// Lifts the ban of a key for images and forgets its failures.
pub fn unban_image_key(pools: &Vec<PoolConfig>, state: &mut KeyRuntimeState, id: i64) -> (result:
    Result<(), Refusal>)
    ensures
        done_view(result) == must_exist(
            usage::all_image_key_ids(pools@, pools@.len()).contains(id),
            "image api_key not found"@,
        ),
        final(state)@ == if result is Ok {
            RuntimeView { image_keys: old(state)@.image_keys.remove(id), ..old(state)@ }
        } else {
            old(state)@
        },
{
    let ids = usage::collect_key_ids(pools, true);
    if !usage::contains_id(&ids, id) {
        return Err(json_error(NOT_FOUND, "image api_key not found".to_string()));
    }
    clear_image_key_runtime(state, id);
    Ok(())
}

/// Lifts the bans of all keys of a pool and forgets their failures.
pub fn unban_all_pool(pools: &Vec<PoolConfig>, state: &mut KeyRuntimeState, id: i64) -> (result:
    Result<(), Refusal>)
    ensures
        done_view(result) == must_exist(config::pool_of(pools@, id) is Some, "proxy not found"@),
        final(state)@ == match config::pool_of(pools@, id) {
            Some(pool) => runtime::without_pool(old(state)@, pool),
            None => old(state)@,
        },
{
    match config::find_pool(pools, id) {
        Some(_) => {
            clear_pool_runtime(state, pools, id);
            Ok(())
        },
        None => Err(json_error(NOT_FOUND, "proxy not found".to_string())),
    }
}

/// What a key that was switched on or off is remembered by: switched on, it starts afresh.
pub fn set_key_disabled(updated: usize, disabled: bool, state: &mut KeyRuntimeState, id: i64) -> (
    result: Result<(), Refusal>)
    ensures
        done_view(result) == must_exist(updated > 0, "api_key not found"@),
        final(state)@ == if updated > 0 && !disabled {
            RuntimeView { keys: old(state)@.keys.remove(id), ..old(state)@ }
        } else {
            old(state)@
        },
{
    if updated == 0 {
        return Err(json_error(NOT_FOUND, "api_key not found".to_string()));
    }
    if !disabled {
        clear_key_runtime(state, id);
    }
    Ok(())
}

/// What a key for images that was switched on or off is remembered by: switched on, it starts
/// afresh.
pub fn set_image_key_disabled(
    updated: usize,
    disabled: bool,
    state: &mut KeyRuntimeState,
    id: i64,
) -> (result: Result<(), Refusal>)
    ensures
        done_view(result) == must_exist(updated > 0, "image api_key not found"@),
        final(state)@ == if updated > 0 && !disabled {
            RuntimeView { image_keys: old(state)@.image_keys.remove(id), ..old(state)@ }
        } else {
            old(state)@
        },
{
    if updated == 0 {
        return Err(json_error(NOT_FOUND, "image api_key not found".to_string()));
    }
    if !disabled {
        clear_image_key_runtime(state, id);
    }
    Ok(())
}

} // verus!
