//! What an administrator is shown: the pools with the state of their keys, and the access keys
//! with their last use.

use vstd::prelude::*;

use crate::access;
use crate::access::mask_key;
use crate::clock::{Instant, Moment};
use crate::config::{
    AccessKeyConfig,
    ApiKeyConfig,
    BaseUrlConfig,
    PoolConfig,
    ProtocolMode,
    TestProtocol,
};
use crate::runtime;
use crate::runtime::{
    ensure_runtime_day,
    image_key_availability_in_state,
    key_availability_in_state,
    ApiKeyRuntime,
    KeyAvailability,
    KeyRuntimeState,
    RuntimeView,
};
use crate::text;
use crate::usage;
use crate::usage::{contains_id, KeyUsage, UsageRuntimeState, UsageView};

verus! {

broadcast use vstd::std_specs::hash::group_hash_axioms;

/// All pools.
pub struct ProxiesResponse {
    pub active_proxy_id: Option<i64>,
    pub proxies: Vec<ProxyView>,
}

/// A pool.
pub struct ProxyView {
    pub id: i64,
    pub name: String,
    pub note: String,
    pub is_active: bool,
    pub access_key_count: usize,
    pub in_use: bool,
    pub available_supplier_count: usize,
    pub total_supplier_count: usize,
    pub suppliers: Vec<SupplierView>,
}

/// A supplier.
pub struct SupplierView {
    pub id: i64,
    pub proxy_id: i64,
    pub name: String,
    pub base_url: String,
    pub protocol: ProtocolMode,
    pub override_model: String,
    pub sort_order: i64,
    pub available_key_count: usize,
    pub total_key_count: usize,
    pub schedulable: bool,
    pub last_used_at: Option<i64>,
    pub last_used_by_access_key_name: Option<String>,
    pub keys: Vec<ApiKeyView>,
    pub image_keys: Vec<ApiKeyView>,
}

/// A key of a supplier.
pub struct ApiKeyView {
    pub id: i64,
    pub api_key: String,
    pub masked_key: String,
    pub sort_order: i64,
    pub manually_disabled: bool,
    pub test_model: Option<String>,
    pub test_protocol: Option<TestProtocol>,
    pub fail_count: u32,
    pub banned: bool,
    pub ban_until: Option<i64>,
    pub last_used: bool,
    pub last_used_at: Option<i64>,
    pub last_used_by_access_key_name: Option<String>,
}

/// What the pools are shown by: what is remembered today, the last uses, and the access keys.
pub ghost struct Scene {
    pub today: RuntimeView,
    pub usage: UsageView,
    pub access_keys: Seq<AccessKeyConfig>,
    pub at: Instant,
}

/// The name of the last access key of that id among the first `n`.
pub open spec fn access_key_name(access_keys: Seq<AccessKeyConfig>, id: i64, n: nat) -> Option<
    Seq<char>,
>
    decreases n,
{
    if n == 0 {
        None
    } else if access_keys[n - 1].id == id {
        Some(access_keys[n - 1].name@)
    } else {
        access_key_name(access_keys, id, (n - 1) as nat)
    }
}

fn find_access_key_name(access_keys: &Vec<AccessKeyConfig>, id: i64) -> (name: Option<String>)
    ensures
        text::opt_string_view(name) == access_key_name(access_keys@, id, access_keys@.len()),
{
    let mut n: usize = access_keys.len();
    while n > 0
        invariant
            n <= access_keys@.len(),
            access_key_name(access_keys@, id, access_keys@.len()) == access_key_name(
                access_keys@,
                id,
                n as nat,
            ),
        decreases n,
    {
        if access_keys[n - 1].id == id {
            return Some(access_keys[n - 1].name.clone());
        }
        n = n - 1;
    }
    None
}

/// The use of a key, where it was used.
pub open spec fn use_of(by_key: Map<i64, KeyUsage>, id: i64) -> Option<KeyUsage> {
    by_key.get(id)
}

fn find_use(usage: &UsageRuntimeState, id: i64) -> (used: Option<KeyUsage>)
    ensures
        used == use_of(usage@.by_key, id),
{
    match usage.by_key.get(&id) {
        Some(used) => Some(*used),
        None => None,
    }
}

/// The name of whoever used a key.
pub open spec fn user_name(scene: Scene, used: Option<KeyUsage>) -> Option<Seq<char>> {
    match used {
        Some(used) => access_key_name(
            scene.access_keys,
            used.access_key_id,
            scene.access_keys.len(),
        ),
        None => None,
    }
}

/// When a key was used.
pub open spec fn used_at(used: Option<KeyUsage>) -> Option<i64> {
    match used {
        Some(used) => Some(used.used_at),
        None => None,
    }
}

fn find_user_name(access_keys: &Vec<AccessKeyConfig>, used: Option<KeyUsage>) -> (name: Option<
    String,
>)
    ensures
        text::opt_string_view(name) == match used {
            Some(used) => access_key_name(access_keys@, used.access_key_id, access_keys@.len()),
            None => None,
        },
{
    match used {
        Some(used) => find_access_key_name(access_keys, used.access_key_id),
        None => None,
    }
}

fn time_of(used: Option<KeyUsage>) -> (at: Option<i64>)
    ensures
        at == used_at(used),
{
    match used {
        Some(used) => Some(used.used_at),
        None => None,
    }
}

/// The key and its state are shown.
pub open spec fn shows_state(view: ApiKeyView, key: ApiKeyConfig, found: KeyAvailability) -> bool {
    &&& view.id == key.id
    &&& view.api_key@ == key.api_key@
    &&& view.masked_key@ == access::masked(key.api_key@)
    &&& view.sort_order == key.sort_order
    &&& view.manually_disabled == key.manually_disabled
    &&& view.fail_count == found.fail_count
    &&& view.banned == found.banned
    &&& view.ban_until == found.ban_until
}

/// How a key can be used.
pub open spec fn key_found(scene: Scene, key: ApiKeyConfig) -> KeyAvailability {
    runtime::availability(key.manually_disabled, scene.today.keys, key.id, scene.at)
}

/// How a key for images can be used.
pub open spec fn image_key_found(scene: Scene, key: ApiKeyConfig) -> KeyAvailability {
    runtime::availability(key.manually_disabled, scene.today.image_keys, key.id, scene.at)
}

/// A key is shown with its state, its test and its last use.
pub open spec fn shows_key(scene: Scene, view: ApiKeyView, key: ApiKeyConfig) -> bool {
    let used = use_of(scene.usage.by_key, key.id);
    &&& shows_state(view, key, key_found(scene, key))
    &&& text::opt_string_view(view.test_model) == if key.test_model@.len() == 0 {
        None
    } else {
        Some(key.test_model@)
    }
    &&& view.test_protocol == key.test_protocol
    &&& view.last_used == (used is Some)
    &&& view.last_used_at == used_at(used)
    &&& text::opt_string_view(view.last_used_by_access_key_name) == user_name(scene, used)
}

/// A key for images is shown with its state alone.
pub open spec fn shows_image_key(scene: Scene, view: ApiKeyView, key: ApiKeyConfig) -> bool {
    &&& shows_state(view, key, image_key_found(scene, key))
    &&& view.test_model is None
    &&& view.test_protocol is None
    &&& !view.last_used
    &&& view.last_used_at is None
    &&& view.last_used_by_access_key_name is None
}

/// How many of the first `n` keys can be used.
pub open spec fn available_keys(scene: Scene, keys: Seq<ApiKeyConfig>, n: nat) -> nat
    decreases n,
{
    if n == 0 {
        0
    } else if key_found(scene, keys[n - 1]).schedulable {
        available_keys(scene, keys, (n - 1) as nat) + 1
    } else {
        available_keys(scene, keys, (n - 1) as nat)
    }
}

/// The last use of any of the first `n` keys; of two at one time, that of the later key.
pub open spec fn latest_use(
    by_key: Map<i64, KeyUsage>,
    keys: Seq<ApiKeyConfig>,
    n: nat,
) -> Option<KeyUsage>
    decreases n,
{
    if n == 0 {
        None
    } else {
        let before = latest_use(by_key, keys, (n - 1) as nat);
        match (before, use_of(by_key, keys[n - 1].id)) {
            (Some(earlier), Some(used)) => if used.used_at >= earlier.used_at {
                Some(used)
            } else {
                Some(earlier)
            },
            (None, Some(used)) => Some(used),
            (before, None) => before,
        }
    }
}

/// A supplier is shown with its keys, its last use, and how many of its keys can be used.
pub open spec fn shows_supplier(scene: Scene, view: SupplierView, supplier: BaseUrlConfig) -> bool {
    let keys = supplier.api_keys@;
    let latest = latest_use(scene.usage.by_key, keys, keys.len());
    &&& view.id == supplier.id
    &&& view.proxy_id == supplier.pool_id
    &&& view.name@ == supplier.name@
    &&& view.base_url@ == supplier.base_url@
    &&& view.protocol == supplier.protocol_mode
    &&& view.override_model@ == supplier.override_model@
    &&& view.sort_order == supplier.sort_order
    &&& view.available_key_count == available_keys(scene, keys, keys.len())
    &&& view.total_key_count == keys.len()
    &&& view.schedulable == (view.available_key_count > 0)
    &&& view.last_used_at == used_at(latest)
    &&& text::opt_string_view(view.last_used_by_access_key_name) == user_name(scene, latest)
    &&& view.keys@.len() == keys.len()
    &&& forall|i: int| 0 <= i < keys.len() ==> #[trigger] shows_key(scene, view.keys@[i], keys[i])
    &&& view.image_keys@.len() == supplier.image_keys@.len()
    &&& forall|i: int|
        0 <= i < supplier.image_keys@.len() ==> #[trigger] shows_image_key(
            scene,
            view.image_keys@[i],
            supplier.image_keys@[i],
        )
}

/// How many of the first `n` suppliers can be used.
pub open spec fn available_suppliers(scene: Scene, suppliers: Seq<BaseUrlConfig>, n: nat) -> nat
    decreases n,
{
    if n == 0 {
        0
    } else {
        let keys = suppliers[n - 1].api_keys@;
        let before = available_suppliers(scene, suppliers, (n - 1) as nat);
        if available_keys(scene, keys, keys.len()) > 0 {
            before + 1
        } else {
            before
        }
    }
}

/// An access key is bound to a pool, for images or for anything else.
pub open spec fn is_bound(access_key: AccessKeyConfig, pool_id: i64) -> bool {
    access_key.proxy_id == pool_id || access_key.image_proxy_id == Some(pool_id)
}

/// The ids of the access keys that are bound to a pool.
pub open spec fn bound_ids(access_keys: Seq<AccessKeyConfig>, pool_id: i64) -> Set<i64> {
    Set::new(
        |id: i64|
            exists|i: int|
                0 <= i < access_keys.len() && (#[trigger] access_keys[i]).id == id && is_bound(
                    access_keys[i],
                    pool_id,
                ),
    )
}

/// A pool is shown with its suppliers, how many of them can be used, and how many access keys are
/// bound to it.
pub open spec fn shows_pool(scene: Scene, view: ProxyView, pool: PoolConfig) -> bool {
    let suppliers = pool.base_urls@;
    &&& view.id == pool.id
    &&& view.name@ == pool.name@
    &&& view.note@ == pool.note@
    &&& view.is_active == pool.is_active
    &&& view.access_key_count == bound_ids(scene.access_keys, pool.id).len()
    &&& view.in_use == (view.access_key_count > 0)
    &&& view.available_supplier_count == available_suppliers(scene, suppliers, suppliers.len())
    &&& view.total_supplier_count == suppliers.len()
    &&& view.suppliers@.len() == suppliers.len()
    &&& forall|i: int|
        0 <= i < suppliers.len() ==> #[trigger] shows_supplier(
            scene,
            view.suppliers@[i],
            suppliers[i],
        )
}

/// Keys of which some were looked at: the bans of those that have run out are lifted.
pub open spec fn cleaned(
    keys: Map<i64, ApiKeyRuntime>,
    ids: Seq<i64>,
    at: Instant,
) -> Map<i64, ApiKeyRuntime> {
    Map::new(
        |id: i64| keys.contains_key(id),
        |id: i64|
            if ids.contains(id) {
                runtime::without_expired_ban(keys[id], at)
            } else {
                keys[id]
            },
    )
}

proof fn cleaned_next(keys: Map<i64, ApiKeyRuntime>, ids: Seq<i64>, id: i64, at: Instant)
    ensures
        runtime::looked_at(cleaned(keys, ids, at), id, at) == cleaned(keys, ids.push(id), at),
        forall|disabled: bool| #[trigger]
            runtime::availability(disabled, cleaned(keys, ids, at), id, at)
                == runtime::availability(disabled, keys, id, at),
{
    assert forall|k: i64| ids.push(id).contains(k) <==> (ids.contains(k) || k == id) by {
        if ids.contains(k) {
            let j = choose|j: int| 0 <= j < ids.len() && ids[j] == k;
            assert(ids.push(id)[j] == k);
        }
        if k == id {
            assert(ids.push(id)[ids.len() as int] == k);
        }
    }
    assert(runtime::looked_at(cleaned(keys, ids, at), id, at) =~= cleaned(
        keys,
        ids.push(id),
        at,
    ));
}

/// What is remembered once some keys, and some keys for images, were looked at.
pub open spec fn after_looking(
    today: RuntimeView,
    ids: Seq<i64>,
    image_ids: Seq<i64>,
    at: Instant,
) -> RuntimeView {
    RuntimeView {
        day: today.day,
        keys: cleaned(today.keys, ids, at),
        image_keys: cleaned(today.image_keys, image_ids, at),
    }
}

/// What a call that shows something is given.
pub open spec fn scene_of(
    today: RuntimeView,
    usage: UsageRuntimeState,
    access_keys: Seq<AccessKeyConfig>,
    now: Moment,
) -> Scene {
    Scene { today, usage: usage@, access_keys, at: now.at }
}

fn show_key(
    key: &ApiKeyConfig,
    found: KeyAvailability,
    access_keys: &Vec<AccessKeyConfig>,
    usage: &UsageRuntimeState,
    Ghost(scene): Ghost<Scene>,
) -> (view: ApiKeyView)
    requires
        scene.access_keys == access_keys@,
        scene.usage == usage@,
        found == key_found(scene, *key),
    ensures
        shows_key(scene, view, *key),
{
    let used = find_use(usage, key.id);
    ApiKeyView {
        id: key.id,
        api_key: key.api_key.clone(),
        masked_key: mask_key(key.api_key.as_str()),
        sort_order: key.sort_order,
        manually_disabled: key.manually_disabled,
        test_model: if key.test_model.as_str().is_empty() {
            None
        } else {
            Some(key.test_model.clone())
        },
        test_protocol: key.test_protocol,
        fail_count: found.fail_count,
        banned: found.banned,
        ban_until: found.ban_until,
        last_used: used.is_some(),
        last_used_at: time_of(used),
        last_used_by_access_key_name: find_user_name(access_keys, used),
    }
}

fn show_image_key(key: &ApiKeyConfig, found: KeyAvailability) -> (view: ApiKeyView)
    ensures
        shows_state(view, *key, found),
        view.test_model is None,
        view.test_protocol is None,
        !view.last_used,
        view.last_used_at is None,
        view.last_used_by_access_key_name is None,
{
    ApiKeyView {
        id: key.id,
        api_key: key.api_key.clone(),
        masked_key: mask_key(key.api_key.as_str()),
        sort_order: key.sort_order,
        manually_disabled: key.manually_disabled,
        test_model: None,
        test_protocol: None,
        fail_count: found.fail_count,
        banned: found.banned,
        ban_until: found.ban_until,
        last_used: false,
        last_used_at: None,
        last_used_by_access_key_name: None,
    }
}

fn find_latest_use(usage: &UsageRuntimeState, keys: &Vec<ApiKeyConfig>) -> (latest: Option<
    KeyUsage,
>)
    ensures
        latest == latest_use(usage@.by_key, keys@, keys@.len()),
{
    let mut latest: Option<KeyUsage> = None;
    let mut i: usize = 0;
    while i < keys.len()
        invariant
            i <= keys@.len(),
            latest == latest_use(usage@.by_key, keys@, i as nat),
        decreases keys@.len() - i,
    {
        if let Some(used) = find_use(usage, keys[i].id) {
            latest = match latest {
                Some(earlier) => if used.used_at >= earlier.used_at {
                    Some(used)
                } else {
                    Some(earlier)
                },
                None => Some(used),
            };
        }
        i = i + 1;
    }
    latest
}

fn show_keys(
    keys: &Vec<ApiKeyConfig>,
    access_keys: &Vec<AccessKeyConfig>,
    usage: &UsageRuntimeState,
    state: &mut KeyRuntimeState,
    now: Moment,
    Ghost(scene): Ghost<Scene>,
    Ghost(ids): Ghost<Seq<i64>>,
    Ghost(image_ids): Ghost<Seq<i64>>,
) -> (shown: (Vec<ApiKeyView>, usize))
    requires
        scene == scene_of(scene.today, *usage, access_keys@, now),
        scene.today.day == now.day,
        old(state)@ == after_looking(scene.today, ids, image_ids, now.at),
    ensures
        final(state)@ == after_looking(
            scene.today,
            ids + runtime::key_ids(keys@),
            image_ids,
            now.at,
        ),
        shown.0@.len() == keys@.len(),
        forall|i: int|
            0 <= i < keys@.len() ==> #[trigger] shows_key(scene, shown.0@[i], keys@[i]),
        shown.1 == available_keys(scene, keys@, keys@.len()),
{
    let mut views: Vec<ApiKeyView> = Vec::new();
    let mut available: usize = 0;
    let mut i: usize = 0;
    assert(ids + runtime::key_ids(keys@.take(0)) =~= ids);
    while i < keys.len()
        invariant
            i <= keys@.len(),
            scene == scene_of(scene.today, *usage, access_keys@, now),
            scene.today.day == now.day,
            state@ == after_looking(
                scene.today,
                ids + runtime::key_ids(keys@.take(i as int)),
                image_ids,
                now.at,
            ),
            views@.len() == i,
            forall|j: int| 0 <= j < i ==> #[trigger] shows_key(scene, views@[j], keys@[j]),
            available <= i,
            available == available_keys(scene, keys@, i as nat),
        decreases keys@.len() - i,
    {
        let key = &keys[i];
        proof {
            let so_far = ids + runtime::key_ids(keys@.take(i as int));
            cleaned_next(scene.today.keys, so_far, key.id, now.at);
            assert(so_far.push(key.id) =~= ids + runtime::key_ids(keys@.take(i + 1)));
        }
        let found = key_availability_in_state(key, state, now);
        if found.schedulable {
            available = available + 1;
        }
        let ghost before = views@;
        views.push(show_key(key, found, access_keys, usage, Ghost(scene)));
        assert forall|j: int| 0 <= j < i + 1 implies #[trigger] shows_key(
            scene,
            views@[j],
            keys@[j],
        ) by {
            if j < i {
                assert(shows_key(scene, before[j], keys@[j]));
            }
        }
        i = i + 1;
    }
    assert(keys@.take(i as int) =~= keys@);
    (views, available)
}

fn show_image_keys(
    keys: &Vec<ApiKeyConfig>,
    state: &mut KeyRuntimeState,
    now: Moment,
    Ghost(scene): Ghost<Scene>,
    Ghost(ids): Ghost<Seq<i64>>,
    Ghost(image_ids): Ghost<Seq<i64>>,
) -> (views: Vec<ApiKeyView>)
    requires
        scene.at == now.at,
        scene.today.day == now.day,
        old(state)@ == after_looking(scene.today, ids, image_ids, now.at),
    ensures
        final(state)@ == after_looking(
            scene.today,
            ids,
            image_ids + runtime::key_ids(keys@),
            now.at,
        ),
        views@.len() == keys@.len(),
        forall|i: int|
            0 <= i < keys@.len() ==> #[trigger] shows_image_key(scene, views@[i], keys@[i]),
{
    let mut views: Vec<ApiKeyView> = Vec::new();
    let mut i: usize = 0;
    assert(image_ids + runtime::key_ids(keys@.take(0)) =~= image_ids);
    while i < keys.len()
        invariant
            i <= keys@.len(),
            scene.at == now.at,
            scene.today.day == now.day,
            state@ == after_looking(
                scene.today,
                ids,
                image_ids + runtime::key_ids(keys@.take(i as int)),
                now.at,
            ),
            views@.len() == i,
            forall|j: int| 0 <= j < i ==> #[trigger] shows_image_key(scene, views@[j], keys@[j]),
        decreases keys@.len() - i,
    {
        let key = &keys[i];
        proof {
            let so_far = image_ids + runtime::key_ids(keys@.take(i as int));
            cleaned_next(scene.today.image_keys, so_far, key.id, now.at);
            assert(so_far.push(key.id) =~= image_ids + runtime::key_ids(keys@.take(i + 1)));
        }
        let found = image_key_availability_in_state(key, state, now);
        let ghost before = views@;
        views.push(show_image_key(key, found));
        assert forall|j: int| 0 <= j < i + 1 implies #[trigger] shows_image_key(
            scene,
            views@[j],
            keys@[j],
        ) by {
            if j < i {
                assert(shows_image_key(scene, before[j], keys@[j]));
            }
        }
        i = i + 1;
    }
    assert(keys@.take(i as int) =~= keys@);
    views
}

fn show_supplier(
    supplier: &BaseUrlConfig,
    access_keys: &Vec<AccessKeyConfig>,
    usage: &UsageRuntimeState,
    state: &mut KeyRuntimeState,
    now: Moment,
    Ghost(scene): Ghost<Scene>,
    Ghost(ids): Ghost<Seq<i64>>,
    Ghost(image_ids): Ghost<Seq<i64>>,
) -> (view: SupplierView)
    requires
        scene == scene_of(scene.today, *usage, access_keys@, now),
        scene.today.day == now.day,
        old(state)@ == after_looking(scene.today, ids, image_ids, now.at),
    ensures
        final(state)@ == after_looking(
            scene.today,
            ids + runtime::key_ids(supplier.api_keys@),
            image_ids + runtime::key_ids(supplier.image_keys@),
            now.at,
        ),
        shows_supplier(scene, view, *supplier),
{
    let latest = find_latest_use(usage, &supplier.api_keys);
    let (keys, available_key_count) = show_keys(
        &supplier.api_keys,
        access_keys,
        usage,
        state,
        now,
        Ghost(scene),
        Ghost(ids),
        Ghost(image_ids),
    );
    let image_keys = show_image_keys(
        &supplier.image_keys,
        state,
        now,
        Ghost(scene),
        Ghost(ids + runtime::key_ids(supplier.api_keys@)),
        Ghost(image_ids),
    );
    SupplierView {
        id: supplier.id,
        proxy_id: supplier.pool_id,
        name: supplier.name.clone(),
        base_url: supplier.base_url.clone(),
        protocol: supplier.protocol_mode,
        override_model: supplier.override_model.clone(),
        sort_order: supplier.sort_order,
        available_key_count,
        total_key_count: keys.len(),
        schedulable: available_key_count > 0,
        last_used_at: time_of(latest),
        last_used_by_access_key_name: find_user_name(access_keys, latest),
        keys,
        image_keys,
    }
}

fn count_bound(access_keys: &Vec<AccessKeyConfig>, pool_id: i64) -> (count: usize)
    ensures
        bound_ids(access_keys@, pool_id).finite(),
        count == bound_ids(access_keys@, pool_id).len(),
{
    let mut ids: Vec<i64> = Vec::new();
    let mut i: usize = 0;
    while i < access_keys.len()
        invariant
            i <= access_keys@.len(),
            ids@.no_duplicates(),
            forall|id: i64| #[trigger]
                ids@.contains(id) <==> bound_ids(access_keys@.take(i as int), pool_id).contains(id),
        decreases access_keys@.len() - i,
    {
        let access_key = &access_keys[i];
        let for_images = match access_key.image_proxy_id {
            Some(id) => id == pool_id,
            None => false,
        };
        let bound = access_key.proxy_id == pool_id || for_images;
        let ghost before = ids@;
        let ghost upto = access_keys@.take(i + 1);
        proof {
            assert forall|id: i64| bound_ids(upto, pool_id).contains(id) <==> (bound_ids(
                access_keys@.take(i as int),
                pool_id,
            ).contains(id) || (is_bound(*access_key, pool_id) && id == access_key.id)) by {
                if bound_ids(access_keys@.take(i as int), pool_id).contains(id) {
                    let j = choose|j: int|
                        0 <= j < access_keys@.take(i as int).len() && (
                        #[trigger] access_keys@.take(i as int)[j]).id == id && is_bound(
                            access_keys@.take(i as int)[j],
                            pool_id,
                        );
                    assert(upto[j].id == id && is_bound(upto[j], pool_id));
                }
                if is_bound(*access_key, pool_id) && id == access_key.id {
                    assert(upto[i as int].id == id && is_bound(upto[i as int], pool_id));
                }
                if bound_ids(upto, pool_id).contains(id) {
                    let j = choose|j: int|
                        0 <= j < upto.len() && (#[trigger] upto[j]).id == id && is_bound(
                            upto[j],
                            pool_id,
                        );
                    if j < i {
                        assert(access_keys@.take(i as int)[j] == upto[j]);
                    }
                }
            }
        }
        if bound && !contains_id(&ids, access_key.id) {
            ids.push(access_key.id);
            proof {
                assert forall|id: i64| #[trigger] ids@.contains(id) <==> (before.contains(id) || id
                    == access_key.id) by {
                    if before.contains(id) {
                        let j = choose|j: int| 0 <= j < before.len() && before[j] == id;
                        assert(ids@[j] == id);
                    }
                    if id == access_key.id {
                        assert(ids@[before.len() as int] == id);
                    }
                }
            }
        }
        i = i + 1;
    }
    proof {
        assert(access_keys@.take(i as int) =~= access_keys@);
        assert(ids@.to_set() =~= bound_ids(access_keys@, pool_id));
        vstd::seq_lib::seq_to_set_is_finite(ids@);
        ids@.unique_seq_to_set();
    }
    ids.len()
}

fn show_pool(
    pool: &PoolConfig,
    access_keys: &Vec<AccessKeyConfig>,
    usage: &UsageRuntimeState,
    state: &mut KeyRuntimeState,
    now: Moment,
    Ghost(scene): Ghost<Scene>,
    Ghost(ids): Ghost<Seq<i64>>,
    Ghost(image_ids): Ghost<Seq<i64>>,
) -> (view: ProxyView)
    requires
        scene == scene_of(scene.today, *usage, access_keys@, now),
        scene.today.day == now.day,
        old(state)@ == after_looking(scene.today, ids, image_ids, now.at),
    ensures
        final(state)@ == after_looking(
            scene.today,
            ids + runtime::supplier_key_ids(pool.base_urls@, false, pool.base_urls@.len()),
            image_ids + runtime::supplier_key_ids(pool.base_urls@, true, pool.base_urls@.len()),
            now.at,
        ),
        shows_pool(scene, view, *pool),
{
    let ghost all = pool.base_urls@;
    let access_key_count: usize = count_bound(access_keys, pool.id);
    let mut suppliers: Vec<SupplierView> = Vec::new();
    let mut available: usize = 0;
    let mut i: usize = 0;
    proof {
        assert(ids + runtime::supplier_key_ids(all, false, 0) =~= ids);
        assert(image_ids + runtime::supplier_key_ids(all, true, 0) =~= image_ids);
    }
    while i < pool.base_urls.len()
        invariant
            all == pool.base_urls@,
            i <= all.len(),
            scene == scene_of(scene.today, *usage, access_keys@, now),
            scene.today.day == now.day,
            state@ == after_looking(
                scene.today,
                ids + runtime::supplier_key_ids(all, false, i as nat),
                image_ids + runtime::supplier_key_ids(all, true, i as nat),
                now.at,
            ),
            suppliers@.len() == i,
            forall|j: int| 0 <= j < i ==> #[trigger] shows_supplier(scene, suppliers@[j], all[j]),
            available <= i,
            available == available_suppliers(scene, all, i as nat),
        decreases all.len() - i,
    {
        let supplier = show_supplier(
            &pool.base_urls[i],
            access_keys,
            usage,
            state,
            now,
            Ghost(scene),
            Ghost(ids + runtime::supplier_key_ids(all, false, i as nat)),
            Ghost(image_ids + runtime::supplier_key_ids(all, true, i as nat)),
        );
        proof {
            let chat = runtime::supplier_key_ids(all, false, i as nat);
            let images = runtime::supplier_key_ids(all, true, i as nat);
            let more = runtime::key_ids(all[i as int].api_keys@);
            let more_images = runtime::key_ids(all[i as int].image_keys@);
            assert((ids + chat) + more =~= ids + (chat + more));
            assert((image_ids + images) + more_images =~= image_ids + (images + more_images));
        }
        if supplier.schedulable {
            available = available + 1;
        }
        let ghost before = suppliers@;
        suppliers.push(supplier);
        assert forall|j: int| 0 <= j < i + 1 implies #[trigger] shows_supplier(
            scene,
            suppliers@[j],
            all[j],
        ) by {
            if j < i {
                assert(shows_supplier(scene, before[j], all[j]));
            }
        }
        i = i + 1;
    }
    ProxyView {
        id: pool.id,
        name: pool.name.clone(),
        note: pool.note.clone(),
        is_active: pool.is_active,
        access_key_count,
        in_use: access_key_count > 0,
        available_supplier_count: available,
        total_supplier_count: suppliers.len(),
        suppliers,
    }
}

/// All pools, as they are now.
pub fn pools_response(
    pools: &Vec<PoolConfig>,
    access_keys: &Vec<AccessKeyConfig>,
    usage: &UsageRuntimeState,
    state: &mut KeyRuntimeState,
    now: Moment,
) -> (response: ProxiesResponse)
    ensures
        ({
            let today = runtime::on_day(old(state)@, now.day);
            let scene = scene_of(today, *usage, access_keys@, now);
            &&& response.active_proxy_id is None
            &&& response.proxies@.len() == pools@.len()
            &&& forall|i: int|
                0 <= i < pools@.len() ==> #[trigger] shows_pool(
                    scene,
                    response.proxies@[i],
                    pools@[i],
                )
            &&& final(state)@ == after_looking(
                today,
                usage::all_key_ids(pools@, pools@.len()),
                usage::all_image_key_ids(pools@, pools@.len()),
                now.at,
            )
        }),
{
    ensure_runtime_day(state, now);
    let ghost today = state@;
    let ghost scene = scene_of(today, *usage, access_keys@, now);
    let mut proxies: Vec<ProxyView> = Vec::new();
    let mut i: usize = 0;
    proof {
        assert(cleaned(today.keys, Seq::empty(), now.at) =~= today.keys);
        assert(cleaned(today.image_keys, Seq::empty(), now.at) =~= today.image_keys);
    }
    while i < pools.len()
        invariant
            i <= pools@.len(),
            scene == scene_of(today, *usage, access_keys@, now),
            today.day == now.day,
            state@ == after_looking(
                today,
                usage::all_key_ids(pools@, i as nat),
                usage::all_image_key_ids(pools@, i as nat),
                now.at,
            ),
            proxies@.len() == i,
            forall|j: int| 0 <= j < i ==> #[trigger] shows_pool(scene, proxies@[j], pools@[j]),
        decreases pools@.len() - i,
    {
        let proxy = show_pool(
            &pools[i],
            access_keys,
            usage,
            state,
            now,
            Ghost(scene),
            Ghost(usage::all_key_ids(pools@, i as nat)),
            Ghost(usage::all_image_key_ids(pools@, i as nat)),
        );
        let ghost before = proxies@;
        proxies.push(proxy);
        assert forall|j: int| 0 <= j < i + 1 implies #[trigger] shows_pool(
            scene,
            proxies@[j],
            pools@[j],
        ) by {
            if j < i {
                assert(shows_pool(scene, before[j], pools@[j]));
            }
        }
        i = i + 1;
    }
    ProxiesResponse { active_proxy_id: None, proxies }
}

/// To show the pools changes nothing of what is answered later.
pub proof fn showing_changes_nothing(
    keys: Map<i64, ApiKeyRuntime>,
    ids: Seq<i64>,
    at: Instant,
    disabled: bool,
    id: i64,
    later: Instant,
)
    requires
        !later.before(at),
    ensures
        runtime::availability(disabled, cleaned(keys, ids, at), id, later)
            == runtime::availability(disabled, keys, id, later),
{
}

/// No more keys are available than there are.
pub proof fn available_keys_bound(scene: Scene, keys: Seq<ApiKeyConfig>, n: nat)
    ensures
        available_keys(scene, keys, n) <= n,
    decreases n,
{
    if n > 0 {
        available_keys_bound(scene, keys, (n - 1) as nat);
    }
}

/// All access keys, and the pools that they can be bound to.
pub struct AccessKeysResponse {
    pub access_keys: Vec<AccessKeyView>,
    pub proxies: Vec<ProxyOptionView>,
}

/// An access key.
pub struct AccessKeyView {
    pub id: i64,
    pub name: String,
    pub access_key: String,
    pub masked_key: String,
    pub proxy_id: i64,
    pub proxy_name: String,
    pub image_proxy_id: Option<i64>,
    pub image_proxy_name: Option<String>,
    pub override_model: String,
    pub created_at: i64,
    pub updated_at: i64,
    pub last_used_supplier_name: Option<String>,
    pub last_used_key_masked: Option<String>,
    pub last_used_at: Option<i64>,
}

/// A pool that an access key can be bound to.
pub struct ProxyOptionView {
    pub id: i64,
    pub name: String,
    pub suppliers: Vec<SupplierOptionView>,
}

/// A supplier of a pool that an access key can be bound to.
pub struct SupplierOptionView {
    pub id: i64,
    pub name: String,
    pub base_url: String,
}

/// The name of the last pool of that id among the first `n`.
pub open spec fn pool_name(pools: Seq<PoolConfig>, id: i64, n: nat) -> Option<Seq<char>>
    decreases n,
{
    if n == 0 {
        None
    } else if pools[n - 1].id == id {
        Some(pools[n - 1].name@)
    } else {
        pool_name(pools, id, (n - 1) as nat)
    }
}

/// The name of the last supplier of that id among the first `n`.
pub open spec fn name_among(suppliers: Seq<BaseUrlConfig>, id: i64, n: nat) -> Option<Seq<char>>
    decreases n,
{
    if n == 0 {
        None
    } else if suppliers[n - 1].id == id {
        Some(suppliers[n - 1].name@)
    } else {
        name_among(suppliers, id, (n - 1) as nat)
    }
}

/// The name of the last supplier of that id in the first `n` pools.
pub open spec fn supplier_name(pools: Seq<PoolConfig>, id: i64, n: nat) -> Option<Seq<char>>
    decreases n,
{
    if n == 0 {
        None
    } else {
        let suppliers = pools[n - 1].base_urls@;
        match name_among(suppliers, id, suppliers.len()) {
            Some(name) => Some(name),
            None => supplier_name(pools, id, (n - 1) as nat),
        }
    }
}

/// The last key of that id among the first `n`, as it is shown.
pub open spec fn mask_among(keys: Seq<ApiKeyConfig>, id: i64, n: nat) -> Option<Seq<char>>
    decreases n,
{
    if n == 0 {
        None
    } else if keys[n - 1].id == id {
        Some(access::masked(keys[n - 1].api_key@))
    } else {
        mask_among(keys, id, (n - 1) as nat)
    }
}

/// The last key of that id of the first `n` suppliers, as it is shown.
pub open spec fn mask_at(suppliers: Seq<BaseUrlConfig>, id: i64, n: nat) -> Option<Seq<char>>
    decreases n,
{
    if n == 0 {
        None
    } else {
        let keys = suppliers[n - 1].api_keys@;
        match mask_among(keys, id, keys.len()) {
            Some(shown) => Some(shown),
            None => mask_at(suppliers, id, (n - 1) as nat),
        }
    }
}

/// The last key of that id in the first `n` pools, as it is shown.
pub open spec fn masked_key_of(pools: Seq<PoolConfig>, id: i64, n: nat) -> Option<Seq<char>>
    decreases n,
{
    if n == 0 {
        None
    } else {
        let suppliers = pools[n - 1].base_urls@;
        match mask_at(suppliers, id, suppliers.len()) {
            Some(shown) => Some(shown),
            None => masked_key_of(pools, id, (n - 1) as nat),
        }
    }
}

fn find_pool_name(pools: &Vec<PoolConfig>, id: i64) -> (name: Option<String>)
    ensures
        text::opt_string_view(name) == pool_name(pools@, id, pools@.len()),
{
    let mut n: usize = pools.len();
    while n > 0
        invariant
            n <= pools@.len(),
            pool_name(pools@, id, pools@.len()) == pool_name(pools@, id, n as nat),
        decreases n,
    {
        if pools[n - 1].id == id {
            return Some(pools[n - 1].name.clone());
        }
        n = n - 1;
    }
    None
}

fn find_name_among(suppliers: &Vec<BaseUrlConfig>, id: i64) -> (name: Option<String>)
    ensures
        text::opt_string_view(name) == name_among(suppliers@, id, suppliers@.len()),
{
    let mut n: usize = suppliers.len();
    while n > 0
        invariant
            n <= suppliers@.len(),
            name_among(suppliers@, id, suppliers@.len()) == name_among(
                suppliers@,
                id,
                n as nat,
            ),
        decreases n,
    {
        if suppliers[n - 1].id == id {
            return Some(suppliers[n - 1].name.clone());
        }
        n = n - 1;
    }
    None
}

fn find_supplier_name(pools: &Vec<PoolConfig>, id: i64) -> (name: Option<String>)
    ensures
        text::opt_string_view(name) == supplier_name(pools@, id, pools@.len()),
{
    let mut n: usize = pools.len();
    while n > 0
        invariant
            n <= pools@.len(),
            supplier_name(pools@, id, pools@.len()) == supplier_name(pools@, id, n as nat),
        decreases n,
    {
        let name = find_name_among(&pools[n - 1].base_urls, id);
        if name.is_some() {
            return name;
        }
        n = n - 1;
    }
    None
}

fn find_mask_among(keys: &Vec<ApiKeyConfig>, id: i64) -> (shown: Option<String>)
    ensures
        text::opt_string_view(shown) == mask_among(keys@, id, keys@.len()),
{
    let mut n: usize = keys.len();
    while n > 0
        invariant
            n <= keys@.len(),
            mask_among(keys@, id, keys@.len()) == mask_among(keys@, id, n as nat),
        decreases n,
    {
        if keys[n - 1].id == id {
            return Some(mask_key(keys[n - 1].api_key.as_str()));
        }
        n = n - 1;
    }
    None
}

fn find_mask_at(suppliers: &Vec<BaseUrlConfig>, id: i64) -> (shown: Option<String>)
    ensures
        text::opt_string_view(shown) == mask_at(suppliers@, id, suppliers@.len()),
{
    let mut n: usize = suppliers.len();
    while n > 0
        invariant
            n <= suppliers@.len(),
            mask_at(suppliers@, id, suppliers@.len()) == mask_at(suppliers@, id, n as nat),
        decreases n,
    {
        let shown = find_mask_among(&suppliers[n - 1].api_keys, id);
        if shown.is_some() {
            return shown;
        }
        n = n - 1;
    }
    None
}

fn find_masked_key(pools: &Vec<PoolConfig>, id: i64) -> (shown: Option<String>)
    ensures
        text::opt_string_view(shown) == masked_key_of(pools@, id, pools@.len()),
{
    let mut n: usize = pools.len();
    while n > 0
        invariant
            n <= pools@.len(),
            masked_key_of(pools@, id, pools@.len()) == masked_key_of(pools@, id, n as nat),
        decreases n,
    {
        let shown = find_mask_at(&pools[n - 1].base_urls, id);
        if shown.is_some() {
            return shown;
        }
        n = n - 1;
    }
    None
}

/// An access key is shown with its pools and its last use. A pool that there is no more is named
/// as deleted.
pub open spec fn shows_access_key(
    view: AccessKeyView,
    access_key: AccessKeyConfig,
    pools: Seq<PoolConfig>,
    usage: UsageView,
) -> bool {
    let n = pools.len();
    let used = usage.by_access_key.get(access_key.id);
    &&& view.id == access_key.id
    &&& view.name@ == access_key.name@
    &&& view.access_key@ == access_key.access_key@
    &&& view.masked_key@ == access::masked(access_key.access_key@)
    &&& view.proxy_id == access_key.proxy_id
    &&& view.proxy_name@ == match pool_name(pools, access_key.proxy_id, n) {
        Some(name) => name,
        None => "已删除代理"@,
    }
    &&& view.image_proxy_id == access_key.image_proxy_id
    &&& text::opt_string_view(view.image_proxy_name) == match access_key.image_proxy_id {
        Some(id) => pool_name(pools, id, n),
        None => None,
    }
    &&& view.override_model@ == access_key.override_model@
    &&& view.created_at == access_key.created_at
    &&& view.updated_at == access_key.updated_at
    &&& text::opt_string_view(view.last_used_supplier_name) == match used {
        Some(used) => supplier_name(pools, used.supplier_id, n),
        None => None,
    }
    &&& text::opt_string_view(view.last_used_key_masked) == match used {
        Some(used) => masked_key_of(pools, used.key_id, n),
        None => None,
    }
    &&& view.last_used_at == match used {
        Some(used) => Some(used.used_at),
        None => None,
    }
}

/// A pool is offered with its suppliers.
pub open spec fn offers_pool(view: ProxyOptionView, pool: PoolConfig) -> bool {
    &&& view.id == pool.id
    &&& view.name@ == pool.name@
    &&& view.suppliers@.len() == pool.base_urls@.len()
    &&& forall|i: int|
        0 <= i < pool.base_urls@.len() ==> {
            &&& (#[trigger] view.suppliers@[i]).id == pool.base_urls@[i].id
            &&& view.suppliers@[i].name@ == pool.base_urls@[i].name@
            &&& view.suppliers@[i].base_url@ == pool.base_urls@[i].base_url@
        }
}

fn show_access_key(
    access_key: &AccessKeyConfig,
    pools: &Vec<PoolConfig>,
    usage: &UsageRuntimeState,
) -> (view: AccessKeyView)
    ensures
        shows_access_key(view, *access_key, pools@, usage@),
{
    let used = match usage.by_access_key.get(&access_key.id) {
        Some(used) => Some(*used),
        None => None,
    };
    let (last_used_supplier_name, last_used_key_masked, last_used_at) = match used {
        Some(used) => (
            find_supplier_name(pools, used.supplier_id),
            find_masked_key(pools, used.key_id),
            Some(used.used_at),
        ),
        None => (None, None, None),
    };
    AccessKeyView {
        id: access_key.id,
        name: access_key.name.clone(),
        access_key: access_key.access_key.clone(),
        masked_key: mask_key(access_key.access_key.as_str()),
        proxy_id: access_key.proxy_id,
        proxy_name: match find_pool_name(pools, access_key.proxy_id) {
            Some(name) => name,
            None => "已删除代理".to_string(),
        },
        image_proxy_id: access_key.image_proxy_id,
        image_proxy_name: match access_key.image_proxy_id {
            Some(id) => find_pool_name(pools, id),
            None => None,
        },
        override_model: access_key.override_model.clone(),
        created_at: access_key.created_at,
        updated_at: access_key.updated_at,
        last_used_supplier_name,
        last_used_key_masked,
        last_used_at,
    }
}

fn offer_pool(pool: &PoolConfig) -> (view: ProxyOptionView)
    ensures
        offers_pool(view, *pool),
{
    let mut suppliers: Vec<SupplierOptionView> = Vec::new();
    let mut i: usize = 0;
    while i < pool.base_urls.len()
        invariant
            i <= pool.base_urls@.len(),
            suppliers@.len() == i,
            forall|j: int|
                0 <= j < i ==> {
                    &&& (#[trigger] suppliers@[j]).id == pool.base_urls@[j].id
                    &&& suppliers@[j].name@ == pool.base_urls@[j].name@
                    &&& suppliers@[j].base_url@ == pool.base_urls@[j].base_url@
                },
        decreases pool.base_urls@.len() - i,
    {
        let supplier = &pool.base_urls[i];
        suppliers.push(
            SupplierOptionView {
                id: supplier.id,
                name: supplier.name.clone(),
                base_url: supplier.base_url.clone(),
            },
        );
        i = i + 1;
    }
    ProxyOptionView { id: pool.id, name: pool.name.clone(), suppliers }
}

/// All access keys, and the pools that they can be bound to.
pub fn access_keys_response(
    access_keys: &Vec<AccessKeyConfig>,
    pools: &Vec<PoolConfig>,
    usage: &UsageRuntimeState,
) -> (response: AccessKeysResponse)
    ensures
        response.access_keys@.len() == access_keys@.len(),
        forall|i: int|
            0 <= i < access_keys@.len() ==> #[trigger] shows_access_key(
                response.access_keys@[i],
                access_keys@[i],
                pools@,
                usage@,
            ),
        response.proxies@.len() == pools@.len(),
        forall|i: int|
            0 <= i < pools@.len() ==> #[trigger] offers_pool(response.proxies@[i], pools@[i]),
{
    let mut proxies: Vec<ProxyOptionView> = Vec::new();
    let mut i: usize = 0;
    while i < pools.len()
        invariant
            i <= pools@.len(),
            proxies@.len() == i,
            forall|j: int| 0 <= j < i ==> #[trigger] offers_pool(proxies@[j], pools@[j]),
        decreases pools@.len() - i,
    {
        let ghost before = proxies@;
        proxies.push(offer_pool(&pools[i]));
        assert forall|j: int| 0 <= j < i + 1 implies #[trigger] offers_pool(
            proxies@[j],
            pools@[j],
        ) by {
            if j < i {
                assert(offers_pool(before[j], pools@[j]));
            }
        }
        i = i + 1;
    }
    let mut shown: Vec<AccessKeyView> = Vec::new();
    let mut i: usize = 0;
    while i < access_keys.len()
        invariant
            i <= access_keys@.len(),
            shown@.len() == i,
            forall|j: int|
                0 <= j < i ==> #[trigger] shows_access_key(
                    shown@[j],
                    access_keys@[j],
                    pools@,
                    usage@,
                ),
        decreases access_keys@.len() - i,
    {
        let ghost before = shown@;
        shown.push(show_access_key(&access_keys[i], pools, usage));
        assert forall|j: int| 0 <= j < i + 1 implies #[trigger] shows_access_key(
            shown@[j],
            access_keys@[j],
            pools@,
            usage@,
        ) by {
            if j < i {
                assert(shows_access_key(before[j], access_keys@[j], pools@, usage@));
            }
        }
        i = i + 1;
    }
    AccessKeysResponse { access_keys: shown, proxies }
}

} // verus!
