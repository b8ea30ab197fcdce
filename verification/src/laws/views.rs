//! What holds of what is shown and of what is remembered of use.

use vstd::prelude::*;

use crate::access;
use crate::clock::Instant;
use crate::config::{AccessKeyConfig, ApiKeyConfig, BaseUrlConfig, PoolConfig};
use crate::laws::proxy::{has_key, keys_of_suppliers, known_of};
use crate::runtime;
use crate::runtime::RuntimeView;
use crate::text;
use crate::usage;
use crate::usage::{AccessKeyUsage, KeyUsage, UsageView};
use crate::views;
use crate::views::{
    AccessKeyView, ApiKeyView, ProxyOptionView, ProxyView, Scene, SupplierView,
};

verus! {

/// The name of the last access key with that id, if any.
pub open spec fn is_name_of(
    name: Option<Seq<char>>,
    access_keys: Seq<AccessKeyConfig>,
    id: i64,
) -> bool {
    match name {
        Some(name) => exists|i: int|
            0 <= i < access_keys.len() && (#[trigger] access_keys[i]).id == id
                && access_keys[i].name@ == name && forall|j: int|
                i < j < access_keys.len() ==> (#[trigger] access_keys[j]).id != id,
        None => forall|i: int| 0 <= i < access_keys.len() ==> (#[trigger] access_keys[i]).id != id,
    }
}

proof fn access_keys_are_named(access_keys: Seq<AccessKeyConfig>, id: i64, n: nat)
    requires
        n <= access_keys.len(),
    ensures
        is_name_of(
            views::access_key_name(access_keys, id, n),
            access_keys.take(n as int),
            id,
        ),
    decreases n,
{
    let some = access_keys.take(n as int);
    if n > 0 {
        if access_keys[n - 1].id == id {
            assert(some[n - 1].id == id && some[n - 1].name@ == access_keys[n - 1].name@);
        } else {
            let fewer = access_keys.take(n - 1);
            access_keys_are_named(access_keys, id, (n - 1) as nat);
            match views::access_key_name(access_keys, id, (n - 1) as nat) {
                Some(name) => {
                    let i = choose|i: int|
                        0 <= i < fewer.len() && (#[trigger] fewer[i]).id == id && fewer[i].name@
                            == name && forall|j: int|
                            i < j < fewer.len() ==> (#[trigger] fewer[j]).id != id;
                    assert(some[i].id == id && some[i].name@ == name);
                    assert forall|j: int| i < j < some.len() implies (#[trigger] some[j]).id
                        != id by {
                        if j < n - 1 {
                            assert(fewer[j].id != id);
                        }
                    }
                },
                None => {
                    assert forall|j: int| 0 <= j < some.len() implies (#[trigger] some[j]).id
                        != id by {
                        if j < n - 1 {
                            assert(fewer[j].id != id);
                        }
                    }
                },
            }
        }
    }
}

/// A key is shown with its value and its mask, with what is known of it at that time, with the model
/// that it was tested with, and with who used it last and when.
pub proof fn keys_are_shown(scene: Scene, view: ApiKeyView, key: ApiKeyConfig)
    requires
        views::shows_key(scene, view, key),
    ensures
        view.id == key.id && view.api_key@ == key.api_key@ && view.sort_order == key.sort_order,
        view.masked_key@ == access::masked(key.api_key@),
        view.manually_disabled == key.manually_disabled,
        view.test_protocol == key.test_protocol,
        view.test_model matches Some(model) ==> model@ == key.test_model@ && model@.len() > 0,
        view.test_model is None ==> key.test_model@.len() == 0,
        view.fail_count == known_of(scene.today, false, key.id, scene.today.day).0,
        ({
            let until = known_of(scene.today, false, key.id, scene.today.day).1;
            &&& view.banned <==> (until matches Some(end) && scene.at.before(end))
            &&& view.banned ==> view.ban_until == Some(until->0.secs)
            &&& !view.banned ==> view.ban_until is None
        }),
        view.last_used <==> scene.usage.by_key.contains_key(key.id),
        view.last_used ==> view.last_used_at == Some(scene.usage.by_key[key.id].used_at)
            && is_name_of(
            text::opt_string_view(view.last_used_by_access_key_name),
            scene.access_keys,
            scene.usage.by_key[key.id].access_key_id,
        ),
        !view.last_used ==> view.last_used_at is None && view.last_used_by_access_key_name is None,
{
    let used = scene.usage.by_key.get(key.id);
    if used is Some {
        access_keys_are_named(scene.access_keys, used->0.access_key_id, scene.access_keys.len());
        assert(scene.access_keys.take(scene.access_keys.len() as int) =~= scene.access_keys);
    }
}

/// A key for images is shown with what is known of it as such, and with neither test nor use.
pub proof fn image_keys_are_shown(scene: Scene, view: ApiKeyView, key: ApiKeyConfig)
    requires
        views::shows_image_key(scene, view, key),
    ensures
        view.id == key.id && view.api_key@ == key.api_key@ && view.sort_order == key.sort_order,
        view.masked_key@ == access::masked(key.api_key@),
        view.manually_disabled == key.manually_disabled,
        view.test_model is None && view.test_protocol is None,
        !view.last_used && view.last_used_at is None && view.last_used_by_access_key_name is None,
        view.fail_count == known_of(scene.today, true, key.id, scene.today.day).0,
        ({
            let until = known_of(scene.today, true, key.id, scene.today.day).1;
            &&& view.banned <==> (until matches Some(end) && scene.at.before(end))
            &&& view.banned ==> view.ban_until == Some(until->0.secs)
            &&& !view.banned ==> view.ban_until is None
        }),
{
}

/// The key can be used: it is not disabled by hand, and no ban lasts.
pub open spec fn is_usable(scene: Scene, key: ApiKeyConfig) -> bool {
    let until = known_of(scene.today, false, key.id, scene.today.day).1;
    !key.manually_disabled && !(until matches Some(end) && scene.at.before(end))
}

proof fn some_key_is_usable(scene: Scene, keys: Seq<ApiKeyConfig>, n: nat)
    requires
        n <= keys.len(),
    ensures
        views::available_keys(scene, keys, n) > 0 <==> exists|i: int|
            0 <= i < n && is_usable(scene, #[trigger] keys[i]),
        views::available_keys(scene, keys, n) <= n,
        views::available_keys(scene, keys, n) == n <==> forall|i: int|
            0 <= i < n ==> is_usable(scene, #[trigger] keys[i]),
    decreases n,
{
    if n > 0 {
        let m = (n - 1) as nat;
        some_key_is_usable(scene, keys, m);
        let last = keys[n - 1];
        assert(is_usable(scene, last) <==> views::key_found(scene, last).schedulable);
        if exists|i: int| 0 <= i < n && is_usable(scene, #[trigger] keys[i]) {
            let i = choose|i: int| 0 <= i < n && is_usable(scene, #[trigger] keys[i]);
            if i < m {
                assert(is_usable(scene, keys[i]));
            }
        }
        if exists|i: int| 0 <= i < m && is_usable(scene, #[trigger] keys[i]) {
            let i = choose|i: int| 0 <= i < m && is_usable(scene, #[trigger] keys[i]);
            assert(is_usable(scene, keys[i]));
        }
        if views::available_keys(scene, keys, n) == n {
            assert forall|i: int| 0 <= i < n implies is_usable(scene, #[trigger] keys[i]) by {
                if i < m {
                }
            }
        }
        if forall|i: int| 0 <= i < n ==> is_usable(scene, #[trigger] keys[i]) {
            assert(is_usable(scene, keys[n - 1]));
        }
    }
}

proof fn earlier_keys(scene: Scene, keys: Seq<ApiKeyConfig>, key: ApiKeyConfig, n: nat)
    requires
        n <= keys.len(),
    ensures
        views::available_keys(scene, keys.push(key), n) == views::available_keys(scene, keys, n),
    decreases n,
{
    if n > 0 {
        earlier_keys(scene, keys, key, (n - 1) as nat);
        assert(keys.push(key)[n - 1] == keys[n - 1]);
    }
}

/// Of the keys of a supplier those that can be used are counted, each once.
pub proof fn usable_keys_are_counted(scene: Scene, keys: Seq<ApiKeyConfig>, key: ApiKeyConfig)
    ensures
        views::available_keys(scene, Seq::empty(), 0) == 0,
        views::available_keys(scene, keys.push(key), keys.len() + 1) == views::available_keys(
            scene,
            keys,
            keys.len(),
        ) + if is_usable(scene, key) {
            1nat
        } else {
            0
        },
{
    earlier_keys(scene, keys, key, keys.len());
    assert(keys.push(key).last() == key);
}

/// A use of one of the first `n` keys.
pub open spec fn is_use_of(
    used: KeyUsage,
    by_key: Map<i64, KeyUsage>,
    keys: Seq<ApiKeyConfig>,
    i: int,
) -> bool {
    by_key.contains_key(keys[i].id) && by_key[keys[i].id] == used
}

/// The last use of keys is that of the one that was used last, and of two at the same time that of
/// the one behind. There is none just where none of the keys was used.
pub proof fn last_use_is_the_latest(by_key: Map<i64, KeyUsage>, keys: Seq<ApiKeyConfig>, n: nat)
    requires
        n <= keys.len(),
    ensures
        match views::latest_use(by_key, keys, n) {
            Some(latest) => exists|i: int|
                0 <= i < n && #[trigger] is_use_of(latest, by_key, keys, i) && forall|j: int|
                    0 <= j < n && by_key.contains_key((#[trigger] keys[j]).id)
                        ==> by_key[keys[j].id].used_at <= latest.used_at && (j > i
                        ==> by_key[keys[j].id].used_at < latest.used_at),
            None => forall|j: int|
                0 <= j < n ==> !by_key.contains_key((#[trigger] keys[j]).id),
        },
    decreases n,
{
    if n > 0 {
        let m = (n - 1) as nat;
        last_use_is_the_latest(by_key, keys, m);
        let id = keys[n - 1].id;
        match views::latest_use(by_key, keys, n) {
            Some(latest) => {
                if by_key.contains_key(id) && by_key[id] == latest && (views::latest_use(
                    by_key,
                    keys,
                    m,
                ) matches Some(earlier) ==> latest.used_at >= earlier.used_at) {
                    assert(is_use_of(latest, by_key, keys, n - 1));
                } else {
                    assert(views::latest_use(by_key, keys, m) == Some(latest));
                    let i = choose|i: int|
                        0 <= i < m && #[trigger] is_use_of(latest, by_key, keys, i) && forall|
                            j: int,
                        |
                            0 <= j < m && by_key.contains_key((#[trigger] keys[j]).id)
                                ==> by_key[keys[j].id].used_at <= latest.used_at && (j > i
                                ==> by_key[keys[j].id].used_at < latest.used_at);
                    assert(is_use_of(latest, by_key, keys, i));
                }
            },
            None => {},
        }
    }
}

/// A supplier is shown with what it is set to, with the number of its keys and of those that can be
/// used, and with its last use. It can be used where one of its keys can.
pub proof fn suppliers_are_shown(scene: Scene, view: SupplierView, supplier: BaseUrlConfig)
    requires
        views::shows_supplier(scene, view, supplier),
    ensures
        view.id == supplier.id && view.proxy_id == supplier.pool_id,
        view.name@ == supplier.name@ && view.base_url@ == supplier.base_url@,
        view.protocol == supplier.protocol_mode && view.sort_order == supplier.sort_order,
        view.override_model@ == supplier.override_model@,
        view.total_key_count == supplier.api_keys@.len(),
        view.available_key_count == views::available_keys(
            scene,
            supplier.api_keys@,
            supplier.api_keys@.len(),
        ),
        view.schedulable <==> exists|i: int|
            0 <= i < supplier.api_keys@.len() && is_usable(scene, #[trigger] supplier.api_keys@[i]),
        match views::latest_use(
            scene.usage.by_key,
            supplier.api_keys@,
            supplier.api_keys@.len(),
        ) {
            Some(latest) => view.last_used_at == Some(latest.used_at) && is_name_of(
                text::opt_string_view(view.last_used_by_access_key_name),
                scene.access_keys,
                latest.access_key_id,
            ),
            None => view.last_used_at is None && view.last_used_by_access_key_name is None,
        },
        view.keys@.len() == supplier.api_keys@.len(),
        view.image_keys@.len() == supplier.image_keys@.len(),
        forall|i: int|
            0 <= i < supplier.api_keys@.len() ==> (#[trigger] view.keys@[i]).api_key@
                == supplier.api_keys@[i].api_key@,
        forall|i: int|
            0 <= i < supplier.image_keys@.len() ==> (#[trigger] view.image_keys@[i]).api_key@
                == supplier.image_keys@[i].api_key@,
{
    let keys = supplier.api_keys@;
    some_key_is_usable(scene, keys, keys.len());
    let latest = views::latest_use(scene.usage.by_key, keys, keys.len());
    if latest is Some {
        access_keys_are_named(scene.access_keys, latest->0.access_key_id, scene.access_keys.len());
        assert(scene.access_keys.take(scene.access_keys.len() as int) =~= scene.access_keys);
    }
    assert forall|i: int| 0 <= i < keys.len() implies (#[trigger] view.keys@[i]).api_key@
        == keys[i].api_key@ by {
        assert(views::shows_key(scene, view.keys@[i], keys[i]));
    }
    assert forall|i: int| 0 <= i < supplier.image_keys@.len() implies (#[trigger]
    view.image_keys@[i]).api_key@ == supplier.image_keys@[i].api_key@ by {
        assert(views::shows_image_key(scene, view.image_keys@[i], supplier.image_keys@[i]));
    }
}

proof fn earlier_suppliers(
    scene: Scene,
    suppliers: Seq<BaseUrlConfig>,
    supplier: BaseUrlConfig,
    n: nat,
)
    requires
        n <= suppliers.len(),
    ensures
        views::available_suppliers(scene, suppliers.push(supplier), n)
            == views::available_suppliers(scene, suppliers, n),
    decreases n,
{
    if n > 0 {
        earlier_suppliers(scene, suppliers, supplier, (n - 1) as nat);
        assert(suppliers.push(supplier)[n - 1] == suppliers[n - 1]);
    }
}

/// Of the suppliers of a pool those with a key that can be used are counted, each once.
pub proof fn usable_suppliers_are_counted(
    scene: Scene,
    suppliers: Seq<BaseUrlConfig>,
    supplier: BaseUrlConfig,
)
    ensures
        views::available_suppliers(scene, Seq::empty(), 0) == 0,
        views::available_suppliers(scene, suppliers.push(supplier), suppliers.len() + 1)
            == views::available_suppliers(scene, suppliers, suppliers.len()) + if (exists|i: int|
            0 <= i < supplier.api_keys@.len() && is_usable(
                scene,
                #[trigger] supplier.api_keys@[i],
            )) {
            1nat
        } else {
            0
        },
{
    earlier_suppliers(scene, suppliers, supplier, suppliers.len());
    assert(suppliers.push(supplier).last() == supplier);
    some_key_is_usable(scene, supplier.api_keys@, supplier.api_keys@.len());
}

/// A pool is shown with what it is set to and with the number of its suppliers and of those that can
/// be used. It is in use where an access key is bound to it, for images or for the rest.
pub proof fn pools_are_shown(scene: Scene, view: ProxyView, pool: PoolConfig)
    requires
        views::shows_pool(scene, view, pool),
        views::bound_ids(scene.access_keys, pool.id).finite(),
    ensures
        view.id == pool.id && view.name@ == pool.name@ && view.note@ == pool.note@,
        view.is_active == pool.is_active,
        view.total_supplier_count == pool.base_urls@.len(),
        view.available_supplier_count == views::available_suppliers(
            scene,
            pool.base_urls@,
            pool.base_urls@.len(),
        ),
        view.access_key_count == views::bound_ids(scene.access_keys, pool.id).len(),
        view.in_use <==> exists|i: int|
            0 <= i < scene.access_keys.len() && ((#[trigger] scene.access_keys[i]).proxy_id
                == pool.id || scene.access_keys[i].image_proxy_id == Some(pool.id)),
        view.suppliers@.len() == pool.base_urls@.len(),
        forall|i: int|
            0 <= i < pool.base_urls@.len() ==> (#[trigger] view.suppliers@[i]).id
                == pool.base_urls@[i].id,
{
    let ids = views::bound_ids(scene.access_keys, pool.id);
    if view.in_use {
        assert(ids.len() > 0);
        let id = ids.choose();
        assert(ids.contains(id));
        let i = choose|i: int|
            0 <= i < scene.access_keys.len() && (#[trigger] scene.access_keys[i]).id == id
                && views::is_bound(scene.access_keys[i], pool.id);
        assert(scene.access_keys[i].proxy_id == pool.id || scene.access_keys[i].image_proxy_id
            == Some(pool.id));
    }
    if exists|i: int|
        0 <= i < scene.access_keys.len() && ((#[trigger] scene.access_keys[i]).proxy_id == pool.id
            || scene.access_keys[i].image_proxy_id == Some(pool.id)) {
        let i = choose|i: int|
            0 <= i < scene.access_keys.len() && ((#[trigger] scene.access_keys[i]).proxy_id
                == pool.id || scene.access_keys[i].image_proxy_id == Some(pool.id));
        assert(ids.contains(scene.access_keys[i].id));
        assert(ids.len() > 0);
    }
    assert forall|i: int| 0 <= i < pool.base_urls@.len() implies (#[trigger] view.suppliers@[i]).id
        == pool.base_urls@[i].id by {
        assert(views::shows_supplier(scene, view.suppliers@[i], pool.base_urls@[i]));
    }
}

/// Every access key that is bound to a pool is counted once. One more, of another id, is one more
/// where it is bound to the pool.
pub proof fn bound_access_keys_are_counted(
    access_keys: Seq<AccessKeyConfig>,
    access_key: AccessKeyConfig,
    pool_id: i64,
)
    requires
        views::bound_ids(access_keys, pool_id).finite(),
        forall|i: int| 0 <= i < access_keys.len() ==> (#[trigger] access_keys[i]).id != access_key.id,
    ensures
        views::bound_ids(Seq::empty(), pool_id).len() == 0,
        views::bound_ids(access_keys.push(access_key), pool_id).len() == views::bound_ids(
            access_keys,
            pool_id,
        ).len() + if access_key.proxy_id == pool_id || access_key.image_proxy_id == Some(pool_id) {
            1nat
        } else {
            0
        },
{
    assert(views::bound_ids(Seq::empty(), pool_id) =~= Set::<i64>::empty());
    let more = access_keys.push(access_key);
    let before = views::bound_ids(access_keys, pool_id);
    let after = views::bound_ids(more, pool_id);
    assert(more[access_keys.len() as int] == access_key);
    assert forall|id: i64| #[trigger] before.contains(id) implies after.contains(id) && id
        != access_key.id by {
        let i = choose|i: int|
            0 <= i < access_keys.len() && (#[trigger] access_keys[i]).id == id && views::is_bound(
                access_keys[i],
                pool_id,
            );
        assert(more[i].id == id);
    }
    assert forall|id: i64| #[trigger] after.contains(id) implies before.contains(id) || (id
        == access_key.id && views::is_bound(access_key, pool_id)) by {
        let i = choose|i: int|
            0 <= i < more.len() && (#[trigger] more[i]).id == id && views::is_bound(
                more[i],
                pool_id,
            );
        if i < access_keys.len() {
            assert(access_keys[i].id == id);
        }
    }
    if views::is_bound(access_key, pool_id) {
        assert(after.contains(access_key.id));
        assert(after =~= before.insert(access_key.id));
    } else {
        assert(after =~= before);
    }
}

proof fn pools_are_named(pools: Seq<PoolConfig>, id: i64, n: nat)
    requires
        n <= pools.len(),
    ensures
        match views::pool_name(pools, id, n) {
            Some(name) => exists|i: int|
                0 <= i < n && (#[trigger] pools[i]).id == id && pools[i].name@ == name,
            None => forall|i: int| 0 <= i < n ==> (#[trigger] pools[i]).id != id,
        },
    decreases n,
{
    if n > 0 && pools[n - 1].id != id {
        pools_are_named(pools, id, (n - 1) as nat);
    }
}

proof fn suppliers_are_named(suppliers: Seq<BaseUrlConfig>, id: i64, n: nat)
    requires
        n <= suppliers.len(),
    ensures
        match views::name_among(suppliers, id, n) {
            Some(name) => exists|i: int|
                0 <= i < n && (#[trigger] suppliers[i]).id == id && suppliers[i].name@ == name,
            None => forall|i: int| 0 <= i < n ==> (#[trigger] suppliers[i]).id != id,
        },
    decreases n,
{
    if n > 0 && suppliers[n - 1].id != id {
        suppliers_are_named(suppliers, id, (n - 1) as nat);
    }
}

/// That supplier of that pool has that id.
pub open spec fn has_supplier(pool: PoolConfig, i: int, id: i64) -> bool {
    0 <= i < pool.base_urls@.len() && pool.base_urls@[i].id == id
}

proof fn suppliers_of_pools_are_named(pools: Seq<PoolConfig>, id: i64, n: nat)
    requires
        n <= pools.len(),
    ensures
        match views::supplier_name(pools, id, n) {
            Some(name) => exists|p: int, i: int|
                0 <= p < n && #[trigger] has_supplier(pools[p], i, id)
                    && pools[p].base_urls@[i].name@ == name,
            None => forall|p: int, i: int| 0 <= p < n ==> !#[trigger] has_supplier(pools[p], i, id),
        },
    decreases n,
{
    if n > 0 {
        let suppliers = pools[n - 1].base_urls@;
        suppliers_are_named(suppliers, id, suppliers.len());
        match views::name_among(suppliers, id, suppliers.len()) {
            Some(name) => {
                let i = choose|i: int|
                    0 <= i < suppliers.len() && (#[trigger] suppliers[i]).id == id
                        && suppliers[i].name@ == name;
                assert(has_supplier(pools[n - 1], i, id));
            },
            None => {
                suppliers_of_pools_are_named(pools, id, (n - 1) as nat);
            },
        }
    }
}

proof fn keys_are_masked(keys: Seq<ApiKeyConfig>, id: i64, n: nat)
    requires
        n <= keys.len(),
    ensures
        match views::mask_among(keys, id, n) {
            Some(shown) => exists|k: int|
                0 <= k < n && (#[trigger] keys[k]).id == id && access::masked(keys[k].api_key@)
                    == shown,
            None => forall|k: int| 0 <= k < n ==> (#[trigger] keys[k]).id != id,
        },
    decreases n,
{
    if n > 0 && keys[n - 1].id != id {
        keys_are_masked(keys, id, (n - 1) as nat);
    }
}

proof fn keys_of_suppliers_are_masked(suppliers: Seq<BaseUrlConfig>, id: i64, n: nat)
    requires
        n <= suppliers.len(),
    ensures
        match views::mask_at(suppliers, id, n) {
            Some(shown) => exists|i: int, k: int|
                0 <= i < n && #[trigger] has_key(suppliers[i], false, k, id) && access::masked(
                    suppliers[i].api_keys@[k].api_key@,
                ) == shown,
            None => forall|i: int, k: int|
                0 <= i < n ==> !#[trigger] has_key(suppliers[i], false, k, id),
        },
    decreases n,
{
    if n > 0 {
        let keys = suppliers[n - 1].api_keys@;
        keys_are_masked(keys, id, keys.len());
        match views::mask_among(keys, id, keys.len()) {
            Some(shown) => {
                let k = choose|k: int|
                    0 <= k < keys.len() && (#[trigger] keys[k]).id == id && access::masked(
                        keys[k].api_key@,
                    ) == shown;
                assert(has_key(suppliers[n - 1], false, k, id));
            },
            None => {
                keys_of_suppliers_are_masked(suppliers, id, (n - 1) as nat);
            },
        }
    }
}

proof fn keys_of_pools_are_masked(pools: Seq<PoolConfig>, id: i64, n: nat)
    requires
        n <= pools.len(),
    ensures
        match views::masked_key_of(pools, id, n) {
            Some(shown) => exists|p: int, i: int, k: int|
                0 <= p < n && 0 <= i < pools[p].base_urls@.len() && #[trigger] has_key(
                    pools[p].base_urls@[i],
                    false,
                    k,
                    id,
                ) && access::masked(pools[p].base_urls@[i].api_keys@[k].api_key@) == shown,
            None => forall|p: int, i: int, k: int|
                0 <= p < n && 0 <= i < pools[p].base_urls@.len() ==> !#[trigger] has_key(
                    pools[p].base_urls@[i],
                    false,
                    k,
                    id,
                ),
        },
    decreases n,
{
    if n > 0 {
        let suppliers = pools[n - 1].base_urls@;
        keys_of_suppliers_are_masked(suppliers, id, suppliers.len());
        match views::mask_at(suppliers, id, suppliers.len()) {
            Some(shown) => {
                let (i, k) = choose|i: int, k: int|
                    0 <= i < suppliers.len() && #[trigger] has_key(suppliers[i], false, k, id)
                        && access::masked(suppliers[i].api_keys@[k].api_key@) == shown;
                assert(has_key(pools[n - 1].base_urls@[i], false, k, id));
            },
            None => {
                keys_of_pools_are_masked(pools, id, (n - 1) as nat);
            },
        }
    }
}

/// An access key is shown with its value and its mask, with the pools that it is bound to by name,
/// and with the supplier and the masked key that it used last. A pool that is gone is shown as
/// deleted.
pub proof fn access_keys_are_shown(
    view: AccessKeyView,
    access_key: AccessKeyConfig,
    pools: Seq<PoolConfig>,
    used_before: UsageView,
)
    requires
        views::shows_access_key(view, access_key, pools, used_before),
    ensures
        view.id == access_key.id && view.name@ == access_key.name@,
        view.access_key@ == access_key.access_key@,
        view.masked_key@ == access::masked(access_key.access_key@),
        view.proxy_id == access_key.proxy_id && view.image_proxy_id == access_key.image_proxy_id,
        view.override_model@ == access_key.override_model@,
        view.created_at == access_key.created_at && view.updated_at == access_key.updated_at,
        (exists|i: int|
            0 <= i < pools.len() && (#[trigger] pools[i]).id == access_key.proxy_id
                && pools[i].name@ == view.proxy_name@) || ((forall|i: int|
            0 <= i < pools.len() ==> (#[trigger] pools[i]).id != access_key.proxy_id)
            && view.proxy_name@ == "已删除代理"@),
        access_key.image_proxy_id is None ==> view.image_proxy_name is None,
        view.image_proxy_name matches Some(name) ==> exists|i: int|
            0 <= i < pools.len() && Some((#[trigger] pools[i]).id) == access_key.image_proxy_id
                && pools[i].name@ == name@,
        access_key.image_proxy_id is Some && view.image_proxy_name is None ==> forall|i: int|
            0 <= i < pools.len() ==> Some((#[trigger] pools[i]).id) != access_key.image_proxy_id,
        match used_before.by_access_key.get(access_key.id) {
            Some(used) => {
                &&& view.last_used_at == Some(used.used_at)
                &&& view.last_used_supplier_name matches Some(name) ==> exists|p: int, i: int|
                    0 <= p < pools.len() && #[trigger] has_supplier(pools[p], i, used.supplier_id)
                        && pools[p].base_urls@[i].name@ == name@
                &&& view.last_used_supplier_name is None ==> forall|p: int, i: int|
                    0 <= p < pools.len() ==> !#[trigger] has_supplier(
                        pools[p],
                        i,
                        used.supplier_id,
                    )
                &&& view.last_used_key_masked matches Some(shown) ==> exists|
                    p: int,
                    i: int,
                    k: int,
                |
                    0 <= p < pools.len() && 0 <= i < pools[p].base_urls@.len()
                        && #[trigger] has_key(pools[p].base_urls@[i], false, k, used.key_id)
                        && access::masked(pools[p].base_urls@[i].api_keys@[k].api_key@) == shown@
                &&& view.last_used_key_masked is None ==> forall|p: int, i: int, k: int|
                    0 <= p < pools.len() && 0 <= i < pools[p].base_urls@.len()
                        ==> !#[trigger] has_key(pools[p].base_urls@[i], false, k, used.key_id)
            },
            None => view.last_used_at is None && view.last_used_supplier_name is None
                && view.last_used_key_masked is None,
        },
{
    let n = pools.len();
    pools_are_named(pools, access_key.proxy_id, n);
    if let Some(id) = access_key.image_proxy_id {
        pools_are_named(pools, id, n);
    }
    if let Some(used) = used_before.by_access_key.get(access_key.id) {
        suppliers_of_pools_are_named(pools, used.supplier_id, n);
        keys_of_pools_are_masked(pools, used.key_id, n);
    }
}

/// A pool is offered with its name and with the names and URLs of its suppliers.
pub proof fn pools_are_offered(view: ProxyOptionView, pool: PoolConfig, i: int)
    requires
        views::offers_pool(view, pool),
        0 <= i < pool.base_urls@.len(),
    ensures
        view.id == pool.id && view.name@ == pool.name@,
        view.suppliers@.len() == pool.base_urls@.len(),
        view.suppliers@[i].id == pool.base_urls@[i].id,
        view.suppliers@[i].name@ == pool.base_urls@[i].name@,
        view.suppliers@[i].base_url@ == pool.base_urls@[i].base_url@,
{
}

/// A use is remembered as the last one of the access key and as the last one of the key. What is
/// remembered of the others stays.
pub proof fn uses_are_remembered(before: UsageView, used: AccessKeyUsage, other: i64)
    ensures
        ({
            let after = usage::with_use(before, used);
            &&& after.by_access_key.get(used.access_key_id) == Some(used)
            &&& after.by_key.get(used.key_id) matches Some(last) && last.access_key_id
                == used.access_key_id && last.supplier_id == used.supplier_id && last.used_at
                == used.used_at
            &&& other != used.access_key_id ==> after.by_access_key.get(other)
                == before.by_access_key.get(other)
            &&& other != used.key_id ==> after.by_key.get(other) == before.by_key.get(other)
        }),
{
}

/// Of access keys that are gone nothing is remembered, neither what they used nor that they used
/// it. The rest stays.
pub proof fn gone_access_keys_are_forgotten(before: UsageView, ids: Seq<i64>, id: i64)
    ensures
        ({
            let after = usage::without_access_keys(before, ids);
            &&& after.by_access_key.get(id) == if ids.contains(id) {
                None
            } else {
                before.by_access_key.get(id)
            }
            &&& after.by_key.get(id) == match before.by_key.get(id) {
                Some(last) => if ids.contains(last.access_key_id) {
                    None
                } else {
                    Some(last)
                },
                None => None,
            }
        }),
{
    assert(ids.to_set().contains(id) <==> ids.contains(id));
}

proof fn all_suppliers(pools: Seq<PoolConfig>, n: nat, id: i64)
    requires
        n <= pools.len(),
    ensures
        usage::all_supplier_ids(pools, n).contains(id) <==> exists|p: int, i: int|
            0 <= p < n && #[trigger] has_supplier(pools[p], i, id),
    decreases n,
{
    if n > 0 {
        let m = (n - 1) as nat;
        all_suppliers(pools, m, id);
        let before = usage::all_supplier_ids(pools, m);
        let more = usage::supplier_ids(pools[n - 1].base_urls@);
        if (before + more).contains(id) {
            let at = choose|at: int| 0 <= at < (before + more).len() && (before + more)[at] == id;
            if at < before.len() {
                assert(before[at] == id);
                assert(before.contains(id));
            } else {
                assert(more[at - before.len()] == id);
                assert(has_supplier(pools[n - 1], at - before.len(), id));
            }
        }
        if exists|p: int, i: int| 0 <= p < n && #[trigger] has_supplier(pools[p], i, id) {
            let (p, i) = choose|p: int, i: int|
                0 <= p < n && #[trigger] has_supplier(pools[p], i, id);
            if p < m {
                let at = choose|at: int| 0 <= at < before.len() && before[at] == id;
                assert((before + more)[at] == id);
            } else {
                assert(more[i] == id);
                assert((before + more)[before.len() + i] == id);
            }
        }
    } else {
        assert(usage::all_supplier_ids(pools, n).len() == 0);
    }
}

/// That key of that supplier of that pool has that id.
pub open spec fn pool_has_key(pool: PoolConfig, images: bool, i: int, k: int, id: i64) -> bool {
    0 <= i < pool.base_urls@.len() && has_key(pool.base_urls@[i], images, k, id)
}

/// The ids of all keys of pools, of those for images or of the others, are listed.
pub proof fn all_keys(pools: Seq<PoolConfig>, images: bool, n: nat, id: i64)
    requires
        n <= pools.len(),
    ensures
        (if images {
            usage::all_image_key_ids(pools, n)
        } else {
            usage::all_key_ids(pools, n)
        }).contains(id) <==> exists|p: int, i: int, k: int|
            0 <= p < n && #[trigger] pool_has_key(pools[p], images, i, k, id),
    decreases n,
{
    if n > 0 {
        let m = (n - 1) as nat;
        all_keys(pools, images, m, id);
        let suppliers = pools[n - 1].base_urls@;
        keys_of_suppliers(suppliers, images, suppliers.len(), id);
        let before = if images {
            usage::all_image_key_ids(pools, m)
        } else {
            usage::all_key_ids(pools, m)
        };
        let more = runtime::supplier_key_ids(suppliers, images, suppliers.len());
        if (before + more).contains(id) {
            let at = choose|at: int| 0 <= at < (before + more).len() && (before + more)[at] == id;
            if at < before.len() {
                assert(before[at] == id);
                assert(before.contains(id));
            } else {
                assert(more[at - before.len()] == id);
                assert(more.contains(id));
                let (i, k) = choose|i: int, k: int|
                    0 <= i < suppliers.len() && #[trigger] has_key(suppliers[i], images, k, id);
                assert(pool_has_key(pools[n - 1], images, i, k, id));
            }
        }
        if exists|p: int, i: int, k: int|
            0 <= p < n && #[trigger] pool_has_key(pools[p], images, i, k, id) {
            let (p, i, k) = choose|p: int, i: int, k: int|
                0 <= p < n && #[trigger] pool_has_key(pools[p], images, i, k, id);
            if p < m {
                let at = choose|at: int| 0 <= at < before.len() && before[at] == id;
                assert((before + more)[at] == id);
            } else {
                assert(has_key(suppliers[i], images, k, id));
                let at = choose|at: int| 0 <= at < more.len() && more[at] == id;
                assert((before + more)[before.len() + at] == id);
            }
        }
    } else {
        assert(usage::all_image_key_ids(pools, n).len() == 0);
        assert(usage::all_key_ids(pools, n).len() == 0);
    }
}

/// When the pools are read anew, what is known of a key that some supplier still has stays, and what
/// is known of others goes, for keys for images and for the others.
pub proof fn known_keys_stay(state: RuntimeView, pools: Seq<PoolConfig>, images: bool, id: i64)
    ensures
        ({
            let after = usage::of_known_keys(state, pools);
            &&& after.day == state.day
            &&& known_of(after, images, id, state.day) == if (exists|p: int, i: int, k: int|
                0 <= p < pools.len() && #[trigger] pool_has_key(pools[p], images, i, k, id)) {
                known_of(state, images, id, state.day)
            } else {
                (0int, None::<Instant>)
            }
        }),
{
    all_keys(pools, images, pools.len(), id);
}

/// A use stays remembered while its access key, its pool, its supplier and its key are all there.
/// When one of them goes it is forgotten.
pub proof fn known_uses_stay(
    before: UsageView,
    pools: Seq<PoolConfig>,
    access_keys: Seq<AccessKeyConfig>,
    id: i64,
)
    ensures
        ({
            let after = usage::reconciled(before, pools, access_keys);
            &&& after.by_access_key.get(id) == match before.by_access_key.get(id) {
                Some(used) => if (exists|i: int|
                    0 <= i < access_keys.len() && (#[trigger] access_keys[i]).id
                        == used.access_key_id) && (exists|p: int|
                    0 <= p < pools.len() && (#[trigger] pools[p]).id == used.proxy_id) && (exists|
                    p: int,
                    i: int,
                |
                    0 <= p < pools.len() && #[trigger] has_supplier(pools[p], i, used.supplier_id))
                    && (exists|p: int, i: int, k: int|
                    0 <= p < pools.len() && #[trigger] pool_has_key(
                        pools[p],
                        false,
                        i,
                        k,
                        used.key_id,
                    )) {
                    Some(used)
                } else {
                    None
                },
                None => None,
            }
            &&& after.by_key.get(id) == match before.by_key.get(id) {
                Some(used) => if (exists|i: int|
                    0 <= i < access_keys.len() && (#[trigger] access_keys[i]).id
                        == used.access_key_id) && (exists|p: int, i: int|
                    0 <= p < pools.len() && #[trigger] has_supplier(pools[p], i, used.supplier_id))
                    && (exists|p: int, i: int, k: int|
                    0 <= p < pools.len() && #[trigger] pool_has_key(pools[p], false, i, k, id)) {
                    Some(used)
                } else {
                    None
                },
                None => None,
            }
        }),
{
    if let Some(used) = before.by_access_key.get(id) {
        all_suppliers(pools, pools.len(), used.supplier_id);
        all_keys(pools, false, pools.len(), used.key_id);
        ids_of_access_keys(access_keys, used.access_key_id);
        ids_of_pools(pools, used.proxy_id);
    }
    if let Some(used) = before.by_key.get(id) {
        all_suppliers(pools, pools.len(), used.supplier_id);
        all_keys(pools, false, pools.len(), id);
        ids_of_access_keys(access_keys, used.access_key_id);
    }
}

proof fn ids_of_access_keys(access_keys: Seq<AccessKeyConfig>, id: i64)
    ensures
        usage::access_key_ids(access_keys).contains(id) <==> exists|i: int|
            0 <= i < access_keys.len() && (#[trigger] access_keys[i]).id == id,
{
    let ids = usage::access_key_ids(access_keys);
    if ids.contains(id) {
        let i = choose|i: int| 0 <= i < ids.len() && ids[i] == id;
        assert(access_keys[i].id == id);
    }
    if exists|i: int| 0 <= i < access_keys.len() && (#[trigger] access_keys[i]).id == id {
        let i = choose|i: int| 0 <= i < access_keys.len() && (#[trigger] access_keys[i]).id == id;
        assert(ids[i] == id);
    }
}

proof fn ids_of_pools(pools: Seq<PoolConfig>, id: i64)
    ensures
        usage::pool_ids(pools).contains(id) <==> exists|i: int|
            0 <= i < pools.len() && (#[trigger] pools[i]).id == id,
{
    let ids = usage::pool_ids(pools);
    if ids.contains(id) {
        let i = choose|i: int| 0 <= i < ids.len() && ids[i] == id;
        assert(pools[i].id == id);
    }
    if exists|i: int| 0 <= i < pools.len() && (#[trigger] pools[i]).id == id {
        let i = choose|i: int| 0 <= i < pools.len() && (#[trigger] pools[i]).id == id;
        assert(ids[i] == id);
    }
}

/// Showing the pools ends the bans of their keys that are over, and changes nothing else.
pub proof fn showing_ends_bans(
    today: RuntimeView,
    ids: Seq<i64>,
    image_ids: Seq<i64>,
    at: Instant,
    id: i64,
    images: bool,
)
    ensures
        ({
            let after = views::after_looking(today, ids, image_ids, at);
            let (fails, until) = known_of(today, images, id, today.day);
            let listed = if images {
                image_ids.contains(id)
            } else {
                ids.contains(id)
            };
            let over = until matches Some(end) && !at.before(end);
            &&& after.day == today.day
            &&& known_of(after, images, id, today.day) == (
                fails,
                if listed && over {
                    None
                } else {
                    until
                },
            )
        }),
{
}

} // verus!
