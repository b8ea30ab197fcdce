//! Where each key was last used, and by which access key.

use std::collections::HashMap;

use vstd::prelude::*;

use crate::clock::local_now;
use crate::config::{AccessKeyConfig, BaseUrlConfig, PoolConfig};
use crate::runtime;
use crate::runtime::{pool_key_ids, ApiKeyRuntime, KeyRuntimeState, RuntimeView};

verus! {

broadcast use vstd::std_specs::hash::group_hash_axioms;

/// The last use of an access key.
#[derive(Clone, Copy, Debug, PartialEq, Eq, Structural)]
pub struct AccessKeyUsage {
    pub access_key_id: i64,
    pub proxy_id: i64,
    pub supplier_id: i64,
    pub key_id: i64,
    pub used_at: i64,
}

/// The last use of a key.
#[derive(Clone, Copy, Debug, PartialEq, Eq, Structural)]
pub struct KeyUsage {
    pub access_key_id: i64,
    pub supplier_id: i64,
    pub used_at: i64,
}

/// The last use of each access key and of each key.
pub struct UsageRuntimeState {
    pub by_access_key: HashMap<i64, AccessKeyUsage>,
    pub by_key: HashMap<i64, KeyUsage>,
}

#[verifier::ext_equal]
pub ghost struct UsageView {
    pub by_access_key: Map<i64, AccessKeyUsage>,
    pub by_key: Map<i64, KeyUsage>,
}

impl View for UsageRuntimeState {
    type V = UsageView;

    open spec fn view(&self) -> UsageView {
        UsageView { by_access_key: self.by_access_key@, by_key: self.by_key@ }
    }
}

impl Default for UsageRuntimeState {
    /// Nothing has been used.
    fn default() -> (usage: UsageRuntimeState)
        ensures
            usage@ == (UsageView { by_access_key: Map::empty(), by_key: Map::empty() }),
    {
        UsageRuntimeState { by_access_key: HashMap::new(), by_key: HashMap::new() }
    }
}

/// The usage after a key was used.
pub open spec fn with_use(usage: UsageView, used: AccessKeyUsage) -> UsageView {
    UsageView {
        by_access_key: usage.by_access_key.insert(used.access_key_id, used),
        by_key: usage.by_key.insert(
            used.key_id,
            KeyUsage {
                access_key_id: used.access_key_id,
                supplier_id: used.supplier_id,
                used_at: used.used_at,
            },
        ),
    }
}

/// Notes that a key was used.
pub fn note_key_usage(usage: &mut UsageRuntimeState, used: AccessKeyUsage)
    ensures
        final(usage)@ == with_use(old(usage)@, used),
{
    usage.by_access_key.insert(used.access_key_id, used);
    usage.by_key.insert(
        used.key_id,
        KeyUsage {
            access_key_id: used.access_key_id,
            supplier_id: used.supplier_id,
            used_at: used.used_at,
        },
    );
}

/// Notes that a key is used now.
pub fn record_key_usage(
    usage: &mut UsageRuntimeState,
    access_key_id: i64,
    proxy_id: i64,
    supplier_id: i64,
    key_id: i64,
)
    ensures
        exists|used_at: i64| #[trigger]
            with_use(
                old(usage)@,
                AccessKeyUsage { access_key_id, proxy_id, supplier_id, key_id, used_at },
            ) == final(usage)@,
{
    let used_at: i64 = local_now().at.secs;
    note_key_usage(
        usage,
        AccessKeyUsage { access_key_id, proxy_id, supplier_id, key_id, used_at },
    );
}

/// A choice of entries to keep.
trait Keep<V> {
    /// Whether an entry is kept.
    spec fn keeps(&self, key: i64, value: V) -> bool;

    /// Whether an entry is kept.
    fn keep(&self, key: i64, value: &V) -> (kept: bool)
        ensures
            kept == self.keeps(key, *value),
    ;
}

/// The entries that are kept.
spec fn kept<V, F: Keep<V>>(map: Map<i64, V>, filter: F) -> Map<i64, V> {
    Map::new(
        |key: i64| map.contains_key(key) && filter.keeps(key, map[key]),
        |key: i64| map[key],
    )
}

fn retain<V, F: Keep<V>>(map: &mut HashMap<i64, V>, filter: &F)
    ensures
        final(map)@ == kept(old(map)@, *filter),
{
    let ghost before = map@;
    let mut dropped: Vec<i64> = Vec::new();
    let ghost mut seen: Seq<i64> = Seq::empty();
    let keys = map.keys();
    let ghost all = vstd::std_specs::iter::IteratorSpec::remaining(&keys).unref();
    for key in it: keys
        invariant
            map@ == before,
            it.seq().unref() == all,
            all.to_set() == before.dom(),
            seen == all.take(it.index() as int),
            it.index() <= it.seq().len(),
            it.seq().len() == all.len(),
            it.index() == it.seq().len() ==> seen == all,
            forall|key: i64| #[trigger]
                dropped@.contains(key) ==> before.contains_key(key) && !filter.keeps(
                    key,
                    before[key],
                ),
            forall|i: int|
                #![trigger seen[i]]
                0 <= i < seen.len() && !filter.keeps(seen[i], before[seen[i]])
                    ==> dropped@.contains(seen[i]),
    {
        proof {
            assert(all[it.index() as int] == *key);
            assert(all.to_set().contains(*key));
            seen = seen.push(*key);
            assert(seen =~= all.take(it.index() + 1));
            assert(all.take(all.len() as int) =~= all);
        }
        if let Some(value) = map.get(key) {
            if !filter.keep(*key, value) {
                let ghost so_far = dropped@;
                dropped.push(*key);
                proof {
                    assert(dropped@[so_far.len() as int] == *key);
                    assert forall|k: i64| so_far.contains(k) implies #[trigger] dropped@.contains(
                        k,
                    ) by {
                        let j = choose|j: int| 0 <= j < so_far.len() && so_far[j] == k;
                        assert(dropped@[j] == k);
                    }
                    assert forall|k: i64| #[trigger] dropped@.contains(k) implies so_far.contains(k)
                        || k == *key by {
                        let j = choose|j: int| 0 <= j < dropped@.len() && dropped@[j] == k;
                        if j < so_far.len() {
                            assert(so_far[j] == k);
                        }
                    }
                }
            }
        }
    }
    let ghost gone = dropped@;
    proof {
        assert forall|key: i64| before.contains_key(key) && !filter.keeps(key, before[key])
            implies gone.contains(key) by {
            assert(seen.to_set().contains(key));
            let i = choose|i: int| 0 <= i < seen.len() && seen[i] == key;
            assert(gone.contains(seen[i]));
        }
    }
    let mut i: usize = 0;
    while i < dropped.len()
        invariant
            i <= dropped@.len(),
            gone == dropped@,
            forall|key: i64| #[trigger]
                map@.contains_key(key) <==> before.contains_key(key) && !gone.take(
                    i as int,
                ).contains(key),
            forall|key: i64| #[trigger] map@.contains_key(key) ==> map@[key] == before[key],
        decreases dropped@.len() - i,
    {
        map.remove(&dropped[i]);
        proof {
            let last = gone[i as int];
            assert forall|key: i64| gone.take(i + 1).contains(key) <==> (gone.take(
                i as int,
            ).contains(key) || key == last) by {
                assert(gone.take(i + 1) =~= gone.take(i as int).push(last));
                if gone.take(i as int).contains(key) {
                    let j = choose|j: int|
                        0 <= j < gone.take(i as int).len() && gone.take(i as int)[j] == key;
                    assert(gone.take(i + 1)[j] == key);
                }
                if key == last {
                    assert(gone.take(i + 1)[i as int] == key);
                }
            }
        }
        i = i + 1;
    }
    assert(gone.take(i as int) =~= gone);
    assert(map@ =~= kept(before, *filter));
}

/// The entries of a map that meet a condition.
pub open spec fn filtered<V>(map: Map<i64, V>, keeps: spec_fn(i64, V) -> bool) -> Map<i64, V> {
    Map::new(|key: i64| map.contains_key(key) && keeps(key, map[key]), |key: i64| map[key])
}

/// The ids hold that id.
pub fn contains_id(ids: &Vec<i64>, id: i64) -> (found: bool)
    ensures
        found == ids@.contains(id),
{
    let mut i: usize = 0;
    while i < ids.len()
        invariant
            i <= ids@.len(),
            forall|j: int| 0 <= j < i ==> ids@[j] != id,
        decreases ids@.len() - i,
    {
        if ids[i] == id {
            assert(ids@[i as int] == id);
            return true;
        }
        i = i + 1;
    }
    false
}

/// Uses by other access keys.
struct ByOthers<'a> {
    access_key_ids: &'a Vec<i64>,
}

impl<'a> Keep<KeyUsage> for ByOthers<'a> {
    spec fn keeps(&self, key: i64, value: KeyUsage) -> bool {
        !self.access_key_ids@.contains(value.access_key_id)
    }

    fn keep(&self, _key: i64, value: &KeyUsage) -> (kept: bool) {
        !contains_id(self.access_key_ids, value.access_key_id)
    }
}

/// Uses of other suppliers.
struct OfOthers {
    supplier_id: i64,
}

impl Keep<KeyUsage> for OfOthers {
    spec fn keeps(&self, key: i64, value: KeyUsage) -> bool {
        value.supplier_id != self.supplier_id
    }

    fn keep(&self, _key: i64, value: &KeyUsage) -> (kept: bool) {
        value.supplier_id != self.supplier_id
    }
}

impl Keep<AccessKeyUsage> for OfOthers {
    spec fn keeps(&self, key: i64, value: AccessKeyUsage) -> bool {
        value.supplier_id != self.supplier_id
    }

    fn keep(&self, _key: i64, value: &AccessKeyUsage) -> (kept: bool) {
        value.supplier_id != self.supplier_id
    }
}

/// The usage without that of some access keys.
pub open spec fn without_access_keys(usage: UsageView, ids: Seq<i64>) -> UsageView {
    UsageView {
        by_access_key: usage.by_access_key.remove_keys(ids.to_set()),
        by_key: filtered(
            usage.by_key,
            |key: i64, used: KeyUsage| !ids.contains(used.access_key_id),
        ),
    }
}

/// Forgets the uses of some access keys.
pub fn clear_access_key_usages(usage: &mut UsageRuntimeState, access_key_ids: &Vec<i64>)
    ensures
        final(usage)@ == without_access_keys(old(usage)@, access_key_ids@),
{
    let ghost before = usage@;
    let mut i: usize = 0;
    assert(before.by_access_key.remove_keys(access_key_ids@.take(0).to_set())
        =~= before.by_access_key);
    while i < access_key_ids.len()
        invariant
            i <= access_key_ids@.len(),
            usage@.by_access_key == before.by_access_key.remove_keys(
                access_key_ids@.take(i as int).to_set(),
            ),
            usage@.by_key == before.by_key,
        decreases access_key_ids@.len() - i,
    {
        usage.by_access_key.remove(&access_key_ids[i]);
        proof {
            let id = access_key_ids@[i as int];
            let done = access_key_ids@.take(i as int);
            assert(access_key_ids@.take(i + 1) =~= done.push(id));
            done.lemma_push_to_set_commute(id);
            assert(usage@.by_access_key =~= before.by_access_key.remove_keys(
                done.push(id).to_set(),
            ));
        }
        i = i + 1;
    }
    assert(access_key_ids@.take(i as int) =~= access_key_ids@);
    retain(&mut usage.by_key, &ByOthers { access_key_ids });
    assert(usage@ =~= without_access_keys(before, access_key_ids@));
}

/// Forgets the uses of an access key.
pub fn clear_access_key_usage(usage: &mut UsageRuntimeState, access_key_id: i64)
    ensures
        final(usage)@ == (UsageView {
            by_access_key: old(usage)@.by_access_key.remove(access_key_id),
            by_key: filtered(
                old(usage)@.by_key,
                |key: i64, used: KeyUsage| used.access_key_id != access_key_id,
            ),
        }),
{
    let ghost before = usage@;
    let mut ids: Vec<i64> = Vec::new();
    ids.push(access_key_id);
    clear_access_key_usages(usage, &ids);
    proof {
        assert(ids@ =~= seq![access_key_id]);
        assert forall|id: i64| ids@.contains(id) <==> id == access_key_id by {
            assert(ids@[0] == access_key_id);
        }
        assert(usage@.by_access_key =~= before.by_access_key.remove(access_key_id));
        assert(usage@.by_key =~= filtered(
            before.by_key,
            |key: i64, used: KeyUsage| used.access_key_id != access_key_id,
        ));
    }
}

/// Forgets the uses of a supplier.
pub fn clear_supplier_usage(usage: &mut UsageRuntimeState, supplier_id: i64)
    ensures
        final(usage)@ == (UsageView {
            by_access_key: filtered(
                old(usage)@.by_access_key,
                |key: i64, used: AccessKeyUsage| used.supplier_id != supplier_id,
            ),
            by_key: filtered(
                old(usage)@.by_key,
                |key: i64, used: KeyUsage| used.supplier_id != supplier_id,
            ),
        }),
{
    let ghost before = usage@;
    retain(&mut usage.by_access_key, &OfOthers { supplier_id });
    retain(&mut usage.by_key, &OfOthers { supplier_id });
    assert(usage@.by_access_key =~= filtered(
        before.by_access_key,
        |key: i64, used: AccessKeyUsage| used.supplier_id != supplier_id,
    ));
    assert(usage@.by_key =~= filtered(
        before.by_key,
        |key: i64, used: KeyUsage| used.supplier_id != supplier_id,
    ));
}

/// The ids of some access keys.
pub open spec fn access_key_ids(access_keys: Seq<AccessKeyConfig>) -> Seq<i64> {
    access_keys.map_values(|access_key: AccessKeyConfig| access_key.id)
}

/// The ids of some pools.
pub open spec fn pool_ids(pools: Seq<PoolConfig>) -> Seq<i64> {
    pools.map_values(|pool: PoolConfig| pool.id)
}

/// The ids of some suppliers.
pub open spec fn supplier_ids(suppliers: Seq<BaseUrlConfig>) -> Seq<i64> {
    suppliers.map_values(|supplier: BaseUrlConfig| supplier.id)
}

/// The ids of the suppliers of the first `n` pools.
pub open spec fn all_supplier_ids(pools: Seq<PoolConfig>, n: nat) -> Seq<i64>
    decreases n,
{
    if n == 0 {
        Seq::empty()
    } else {
        all_supplier_ids(pools, (n - 1) as nat) + supplier_ids(pools[n - 1].base_urls@)
    }
}

/// The ids of the keys of the first `n` pools.
pub open spec fn all_key_ids(pools: Seq<PoolConfig>, n: nat) -> Seq<i64>
    decreases n,
{
    if n == 0 {
        Seq::empty()
    } else {
        let suppliers = pools[n - 1].base_urls@;
        all_key_ids(pools, (n - 1) as nat) + runtime::supplier_key_ids(
            suppliers,
            false,
            suppliers.len(),
        )
    }
}

/// The ids of the keys for images of the first `n` pools.
pub open spec fn all_image_key_ids(pools: Seq<PoolConfig>, n: nat) -> Seq<i64>
    decreases n,
{
    if n == 0 {
        Seq::empty()
    } else {
        let suppliers = pools[n - 1].base_urls@;
        all_image_key_ids(pools, (n - 1) as nat) + runtime::supplier_key_ids(
            suppliers,
            true,
            suppliers.len(),
        )
    }
}

/// What there is: the ids that a use may speak of.
struct Known {
    access_keys: Vec<i64>,
    pools: Vec<i64>,
    suppliers: Vec<i64>,
    keys: Vec<i64>,
}

impl Keep<AccessKeyUsage> for Known {
    spec fn keeps(&self, key: i64, value: AccessKeyUsage) -> bool {
        self.access_keys@.contains(value.access_key_id) && self.pools@.contains(value.proxy_id)
            && self.suppliers@.contains(value.supplier_id) && self.keys@.contains(value.key_id)
    }

    fn keep(&self, _key: i64, value: &AccessKeyUsage) -> (kept: bool) {
        contains_id(&self.access_keys, value.access_key_id) && contains_id(
            &self.pools,
            value.proxy_id,
        ) && contains_id(&self.suppliers, value.supplier_id) && contains_id(
            &self.keys,
            value.key_id,
        )
    }
}

impl Keep<KeyUsage> for Known {
    spec fn keeps(&self, key: i64, value: KeyUsage) -> bool {
        self.keys@.contains(key) && self.access_keys@.contains(value.access_key_id)
            && self.suppliers@.contains(value.supplier_id)
    }

    fn keep(&self, key: i64, value: &KeyUsage) -> (kept: bool) {
        contains_id(&self.keys, key) && contains_id(&self.access_keys, value.access_key_id)
            && contains_id(&self.suppliers, value.supplier_id)
    }
}

fn known(pools: &Vec<PoolConfig>, access_keys: &Vec<AccessKeyConfig>) -> (known: Known)
    ensures
        known.access_keys@ == access_key_ids(access_keys@),
        known.pools@ == pool_ids(pools@),
        known.suppliers@ == all_supplier_ids(pools@, pools@.len()),
        known.keys@ == all_key_ids(pools@, pools@.len()),
{
    let mut known = Known {
        access_keys: Vec::new(),
        pools: Vec::new(),
        suppliers: Vec::new(),
        keys: Vec::new(),
    };
    let mut i: usize = 0;
    while i < access_keys.len()
        invariant
            i <= access_keys@.len(),
            known.access_keys@ == access_key_ids(access_keys@.take(i as int)),
            known.pools@.len() == 0,
            known.suppliers@.len() == 0,
            known.keys@.len() == 0,
        decreases access_keys@.len() - i,
    {
        known.access_keys.push(access_keys[i].id);
        i = i + 1;
        assert(known.access_keys@ =~= access_key_ids(access_keys@.take(i as int)));
    }
    assert(access_keys@.take(i as int) =~= access_keys@);
    let mut i: usize = 0;
    while i < pools.len()
        invariant
            i <= pools@.len(),
            known.access_keys@ == access_key_ids(access_keys@),
            known.pools@ == pool_ids(pools@.take(i as int)),
            known.suppliers@ == all_supplier_ids(pools@, i as nat),
            known.keys@ == all_key_ids(pools@, i as nat),
        decreases pools@.len() - i,
    {
        let pool = &pools[i];
        known.pools.push(pool.id);
        let mut keys = pool_key_ids(pool, false);
        known.keys.append(&mut keys);
        let ghost before = known.suppliers@;
        let mut j: usize = 0;
        assert(before + supplier_ids(pool.base_urls@.take(0)) =~= before);
        while j < pool.base_urls.len()
            invariant
                j <= pool.base_urls@.len(),
                known.suppliers@ == before + supplier_ids(pool.base_urls@.take(j as int)),
                known.access_keys@ == access_key_ids(access_keys@),
                known.pools@ == pool_ids(pools@.take(i as int)).push(pool.id),
                known.keys@ == all_key_ids(pools@, (i + 1) as nat),
            decreases pool.base_urls@.len() - j,
        {
            known.suppliers.push(pool.base_urls[j].id);
            j = j + 1;
            assert(known.suppliers@ =~= before + supplier_ids(pool.base_urls@.take(j as int)));
        }
        assert(pool.base_urls@.take(j as int) =~= pool.base_urls@);
        assert(pool_ids(pools@.take(i as int)).push(pool.id) =~= pool_ids(pools@.take(i + 1)));
        i = i + 1;
    }
    assert(pools@.take(i as int) =~= pools@);
    known
}

/// The usage without what speaks of an access key, a pool, a supplier or a key that there is no
/// more.
pub open spec fn reconciled(
    usage: UsageView,
    pools: Seq<PoolConfig>,
    access_keys: Seq<AccessKeyConfig>,
) -> UsageView {
    let suppliers = all_supplier_ids(pools, pools.len());
    let keys = all_key_ids(pools, pools.len());
    UsageView {
        by_access_key: filtered(
            usage.by_access_key,
            |key: i64, used: AccessKeyUsage|
                {
                    &&& access_key_ids(access_keys).contains(used.access_key_id)
                    &&& pool_ids(pools).contains(used.proxy_id)
                    &&& suppliers.contains(used.supplier_id)
                    &&& keys.contains(used.key_id)
                },
        ),
        by_key: filtered(
            usage.by_key,
            |key: i64, used: KeyUsage|
                {
                    &&& keys.contains(key)
                    &&& access_key_ids(access_keys).contains(used.access_key_id)
                    &&& suppliers.contains(used.supplier_id)
                },
        ),
    }
}

/// Forgets what speaks of an access key, a pool, a supplier or a key that there is no more.
pub fn reconcile_usage_runtime(
    usage: &mut UsageRuntimeState,
    pools: &Vec<PoolConfig>,
    access_keys: &Vec<AccessKeyConfig>,
)
    ensures
        final(usage)@ == reconciled(old(usage)@, pools@, access_keys@),
{
    let ghost before = usage@;
    let known = known(pools, access_keys);
    retain(&mut usage.by_access_key, &known);
    retain(&mut usage.by_key, &known);
    assert(usage@.by_access_key =~= reconciled(before, pools@, access_keys@).by_access_key);
    assert(usage@.by_key =~= reconciled(before, pools@, access_keys@).by_key);
}

/// Keys of some ids.
struct OfIds<'a> {
    ids: &'a Vec<i64>,
}

impl<'a> Keep<ApiKeyRuntime> for OfIds<'a> {
    spec fn keeps(&self, key: i64, value: ApiKeyRuntime) -> bool {
        self.ids@.contains(key)
    }

    fn keep(&self, key: i64, _value: &ApiKeyRuntime) -> (kept: bool) {
        contains_id(self.ids, key)
    }
}

/// What is remembered of the keys that there are.
pub open spec fn of_known_keys(state: RuntimeView, pools: Seq<PoolConfig>) -> RuntimeView {
    let ids = all_key_ids(pools, pools.len());
    let image_ids = all_image_key_ids(pools, pools.len());
    RuntimeView {
        day: state.day,
        keys: filtered(state.keys, |id: i64, entry: ApiKeyRuntime| ids.contains(id)),
        image_keys: filtered(
            state.image_keys,
            |id: i64, entry: ApiKeyRuntime| image_ids.contains(id),
        ),
    }
}

/// The ids of the keys, or of the keys for images, of all pools.
pub fn collect_key_ids(pools: &Vec<PoolConfig>, images: bool) -> (ids: Vec<i64>)
    ensures
        ids@ == if images {
            all_image_key_ids(pools@, pools@.len())
        } else {
            all_key_ids(pools@, pools@.len())
        },
{
    let mut ids: Vec<i64> = Vec::new();
    let mut i: usize = 0;
    while i < pools.len()
        invariant
            i <= pools@.len(),
            ids@ == if images {
                all_image_key_ids(pools@, i as nat)
            } else {
                all_key_ids(pools@, i as nat)
            },
        decreases pools@.len() - i,
    {
        let mut more = pool_key_ids(&pools[i], images);
        ids.append(&mut more);
        i = i + 1;
    }
    ids
}

/// Forgets, once the pools were loaded anew, the keys that there are no more, and the uses that
/// speak of what there is no more.
pub fn reload_pools(
    state: &mut KeyRuntimeState,
    usage: &mut UsageRuntimeState,
    pools: &Vec<PoolConfig>,
    access_keys: &Vec<AccessKeyConfig>,
)
    ensures
        final(state)@ == of_known_keys(old(state)@, pools@),
        final(usage)@ == reconciled(old(usage)@, pools@, access_keys@),
{
    let ghost before = state@;
    let ids = collect_key_ids(pools, false);
    let image_ids = collect_key_ids(pools, true);
    retain(&mut state.keys, &OfIds { ids: &ids });
    retain(&mut state.image_keys, &OfIds { ids: &image_ids });
    assert(state@.keys =~= of_known_keys(before, pools@).keys);
    assert(state@.image_keys =~= of_known_keys(before, pools@).image_keys);
    reconcile_usage_runtime(usage, pools, access_keys);
}

/// Reloading keeps what is remembered of the keys that there still are, and forgets the others.
pub proof fn reloading_keeps_known_keys(state: RuntimeView, pools: Seq<PoolConfig>, id: i64)
    ensures
        runtime::entry_of(of_known_keys(state, pools).keys, id) == if all_key_ids(
            pools,
            pools.len(),
        ).contains(id) {
            runtime::entry_of(state.keys, id)
        } else {
            runtime::fresh_entry()
        },
        runtime::entry_of(of_known_keys(state, pools).image_keys, id) == if all_image_key_ids(
            pools,
            pools.len(),
        ).contains(id) {
            runtime::entry_of(state.image_keys, id)
        } else {
            runtime::fresh_entry()
        },
{
}

/// To reconcile twice is to reconcile once.
pub proof fn reconciling_is_idempotent(
    usage: UsageView,
    pools: Seq<PoolConfig>,
    access_keys: Seq<AccessKeyConfig>,
)
    ensures
        reconciled(reconciled(usage, pools, access_keys), pools, access_keys) == reconciled(
            usage,
            pools,
            access_keys,
        ),
{
    let once = reconciled(usage, pools, access_keys);
    assert(reconciled(once, pools, access_keys) =~= once);
}

/// A use that was noted is the last one of its access key and of its key.
pub proof fn use_is_found(usage: UsageView, used: AccessKeyUsage)
    ensures
        with_use(usage, used).by_access_key[used.access_key_id] == used,
        with_use(usage, used).by_key[used.key_id].access_key_id == used.access_key_id,
        with_use(usage, used).by_key[used.key_id].used_at == used.used_at,
{
}

/// Nothing is left of an access key whose uses were forgotten.
pub proof fn cleared_access_key_leaves_nothing(usage: UsageView, ids: Seq<i64>, id: i64)
    requires
        ids.contains(id),
    ensures
        !without_access_keys(usage, ids).by_access_key.contains_key(id),
        forall|key: i64| #[trigger]
            without_access_keys(usage, ids).by_key.contains_key(key) ==> without_access_keys(
                usage,
                ids,
            ).by_key[key].access_key_id != id,
{
}

} // verus!
