//! What the gateway remembers of its keys: failures, bans, and where each was last used.

use std::collections::HashMap;

use vstd::prelude::*;

use crate::clock;
use crate::clock::{local_now, next_day_zero, Instant, Moment};
use crate::config;
use crate::config::{ApiKeyConfig, BaseUrlConfig, PoolConfig};

verus! {

broadcast use vstd::std_specs::hash::group_hash_axioms;

/// Failures in a day after which a key is banned for some minutes.
pub const TEMP_BAN_FAILS: u32 = 3;

pub const TEMP_BAN_MINUTES: i64 = 5;

/// Failures in a day after which a key is banned for the rest of it.
pub const DAILY_BAN_FAILS: u32 = 5;

/// What is remembered of a key: its failures of the day, and until when it is banned.
#[derive(Clone, Copy, Debug, PartialEq, Eq)]
pub struct ApiKeyRuntime {
    pub fail_count: u32,
    pub ban_until: Option<Instant>,
}

/// What is remembered of the keys, on one day. Keys for images are remembered apart.
pub struct KeyRuntimeState {
    pub last_reset_date: i32,
    pub keys: HashMap<i64, ApiKeyRuntime>,
    pub image_keys: HashMap<i64, ApiKeyRuntime>,
}

#[verifier::ext_equal]
pub ghost struct RuntimeView {
    pub day: i32,
    pub keys: Map<i64, ApiKeyRuntime>,
    pub image_keys: Map<i64, ApiKeyRuntime>,
}

impl View for KeyRuntimeState {
    type V = RuntimeView;

    open spec fn view(&self) -> RuntimeView {
        RuntimeView {
            day: self.last_reset_date,
            keys: self.keys@,
            image_keys: self.image_keys@,
        }
    }
}

/// Whether and how a key can be used.
#[derive(Clone, Copy, Debug, PartialEq, Eq)]
pub struct KeyAvailability {
    pub fail_count: u32,
    pub banned: bool,
    pub ban_until: Option<i64>,
    pub schedulable: bool,
}

impl Default for KeyRuntimeState {
    /// Nothing is remembered, as of today.
    fn default() -> (state: KeyRuntimeState)
        ensures
            state@.keys == Map::<i64, ApiKeyRuntime>::empty(),
            state@.image_keys == Map::<i64, ApiKeyRuntime>::empty(),
            clock::MIN_DAY <= state@.day <= clock::MAX_DAY,
    {
        KeyRuntimeState {
            last_reset_date: local_now().day,
            keys: HashMap::new(),
            image_keys: HashMap::new(),
        }
    }
}

/// What is remembered on a day: all of it is forgotten when the day changes.
pub open spec fn on_day(state: RuntimeView, day: i32) -> RuntimeView {
    if state.day == day {
        state
    } else {
        RuntimeView { day, keys: Map::empty(), image_keys: Map::empty() }
    }
}

/// Forgets everything when the day has changed.
pub fn ensure_runtime_day(state: &mut KeyRuntimeState, now: Moment)
    ensures
        final(state)@ == on_day(old(state)@, now.day),
{
    if state.last_reset_date != now.day {
        state.keys.clear();
        state.image_keys.clear();
        state.last_reset_date = now.day;
    }
}

/// A ban that has run out is lifted.
pub open spec fn without_expired_ban(entry: ApiKeyRuntime, at: Instant) -> ApiKeyRuntime {
    ApiKeyRuntime {
        fail_count: entry.fail_count,
        ban_until: match entry.ban_until {
            Some(until) => if at.before(until) {
                Some(until)
            } else {
                None
            },
            None => None,
        },
    }
}

/// Lifts a ban that has run out.
pub fn clear_expired_ban(entry: &mut ApiKeyRuntime, now: Moment)
    ensures
        *final(entry) == without_expired_ban(*old(entry), now.at),
{
    if let Some(until) = entry.ban_until {
        if !now.at.is_before(until) {
            entry.ban_until = None;
        }
    }
}

/// What is remembered of a key of which nothing is.
pub open spec fn fresh_entry() -> ApiKeyRuntime {
    ApiKeyRuntime { fail_count: 0, ban_until: None }
}

/// What is remembered of a key.
pub open spec fn entry_of(keys: Map<i64, ApiKeyRuntime>, id: i64) -> ApiKeyRuntime {
    if keys.contains_key(id) {
        keys[id]
    } else {
        fresh_entry()
    }
}

/// How a key can be used at an instant: one that is switched off or banned cannot.
pub open spec fn availability(
    manually_disabled: bool,
    keys: Map<i64, ApiKeyRuntime>,
    id: i64,
    at: Instant,
) -> KeyAvailability {
    let entry = without_expired_ban(entry_of(keys, id), at);
    KeyAvailability {
        fail_count: entry.fail_count,
        banned: entry.ban_until is Some,
        ban_until: match entry.ban_until {
            Some(until) => Some(until.secs),
            None => None,
        },
        schedulable: !manually_disabled && entry.ban_until is None,
    }
}

/// The keys with an expired ban of that key lifted.
pub open spec fn looked_at(
    keys: Map<i64, ApiKeyRuntime>,
    id: i64,
    at: Instant,
) -> Map<i64, ApiKeyRuntime> {
    if keys.contains_key(id) {
        keys.insert(id, without_expired_ban(keys[id], at))
    } else {
        keys
    }
}

fn look_at(keys: &mut HashMap<i64, ApiKeyRuntime>, key: &ApiKeyConfig, now: Moment) -> (found:
    KeyAvailability)
    ensures
        final(keys)@ == looked_at(old(keys)@, key.id, now.at),
        found == availability(key.manually_disabled, old(keys)@, key.id, now.at),
{
    let known = match keys.get(&key.id) {
        Some(entry) => Some(*entry),
        None => None,
    };
    match known {
        Some(entry) => {
            let mut entry = entry;
            clear_expired_ban(&mut entry, now);
            keys.insert(key.id, entry);
            KeyAvailability {
                fail_count: entry.fail_count,
                banned: entry.ban_until.is_some(),
                ban_until: match entry.ban_until {
                    Some(until) => Some(until.secs),
                    None => None,
                },
                schedulable: !key.manually_disabled && entry.ban_until.is_none(),
            }
        },
        None => KeyAvailability {
            fail_count: 0,
            banned: false,
            ban_until: None,
            schedulable: !key.manually_disabled,
        },
    }
}

/// How a key can be used now.
pub fn key_availability_in_state(
    key: &ApiKeyConfig,
    state: &mut KeyRuntimeState,
    now: Moment,
) -> (found: KeyAvailability)
    ensures
        ({
            let today = on_day(old(state)@, now.day);
            &&& found == availability(key.manually_disabled, today.keys, key.id, now.at)
            &&& final(state)@ == (RuntimeView {
                keys: looked_at(today.keys, key.id, now.at),
                ..today
            })
        }),
{
    ensure_runtime_day(state, now);
    look_at(&mut state.keys, key, now)
}

/// How a key for images can be used now.
pub fn image_key_availability_in_state(
    key: &ApiKeyConfig,
    state: &mut KeyRuntimeState,
    now: Moment,
) -> (found: KeyAvailability)
    ensures
        ({
            let today = on_day(old(state)@, now.day);
            &&& found == availability(key.manually_disabled, today.image_keys, key.id, now.at)
            &&& final(state)@ == (RuntimeView {
                image_keys: looked_at(today.image_keys, key.id, now.at),
                ..today
            })
        }),
{
    ensure_runtime_day(state, now);
    look_at(&mut state.image_keys, key, now)
}

/// What is remembered of a key after one more failure: from the third one on it is banned for some
/// minutes, from the fifth one on until the next day begins. Where bans are not allowed, one that
/// there is is lifted.
pub open spec fn failed(
    entry: ApiKeyRuntime,
    at: Instant,
    allow_ban: bool,
    next_day: Instant,
) -> ApiKeyRuntime {
    let fails = entry.fail_count + 1;
    ApiKeyRuntime {
        fail_count: fails as u32,
        ban_until: if !allow_ban {
            None
        } else if fails >= DAILY_BAN_FAILS {
            Some(next_day)
        } else if fails >= TEMP_BAN_FAILS {
            Some(at.later_by(60 * TEMP_BAN_MINUTES))
        } else {
            without_expired_ban(entry, at).ban_until
        },
    }
}

/// The keys after a failure of one.
pub open spec fn with_failure(
    keys: Map<i64, ApiKeyRuntime>,
    id: i64,
    at: Instant,
    allow_ban: bool,
    next_day: Instant,
) -> Map<i64, ApiKeyRuntime> {
    keys.insert(id, failed(entry_of(keys, id), at, allow_ban, next_day))
}

/// A failure can be counted, and the end of a ban of some minutes is a time.
pub open spec fn can_fail(keys: Map<i64, ApiKeyRuntime>, id: i64, at: Instant) -> bool {
    entry_of(keys, id).fail_count < u32::MAX && at.secs + 60 * TEMP_BAN_MINUTES
        <= clock::MAX_SECONDS
}

fn fail(
    keys: &mut HashMap<i64, ApiKeyRuntime>,
    key_id: i64,
    now: Moment,
    allow_ban: bool,
    next_day: Instant,
)
    requires
        can_fail(old(keys)@, key_id, now.at),
    ensures
        final(keys)@ == with_failure(old(keys)@, key_id, now.at, allow_ban, next_day),
{
    let mut entry = match keys.get(&key_id) {
        Some(entry) => *entry,
        None => ApiKeyRuntime { fail_count: 0, ban_until: None },
    };
    clear_expired_ban(&mut entry, now);
    entry.fail_count = entry.fail_count + 1;
    if !allow_ban {
        entry.ban_until = None;
    } else if entry.fail_count >= DAILY_BAN_FAILS {
        entry.ban_until = Some(next_day);
    } else if entry.fail_count >= TEMP_BAN_FAILS {
        entry.ban_until = Some(now.at.minutes_later(TEMP_BAN_MINUTES));
    }
    keys.insert(key_id, entry);
}

/// Whether a failure of a key, or of a key for images, can be counted now.
pub fn fail_can_be_counted(state: &KeyRuntimeState, images: bool, key_id: i64, now: Moment) -> (can:
    bool)
    ensures
        can == can_fail(
            if images {
                on_day(state@, now.day).image_keys
            } else {
                on_day(state@, now.day).keys
            },
            key_id,
            now.at,
        ),
{
    let known = if state.last_reset_date != now.day {
        None
    } else if images {
        state.image_keys.get(&key_id)
    } else {
        state.keys.get(&key_id)
    };
    let fails: u32 = match known {
        Some(entry) => entry.fail_count,
        None => 0,
    };
    fails < u32::MAX && now.at.secs <= clock::MAX_SECONDS - 60 * TEMP_BAN_MINUTES
}

/// Counts a failure of a key, where the next day begins at `next_day`.
pub fn count_key_fail(
    key_id: i64,
    state: &mut KeyRuntimeState,
    now: Moment,
    allow_ban: bool,
    next_day: Instant,
)
    requires
        can_fail(on_day(old(state)@, now.day).keys, key_id, now.at),
    ensures
        ({
            let today = on_day(old(state)@, now.day);
            final(state)@ == (RuntimeView {
                keys: with_failure(today.keys, key_id, now.at, allow_ban, next_day),
                ..today
            })
        }),
{
    ensure_runtime_day(state, now);
    fail(&mut state.keys, key_id, now, allow_ban, next_day);
}

/// Counts a failure of a key for images, where the next day begins at `next_day`.
pub fn count_image_key_fail(
    key_id: i64,
    state: &mut KeyRuntimeState,
    now: Moment,
    allow_ban: bool,
    next_day: Instant,
)
    requires
        can_fail(on_day(old(state)@, now.day).image_keys, key_id, now.at),
    ensures
        ({
            let today = on_day(old(state)@, now.day);
            final(state)@ == (RuntimeView {
                image_keys: with_failure(today.image_keys, key_id, now.at, allow_ban, next_day),
                ..today
            })
        }),
{
    ensure_runtime_day(state, now);
    fail(&mut state.image_keys, key_id, now, allow_ban, next_day);
}

/// Counts a failure of a key.
pub fn mark_key_fail_in_state(
    key_id: i64,
    state: &mut KeyRuntimeState,
    now: Moment,
    allow_ban: bool,
)
    requires
        now.valid(),
        can_fail(on_day(old(state)@, now.day).keys, key_id, now.at),
    ensures
        ({
            let today = on_day(old(state)@, now.day);
            exists|local: Option<Instant>|
                clock::is_local_start(clock::following_day(now.day), local) && final(state)@ == (
                RuntimeView {
                    keys: with_failure(
                        today.keys,
                        key_id,
                        now.at,
                        allow_ban,
                        #[trigger] clock::start_of_day(clock::following_day(now.day), local),
                    ),
                    ..today
                })
        }),
{
    let next_day = next_day_zero(now.day);
    count_key_fail(key_id, state, now, allow_ban, next_day);
}

/// Counts a failure of a key for images.
pub fn mark_image_key_fail_in_state(
    key_id: i64,
    state: &mut KeyRuntimeState,
    now: Moment,
    allow_ban: bool,
)
    requires
        now.valid(),
        can_fail(on_day(old(state)@, now.day).image_keys, key_id, now.at),
    ensures
        ({
            let today = on_day(old(state)@, now.day);
            exists|local: Option<Instant>|
                clock::is_local_start(clock::following_day(now.day), local) && final(state)@ == (
                RuntimeView {
                    image_keys: with_failure(
                        today.image_keys,
                        key_id,
                        now.at,
                        allow_ban,
                        #[trigger] clock::start_of_day(clock::following_day(now.day), local),
                    ),
                    ..today
                })
        }),
{
    let next_day = next_day_zero(now.day);
    count_image_key_fail(key_id, state, now, allow_ban, next_day);
}

/// Forgets the failures of a key that has worked.
pub fn mark_key_success_in_state(key_id: i64, state: &mut KeyRuntimeState, now: Moment)
    ensures
        ({
            let today = on_day(old(state)@, now.day);
            final(state)@ == (RuntimeView { keys: today.keys.remove(key_id), ..today })
        }),
{
    ensure_runtime_day(state, now);
    state.keys.remove(&key_id);
}

/// Forgets the failures of a key for images that has worked.
pub fn mark_image_key_success_in_state(key_id: i64, state: &mut KeyRuntimeState, now: Moment)
    ensures
        ({
            let today = on_day(old(state)@, now.day);
            final(state)@ == (RuntimeView { image_keys: today.image_keys.remove(key_id), ..today })
        }),
{
    ensure_runtime_day(state, now);
    state.image_keys.remove(&key_id);
}

/// Whether a pool has one supplier with one key: its key is never banned.
pub fn pool_has_single_supplier_and_key(pool: &PoolConfig) -> (single: bool)
    ensures
        single == (pool.base_urls@.len() == 1 && pool.base_urls@[0].api_keys@.len() == 1),
{
    pool.base_urls.len() == 1 && pool.base_urls[0].api_keys.len() == 1
}

/// How many keys a supplier has for an image: its keys for images, or else its other keys.
pub open spec fn image_candidates(supplier: BaseUrlConfig) -> nat {
    if supplier.image_keys@.len() == 0 {
        supplier.api_keys@.len()
    } else {
        supplier.image_keys@.len()
    }
}

/// How many keys the first `n` suppliers have for an image.
pub open spec fn image_candidate_count(suppliers: Seq<BaseUrlConfig>, n: nat) -> nat
    decreases n,
{
    if n == 0 {
        0
    } else {
        image_candidate_count(suppliers, (n - 1) as nat) + image_candidates(suppliers[n - 1])
    }
}

proof fn image_candidate_count_grows(suppliers: Seq<BaseUrlConfig>, m: nat, n: nat)
    requires
        m <= n,
    ensures
        image_candidate_count(suppliers, m) <= image_candidate_count(suppliers, n),
    decreases n,
{
    if m < n {
        image_candidate_count_grows(suppliers, m, (n - 1) as nat);
    }
}

/// Whether a pool has one key for an image: that key is never banned for it.
pub fn image_request_has_single_candidate(pool: &PoolConfig) -> (single: bool)
    ensures
        single == (image_candidate_count(pool.base_urls@, pool.base_urls@.len()) == 1),
{
    let mut count: usize = 0;
    let mut i: usize = 0;
    while i < pool.base_urls.len()
        invariant
            i <= pool.base_urls@.len(),
            count == image_candidate_count(pool.base_urls@, i as nat),
            count <= 1,
        decreases pool.base_urls@.len() - i,
    {
        let supplier = &pool.base_urls[i];
        let more: usize = if supplier.image_keys.len() == 0 {
            supplier.api_keys.len()
        } else {
            supplier.image_keys.len()
        };
        proof {
            image_candidate_count_grows(
                pool.base_urls@,
                (i + 1) as nat,
                pool.base_urls@.len(),
            );
        }
        if more > 1 || count + more > 1 {
            return false;
        }
        count = count + more;
        i = i + 1;
    }
    count == 1
}

/// Forgets what is remembered of a key.
pub fn clear_key_runtime(state: &mut KeyRuntimeState, key_id: i64)
    ensures
        final(state)@ == (RuntimeView { keys: old(state)@.keys.remove(key_id), ..old(state)@ }),
{
    state.keys.remove(&key_id);
}

/// Forgets what is remembered of a key for images.
pub fn clear_image_key_runtime(state: &mut KeyRuntimeState, key_id: i64)
    ensures
        final(state)@ == (RuntimeView {
            image_keys: old(state)@.image_keys.remove(key_id),
            ..old(state)@
        }),
{
    state.image_keys.remove(&key_id);
}

fn forget(keys: &mut HashMap<i64, ApiKeyRuntime>, ids: &Vec<i64>)
    ensures
        final(keys)@ == old(keys)@.remove_keys(ids@.to_set()),
{
    let ghost before = keys@;
    let mut i: usize = 0;
    assert(before.remove_keys(ids@.take(0).to_set()) =~= before);
    while i < ids.len()
        invariant
            i <= ids@.len(),
            keys@ == before.remove_keys(ids@.take(i as int).to_set()),
        decreases ids@.len() - i,
    {
        keys.remove(&ids[i]);
        proof {
            let id = ids@[i as int];
            assert(ids@.take(i + 1) =~= ids@.take(i as int).push(id));
            ids@.take(i as int).lemma_push_to_set_commute(id);
            assert(keys@ =~= before.remove_keys(ids@.take(i + 1).to_set()));
        }
        i = i + 1;
    }
    assert(ids@.take(i as int) =~= ids@);
}

/// Forgets what is remembered of keys.
pub fn clear_key_runtimes(state: &mut KeyRuntimeState, key_ids: &Vec<i64>)
    ensures
        final(state)@ == (RuntimeView {
            keys: old(state)@.keys.remove_keys(key_ids@.to_set()),
            ..old(state)@
        }),
{
    forget(&mut state.keys, key_ids);
}

/// Forgets what is remembered of keys for images.
pub fn clear_image_key_runtimes(state: &mut KeyRuntimeState, key_ids: &Vec<i64>)
    ensures
        final(state)@ == (RuntimeView {
            image_keys: old(state)@.image_keys.remove_keys(key_ids@.to_set()),
            ..old(state)@
        }),
{
    forget(&mut state.image_keys, key_ids);
}

/// The ids of some keys.
pub open spec fn key_ids(keys: Seq<ApiKeyConfig>) -> Seq<i64> {
    keys.map_values(|key: ApiKeyConfig| key.id)
}

/// The ids of the keys, or of the keys for images, of the first `n` suppliers.
pub open spec fn supplier_key_ids(suppliers: Seq<BaseUrlConfig>, images: bool, n: nat) -> Seq<i64>
    decreases n,
{
    if n == 0 {
        Seq::empty()
    } else {
        supplier_key_ids(suppliers, images, (n - 1) as nat) + key_ids(
            if images {
                suppliers[n - 1].image_keys@
            } else {
                suppliers[n - 1].api_keys@
            },
        )
    }
}

fn append_key_ids(keys: &Vec<ApiKeyConfig>, ids: &mut Vec<i64>)
    ensures
        final(ids)@ == old(ids)@ + key_ids(keys@),
{
    let ghost before = ids@;
    let mut i: usize = 0;
    assert(before + key_ids(keys@.take(0)) =~= before);
    while i < keys.len()
        invariant
            i <= keys@.len(),
            ids@ == before + key_ids(keys@.take(i as int)),
        decreases keys@.len() - i,
    {
        ids.push(keys[i].id);
        i = i + 1;
        assert(ids@ =~= before + key_ids(keys@.take(i as int)));
    }
    assert(keys@.take(i as int) =~= keys@);
}

/// The ids of the keys, or of the keys for images, of a pool.
pub fn pool_key_ids(pool: &PoolConfig, images: bool) -> (ids: Vec<i64>)
    ensures
        ids@ == supplier_key_ids(pool.base_urls@, images, pool.base_urls@.len()),
{
    let mut ids: Vec<i64> = Vec::new();
    let mut i: usize = 0;
    while i < pool.base_urls.len()
        invariant
            i <= pool.base_urls@.len(),
            ids@ == supplier_key_ids(pool.base_urls@, images, i as nat),
        decreases pool.base_urls@.len() - i,
    {
        let supplier = &pool.base_urls[i];
        if images {
            append_key_ids(&supplier.image_keys, &mut ids);
        } else {
            append_key_ids(&supplier.api_keys, &mut ids);
        }
        i = i + 1;
    }
    ids
}

/// What is remembered when all of a pool's keys are forgotten.
pub open spec fn without_pool(state: RuntimeView, pool: PoolConfig) -> RuntimeView {
    let suppliers = pool.base_urls@;
    RuntimeView {
        day: state.day,
        keys: state.keys.remove_keys(supplier_key_ids(suppliers, false, suppliers.len()).to_set()),
        image_keys: state.image_keys.remove_keys(
            supplier_key_ids(suppliers, true, suppliers.len()).to_set(),
        ),
    }
}

/// Forgets what is remembered of the keys of the pool of that id.
pub fn clear_pool_runtime(state: &mut KeyRuntimeState, pools: &Vec<PoolConfig>, pool_id: i64)
    ensures
        final(state)@ == match config::pool_of(pools@, pool_id) {
            Some(pool) => without_pool(old(state)@, pool),
            None => old(state)@,
        },
{
    if let Some(pool) = config::find_pool(pools, pool_id) {
        let key_ids = pool_key_ids(pool, false);
        let image_key_ids = pool_key_ids(pool, true);
        clear_key_runtimes(state, &key_ids);
        clear_image_key_runtimes(state, &image_key_ids);
    }
}

/// A key that is switched off is never used, whatever is remembered of it.
pub proof fn disabled_key_is_not_schedulable(
    keys: Map<i64, ApiKeyRuntime>,
    id: i64,
    at: Instant,
)
    ensures
        !availability(true, keys, id, at).schedulable,
{
}

/// The third and the fourth failure of a day ban a key until some minutes later: it is not used
/// before, and it is used again from then on.
pub proof fn third_failure_bans_for_minutes(
    keys: Map<i64, ApiKeyRuntime>,
    id: i64,
    at: Instant,
    next_day: Instant,
    later: Instant,
)
    requires
        can_fail(keys, id, at),
        TEMP_BAN_FAILS <= entry_of(keys, id).fail_count + 1 < DAILY_BAN_FAILS,
    ensures
        ({
            let found = availability(
                false,
                with_failure(keys, id, at, true, next_day),
                id,
                later,
            );
            &&& found.banned == later.before(at.later_by(60 * TEMP_BAN_MINUTES))
            &&& found.schedulable == !found.banned
            &&& found.fail_count == entry_of(keys, id).fail_count + 1
        }),
{
}

/// From the fifth failure of a day on a key is banned until the next day begins.
pub proof fn fifth_failure_bans_for_the_day(
    keys: Map<i64, ApiKeyRuntime>,
    id: i64,
    at: Instant,
    next_day: Instant,
    later: Instant,
)
    requires
        can_fail(keys, id, at),
        entry_of(keys, id).fail_count + 1 >= DAILY_BAN_FAILS,
    ensures
        ({
            let found = availability(
                false,
                with_failure(keys, id, at, true, next_day),
                id,
                later,
            );
            &&& found.banned == later.before(next_day)
            &&& found.schedulable == !found.banned
        }),
{
}

/// Where bans are not allowed, a key stays in use however often it fails.
pub proof fn failure_without_ban_keeps_key(
    keys: Map<i64, ApiKeyRuntime>,
    id: i64,
    at: Instant,
    next_day: Instant,
    later: Instant,
)
    requires
        can_fail(keys, id, at),
    ensures
        availability(false, with_failure(keys, id, at, false, next_day), id, later).schedulable,
        !availability(false, with_failure(keys, id, at, false, next_day), id, later).banned,
{
}

/// A key that has worked is as if it had never failed.
pub proof fn success_clears_failures(keys: Map<i64, ApiKeyRuntime>, id: i64, at: Instant)
    ensures
        availability(false, keys.remove(id), id, at).schedulable,
        availability(false, keys.remove(id), id, at).fail_count == 0,
{
}

/// What happens to one key changes nothing for another.
pub proof fn keys_are_independent(
    keys: Map<i64, ApiKeyRuntime>,
    id: i64,
    other: i64,
    at: Instant,
    allow_ban: bool,
    next_day: Instant,
    later: Instant,
    disabled: bool,
)
    requires
        id != other,
    ensures
        availability(disabled, with_failure(keys, id, at, allow_ban, next_day), other, later)
            == availability(disabled, keys, other, later),
        availability(disabled, keys.remove(id), other, later) == availability(
            disabled,
            keys,
            other,
            later,
        ),
        availability(disabled, looked_at(keys, id, at), other, later) == availability(
            disabled,
            keys,
            other,
            later,
        ),
{
}

/// Asking for a key's availability does not change what is answered later.
pub proof fn looking_changes_nothing(
    keys: Map<i64, ApiKeyRuntime>,
    id: i64,
    disabled: bool,
    at: Instant,
    later: Instant,
)
    requires
        !later.before(at),
    ensures
        availability(disabled, looked_at(keys, id, at), id, later) == availability(
            disabled,
            keys,
            id,
            later,
        ),
{
}

/// A new day begins without failures and without bans.
pub proof fn new_day_forgets(state: RuntimeView, day: i32, id: i64, at: Instant)
    requires
        state.day != day,
    ensures
        availability(false, on_day(state, day).keys, id, at).schedulable,
        availability(false, on_day(state, day).image_keys, id, at).schedulable,
        availability(false, on_day(state, day).keys, id, at).fail_count == 0,
{
}

} // verus!
