//! Failures, bans and uses of keys.

use chrono::{DateTime, Datelike, Local, TimeZone};
use me_api_proxy::clock::{day_start, next_day_zero, Instant, Moment, DAY_SECONDS, EPOCH_DAY, MAX_DAY, MIN_DAY, MAX_SECONDS};
use me_api_proxy::config::{ApiKeyConfig, BaseUrlConfig, PoolConfig, ProtocolMode};
use me_api_proxy::runtime::{
    clear_pool_runtime, count_key_fail, fail_can_be_counted, image_key_availability_in_state,
    image_request_has_single_candidate, key_availability_in_state, mark_image_key_fail_in_state,
    mark_image_key_success_in_state, mark_key_fail_in_state, mark_key_success_in_state,
    pool_has_single_supplier_and_key, KeyRuntimeState, DAILY_BAN_FAILS, TEMP_BAN_FAILS,
};
use me_api_proxy::usage::{
    clear_access_key_usage, clear_access_key_usages, clear_supplier_usage, note_key_usage,
    record_key_usage, reconcile_usage_runtime, reload_pools, AccessKeyUsage, UsageRuntimeState,
};

fn moment(time: DateTime<Local>) -> Moment {
    Moment {
        at: Instant {
            secs: time.timestamp(),
            nanos: time.timestamp_subsec_nanos(),
        },
        day: time.date_naive().num_days_from_ce(),
    }
}

fn fixed_now() -> DateTime<Local> {
    Local
        .with_ymd_and_hms(2026, 1, 10, 12, 0, 0)
        .single()
        .unwrap()
}

fn key(id: i64) -> ApiKeyConfig {
    ApiKeyConfig {
        id,
        base_url_id: 1,
        api_key: "sk-test".to_string(),
        sort_order: 0,
        manually_disabled: false,
        test_model: String::new(),
        test_protocol: None,
    }
}

fn pool(id: i64, keys: Vec<ApiKeyConfig>, image_keys: Vec<ApiKeyConfig>) -> PoolConfig {
    PoolConfig {
        id,
        name: "测试代理".to_string(),
        note: String::new(),
        is_active: true,
        base_urls: vec![BaseUrlConfig {
            id: 10 * id,
            pool_id: id,
            name: "供应商".to_string(),
            base_url: "https://api.example.com/v1".to_string(),
            protocol_mode: ProtocolMode::Both,
            override_model: String::new(),
            sort_order: 0,
            api_keys: keys,
            image_keys,
        }],
    }
}

#[test]
fn key_failures_escalate_from_temp_ban_to_daily_ban() {
    let key = key(1);
    let start = fixed_now();
    let now = moment(start);
    let mut state = KeyRuntimeState::default();
    state.last_reset_date = now.day;

    mark_key_fail_in_state(key.id, &mut state, now, true);
    mark_key_fail_in_state(key.id, &mut state, now, true);
    let availability = key_availability_in_state(&key, &mut state, now);
    assert_eq!(availability.fail_count, 2);
    assert!(availability.schedulable);

    mark_key_fail_in_state(key.id, &mut state, now, true);
    let availability = key_availability_in_state(&key, &mut state, now);
    assert_eq!(availability.fail_count, 3);
    assert!(availability.banned);

    let after_temp_ban = moment(start + chrono::Duration::minutes(6));
    let availability = key_availability_in_state(&key, &mut state, after_temp_ban);
    assert_eq!(availability.fail_count, 3);
    assert!(!availability.banned);

    mark_key_fail_in_state(key.id, &mut state, after_temp_ban, true);
    let after_second_temp_ban = moment(start + chrono::Duration::minutes(12));
    mark_key_fail_in_state(key.id, &mut state, after_second_temp_ban, true);
    let availability = key_availability_in_state(&key, &mut state, after_second_temp_ban);
    assert_eq!(availability.fail_count, 5);
    assert!(availability.banned);
}

#[test]
fn single_supplier_single_key_failures_do_not_ban() {
    let key = key(1);
    let now = moment(fixed_now());
    let mut state = KeyRuntimeState::default();
    state.last_reset_date = now.day;

    for _ in 0..DAILY_BAN_FAILS + 2 {
        mark_key_fail_in_state(key.id, &mut state, now, false);
    }

    let availability = key_availability_in_state(&key, &mut state, now);
    assert_eq!(availability.fail_count, DAILY_BAN_FAILS + 2);
    assert!(!availability.banned);
    assert!(availability.schedulable);
}

#[test]
fn key_success_clears_runtime_state() {
    let now = moment(fixed_now());
    let mut state = KeyRuntimeState::default();
    mark_key_fail_in_state(1, &mut state, now, true);
    mark_key_fail_in_state(1, &mut state, now, true);
    assert!(state.keys.contains_key(&1));

    mark_key_success_in_state(1, &mut state, now);
    assert!(!state.keys.contains_key(&1));
}

#[test]
fn manually_disabled_key_is_not_schedulable() {
    let mut key = key(1);
    key.manually_disabled = true;
    let mut state = KeyRuntimeState::default();
    let availability = key_availability_in_state(&key, &mut state, moment(fixed_now()));
    assert!(!availability.schedulable);
}

#[test]
fn image_key_runtime_is_isolated_from_chat_key_runtime() {
    let key = key(1);
    let now = moment(fixed_now());
    let mut state = KeyRuntimeState::default();
    state.last_reset_date = now.day;

    for _ in 0..TEMP_BAN_FAILS {
        mark_key_fail_in_state(key.id, &mut state, now, true);
    }

    assert!(key_availability_in_state(&key, &mut state, now).banned);
    assert!(image_key_availability_in_state(&key, &mut state, now).schedulable);

    mark_image_key_fail_in_state(key.id, &mut state, now, false);
    assert_eq!(
        image_key_availability_in_state(&key, &mut state, now).fail_count,
        1
    );
    assert_eq!(
        key_availability_in_state(&key, &mut state, now).fail_count,
        3
    );
    mark_image_key_success_in_state(key.id, &mut state, now);
    assert_eq!(
        image_key_availability_in_state(&key, &mut state, now).fail_count,
        0
    );
}

#[test]
fn image_request_uses_only_image_candidates_when_present() {
    let make_key = |id| ApiKeyConfig {
        id,
        base_url_id: 1,
        api_key: format!("sk-{id}"),
        sort_order: id,
        manually_disabled: false,
        test_model: String::new(),
        test_protocol: None,
    };
    let mut pool = PoolConfig {
        id: 1,
        name: "测试代理".to_string(),
        note: String::new(),
        is_active: true,
        base_urls: vec![BaseUrlConfig {
            id: 1,
            pool_id: 1,
            name: "供应商".to_string(),
            base_url: "https://api.example.com/v1".to_string(),
            protocol_mode: ProtocolMode::Both,
            override_model: String::new(),
            sort_order: 0,
            api_keys: vec![make_key(1), make_key(2)],
            image_keys: vec![make_key(3)],
        }],
    };

    assert!(image_request_has_single_candidate(&pool));

    pool.base_urls[0].image_keys.clear();
    assert!(!image_request_has_single_candidate(&pool));
}

#[test]
fn single_supplier_and_key_is_told() {
    assert!(pool_has_single_supplier_and_key(&pool(1, vec![key(1)], vec![])));
    assert!(!pool_has_single_supplier_and_key(&pool(1, vec![key(1), key(2)], vec![])));
    assert!(!pool_has_single_supplier_and_key(&pool(1, vec![], vec![key(1)])));
}

#[test]
fn ban_ends_at_its_very_instant() {
    let key = key(1);
    let now = Moment { at: Instant { secs: 1_000, nanos: 5 }, day: 7 };
    let next_day = Instant { secs: 50_000, nanos: 0 };
    let mut state = KeyRuntimeState::default();
    for _ in 0..3 {
        count_key_fail(1, &mut state, now, true, next_day);
    }
    let before = Moment { at: Instant { secs: 1_300, nanos: 4 }, day: 7 };
    let found = key_availability_in_state(&key, &mut state, before);
    assert_eq!(found.ban_until, Some(1_300));
    assert!(!found.schedulable);
    let end = Moment { at: Instant { secs: 1_300, nanos: 5 }, day: 7 };
    assert!(key_availability_in_state(&key, &mut state, end).schedulable);

    count_key_fail(1, &mut state, end, true, next_day);
    count_key_fail(1, &mut state, end, true, next_day);
    assert_eq!(
        key_availability_in_state(&key, &mut state, end).ban_until,
        Some(50_000)
    );
    let tomorrow = Moment { at: Instant { secs: 1_301, nanos: 0 }, day: 8 };
    let fresh = key_availability_in_state(&key, &mut state, tomorrow);
    assert_eq!((fresh.fail_count, fresh.banned), (0, false));
}

#[test]
fn leap_second_is_left_behind() {
    let leap = Instant { secs: 59, nanos: 1_300_000_000 };
    assert_eq!(leap.minutes_later(5), Instant { secs: 359, nanos: 300_000_000 });
}

#[test]
fn next_day_begins_within_a_day_of_universal_time() {
    let day = fixed_now().date_naive().num_days_from_ce();
    let start = next_day_zero(day);
    let expected = Local
        .with_ymd_and_hms(2026, 1, 11, 0, 0, 0)
        .single()
        .map(|time| Instant { secs: time.timestamp(), nanos: 0 });
    assert_eq!(start, day_start(day + 1, expected));
    assert_eq!(
        day_start(day, None).secs,
        (day as i64 - EPOCH_DAY as i64) * DAY_SECONDS
    );
}

#[test]
fn limits_of_time_are_those_of_dates() {
    assert_eq!(chrono::NaiveDate::MIN.num_days_from_ce(), MIN_DAY);
    assert_eq!(chrono::NaiveDate::MAX.num_days_from_ce(), MAX_DAY);
    assert_eq!(DateTime::<chrono::Utc>::MAX_UTC.timestamp(), MAX_SECONDS);
    assert_eq!(
        chrono::NaiveDate::from_ymd_opt(1970, 1, 1).unwrap().num_days_from_ce(),
        EPOCH_DAY
    );
}

#[test]
fn failures_are_counted_up_to_the_limit() {
    let now = moment(fixed_now());
    let mut state = KeyRuntimeState::default();
    assert!(fail_can_be_counted(&state, false, 1, now));
    mark_key_fail_in_state(1, &mut state, now, true);
    state.keys.get_mut(&1).unwrap().fail_count = u32::MAX;
    assert!(!fail_can_be_counted(&state, false, 1, now));
    assert!(fail_can_be_counted(&state, true, 1, now));
}

#[test]
fn keys_of_a_pool_are_unbanned_together() {
    let now = moment(fixed_now());
    let mut state = KeyRuntimeState::default();
    for id in 1..4 {
        mark_key_fail_in_state(id, &mut state, now, true);
        mark_image_key_fail_in_state(id, &mut state, now, true);
    }
    let pools = vec![pool(1, vec![key(1), key(2)], vec![key(3)])];
    clear_pool_runtime(&mut state, &pools, 2);
    assert_eq!(state.keys.len(), 3);
    clear_pool_runtime(&mut state, &pools, 1);
    assert_eq!(state.keys.keys().copied().collect::<Vec<i64>>(), vec![3]);
    assert!(!state.image_keys.contains_key(&3));
    assert_eq!(state.image_keys.len(), 2);
}

#[test]
fn record_key_usage_updates_runtime_state() {
    let mut usage = UsageRuntimeState::default();
    let before = Local::now().timestamp();
    record_key_usage(&mut usage, 4, 1, 2, 3);

    let access_usage = usage.by_access_key.get(&4).unwrap();
    assert_eq!(access_usage.proxy_id, 1);
    assert_eq!(access_usage.supplier_id, 2);
    assert_eq!(access_usage.key_id, 3);
    assert!(access_usage.used_at >= before);
    assert!(usage.by_key.contains_key(&3));
}

fn used(access_key_id: i64, supplier_id: i64, key_id: i64) -> AccessKeyUsage {
    AccessKeyUsage { access_key_id, proxy_id: 1, supplier_id, key_id, used_at: 9 }
}

#[test]
fn uses_are_forgotten_with_what_they_speak_of() {
    let mut usage = UsageRuntimeState::default();
    note_key_usage(&mut usage, used(1, 10, 100));
    note_key_usage(&mut usage, used(2, 20, 200));
    note_key_usage(&mut usage, used(3, 20, 300));
    clear_access_key_usage(&mut usage, 1);
    assert!(!usage.by_access_key.contains_key(&1));
    assert!(!usage.by_key.contains_key(&100));
    assert_eq!(usage.by_key.len(), 2);
    clear_access_key_usages(&mut usage, &vec![2, 7]);
    assert_eq!(usage.by_access_key.len(), 1);
    clear_supplier_usage(&mut usage, 20);
    assert!(usage.by_access_key.is_empty());
    assert!(usage.by_key.is_empty());
}

#[test]
fn uses_of_what_is_gone_are_dropped() {
    let access_key = me_api_proxy::config::AccessKeyConfig {
        id: 5,
        name: "a".to_string(),
        access_key: "me-a".to_string(),
        proxy_id: 1,
        image_proxy_id: None,
        override_model: String::new(),
        created_at: 0,
        updated_at: 0,
    };
    let access_keys = vec![access_key];
    let pools = vec![pool(1, vec![key(100)], vec![key(7)])];
    let mut usage = UsageRuntimeState::default();
    note_key_usage(&mut usage, used(5, 10, 100));
    note_key_usage(&mut usage, used(6, 10, 101));
    reconcile_usage_runtime(&mut usage, &pools, &access_keys);
    assert_eq!(usage.by_access_key.keys().copied().collect::<Vec<i64>>(), vec![5]);
    assert_eq!(usage.by_key.keys().copied().collect::<Vec<i64>>(), vec![100]);

    let now = moment(fixed_now());
    let mut state = KeyRuntimeState::default();
    for id in [7, 100] {
        mark_key_fail_in_state(id, &mut state, now, true);
        mark_image_key_fail_in_state(id, &mut state, now, true);
    }
    reload_pools(&mut state, &mut usage, &pools, &access_keys);
    assert_eq!(state.keys.keys().copied().collect::<Vec<i64>>(), vec![100]);
    assert_eq!(state.image_keys.keys().copied().collect::<Vec<i64>>(), vec![7]);
}
