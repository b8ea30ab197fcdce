//! What is stored, saved, deleted and shown.

use me_api_proxy::admin::{
    activate_pool, create_access_key, create_base_url, create_key, create_pool, delete_pool,
    normalize_orders, prepare_access_key, prepare_api_key, prepare_base_url, prepare_pool,
    require_found, set_image_key_disabled, set_key_disabled, unban_all_pool, unban_image_key,
    unban_key, update_access_key, update_base_url, update_key, update_pool, AccessKeyPayload,
    ApiKeyPayload, BaseUrlPayload, Binding, PoolPayload, PoolPlace,
};
use me_api_proxy::answer::Refusal;
use me_api_proxy::clock::{Instant, Moment};
use me_api_proxy::config::{
    AccessKeyConfig, ApiKeyConfig, BaseUrlConfig, PoolConfig, ProtocolMode, TestProtocol,
};
use me_api_proxy::models::{
    key_test_target, models_failure, parse_model_ids, test_key_report, test_request_body,
    CallOutcome, KeyTestRow,
};
use me_api_proxy::payload::{
    normalize_access_key_name, normalize_api_key, normalize_legacy_api_keys, normalize_note,
    normalize_pool_name, normalize_test_model, prepare_api_key_saves, prepare_proxy_save_payload,
    resolve_test_protocol,
    ApiKeySavePayload, PreparedProxySave, ProxySavePayload, SupplierSavePayload,
};
use me_api_proxy::runtime::{mark_image_key_fail_in_state, mark_key_fail_in_state, KeyRuntimeState};
use me_api_proxy::save::{save_proxy_draft, PoolWrite, StoredKey, StoredPool};
use me_api_proxy::store::{
    init_database, load_access_keys, load_pools, migrate_legacy_openai_config, ImageKeyRow, KeyRow,
    LegacyConfig, PoolRow, SchemaChange, SupplierRow, Table, TableColumns,
};
use me_api_proxy::usage::{record_key_usage, UsageRuntimeState};
use me_api_proxy::views::{access_keys_response, pools_response};

const ACCESS_KEY: &str = "me-1234567890abcdef1234567890abcdef1234567890abcdef1234567890abcd";

fn now() -> Moment {
    Moment {
        at: Instant { secs: 1_768_000_000, nanos: 0 },
        day: 739_626,
    }
}

fn key_row(text: &str) -> KeyRow {
    KeyRow {
        id: 1,
        api_key: text.to_string(),
        sort_order: 0,
        manually_disabled: 0,
        test_model: String::new(),
        test_protocol: String::new(),
    }
}

fn pool_row(supplier: &str, protocol: &str, keys: Vec<KeyRow>) -> PoolRow {
    PoolRow {
        id: 1,
        name: "测试代理".to_string(),
        note: String::new(),
        is_active: 0,
        suppliers: vec![SupplierRow {
            id: 1,
            name: supplier.to_string(),
            base_url: "https://api.example.com/v1".to_string(),
            protocol_mode: protocol.to_string(),
            override_model: String::new(),
            sort_order: 0,
            keys,
            image_keys: Vec::new(),
        }],
    }
}

fn stored_pools(supplier: &str, keys: Vec<KeyRow>) -> Vec<PoolConfig> {
    load_pools(&vec![pool_row(supplier, "both", keys)]).unwrap()
}

fn access_key(override_model: &str) -> AccessKeyConfig {
    AccessKeyConfig {
        id: 1,
        name: "客户端 A".to_string(),
        access_key: ACCESS_KEY.to_string(),
        proxy_id: 1,
        image_proxy_id: None,
        override_model: override_model.to_string(),
        created_at: 5,
        updated_at: 6,
    }
}

fn texts(list: &[&str]) -> Vec<String> {
    list.iter().map(|text| text.to_string()).collect()
}

fn refused(status: u16, message: &str) -> Refusal {
    Refusal {
        status,
        json: true,
        message: message.to_string(),
    }
}

#[test]
fn image_keys_are_persisted_and_loaded_independently() {
    let mut row = pool_row("供应商 A", "both", vec![key_row("sk-chat")]);
    row.suppliers[0].image_keys.push(ImageKeyRow {
        id: 1,
        api_key: "sk-image".to_string(),
        sort_order: 0,
        manually_disabled: 0,
    });
    let pools = load_pools(&vec![row]).unwrap();
    let supplier = &pools[0].base_urls[0];
    assert_eq!(supplier.api_keys[0].api_key, "sk-chat");
    assert_eq!(supplier.image_keys[0].api_key, "sk-image");
}

#[test]
fn image_key_is_switched_off_alone() {
    let mut row = pool_row("供应商 A", "both", vec![key_row("sk-chat")]);
    row.suppliers[0].image_keys.push(ImageKeyRow {
        id: 1,
        api_key: "sk-image".to_string(),
        sort_order: 0,
        manually_disabled: 1,
    });
    let pools = load_pools(&vec![row]).unwrap();
    let supplier = &pools[0].base_urls[0];
    assert!(!supplier.api_keys[0].manually_disabled);
    assert!(supplier.image_keys[0].manually_disabled);
    assert_eq!((supplier.pool_id, supplier.image_keys[0].base_url_id), (1, 1));
}

#[test]
fn init_database_supports_loading_access_keys() {
    let access_keys = load_access_keys(vec![Ok(access_key(""))]).unwrap();
    assert_eq!(access_keys.len(), 1);
    assert_eq!(access_keys[0].name, "客户端 A");
    assert_eq!(access_keys[0].proxy_id, 1);
    assert_eq!(access_keys[0].override_model, "");
    assert!(access_keys[0].access_key.starts_with("me-"));
    assert_eq!(
        load_access_keys(vec![Ok(access_key("")), Err("bad type".to_string())]),
        Err("Failed to decode access key row: bad type".to_string())
    );
}

#[test]
fn create_and_update_access_key_save_override_model() {
    let payload = |name: &str, model: &str| AccessKeyPayload {
        name: name.to_string(),
        proxy_id: 1,
        image_proxy_id: None,
        override_model: model.to_string(),
    };
    let first = prepare_access_key(&payload("客户端 A", "gpt-5.4")).unwrap();
    assert_eq!(first.override_model, "gpt-5.4");
    assert_eq!(create_access_key(true, None), Ok(()));
    assert_eq!(create_access_key(true, Some(true)), Ok(()));

    let second = prepare_access_key(&payload("客户端 B", "gpt-5.5")).unwrap();
    assert_eq!(update_access_key(&second, Some((1, None))), Ok(false));
    let mut stored = access_key("");
    stored.name = second.name;
    stored.override_model = second.override_model;
    let shown = access_keys_response(
        &vec![stored],
        &stored_pools("供应商 A", vec![]),
        &UsageRuntimeState::default(),
    );
    assert_eq!(shown.access_keys[0].name, "客户端 B");
    assert_eq!(shown.access_keys[0].override_model, "gpt-5.5");
}

#[test]
fn access_keys_are_saved_without_blanks() {
    let draft = prepare_access_key(&AccessKeyPayload {
        name: " 客户端 B ".to_string(),
        proxy_id: 1,
        image_proxy_id: None,
        override_model: " gpt-5.5 ".to_string(),
    })
    .unwrap();
    assert_eq!(draft.name, "客户端 B");
    assert_eq!(draft.override_model, "gpt-5.5");
}

#[test]
fn access_keys_are_refused() {
    let payload = |name: &str, images: Option<i64>| AccessKeyPayload {
        name: name.to_string(),
        proxy_id: 1,
        image_proxy_id: images,
        override_model: String::new(),
    };
    assert_eq!(
        prepare_access_key(&payload(" ", None)).map(|_| ()),
        Err(refused(400, "access key name must not be empty"))
    );
    assert_eq!(create_access_key(false, None), Err(refused(400, "proxy not found")));
    assert_eq!(
        create_access_key(true, Some(false)),
        Err(refused(400, "image proxy not found"))
    );
    let draft = prepare_access_key(&payload("a", Some(2))).unwrap();
    assert_eq!(
        update_access_key(&draft, None),
        Err(refused(404, "access key not found"))
    );
    assert_eq!(update_access_key(&draft, Some((1, Some(2)))), Ok(false));
    assert_eq!(update_access_key(&draft, Some((1, Some(3)))), Ok(true));
    assert_eq!(update_access_key(&draft, Some((1, None))), Ok(true));
    assert_eq!(update_access_key(&draft, Some((2, Some(2)))), Ok(true));
}

#[test]
fn init_database_adds_key_test_columns_and_loads_saved_values() {
    let steps = init_database(&TableColumns {
        pools: texts(&["id", "name", "note", "is_active", "created_at", "updated_at"]),
        suppliers: texts(&["id", "name", "base_url", "protocol_mode", "override_model"]),
        keys: texts(&["id", "base_url_id", "api_key", "sort_order", "manually_disabled"]),
        access_keys: texts(&["id", "name", "access_key", "proxy_id"]),
    });
    let sql: Vec<String> = steps.iter().map(|step| step.change.sql()).collect();
    assert_eq!(
        sql,
        vec![
            "ALTER TABLE pools ADD COLUMN sort_order INTEGER NOT NULL DEFAULT 0",
            "UPDATE pools SET sort_order = id - 1 WHERE sort_order = 0",
            "ALTER TABLE pool_api_keys ADD COLUMN test_model TEXT NOT NULL DEFAULT ''",
            "ALTER TABLE pool_api_keys ADD COLUMN test_protocol TEXT NOT NULL DEFAULT ''",
            "ALTER TABLE access_keys ADD COLUMN override_model TEXT NOT NULL DEFAULT ''",
            "ALTER TABLE access_keys ADD COLUMN image_proxy_id INTEGER",
        ]
    );
    assert_eq!(steps[2].failure, "Failed to add api_key test model column: ");

    let mut row = key_row("sk-test-123");
    row.test_model = "gpt-test".to_string();
    row.test_protocol = "responses".to_string();
    let pools = stored_pools("供应商 A", vec![row]);
    let key = &pools[0].base_urls[0].api_keys[0];
    assert_eq!(key.test_model, "gpt-test");
    assert_eq!(key.test_protocol, Some(TestProtocol::Responses));
}

#[test]
fn complete_tables_need_no_step() {
    let steps = init_database(&TableColumns {
        pools: texts(&["note", "sort_order"]),
        suppliers: texts(&["name", "protocol_mode", "override_model"]),
        keys: texts(&["test_model", "test_protocol"]),
        access_keys: texts(&["override_model", "image_proxy_id"]),
    });
    assert!(steps.is_empty());
}

#[test]
fn steps_of_a_first_form_leave_complete_tables() {
    let mut columns = TableColumns {
        pools: texts(&["id", "name", "is_active"]),
        suppliers: texts(&["id", "pool_id", "base_url", "sort_order"]),
        keys: texts(&["id", "base_url_id", "api_key"]),
        access_keys: texts(&["id", "name", "access_key", "proxy_id"]),
    };
    let steps = init_database(&columns);
    assert_eq!(steps.len(), 10);
    assert_eq!(steps[0].change.sql(), "ALTER TABLE pools ADD COLUMN note TEXT NOT NULL DEFAULT ''");
    assert_eq!(
        steps[4].change.sql(),
        "ALTER TABLE pool_base_urls ADD COLUMN protocol_mode TEXT NOT NULL DEFAULT 'both'"
    );
    for step in &steps {
        if let SchemaChange::AddColumn { table, column, .. } = step.change {
            match table {
                Table::Pools => columns.pools.push(column.to_string()),
                Table::Suppliers => columns.suppliers.push(column.to_string()),
                Table::Keys => columns.keys.push(column.to_string()),
                Table::AccessKeys => columns.access_keys.push(column.to_string()),
            }
        }
    }
    assert!(init_database(&columns).is_empty());
    assert_eq!(Table::Keys.name(), "pool_api_keys");
}

#[test]
fn unknown_protocols_are_not_loaded() {
    assert_eq!(
        load_pools(&vec![pool_row("供应商 A", "grpc", vec![])]),
        Err("protocol_mode must be chat, responses, or both".to_string())
    );
}

#[test]
fn access_key_and_pool_responses_include_last_used_summary() {
    let pools = stored_pools("OpenAI", vec![key_row("sk-test-1234567890")]);
    let keys = vec![access_key("gpt-5.4")];
    let mut usage = UsageRuntimeState::default();
    record_key_usage(&mut usage, 1, 1, 1, 1);

    let access_keys = access_keys_response(&keys, &pools, &usage);
    assert_eq!(access_keys.access_keys.len(), 1);
    assert_eq!(access_keys.access_keys[0].override_model, "gpt-5.4");
    assert_eq!(access_keys.proxies[0].suppliers[0].id, 1);
    assert_eq!(
        access_keys.access_keys[0].last_used_supplier_name.as_deref(),
        Some("OpenAI")
    );
    assert_eq!(
        access_keys.access_keys[0].last_used_key_masked.as_deref(),
        Some("sk-tes...7890")
    );
    assert!(access_keys.access_keys[0].last_used_at.is_some());

    let mut state = KeyRuntimeState::default();
    let proxies = pools_response(&pools, &keys, &usage, &mut state, now());
    assert_eq!(proxies.proxies.len(), 1);
    assert_eq!(
        proxies.proxies[0].suppliers[0].last_used_by_access_key_name.as_deref(),
        Some("客户端 A")
    );
    assert!(proxies.proxies[0].suppliers[0].keys[0].last_used);
}

#[test]
fn pools_response_includes_saved_test_preferences() {
    let mut row = key_row("sk-test-1234567890");
    row.test_model = "gpt-4.1-mini".to_string();
    row.test_protocol = "chat".to_string();
    let pools = stored_pools("供应商 A", vec![row]);
    let proxies = pools_response(
        &pools,
        &Vec::new(),
        &UsageRuntimeState::default(),
        &mut KeyRuntimeState::default(),
        now(),
    );
    let key = &proxies.proxies[0].suppliers[0].keys[0];
    assert_eq!(key.test_model.as_deref(), Some("gpt-4.1-mini"));
    assert_eq!(key.test_protocol, Some(TestProtocol::Chat));
}

#[test]
fn shown_pools_tell_which_keys_can_be_used() {
    let mut off = key_row("sk-off");
    off.id = 2;
    off.manually_disabled = 1;
    let mut banned = key_row("sk-banned");
    banned.id = 3;
    let mut row = pool_row("供应商 A", "chat", vec![key_row("sk-1"), off, banned]);
    row.is_active = 1;
    let pools = load_pools(&vec![row]).unwrap();
    let mut state = KeyRuntimeState::default();
    for _ in 0..3 {
        mark_key_fail_in_state(3, &mut state, now(), true);
    }
    let shown = pools_response(
        &pools,
        &vec![access_key("")],
        &UsageRuntimeState::default(),
        &mut state,
        now(),
    );
    assert_eq!(shown.active_proxy_id, None);
    let pool = &shown.proxies[0];
    assert_eq!((pool.access_key_count, pool.in_use), (1, true));
    assert_eq!((pool.available_supplier_count, pool.total_supplier_count), (1, 1));
    let supplier = &pool.suppliers[0];
    assert_eq!(supplier.protocol, ProtocolMode::Chat);
    assert_eq!((supplier.available_key_count, supplier.total_key_count), (1, 3));
    assert!(supplier.schedulable);
    assert_eq!(supplier.last_used_at, None);
    assert!(supplier.keys[1].manually_disabled);
    assert!(!supplier.keys[1].banned);
    assert!(supplier.keys[2].banned);
    assert_eq!(supplier.keys[2].fail_count, 3);
    assert_eq!(supplier.keys[2].ban_until, Some(1_768_000_000 + 300));
    assert_eq!(supplier.keys[0].masked_key, "sk-1");
    assert_eq!(supplier.keys[0].test_model, None);
}

#[test]
fn showing_pools_changes_nothing_that_is_seen() {
    let pools = stored_pools("供应商 A", vec![key_row("sk-1")]);
    let mut state = KeyRuntimeState::default();
    mark_key_fail_in_state(1, &mut state, now(), true);
    let mut show = || {
        let usage = UsageRuntimeState::default();
        let shown = pools_response(&pools, &Vec::new(), &usage, &mut state, now());
        let key = &shown.proxies[0].suppliers[0].keys[0];
        (key.fail_count, key.banned, key.ban_until)
    };
    assert_eq!(show(), (1, false, None));
    assert_eq!(show(), (1, false, None));
}

#[test]
fn deleting_image_only_proxy_clears_access_key_image_binding() {
    let pools = vec![
        PoolPlace { id: 1, is_active: true, created_at: 0 },
        PoolPlace { id: 2, is_active: false, created_at: 0 },
    ];
    let bindings = vec![
        Binding { access_key_id: 7, proxy_id: 1, image_proxy_id: Some(2) },
        Binding { access_key_id: 8, proxy_id: 1, image_proxy_id: None },
    ];
    let plan = delete_pool(&pools, &bindings, 2).unwrap();
    assert_eq!(plan.unbound_images, vec![7]);
    assert_eq!(plan.orders, vec![(1, 0)]);
    assert_eq!(plan.activated, None);
    assert_eq!(plan.forgotten_access_keys, vec![7]);
}

#[test]
fn delete_pool_cascades_bound_access_keys_and_refreshes_state() {
    let pools = vec![PoolPlace { id: 1, is_active: false, created_at: 0 }];
    let bindings = vec![Binding { access_key_id: 1, proxy_id: 1, image_proxy_id: None }];
    let plan = delete_pool(&pools, &bindings, 1).unwrap();
    assert!(plan.unbound_images.is_empty());
    assert!(plan.orders.is_empty());
    assert_eq!(plan.activated, None);
    assert_eq!(plan.forgotten_access_keys, vec![1]);
}

#[test]
fn oldest_pool_takes_over_from_the_deleted_one() {
    let pools = vec![
        PoolPlace { id: 5, is_active: false, created_at: 9 },
        PoolPlace { id: 6, is_active: true, created_at: 1 },
        PoolPlace { id: 8, is_active: false, created_at: 3 },
        PoolPlace { id: 7, is_active: false, created_at: 3 },
    ];
    let plan = delete_pool(&pools, &Vec::new(), 6).unwrap();
    assert_eq!(plan.activated, Some(7));
    assert_eq!(plan.orders, vec![(5, 0), (8, 1), (7, 2)]);
    assert_eq!(
        delete_pool(&pools, &Vec::new(), 4).map(|_| ()),
        Err(refused(404, "proxy not found"))
    );
    assert_eq!(normalize_orders(&vec![4, 2]), vec![(4, 0), (2, 1)]);
}

#[test]
fn init_database_migrates_legacy_single_config_to_pool_hierarchy() {
    let legacy = |base_url: &str, mode: &str, enabled: bool| LegacyConfig {
        base_url: base_url.to_string(),
        protocol_mode: mode.to_string(),
        enabled,
        api_key: Some("sk-legacy".to_string()),
    };
    let url = "https://api.example.com/v1";
    let plan = migrate_legacy_openai_config(
        0,
        Some(legacy(url, "chat", true)),
        texts(&["sk-legacy", "sk-second"]),
    )
    .unwrap();
    assert_eq!(plan.pool_name, "默认代理");
    assert!(plan.is_active);
    assert_eq!(plan.protocol_mode, ProtocolMode::Chat);
    assert_eq!(plan.base_url, "https://api.example.com/v1");
    assert_eq!(plan.api_keys, texts(&["sk-legacy", "sk-second"]));
    assert!(!plan.manually_disabled);

    let alone = migrate_legacy_openai_config(0, Some(legacy(url, "?", false)), Vec::new()).unwrap();
    assert_eq!(alone.protocol_mode, ProtocolMode::Both);
    assert_eq!(alone.api_keys, texts(&["sk-legacy"]));
    assert!(alone.manually_disabled);
    assert!(migrate_legacy_openai_config(1, Some(legacy(url, "chat", true)), Vec::new()).is_none());
    assert!(migrate_legacy_openai_config(0, Some(legacy("", "chat", true)), Vec::new()).is_none());
    assert!(migrate_legacy_openai_config(0, None, Vec::new()).is_none());
    let normal = normalize_legacy_api_keys(texts(&[" a ", "", "b", "a"]));
    assert_eq!(normal, texts(&["a", "b"]));
    assert_eq!(normalize_legacy_api_keys(normal), texts(&["a", "b"]));
}

#[test]
fn required_texts_are_trimmed() {
    assert_eq!(normalize_pool_name(" a "), Ok("a".to_string()));
    assert_eq!(normalize_pool_name(" "), Err("pool name must not be empty".to_string()));
    assert_eq!(normalize_api_key("\t"), Err("api_key must not be empty".to_string()));
    assert_eq!(
        normalize_access_key_name(""),
        Err("access key name must not be empty".to_string())
    );
    assert_eq!(normalize_test_model(" "), Err("model is required".to_string()));
    assert_eq!(normalize_note(" 备注 "), "备注");
    let once = normalize_pool_name("\u{3000}代 理\n").unwrap();
    assert_eq!(once, "代 理");
    assert_eq!(normalize_pool_name(&once), Ok(once.clone()));
}

#[test]
fn keys_of_a_supplier_are_prepared() {
    let keys = prepare_api_key_saves(vec![saved_key(Some(1), " a"), saved_key(None, "b ")]);
    let texts: Vec<(Option<i64>, String)> = keys
        .unwrap()
        .into_iter()
        .map(|key| (key.id, key.api_key))
        .collect();
    assert_eq!(texts, vec![(Some(1), "a".to_string()), (None, "b".to_string())]);
    assert_eq!(
        prepare_api_key_saves(vec![saved_key(None, "a"), saved_key(None, "a")]).err(),
        Some("api_key already exists in supplier".to_string())
    );
    assert_eq!(
        prepare_api_key_saves(vec![saved_key(None, "")]).err(),
        Some("api_key must not be empty".to_string())
    );
}

#[test]
fn test_protocols_must_be_served() {
    let chat = Some(TestProtocol::Chat);
    let responses = Some(TestProtocol::Responses);
    assert_eq!(resolve_test_protocol(&ProtocolMode::Chat, None), Ok(TestProtocol::Chat));
    assert_eq!(
        resolve_test_protocol(&ProtocolMode::Chat, responses),
        Err("supplier protocol only allows chat".to_string())
    );
    assert_eq!(
        resolve_test_protocol(&ProtocolMode::Responses, chat),
        Err("supplier protocol only allows responses".to_string())
    );
    assert_eq!(
        resolve_test_protocol(&ProtocolMode::Both, None),
        Err("protocol is required".to_string())
    );
    assert_eq!(resolve_test_protocol(&ProtocolMode::Both, responses), Ok(TestProtocol::Responses));
}

fn saved_key(id: Option<i64>, text: &str) -> ApiKeySavePayload {
    ApiKeySavePayload { id, api_key: text.to_string() }
}

fn saved_supplier(
    id: Option<i64>,
    base_url: &str,
    keys: Vec<ApiKeySavePayload>,
) -> SupplierSavePayload {
    SupplierSavePayload {
        id,
        name: " 供应商 ".to_string(),
        base_url: base_url.to_string(),
        protocol: ProtocolMode::Both,
        override_model: " gpt ".to_string(),
        keys,
        image_keys: Vec::new(),
    }
}

fn saved_pool(suppliers: Vec<SupplierSavePayload>) -> ProxySavePayload {
    ProxySavePayload {
        name: " 代理 ".to_string(),
        note: " 备注 ".to_string(),
        suppliers,
    }
}

#[test]
fn saved_pools_are_prepared() {
    let draft = prepare_proxy_save_payload(saved_pool(vec![saved_supplier(
        Some(3),
        "https://a.example.com/",
        vec![saved_key(Some(4), " sk-1 "), saved_key(None, "sk-2")],
    )]))
    .unwrap();
    assert_eq!((draft.name.as_str(), draft.note.as_str()), ("代理", "备注"));
    let supplier = &draft.suppliers[0];
    assert_eq!(supplier.base_url, "https://a.example.com");
    assert_eq!((supplier.id, supplier.name.as_str()), (Some(3), "供应商"));
    assert_eq!(supplier.keys[0].api_key, "sk-1");
    assert_eq!((supplier.keys[0].id, supplier.keys[1].id), (Some(4), None));
    let failure = |payload: ProxySavePayload| prepare_proxy_save_payload(payload).err().unwrap();
    let url = "https://a.example.com";
    assert_eq!(
        failure(saved_pool(vec![saved_supplier(None, "", vec![])])),
        "base_url must not be empty"
    );
    assert_eq!(
        failure(saved_pool(vec![
            saved_supplier(None, url, vec![]),
            saved_supplier(None, "https://a.example.com/", vec![]),
        ])),
        "base_url already exists in proxy"
    );
    assert_eq!(
        failure(saved_pool(vec![saved_supplier(
            None,
            url,
            vec![saved_key(None, "k"), saved_key(None, " k")]
        )])),
        "api_key already exists in supplier"
    );
    assert_eq!(
        failure(saved_pool(vec![saved_supplier(None, url, vec![saved_key(None, " ")])])),
        "api_key must not be empty"
    );
    let mut nameless = saved_pool(vec![]);
    nameless.name = " ".to_string();
    assert_eq!(failure(nameless), "pool name must not be empty");
}

fn draft(suppliers: Vec<SupplierSavePayload>) -> PreparedProxySave {
    prepare_proxy_save_payload(saved_pool(suppliers)).unwrap()
}

fn stored_key(id: i64, supplier_id: i64, text: &str) -> StoredKey {
    StoredKey { id, supplier_id, api_key: text.to_string() }
}

fn stored() -> StoredPool {
    StoredPool {
        name_taken: false,
        exists: true,
        pool_count: 1,
        supplier_ids: vec![10, 11],
        keys: vec![
            stored_key(1, 10, "sk-1"),
            stored_key(2, 10, "sk-2"),
            stored_key(3, 10, "sk-3"),
            stored_key(4, 11, "sk-4"),
        ],
        image_keys: vec![stored_key(5, 10, "sk-5")],
    }
}

#[test]
fn saving_a_pool_writes_deletes_and_forgets() {
    let plan = save_proxy_draft(
        Some(6),
        draft(vec![
            saved_supplier(None, "https://new.example.com", vec![saved_key(None, "sk-9")]),
            saved_supplier(
                Some(10),
                "https://a.example.com",
                vec![saved_key(Some(2), "sk-2"), saved_key(Some(1), "sk-changed")],
            ),
        ]),
        &stored(),
    )
    .unwrap();
    assert_eq!(plan.pool, PoolWrite::Update { id: 6 });
    assert_eq!(plan.suppliers.len(), 2);
    assert_eq!((plan.suppliers[0].id, plan.suppliers[0].sort_order), (None, 0));
    assert!(plan.suppliers[0].deleted_keys.is_empty());
    let kept = &plan.suppliers[1];
    assert_eq!((kept.id, kept.sort_order), (Some(10), 1));
    assert_eq!((kept.keys[0].id, kept.keys[0].sort_order), (Some(2), 0));
    assert_eq!((kept.keys[1].id, kept.keys[1].sort_order), (Some(1), 1));
    assert_eq!(kept.keys[1].api_key, "sk-changed");
    assert_eq!(kept.deleted_keys, vec![3]);
    assert_eq!(kept.deleted_image_keys, vec![5]);
    assert_eq!(plan.deleted_suppliers, vec![11]);
    let mut forgotten = plan.forgotten_keys;
    forgotten.sort();
    assert_eq!(forgotten, vec![1, 3, 4]);
    assert_eq!(plan.forgotten_image_keys, vec![5]);
}

#[test]
fn new_pools_are_inserted() {
    let mut empty = StoredPool {
        name_taken: false,
        exists: false,
        pool_count: 0,
        supplier_ids: Vec::new(),
        keys: Vec::new(),
        image_keys: Vec::new(),
    };
    let plan = save_proxy_draft(None, draft(vec![]), &empty).unwrap();
    assert_eq!(plan.pool, PoolWrite::Insert { is_active: true });
    assert!(plan.deleted_suppliers.is_empty() && plan.forgotten_keys.is_empty());
    empty.pool_count = 1;
    let second = save_proxy_draft(None, draft(vec![]), &empty).unwrap();
    assert_eq!(second.pool, PoolWrite::Insert { is_active: false });
}

#[test]
fn pools_that_cannot_be_saved_are_refused() {
    let url = "https://a.example.com";
    let other = "https://b.example.com";
    let failure = |suppliers: Vec<SupplierSavePayload>| {
        save_proxy_draft(Some(6), draft(suppliers), &stored()).err().unwrap()
    };
    let mut taken = stored();
    taken.name_taken = true;
    assert_eq!(
        save_proxy_draft(Some(6), draft(vec![]), &taken).err(),
        Some(refused(400, "proxy name already exists"))
    );
    let mut gone = stored();
    gone.exists = false;
    assert_eq!(
        save_proxy_draft(Some(6), draft(vec![]), &gone).err(),
        Some(refused(404, "proxy not found"))
    );
    assert_eq!(
        failure(vec![saved_supplier(Some(12), url, vec![])]),
        refused(400, "supplier not found")
    );
    assert_eq!(
        failure(vec![
            saved_supplier(Some(10), url, vec![]),
            saved_supplier(Some(10), other, vec![]),
        ]),
        refused(400, "duplicate supplier id in payload")
    );
    assert_eq!(
        failure(vec![saved_supplier(Some(10), url, vec![saved_key(Some(4), "k")])]),
        refused(400, "api_key not found")
    );
    assert_eq!(
        failure(vec![saved_supplier(
            Some(10),
            url,
            vec![saved_key(Some(1), "a"), saved_key(Some(1), "b")]
        )]),
        refused(400, "duplicate api_key id in payload")
    );
    let mut images = saved_supplier(Some(10), url, vec![]);
    images.image_keys = vec![saved_key(Some(1), "a")];
    assert_eq!(failure(vec![images]), refused(400, "image_api_key not found"));
    let mut doubled = saved_supplier(Some(10), url, vec![]);
    doubled.image_keys = vec![saved_key(Some(5), "a"), saved_key(Some(5), "b")];
    assert_eq!(
        failure(vec![doubled]),
        refused(400, "duplicate image_api_key id in payload")
    );
}

#[test]
fn pools_and_suppliers_are_refused_or_placed() {
    let pool = |name: &str, note: Option<&str>| {
        prepare_pool(&PoolPayload {
            name: name.to_string(),
            note: note.map(|note| note.to_string()),
        })
    };
    let draft = pool(" a ", Some(" n ")).unwrap();
    assert_eq!((draft.name.as_str(), draft.note.as_str()), ("a", "n"));
    assert_eq!(pool("a", None).unwrap().note, "");
    assert_eq!(
        pool(" ", None).map(|_| ()),
        Err(refused(400, "pool name must not be empty"))
    );
    assert_eq!(create_pool(false, 0), Ok(true));
    assert_eq!(create_pool(false, 2), Ok(false));
    assert_eq!(create_pool(true, 0), Err(refused(400, "proxy name already exists")));
    assert_eq!(update_pool(false), Ok(()));
    assert_eq!(update_pool(true), Err(refused(400, "proxy name already exists")));
    assert_eq!(require_found(true, "x"), Ok(()));
    assert_eq!(require_found(false, "x"), Err(refused(404, "x")));

    let supplier = |base_url: &str, order: Option<i64>| {
        prepare_base_url(&BaseUrlPayload {
            name: " 供应商 ".to_string(),
            base_url: base_url.to_string(),
            protocol: ProtocolMode::Chat,
            override_model: "m".to_string(),
            sort_order: order,
        })
    };
    assert_eq!(
        supplier("ftp://x", None).map(|_| ()),
        Err(refused(400, "unsupported base_url scheme: ftp"))
    );
    let draft = supplier("https://x/", None).unwrap();
    assert_eq!((draft.name.as_str(), draft.base_url.as_str()), ("供应商", "https://x"));
    assert_eq!(create_base_url(&draft, true, false, Some(4)), Ok(4));
    assert_eq!(create_base_url(&draft, true, false, None), Ok(0));
    assert_eq!(
        create_base_url(&draft, false, true, None),
        Err(refused(404, "proxy not found"))
    );
    assert_eq!(
        create_base_url(&draft, true, true, None),
        Err(refused(400, "base_url already exists in proxy"))
    );
    assert_eq!(
        create_base_url(&supplier("https://x", Some(9)).unwrap(), true, false, Some(4)),
        Ok(9)
    );
    assert_eq!(update_base_url(&draft, Some(3), false), Ok(3));
    assert_eq!(
        update_base_url(&draft, None, false),
        Err(refused(404, "supplier not found"))
    );
    assert_eq!(
        update_base_url(&draft, Some(3), true),
        Err(refused(400, "base_url already exists in proxy"))
    );
}

#[test]
fn keys_are_refused_or_placed() {
    let key = |text: &str| {
        prepare_api_key(&ApiKeyPayload { api_key: text.to_string(), sort_order: None })
    };
    assert_eq!(key(" sk "), Ok("sk".to_string()));
    assert_eq!(key(""), Err(refused(400, "api_key must not be empty")));
    assert_eq!(create_key(Some(2), true, false, Some(5)), Ok(2));
    assert_eq!(create_key(None, true, false, Some(5)), Ok(5));
    assert_eq!(
        create_key(None, false, true, None),
        Err(refused(404, "supplier not found"))
    );
    assert_eq!(
        create_key(None, true, true, None),
        Err(refused(400, "api_key already exists in supplier"))
    );
    assert_eq!(update_key(None, Some(5), false), Ok(5));
    assert_eq!(update_key(Some(1), Some(5), false), Ok(1));
    assert_eq!(update_key(None, None, false), Err(refused(404, "api_key not found")));
    assert_eq!(
        update_key(None, Some(5), true),
        Err(refused(400, "api_key already exists in supplier"))
    );
}

#[test]
fn bans_are_lifted() {
    let mut row = pool_row("供应商 A", "both", vec![key_row("sk-1")]);
    row.suppliers[0].image_keys.push(ImageKeyRow {
        id: 1,
        api_key: "sk-image".to_string(),
        sort_order: 0,
        manually_disabled: 0,
    });
    let pools = load_pools(&vec![row]).unwrap();
    let failing = || {
        let mut state = KeyRuntimeState::default();
        mark_key_fail_in_state(1, &mut state, now(), true);
        mark_image_key_fail_in_state(1, &mut state, now(), true);
        state
    };
    let remembered = |state: &KeyRuntimeState| (state.keys.len(), state.image_keys.len());

    let mut state = failing();
    assert_eq!(unban_key(&pools, &mut state, 2), Err(refused(404, "api_key not found")));
    assert_eq!(
        unban_image_key(&pools, &mut state, 2),
        Err(refused(404, "image api_key not found"))
    );
    assert_eq!(
        unban_all_pool(&pools, &mut state, 2),
        Err(refused(404, "proxy not found"))
    );
    assert_eq!(remembered(&state), (1, 1));
    assert_eq!(unban_key(&pools, &mut state, 1), Ok(()));
    assert_eq!(remembered(&state), (0, 1));
    assert_eq!(unban_image_key(&pools, &mut state, 1), Ok(()));
    assert_eq!(remembered(&state), (0, 0));

    let mut state = failing();
    assert_eq!(unban_all_pool(&pools, &mut state, 1), Ok(()));
    assert_eq!(remembered(&state), (0, 0));

    let mut state = failing();
    assert_eq!(
        set_key_disabled(0, false, &mut state, 1),
        Err(refused(404, "api_key not found"))
    );
    assert_eq!(
        set_image_key_disabled(0, false, &mut state, 1),
        Err(refused(404, "image api_key not found"))
    );
    assert_eq!(set_key_disabled(1, true, &mut state, 1), Ok(()));
    assert_eq!(remembered(&state), (1, 1));
    assert_eq!(set_key_disabled(1, false, &mut state, 1), Ok(()));
    assert_eq!(set_image_key_disabled(1, false, &mut state, 1), Ok(()));
    assert_eq!(remembered(&state), (0, 0));

    assert_eq!(activate_pool(&pools, 2), refused(404, "proxy not found"));
    assert_eq!(
        activate_pool(&pools, 1),
        refused(
            400,
            "global proxy activation has been removed; bind a me-key to use this proxy"
        )
    );
}

#[test]
fn keys_are_tested() {
    let row = |mode: &str, model: &str, protocol: &str| KeyTestRow {
        api_key: "sk".to_string(),
        base_url: "https://x".to_string(),
        protocol_mode: mode.to_string(),
        test_model: model.to_string(),
        test_protocol: protocol.to_string(),
    };
    let target = key_test_target(row("both", "gpt", "chat")).unwrap();
    assert_eq!(target.selected_model.as_deref(), Some("gpt"));
    assert_eq!(target.selected_protocol, Some(TestProtocol::Chat));
    let blank = key_test_target(row("chat", " ", "")).unwrap();
    assert_eq!((blank.selected_model, blank.selected_protocol), (None, None));
    assert_eq!(
        key_test_target(row("x", "", "")).err(),
        Some("protocol_mode must be chat, responses, or both".to_string())
    );

    let report = |outcome: CallOutcome| {
        let report = test_key_report(outcome);
        (report.ok, report.message, report.status_code)
    };
    assert_eq!(
        report(CallOutcome::Answered { status: 204 }),
        (true, "测试成功 (204)".to_string(), Some(204))
    );
    assert_eq!(
        report(CallOutcome::Answered { status: 429 }),
        (false, "测试失败 (429)".to_string(), Some(429))
    );
    assert_eq!(report(CallOutcome::TimedOut), (false, "测试超时".to_string(), None));
    assert_eq!(
        report(CallOutcome::Failed { reason: "no".to_string() }),
        (false, "测试失败: no".to_string(), None)
    );
    assert_eq!(models_failure(CallOutcome::Answered { status: 200 }), None);
    assert_eq!(
        models_failure(CallOutcome::Answered { status: 500 }),
        Some("Failed to load models (500)".to_string())
    );
    assert_eq!(models_failure(CallOutcome::TimedOut), Some("加载模型超时".to_string()));
    assert_eq!(
        models_failure(CallOutcome::Failed { reason: "no".to_string() }),
        Some("加载模型失败: no".to_string())
    );
}

#[test]
fn models_are_listed_once() {
    assert_eq!(
        parse_model_ids(br#"{"data":[{"id":"b"},{"id":"a"},{"x":1},{"id":"b"}]}"#),
        Ok(texts(&["b", "a"]))
    );
    assert!(parse_model_ids(b"{").is_err());
    let body = test_request_body(TestProtocol::Chat, "gpt").unwrap();
    assert!(String::from_utf8(body).unwrap().contains("\"model\":\"gpt\""));
}

#[test]
fn rows_become_suppliers() {
    let key = ApiKeyConfig {
        id: 1,
        base_url_id: 1,
        api_key: "k".to_string(),
        sort_order: 0,
        manually_disabled: false,
        test_model: String::new(),
        test_protocol: None,
    };
    let supplier = BaseUrlConfig {
        id: 1,
        pool_id: 1,
        name: String::new(),
        base_url: "https://x".to_string(),
        protocol_mode: ProtocolMode::Both,
        override_model: String::new(),
        sort_order: 0,
        api_keys: vec![key],
        image_keys: Vec::new(),
    };
    let mut row = pool_row("", "both", vec![key_row("k")]);
    row.suppliers[0].base_url = "https://x".to_string();
    assert_eq!(load_pools(&vec![row]).unwrap()[0].base_urls, vec![supplier]);
}
