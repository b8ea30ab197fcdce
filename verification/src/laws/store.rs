//! What holds of what is stored: of its growth, of what is read from it and of what is written.

use vstd::prelude::*;

use crate::admin;
use crate::admin::{Binding, DeletePlan, PoolPlace};
use crate::answer::RefusalView;
use crate::config::{ApiKeyConfig, BaseUrlConfig, PoolConfig, ProtocolMode, TestProtocol};
use crate::payload;
use crate::payload::{PreparedApiKeySave, PreparedProxySave, PreparedSupplierSave};
use crate::save;
use crate::save::{PoolWrite, SavePlan, StoredKey, StoredPool};
use crate::store;
use crate::store::{
    ChangeView, ColumnsView, ImageKeyRow, KeyRow, LegacyView, PoolRow, StepView, SupplierRow,
    Table,
};
use crate::text;
use crate::upstream;

verus! {

proof fn column_names()
    ensures
        text::word_mark("note"@) == (4nat, 'n', 't', 'e'),
        text::word_mark("sort_order"@) == (10nat, 's', 'o', 'r'),
        text::word_mark("name"@) == (4nat, 'n', 'm', 'e'),
        text::word_mark("protocol_mode"@) == (13nat, 'p', 'o', 'e'),
        text::word_mark("override_model"@) == (14nat, 'o', 'e', 'l'),
        text::word_mark("test_model"@) == (10nat, 't', 'm', 'l'),
        text::word_mark("test_protocol"@) == (13nat, 't', 'r', 'l'),
        text::word_mark("image_proxy_id"@) == (14nat, 'i', 'r', 'd'),
{
    reveal_strlit("note");
    reveal_strlit("sort_order");
    reveal_strlit("name");
    reveal_strlit("protocol_mode");
    reveal_strlit("override_model");
    reveal_strlit("test_model");
    reveal_strlit("test_protocol");
    reveal_strlit("image_proxy_id");
    assert("note"@.len() == 4);
    assert("sort_order"@.len() == 10);
    assert("name"@.len() == 4);
    assert("protocol_mode"@.len() == 13);
    assert("override_model"@.len() == 14);
    assert("test_model"@.len() == 10);
    assert("test_protocol"@.len() == 13);
    assert("image_proxy_id"@.len() == 14);
}

/// A column that the tables have to have.
pub open spec fn is_wanted(table: Table, column: Seq<char>, definition: Seq<char>) -> bool {
    ||| table == Table::Pools && column == "note"@ && definition == "TEXT NOT NULL DEFAULT ''"@
    ||| table == Table::Pools && column == "sort_order"@ && definition == "INTEGER NOT NULL DEFAULT 0"@
    ||| table == Table::Suppliers && column == "name"@ && definition == "TEXT NOT NULL DEFAULT ''"@
    ||| table == Table::Suppliers && column == "protocol_mode"@ && definition == "TEXT NOT NULL DEFAULT 'both'"@
    ||| table == Table::Suppliers && column == "override_model"@ && definition == "TEXT NOT NULL DEFAULT ''"@
    ||| table == Table::Keys && column == "test_model"@ && definition == "TEXT NOT NULL DEFAULT ''"@
    ||| table == Table::Keys && column == "test_protocol"@ && definition == "TEXT NOT NULL DEFAULT ''"@
    ||| table == Table::AccessKeys && column == "override_model"@ && definition == "TEXT NOT NULL DEFAULT ''"@
    ||| table == Table::AccessKeys && column == "image_proxy_id"@ && definition == "INTEGER"@
}

/// One of the steps makes that change.
pub open spec fn changes(steps: Seq<StepView>, change: ChangeView) -> bool {
    exists|i: int| 0 <= i < steps.len() && (#[trigger] steps[i]).change == change
}

proof fn steps_are_those_missing(columns: ColumnsView, step: StepView)
    ensures
        store::schema_steps(columns).contains(step) <==> store::growth().contains(step)
            && store::is_missing(columns, step.change),
{
    let missing = |step: StepView| store::is_missing(columns, step.change);
    let all = store::growth();
    let steps = store::schema_steps(columns);
    if steps.contains(step) {
        let i = choose|i: int| 0 <= i < steps.len() && steps[i] == step;
        all.lemma_filter_pred(missing, i);
        all.lemma_filter_contains_rev(missing, step);
    }
    if all.contains(step) && store::is_missing(columns, step.change) {
        let i = choose|i: int| 0 <= i < all.len() && all[i] == step;
        all.lemma_filter_contains(missing, i);
    }
}

/// A column that a table has to have, and has not, is added. Nothing is done to those that it has,
/// and no other column is added.
pub proof fn missing_columns_are_added(
    columns: ColumnsView,
    table: Table,
    column: Seq<char>,
    definition: Seq<char>,
)
    ensures
        changes(
            store::schema_steps(columns),
            ChangeView::AddColumn { table, column, definition },
        ) <==> is_wanted(table, column, definition) && !columns.of(table).contains(column),
{
    column_names();
    let change = ChangeView::AddColumn { table, column, definition };
    let steps = store::schema_steps(columns);
    let all = store::growth();
    if changes(steps, change) {
        let i = choose|i: int| 0 <= i < steps.len() && (#[trigger] steps[i]).change == change;
        assert(steps.contains(steps[i]));
        steps_are_those_missing(columns, steps[i]);
        let k = choose|k: int| 0 <= k < all.len() && all[k] == steps[i];
        assert(all.len() == 10);
        assert(is_wanted(table, column, definition));
    }
    if is_wanted(table, column, definition) && !columns.of(table).contains(column) {
        assert(all.len() == 10);
        assert(all.contains(all[0]));
        assert(all.contains(all[1]));
        assert(all.contains(all[2]));
        assert(all.contains(all[3]));
        assert(all.contains(all[4]));
        assert(all.contains(all[5]));
        assert(all.contains(all[6]));
        assert(all.contains(all[7]));
        assert(all.contains(all[8]));
        assert(all.contains(all[9]));
        let k: int = place_of_column(table, column);
        assert(all[k].change == change);
        steps_are_those_missing(columns, all[k]);
        let i = choose|i: int| 0 <= i < steps.len() && steps[i] == all[k];
        assert(steps[i].change == change);
    }
}

spec fn place_of_column(table: Table, column: Seq<char>) -> int {
    match table {
        Table::Pools => if column == "note"@ {
            0
        } else {
            1
        },
        Table::Suppliers => if column == "name"@ {
            3
        } else if column == "protocol_mode"@ {
            4
        } else {
            5
        },
        Table::Keys => if column == "test_model"@ {
            6
        } else {
            7
        },
        Table::AccessKeys => if column == "override_model"@ {
            8
        } else {
            9
        },
    }
}

/// Pools that had no order get one right after they can have one, and only then.
pub proof fn pools_are_put_in_order(columns: ColumnsView)
    ensures
        ({
            let steps = store::schema_steps(columns);
            &&& columns.pools.contains("sort_order"@) ==> !changes(steps, ChangeView::OrderPools)
            &&& !columns.pools.contains("sort_order"@) ==> exists|i: int|
                0 <= i < steps.len() - 1 && (#[trigger] steps[i]).change == (ChangeView::AddColumn {
                    table: Table::Pools,
                    column: "sort_order"@,
                    definition: "INTEGER NOT NULL DEFAULT 0"@,
                }) && steps[i + 1].change == ChangeView::OrderPools
        }),
{
    let missing = |step: StepView| store::is_missing(columns, step.change);
    let steps = store::schema_steps(columns);
    let all = store::growth();
    if columns.pools.contains("sort_order"@) {
        if changes(steps, ChangeView::OrderPools) {
            let i = choose|i: int|
                0 <= i < steps.len() && (#[trigger] steps[i]).change == ChangeView::OrderPools;
            all.lemma_filter_pred(missing, i);
        }
    } else {
        let front = all.take(1);
        let two = seq![all[1], all[2]];
        let back = all.skip(3);
        assert(all.len() == 10);
        assert(all =~= front + two + back);
        Seq::filter_distributes_over_add(front + two, back, missing);
        Seq::filter_distributes_over_add(front, two, missing);
        assert(two.drop_last() =~= seq![all[1]]);
        assert(seq![all[1]].drop_last() =~= Seq::<StepView>::empty());
        reveal_with_fuel(Seq::filter, 3);
        assert(two.filter(missing) =~= two);
        let n = front.filter(missing).len() as int;
        assert(steps[n] == all[1]);
        assert(steps[n + 1] == all[2]);
    }
}

/// A change is written as what it does to the table of that name.
pub proof fn changes_are_written(table: Table, column: Seq<char>, definition: Seq<char>)
    ensures
        store::change_sql(ChangeView::AddColumn { table, column, definition }) == "ALTER TABLE "@
            + store::table_name(table) + " ADD COLUMN "@ + column + " "@ + definition,
        store::change_sql(ChangeView::OrderPools)
            == "UPDATE pools SET sort_order = id - 1 WHERE sort_order = 0"@,
        store::table_name(Table::Pools) == "pools"@,
        store::table_name(Table::Suppliers) == "pool_base_urls"@,
        store::table_name(Table::Keys) == "pool_api_keys"@,
        store::table_name(Table::AccessKeys) == "access_keys"@,
{
}

/// The one supplier of an earlier configuration becomes an active pool, where there is none yet and
/// its URL is one: under the protocol that was set, or both where that is unknown, and with the keys
/// that were listed, or the single one where none was. If it was not enabled its keys are disabled.
pub proof fn earlier_configurations_are_kept(
    pool_count: int,
    legacy: LegacyView,
    api_keys: Seq<Seq<char>>,
)
    ensures
        store::legacy_plan(pool_count, None, api_keys) is None,
        pool_count > 0 ==> store::legacy_plan(pool_count, Some(legacy), api_keys) is None,
        upstream::normal_base_url(legacy.base_url) is Err ==> store::legacy_plan(
            pool_count,
            Some(legacy),
            api_keys,
        ) is None,
        pool_count <= 0 ==> (upstream::normal_base_url(legacy.base_url) matches Ok(base_url)
            ==> (store::legacy_plan(pool_count, Some(legacy), api_keys) matches Some(plan) && {
            let keys = if api_keys.len() == 0 && legacy.api_key is Some {
                seq![legacy.api_key->0]
            } else {
                api_keys
            };
            &&& plan.pool_name == "默认代理"@
            &&& plan.is_active
            &&& plan.base_url == base_url
            &&& plan.protocol_mode == match ProtocolMode::named(legacy.protocol_mode) {
                Some(mode) => mode,
                None => ProtocolMode::Both,
            }
            &&& plan.api_keys == payload::legacy_keys(keys, keys.len())
            &&& plan.manually_disabled == !legacy.enabled
        })),
{
}

/// A key is read as it is stored. What is not 0 disables it, and a protocol that is none is none.
pub proof fn keys_are_read(
    row: KeyRow,
    image_row: ImageKeyRow,
    supplier_id: i64,
    key: ApiKeyConfig,
    image_key: ApiKeyConfig,
)
    requires
        store::key_loaded(row, supplier_id, key),
        store::image_key_loaded(image_row, supplier_id, image_key),
    ensures
        key.id == row.id && key.base_url_id == supplier_id && key.api_key@ == row.api_key@,
        key.sort_order == row.sort_order && key.test_model@ == row.test_model@,
        key.manually_disabled <==> row.manually_disabled != 0,
        key.test_protocol == TestProtocol::named(row.test_protocol@),
        image_key.id == image_row.id && image_key.base_url_id == supplier_id,
        image_key.api_key@ == image_row.api_key@ && image_key.sort_order == image_row.sort_order,
        image_key.manually_disabled <==> image_row.manually_disabled != 0,
        image_key.test_model@.len() == 0 && image_key.test_protocol is None,
{
}

/// A supplier and a pool are read as they are stored, with all that belongs to them, in its order.
pub proof fn pools_are_read(
    row: PoolRow,
    pool: PoolConfig,
    supplier_row: SupplierRow,
    supplier: BaseUrlConfig,
)
    requires
        store::pool_loaded(row, pool),
        store::supplier_loaded(supplier_row, row.id, supplier),
    ensures
        pool.id == row.id && pool.name@ == row.name@ && pool.note@ == row.note@,
        pool.is_active <==> row.is_active != 0,
        pool.base_urls@.len() == row.suppliers@.len(),
        forall|i: int|
            0 <= i < row.suppliers@.len() ==> (#[trigger] pool.base_urls@[i]).id
                == row.suppliers@[i].id && pool.base_urls@[i].pool_id == row.id,
        supplier.id == supplier_row.id && supplier.pool_id == row.id,
        supplier.name@ == supplier_row.name@ && supplier.base_url@ == supplier_row.base_url@,
        supplier.override_model@ == supplier_row.override_model@,
        supplier.sort_order == supplier_row.sort_order,
        ProtocolMode::named(supplier_row.protocol_mode@) == Some(supplier.protocol_mode),
        supplier.api_keys@.len() == supplier_row.keys@.len(),
        supplier.image_keys@.len() == supplier_row.image_keys@.len(),
        forall|i: int|
            0 <= i < supplier_row.keys@.len() ==> (#[trigger] supplier.api_keys@[i]).id
                == supplier_row.keys@[i].id && supplier.api_keys@[i].base_url_id == supplier.id,
        forall|i: int|
            0 <= i < supplier_row.image_keys@.len() ==> (#[trigger] supplier.image_keys@[i]).id
                == supplier_row.image_keys@[i].id && supplier.image_keys@[i].base_url_id
                == supplier.id,
{
    assert forall|i: int| 0 <= i < row.suppliers@.len() implies (#[trigger] pool.base_urls@[i]).id
        == row.suppliers@[i].id && pool.base_urls@[i].pool_id == row.id by {
        assert(store::supplier_loaded(row.suppliers@[i], row.id, pool.base_urls@[i]));
    }
    assert forall|i: int| 0 <= i < supplier_row.keys@.len() implies (#[trigger]
    supplier.api_keys@[i]).id == supplier_row.keys@[i].id && supplier.api_keys@[i].base_url_id
        == supplier.id by {
        assert(store::key_loaded(supplier_row.keys@[i], supplier_row.id, supplier.api_keys@[i]));
    }
    assert forall|i: int| 0 <= i < supplier_row.image_keys@.len() implies (#[trigger]
    supplier.image_keys@[i]).id == supplier_row.image_keys@[i].id
        && supplier.image_keys@[i].base_url_id == supplier.id by {
        assert(store::image_key_loaded(
            supplier_row.image_keys@[i],
            supplier_row.id,
            supplier.image_keys@[i],
        ));
    }
}

/// The key of that id is stored with that supplier.
pub open spec fn is_stored(
    stored: Seq<StoredKey>,
    supplier_id: Option<i64>,
    id: i64,
    k: int,
) -> bool {
    0 <= k < stored.len() && Some(stored[k].supplier_id) == supplier_id && stored[k].id == id
}

proof fn stored_keys_are_known(stored: Seq<StoredKey>, supplier_id: Option<i64>, id: i64)
    ensures
        match save::known_key(stored, supplier_id, id) {
            Some(api_key) => exists|k: int| #[trigger]
                is_stored(stored, supplier_id, id, k) && stored[k].api_key@ == api_key && forall|
                    j: int,
                |
                    k < j < stored.len() ==> !#[trigger] is_stored(stored, supplier_id, id, j),
            None => forall|k: int| !#[trigger] is_stored(stored, supplier_id, id, k),
        },
    decreases stored.len(),
{
    if supplier_id is Some && stored.len() > 0 {
        let n = stored.len() - 1;
        if is_stored(stored, supplier_id, id, n) {
        } else {
            let fewer = stored.drop_last();
            stored_keys_are_known(fewer, supplier_id, id);
            match save::known_key(fewer, supplier_id, id) {
                Some(api_key) => {
                    let k = choose|k: int| #[trigger]
                        is_stored(fewer, supplier_id, id, k) && fewer[k].api_key@ == api_key
                            && forall|j: int|
                            k < j < fewer.len() ==> !#[trigger] is_stored(
                                fewer,
                                supplier_id,
                                id,
                                j,
                            );
                    assert(is_stored(stored, supplier_id, id, k));
                    assert forall|j: int| k < j < stored.len() implies !#[trigger] is_stored(
                        stored,
                        supplier_id,
                        id,
                        j,
                    ) by {
                        if j < n {
                            assert(!is_stored(fewer, supplier_id, id, j));
                        }
                    }
                },
                None => {
                    assert forall|j: int| !#[trigger] is_stored(stored, supplier_id, id, j) by {
                        if 0 <= j < n {
                            assert(!is_stored(fewer, supplier_id, id, j));
                        }
                    }
                },
            }
        }
    }
}

/// The keys of a supplier that are to take the place of stored ones do so: each is stored with it,
/// and each once.
pub open spec fn are_known_keys(
    keys: Seq<PreparedApiKeySave>,
    supplier_id: Option<i64>,
    stored: Seq<StoredKey>,
    n: int,
) -> bool {
    &&& forall|i: int|
        0 <= i < n && (#[trigger] keys[i]).id is Some ==> exists|k: int| #[trigger]
            is_stored(stored, supplier_id, keys[i].id->0, k)
    &&& forall|i: int, j: int|
        0 <= i < j < n && (#[trigger] keys[i]).id is Some ==> (#[trigger] keys[j]).id != keys[i].id
}

proof fn key_ids_are_checked(
    keys: Seq<PreparedApiKeySave>,
    supplier_id: Option<i64>,
    stored: Seq<StoredKey>,
    words: save::KeyWords,
    n: nat,
)
    requires
        n <= keys.len(),
    ensures
        save::keys_refusal(keys, supplier_id, stored, words, n) is None <==> are_known_keys(
            keys,
            supplier_id,
            stored,
            n as int,
        ),
        save::keys_refusal(keys, supplier_id, stored, words, n) matches Some(message) ==> message
            == words.missing || message == words.doubled,
    decreases n,
{
    if n > 0 {
        let m = (n - 1) as nat;
        key_ids_are_checked(keys, supplier_id, stored, words, m);
        if let Some(id) = keys[n - 1].id {
            stored_keys_are_known(stored, supplier_id, id);
            if exists|k: int| #[trigger] is_stored(stored, supplier_id, id, k) {
                let k = choose|k: int| #[trigger] is_stored(stored, supplier_id, id, k);
                assert(is_stored(stored, supplier_id, id, k));
            }
            if save::known_key(stored, supplier_id, id) is Some {
                let k = choose|k: int| #[trigger] is_stored(stored, supplier_id, id, k);
                assert(is_stored(stored, supplier_id, id, k));
            }
        }
        if save::keys_refusal(keys, supplier_id, stored, words, m) is None {
            if save::key_refusal(keys, supplier_id, stored, words, n - 1) is None {
                assert forall|i: int, j: int|
                    0 <= i < j < n && (#[trigger] keys[i]).id is Some implies (
                #[trigger] keys[j]).id != keys[i].id by {
                    if j == n - 1 && keys[j].id == keys[i].id {
                        assert(keys[i].id == Some(keys[n - 1].id->0));
                    }
                }
                assert(are_known_keys(keys, supplier_id, stored, n as int));
            } else {
                let id = keys[n - 1].id->0;
                if save::known_key(stored, supplier_id, id) is Some {
                    let j = choose|j: int| 0 <= j < n - 1 && (#[trigger] keys[j]).id == Some(id);
                    assert(keys[j].id is Some && keys[n - 1].id == keys[j].id);
                }
                assert(!are_known_keys(keys, supplier_id, stored, n as int));
            }
        } else {
            assert(!are_known_keys(keys, supplier_id, stored, m as int));
            if are_known_keys(keys, supplier_id, stored, n as int) {
                assert(are_known_keys(keys, supplier_id, stored, m as int));
            }
        }
    }
}

/// A supplier can be saved: it is new, or one of the pool's that is named once, and so are its keys,
/// those for images among them.
pub open spec fn is_known_supplier(
    suppliers: Seq<PreparedSupplierSave>,
    stored: StoredPool,
    i: int,
) -> bool {
    let supplier = suppliers[i];
    &&& supplier.id matches Some(id) ==> stored.supplier_ids@.contains(id) && forall|j: int|
        0 <= j < i ==> (#[trigger] suppliers[j]).id != Some(id)
    &&& are_known_keys(supplier.keys@, supplier.id, stored.keys@, supplier.keys@.len() as int)
    &&& are_known_keys(
        supplier.image_keys@,
        supplier.id,
        stored.image_keys@,
        supplier.image_keys@.len() as int,
    )
}

proof fn supplier_is_known(
    suppliers: Seq<PreparedSupplierSave>,
    stored: StoredPool,
    i: int,
)
    ensures
        save::supplier_refusal(suppliers, stored, i) is None <==> is_known_supplier(
            suppliers,
            stored,
            i,
        ),
        save::supplier_refusal(suppliers, stored, i) matches Some(message) ==> message
            == "supplier not found"@ || message == "duplicate supplier id in payload"@ || message
            == "api_key not found"@ || message == "duplicate api_key id in payload"@ || message
            == "image_api_key not found"@ || message == "duplicate image_api_key id in payload"@,
{
    let supplier = suppliers[i];
    key_ids_are_checked(
        supplier.keys@,
        supplier.id,
        stored.keys@,
        save::key_words(),
        supplier.keys@.len(),
    );
    key_ids_are_checked(
        supplier.image_keys@,
        supplier.id,
        stored.image_keys@,
        save::image_key_words(),
        supplier.image_keys@.len(),
    );
}

/// What is wrong with a supplier that cannot be saved: that it is not one of the pool's, or was named
/// before; then what is wrong with its keys, then with its keys for images.
pub proof fn why_a_supplier_is_refused(
    suppliers: Seq<PreparedSupplierSave>,
    stored: StoredPool,
    i: int,
)
    ensures
        ({
            let supplier = suppliers[i];
            let refusal = save::supplier_refusal(suppliers, stored, i);
            let here = supplier.id matches Some(id) ==> stored.supplier_ids@.contains(id);
            let again = supplier.id is Some && exists|j: int|
                0 <= j < i && (#[trigger] suppliers[j]).id == supplier.id;
            let fine = are_known_keys(
                supplier.keys@,
                supplier.id,
                stored.keys@,
                supplier.keys@.len() as int,
            );
            &&& !here ==> refusal == Some("supplier not found"@)
            &&& here && again ==> refusal == Some("duplicate supplier id in payload"@)
            &&& here && !again && !fine ==> refusal == Some("api_key not found"@) || refusal
                == Some("duplicate api_key id in payload"@)
            &&& here && !again && fine && refusal is Some ==> refusal == Some(
                "image_api_key not found"@,
            ) || refusal == Some("duplicate image_api_key id in payload"@)
        }),
{
    let supplier = suppliers[i];
    key_ids_are_checked(
        supplier.keys@,
        supplier.id,
        stored.keys@,
        save::key_words(),
        supplier.keys@.len(),
    );
    key_ids_are_checked(
        supplier.image_keys@,
        supplier.id,
        stored.image_keys@,
        save::image_key_words(),
        supplier.image_keys@.len(),
    );
}

proof fn suppliers_are_known(
    suppliers: Seq<PreparedSupplierSave>,
    stored: StoredPool,
    n: nat,
)
    requires
        n <= suppliers.len(),
    ensures
        save::suppliers_refusal(suppliers, stored, n) is None <==> forall|i: int|
            0 <= i < n ==> #[trigger] is_known_supplier(suppliers, stored, i),
        save::suppliers_refusal(suppliers, stored, n) matches Some(message) ==> exists|i: int|
            0 <= i < n && !#[trigger] is_known_supplier(suppliers, stored, i)
                && save::supplier_refusal(suppliers, stored, i) == Some(message) && forall|j: int|
                0 <= j < i ==> #[trigger] is_known_supplier(suppliers, stored, j),
    decreases n,
{
    if n > 0 {
        let m = (n - 1) as nat;
        suppliers_are_known(suppliers, stored, m);
        supplier_is_known(suppliers, stored, n - 1);
        match save::suppliers_refusal(suppliers, stored, m) {
            Some(message) => {
                let i = choose|i: int|
                    0 <= i < m && !#[trigger] is_known_supplier(suppliers, stored, i)
                        && save::supplier_refusal(suppliers, stored, i) == Some(message) && forall|
                        j: int,
                    |
                        0 <= j < i ==> #[trigger] is_known_supplier(suppliers, stored, j);
                assert(!is_known_supplier(suppliers, stored, i));
            },
            None => {
                if save::supplier_refusal(suppliers, stored, n - 1) is Some {
                    assert(!is_known_supplier(suppliers, stored, n - 1));
                }
            },
        }
    }
}

/// A pool is saved under a name that no other has, in place of one that is there or as a new one,
/// with suppliers and keys that are new or its own. Else it is refused.
pub proof fn saves_are_refused(
    pool_id: Option<i64>,
    draft: PreparedProxySave,
    stored: StoredPool,
)
    ensures
        ({
            let refusal = save::save_refusal(pool_id, draft, stored);
            let known = forall|i: int|
                0 <= i < draft.suppliers@.len() ==> #[trigger] is_known_supplier(
                    draft.suppliers@,
                    stored,
                    i,
                );
            &&& stored.name_taken ==> refusal == Some(
                RefusalView { status: 400, json: true, message: "proxy name already exists"@ },
            )
            &&& !stored.name_taken && pool_id is Some && !stored.exists ==> refusal == Some(
                RefusalView { status: 404, json: true, message: "proxy not found"@ },
            )
            &&& !stored.name_taken && (pool_id is None || stored.exists) ==> {
                &&& refusal is None <==> known
                &&& refusal matches Some(refusal) ==> refusal.status == 400 && refusal.json
                    && exists|i: int|
                    0 <= i < draft.suppliers@.len() && !#[trigger] is_known_supplier(
                        draft.suppliers@,
                        stored,
                        i,
                    ) && save::supplier_refusal(draft.suppliers@, stored, i) == Some(
                        refusal.message,
                    )
            }
        }),
{
    suppliers_are_known(draft.suppliers@, stored, draft.suppliers@.len());
}

/// What is saved of a pool is what was sent, in its order: its suppliers and their keys. What was
/// stored of it and is not named goes.
pub proof fn saves_write_what_was_sent(
    pool_id: Option<i64>,
    draft: PreparedProxySave,
    stored: StoredPool,
    plan: SavePlan,
    i: int,
    id: i64,
)
    requires
        save::writes_pool(pool_id, draft, stored, plan),
        0 <= i < draft.suppliers@.len(),
    ensures
        pool_id matches Some(id) ==> plan.pool == (PoolWrite::Update { id }),
        pool_id is None ==> plan.pool == (PoolWrite::Insert { is_active: stored.pool_count == 0 }),
        plan.name@ == draft.name@ && plan.note@ == draft.note@,
        plan.suppliers@.len() == draft.suppliers@.len(),
        ({
            let sent = draft.suppliers@[i];
            let write = plan.suppliers@[i];
            &&& write.id == sent.id && write.protocol == sent.protocol
            &&& write.name@ == sent.name@ && write.base_url@ == sent.base_url@
            &&& write.override_model@ == sent.override_model@
            &&& write.sort_order == i as i64
            &&& write.keys@.len() == sent.keys@.len()
            &&& forall|k: int|
                0 <= k < sent.keys@.len() ==> (#[trigger] write.keys@[k]).id == sent.keys@[k].id
                    && write.keys@[k].api_key@ == sent.keys@[k].api_key@
                    && write.keys@[k].sort_order == k as i64
            &&& write.image_keys@.len() == sent.image_keys@.len()
            &&& forall|k: int|
                0 <= k < sent.image_keys@.len() ==> (#[trigger] write.image_keys@[k]).id
                    == sent.image_keys@[k].id && write.image_keys@[k].api_key@
                    == sent.image_keys@[k].api_key@ && write.image_keys@[k].sort_order == k as i64
            &&& write.deleted_keys@.contains(id) <==> (exists|k: int| #[trigger]
                is_stored(stored.keys@, sent.id, id, k)) && (forall|k: int|
                0 <= k < sent.keys@.len() ==> (#[trigger] sent.keys@[k]).id != Some(id))
            &&& write.deleted_image_keys@.contains(id) <==> (exists|k: int| #[trigger]
                is_stored(stored.image_keys@, sent.id, id, k)) && (forall|k: int|
                0 <= k < sent.image_keys@.len() ==> (#[trigger] sent.image_keys@[k]).id != Some(id))
        }),
        plan.deleted_suppliers@.contains(id) <==> stored.supplier_ids@.contains(id) && forall|
            j: int,
        |
            0 <= j < draft.suppliers@.len() ==> (#[trigger] draft.suppliers@[j]).id != Some(id),
{
    let sent = draft.suppliers@[i];
    assert(save::writes_supplier(sent, stored, i, plan.suppliers@[i]));
    stored_keys_are_known(stored.keys@, sent.id, id);
    stored_keys_are_known(stored.image_keys@, sent.id, id);
    assert(save::deleted_from(sent.keys@, sent.id, stored.keys@).contains(id) <==> (
    save::known_key(stored.keys@, sent.id, id) is Some && !save::replaces_key(sent.keys@, id)));
    assert(save::deleted_from(sent.image_keys@, sent.id, stored.image_keys@).contains(id) <==> (
    save::known_key(stored.image_keys@, sent.id, id) is Some && !save::replaces_key(
        sent.image_keys@,
        id,
    )));
    assert(save::deleted_suppliers(draft.suppliers@, stored).contains(id) <==> (
    stored.supplier_ids@.contains(id) && !save::replaces_supplier(draft.suppliers@, id)));
}

/// A stored key keeps what is known of it where it is saved again under its id, with its value, with
/// its supplier. Where it is the only one of its id it is forgotten otherwise.
pub proof fn changed_keys_are_forgotten(
    pool_id: Option<i64>,
    draft: PreparedProxySave,
    stored: StoredPool,
    plan: SavePlan,
    images: bool,
    at: int,
)
    requires
        save::writes_pool(pool_id, draft, stored, plan),
        0 <= at < save::stored_kind(stored, images).len(),
        stored.supplier_ids@.contains(save::stored_kind(stored, images)[at].supplier_id),
        forall|k: int|
            0 <= k < save::stored_kind(stored, images).len() && k != at ==> (
            #[trigger] save::stored_kind(stored, images)[k]).id != save::stored_kind(
                stored,
                images,
            )[at].id,
    ensures
        ({
            let row = save::stored_kind(stored, images)[at];
            let gone = if images {
                plan.forgotten_image_keys@
            } else {
                plan.forgotten_keys@
            };
            !gone.contains(row.id) <==> exists|i: int, k: int| #[trigger]
                saves_again(draft.suppliers@, images, i, k, row)
        }),
{
    let keys = save::stored_kind(stored, images);
    let row = keys[at];
    let supplier_id = row.supplier_id;
    stored_keys_are_known(keys, Some(supplier_id), row.id);
    assert(is_stored(keys, Some(supplier_id), row.id, at));
    assert(save::stored_key(keys, supplier_id, row.id) == Some(row.api_key@));
    assert forall|other: i64| other != supplier_id implies (#[trigger] save::stored_key(
        keys,
        other,
        row.id,
    )) is None by {
        stored_keys_are_known(keys, Some(other), row.id);
    }
    save::only_changed_keys_are_forgotten(
        pool_id,
        draft,
        stored,
        plan,
        images,
        supplier_id,
        row.id,
    );
    let suppliers = draft.suppliers@;
    if save::stays(suppliers, images, supplier_id, row.id, row.api_key@) {
        let i = choose|i: int|
            0 <= i < suppliers.len() && (#[trigger] suppliers[i]).id == Some(supplier_id)
                && save::keeps_key(save::keys_of(suppliers[i], images), row.id, row.api_key@);
        let sent = save::keys_of(suppliers[i], images);
        let k = choose|k: int|
            0 <= k < sent.len() && (#[trigger] sent[k]).id == Some(row.id) && sent[k].api_key@
                == row.api_key@;
        assert(saves_again(suppliers, images, i, k, row));
    }
    if exists|i: int, k: int| #[trigger] saves_again(suppliers, images, i, k, row) {
        let (i, k) = choose|i: int, k: int| #[trigger] saves_again(suppliers, images, i, k, row);
        let sent = save::keys_of(suppliers[i], images);
        assert(sent[k].id == Some(row.id));
        assert(suppliers[i].id == Some(supplier_id));
    }
}

/// Only keys that are stored with a supplier of the pool are forgotten.
pub proof fn only_own_keys_are_forgotten(
    pool_id: Option<i64>,
    draft: PreparedProxySave,
    stored: StoredPool,
    plan: SavePlan,
    images: bool,
    id: i64,
)
    requires
        save::writes_pool(pool_id, draft, stored, plan),
        (if images {
            plan.forgotten_image_keys@
        } else {
            plan.forgotten_keys@
        }).contains(id),
    ensures
        exists|k: int|
            0 <= k < save::stored_kind(stored, images).len() && (#[trigger] save::stored_kind(
                stored,
                images,
            )[k]).id == id && stored.supplier_ids@.contains(
                save::stored_kind(stored, images)[k].supplier_id,
            ),
{
    let rows = save::stored_kind(stored, images);
    let gone = save::forgotten(draft.suppliers@, images, stored.supplier_ids@, rows);
    assert(gone.contains(id));
    let supplier_id = choose|supplier_id: i64|
        {
            &&& stored.supplier_ids@.contains(supplier_id)
            &&& #[trigger] save::stored_key(rows, supplier_id, id) matches Some(api_key)
            &&& !save::stays(draft.suppliers@, images, supplier_id, id, api_key)
        };
    stored_keys_are_known(rows, Some(supplier_id), id);
    let k = choose|k: int| #[trigger] is_stored(rows, Some(supplier_id), id, k);
    assert(rows[k].id == id);
}

/// That key of that supplier is the stored one, with its value.
pub open spec fn saves_again(
    suppliers: Seq<PreparedSupplierSave>,
    images: bool,
    i: int,
    k: int,
    row: StoredKey,
) -> bool {
    let keys = if images {
        suppliers[i].image_keys@
    } else {
        suppliers[i].keys@
    };
    &&& 0 <= i < suppliers.len()
    &&& suppliers[i].id == Some(row.supplier_id)
    &&& 0 <= k < keys.len()
    &&& keys[k].id == Some(row.id)
    &&& keys[k].api_key@ == row.api_key@
}

proof fn earlier_pools(pools: Seq<PoolPlace>, pool: PoolPlace, id: i64, n: nat)
    requires
        n <= pools.len(),
    ensures
        admin::others(pools.push(pool), id, n) == admin::others(pools, id, n),
    decreases n,
{
    if n > 0 {
        earlier_pools(pools, pool, id, (n - 1) as nat);
        assert(pools.push(pool)[n - 1] == pools[n - 1]);
    }
}

proof fn earlier_bindings(bindings: Seq<Binding>, binding: Binding, id: i64, n: nat)
    requires
        n <= bindings.len(),
    ensures
        admin::bound_to(bindings.push(binding), id, n) == admin::bound_to(bindings, id, n),
        admin::bound_for_images(bindings.push(binding), id, n) == admin::bound_for_images(
            bindings,
            id,
            n,
        ),
    decreases n,
{
    if n > 0 {
        earlier_bindings(bindings, binding, id, (n - 1) as nat);
        assert(bindings.push(binding)[n - 1] == bindings[n - 1]);
    }
}

/// When a pool goes the others keep their order. Access keys that are bound to it go with it, and
/// those that are bound to it for images alone lose that binding. What they used is forgotten.
pub proof fn pools_leave_the_others(
    pools: Seq<PoolPlace>,
    pool: PoolPlace,
    bindings: Seq<Binding>,
    binding: Binding,
    id: i64,
)
    ensures
        admin::others(Seq::empty(), id, 0).len() == 0,
        admin::others(pools.push(pool), id, pools.len() + 1) == if pool.id == id {
            admin::others(pools, id, pools.len())
        } else {
            admin::others(pools, id, pools.len()).push(pool.id)
        },
        admin::bound_to(Seq::empty(), id, 0).len() == 0,
        admin::bound_to(bindings.push(binding), id, bindings.len() + 1) == if binding.proxy_id == id
            || binding.image_proxy_id == Some(id) {
            admin::bound_to(bindings, id, bindings.len()).push(binding.access_key_id)
        } else {
            admin::bound_to(bindings, id, bindings.len())
        },
        admin::bound_for_images(Seq::empty(), id, 0).len() == 0,
        admin::bound_for_images(bindings.push(binding), id, bindings.len() + 1) == if (
        binding.image_proxy_id == Some(id) && binding.proxy_id != id) {
            admin::bound_for_images(bindings, id, bindings.len()).push(binding.access_key_id)
        } else {
            admin::bound_for_images(bindings, id, bindings.len())
        },
{
    earlier_pools(pools, pool, id, pools.len());
    assert(pools.push(pool).last() == pool);
    earlier_bindings(bindings, binding, id, bindings.len());
    assert(bindings.push(binding).last() == binding);
}

/// No pool but the one of that id came before this one: by its time, and by its id at the same time.
pub open spec fn is_oldest(pools: Seq<PoolPlace>, id: i64, n: int, oldest: PoolPlace) -> bool {
    &&& oldest.id != id
    &&& exists|i: int| 0 <= i < n && #[trigger] pools[i] == oldest
    &&& forall|i: int|
        0 <= i < n && (#[trigger] pools[i]).id != id ==> oldest.created_at < pools[i].created_at
            || (oldest.created_at == pools[i].created_at && oldest.id <= pools[i].id)
}

proof fn oldest_comes_first(pools: Seq<PoolPlace>, id: i64, n: nat)
    requires
        n <= pools.len(),
    ensures
        match admin::oldest_other(pools, id, n) {
            Some(oldest) => is_oldest(pools, id, n as int, oldest),
            None => forall|i: int| 0 <= i < n ==> (#[trigger] pools[i]).id == id,
        },
    decreases n,
{
    if n > 0 {
        oldest_comes_first(pools, id, (n - 1) as nat);
        let last = pools[n - 1];
        match admin::oldest_other(pools, id, (n - 1) as nat) {
            Some(oldest) => {
                let i = choose|i: int| 0 <= i < n - 1 && #[trigger] pools[i] == oldest;
                assert(pools[i] == oldest);
            },
            None => {},
        }
    }
}

proof fn first_place(pools: Seq<PoolPlace>, id: i64, n: nat)
    requires
        n <= pools.len(),
    ensures
        match admin::place_of(pools, id, n) {
            Some(place) => exists|i: int|
                0 <= i < n && #[trigger] pools[i] == place && place.id == id && forall|j: int|
                    0 <= j < i ==> (#[trigger] pools[j]).id != id,
            None => forall|i: int| 0 <= i < n ==> (#[trigger] pools[i]).id != id,
        },
    decreases n,
{
    if n > 0 {
        first_place(pools, id, (n - 1) as nat);
        match admin::place_of(pools, id, (n - 1) as nat) {
            Some(place) => {
                let i = choose|i: int|
                    0 <= i < n - 1 && #[trigger] pools[i] == place && place.id == id && forall|
                        j: int,
                    |
                        0 <= j < i ==> (#[trigger] pools[j]).id != id;
                assert(pools[i] == place);
            },
            None => {
                if pools[n - 1].id == id {
                    assert(pools[n - 1].id == id);
                }
            },
        }
    }
}

/// A pool that is there can be deleted. If it was active the oldest of the others becomes so, where
/// there is another. The others are numbered from 0 in their order.
pub proof fn deleted_pools_have_a_successor(
    pools: Seq<PoolPlace>,
    bindings: Seq<Binding>,
    id: i64,
    plan: DeletePlan,
    at: int,
)
    requires
        admin::deletes_pool(pools, bindings, id, plan),
        0 <= at < pools.len(),
        pools[at].id == id,
        forall|j: int| 0 <= j < at ==> (#[trigger] pools[j]).id != id,
    ensures
        admin::place_of(pools, id, pools.len()) == Some(pools[at]),
        !pools[at].is_active ==> plan.activated is None,
        pools[at].is_active ==> (plan.activated matches Some(next) ==> exists|oldest: PoolPlace|
            #[trigger] is_oldest(pools, id, pools.len() as int, oldest) && oldest.id == next),
        pools[at].is_active && (exists|i: int|
            0 <= i < pools.len() && (#[trigger] pools[i]).id != id) ==> plan.activated is Some,
        plan.orders@.len() == admin::others(pools, id, pools.len()).len(),
        forall|i: int|
            0 <= i < plan.orders@.len() ==> (#[trigger] plan.orders@[i]).0 == admin::others(
                pools,
                id,
                pools.len(),
            )[i] && plan.orders@[i].1 == i as i64,
        plan.forgotten_access_keys@ == admin::bound_to(bindings, id, bindings.len()),
        plan.unbound_images@ == admin::bound_for_images(bindings, id, bindings.len()),
{
    first_place(pools, id, pools.len());
    let place = admin::place_of(pools, id, pools.len());
    if let Some(place) = place {
        let i = choose|i: int|
            0 <= i < pools.len() && #[trigger] pools[i] == place && place.id == id && forall|j: int|
                0 <= j < i ==> (#[trigger] pools[j]).id != id;
        if i < at {
            assert(pools[i].id != id);
        }
        if at < i {
            assert(pools[at].id != id);
        }
    } else {
        assert(pools[at].id != id);
    }
    oldest_comes_first(pools, id, pools.len());
    if let Some(oldest) = admin::oldest_other(pools, id, pools.len()) {
        assert(is_oldest(pools, id, pools.len() as int, oldest));
    }
}

/// The rules of the small steps: what is missing is not found, a name that is taken is refused, the
/// pools that an access key is bound to have to be there, and an order that is not asked for is the
/// one that is next, or 0.
pub proof fn small_steps_are_checked(
    missing: Seq<char>,
    asked: i64,
    next: i64,
    ids: Seq<i64>,
    i: int,
    note: String,
)
    requires
        0 <= i < ids.len(),
    ensures
        admin::must_exist(true, missing) == Ok::<(), RefusalView>(()),
        admin::must_exist(false, missing) == Err::<(), RefusalView>(
            (RefusalView { status: 404, json: true, message: missing }),
        ),
        admin::name_must_be_free(false) == Ok::<(), RefusalView>(()),
        admin::name_must_be_free(true) == Err::<(), RefusalView>(
            (RefusalView { status: 400, json: true, message: "proxy name already exists"@ }),
        ),
        admin::pools_must_exist(true, None) == Ok::<(), RefusalView>(()),
        admin::pools_must_exist(true, Some(true)) == Ok::<(), RefusalView>(()),
        admin::pools_must_exist(true, Some(false)) == Err::<(), RefusalView>(
            (RefusalView { status: 400, json: true, message: "image proxy not found"@ }),
        ),
        forall|images: Option<bool>| #[trigger]
            admin::pools_must_exist(false, images) == Err::<(), RefusalView>(
                (RefusalView { status: 400, json: true, message: "proxy not found"@ }),
            ),
        admin::new_order(Some(asked), Some(next)) == asked,
        admin::new_order(Some(asked), None) == asked,
        admin::new_order(None, Some(next)) == next,
        admin::new_order(None, None) == 0,
        admin::places(ids).len() == ids.len(),
        admin::places(ids)[i] == (ids[i], i as i64),
        admin::note_of(None).len() == 0,
        admin::note_of(Some(note)) == text::trim_view(note@),
{
}

} // verus!
