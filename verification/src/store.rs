//! What is stored: how the tables are brought up to date, and how rows become pools.

use vstd::prelude::*;

use crate::config::{
    AccessKeyConfig,
    ApiKeyConfig,
    BaseUrlConfig,
    PoolConfig,
    ProtocolMode,
    TestProtocol,
};
use crate::payload;
use crate::payload::{contains_text, normalize_legacy_api_keys};
use crate::text;
use crate::text::concat2;
use crate::upstream;
use crate::upstream::normalize_base_url;

verus! {

/// The columns that the tables have.
pub struct TableColumns {
    pub pools: Vec<String>,
    pub suppliers: Vec<String>,
    pub keys: Vec<String>,
    pub access_keys: Vec<String>,
}

/// A table that has grown since its first form.
#[derive(Clone, Copy, PartialEq, Eq, Structural, Debug)]
pub enum Table {
    Pools,
    Suppliers,
    Keys,
    AccessKeys,
}

/// A change to the tables.
#[derive(Clone, Copy, Debug)]
pub enum SchemaChange {
    /// Adds a column to a table.
    AddColumn { table: Table, column: &'static str, definition: &'static str },
    /// Gives an order by their ids to the pools that have none.
    OrderPools,
}

/// A change to the tables, and what is said where it fails.
#[derive(Clone, Copy, Debug)]
pub struct SchemaStep {
    pub change: SchemaChange,
    pub failure: &'static str,
}

pub ghost struct ColumnsView {
    pub pools: Seq<Seq<char>>,
    pub suppliers: Seq<Seq<char>>,
    pub keys: Seq<Seq<char>>,
    pub access_keys: Seq<Seq<char>>,
}

impl View for TableColumns {
    type V = ColumnsView;

    open spec fn view(&self) -> ColumnsView {
        ColumnsView {
            pools: payload::strings_view(self.pools@),
            suppliers: payload::strings_view(self.suppliers@),
            keys: payload::strings_view(self.keys@),
            access_keys: payload::strings_view(self.access_keys@),
        }
    }
}

impl ColumnsView {
    /// The columns of a table.
    pub open spec fn of(self, table: Table) -> Seq<Seq<char>> {
        match table {
            Table::Pools => self.pools,
            Table::Suppliers => self.suppliers,
            Table::Keys => self.keys,
            Table::AccessKeys => self.access_keys,
        }
    }

    /// The columns after one has been added to a table.
    pub open spec fn with(self, table: Table, column: Seq<char>) -> ColumnsView {
        match table {
            Table::Pools => ColumnsView { pools: self.pools.push(column), ..self },
            Table::Suppliers => ColumnsView { suppliers: self.suppliers.push(column), ..self },
            Table::Keys => ColumnsView { keys: self.keys.push(column), ..self },
            Table::AccessKeys => ColumnsView { access_keys: self.access_keys.push(column), ..self },
        }
    }
}

pub ghost enum ChangeView {
    AddColumn { table: Table, column: Seq<char>, definition: Seq<char> },
    OrderPools,
}

pub ghost struct StepView {
    pub change: ChangeView,
    pub failure: Seq<char>,
}

impl View for SchemaChange {
    type V = ChangeView;

    open spec fn view(&self) -> ChangeView {
        match *self {
            SchemaChange::AddColumn { table, column, definition } => ChangeView::AddColumn {
                table,
                column: column@,
                definition: definition@,
            },
            SchemaChange::OrderPools => ChangeView::OrderPools,
        }
    }
}

impl View for SchemaStep {
    type V = StepView;

    open spec fn view(&self) -> StepView {
        StepView { change: self.change@, failure: self.failure@ }
    }
}

/// The name of a table.
pub open spec fn table_name(table: Table) -> Seq<char> {
    match table {
        Table::Pools => "pools"@,
        Table::Suppliers => "pool_base_urls"@,
        Table::Keys => "pool_api_keys"@,
        Table::AccessKeys => "access_keys"@,
    }
}

/// The SQL of a change.
pub open spec fn change_sql(change: ChangeView) -> Seq<char> {
    match change {
        ChangeView::AddColumn { table, column, definition } => "ALTER TABLE "@ + table_name(table)
            + " ADD COLUMN "@ + column + " "@ + definition,
        ChangeView::OrderPools => "UPDATE pools SET sort_order = id - 1 WHERE sort_order = 0"@,
    }
}

impl Table {
    /// The name of the table.
    pub fn name(self) -> (name: &'static str)
        ensures
            name@ == table_name(self),
    {
        match self {
            Table::Pools => "pools",
            Table::Suppliers => "pool_base_urls",
            Table::Keys => "pool_api_keys",
            Table::AccessKeys => "access_keys",
        }
    }
}

impl SchemaChange {
    /// The SQL of the change.
    pub fn sql(&self) -> (sql: String)
        ensures
            sql@ == change_sql(self@),
    {
        match *self {
            SchemaChange::AddColumn { table, column, definition } => {
                let mut sql = concat2("ALTER TABLE ", table.name());
                sql.append(" ADD COLUMN ");
                sql.append(column);
                sql.append(" ");
                sql.append(definition);
                sql
            },
            SchemaChange::OrderPools => {
                "UPDATE pools SET sort_order = id - 1 WHERE sort_order = 0".to_string()
            },
        }
    }
}

/// The steps of a list.
pub open spec fn steps_view(steps: Seq<SchemaStep>) -> Seq<StepView> {
    steps.map_values(|step: SchemaStep| step@)
}

/// The step that adds a column.
pub open spec fn column_step(
    table: Table,
    column: Seq<char>,
    definition: Seq<char>,
    failure: Seq<char>,
) -> StepView {
    StepView { change: ChangeView::AddColumn { table, column, definition }, failure }
}

/// The steps by which the tables have grown, in their order: a column each, and an order for the
/// pools when they got theirs.
pub open spec fn growth() -> Seq<StepView> {
    seq![
        column_step(
            Table::Pools,
            "note"@,
            "TEXT NOT NULL DEFAULT ''"@,
            "Failed to add proxy note column: "@,
        ),
        column_step(
            Table::Pools,
            "sort_order"@,
            "INTEGER NOT NULL DEFAULT 0"@,
            "Failed to add proxy sort_order column: "@,
        ),
        StepView {
            change: ChangeView::OrderPools,
            failure: "Failed to initialize proxy sort_order: "@,
        },
        column_step(
            Table::Suppliers,
            "name"@,
            "TEXT NOT NULL DEFAULT ''"@,
            "Failed to add supplier name column: "@,
        ),
        column_step(
            Table::Suppliers,
            "protocol_mode"@,
            "TEXT NOT NULL DEFAULT 'both'"@,
            "Failed to add supplier protocol column: "@,
        ),
        column_step(
            Table::Suppliers,
            "override_model"@,
            "TEXT NOT NULL DEFAULT ''"@,
            "Failed to add supplier override_model column: "@,
        ),
        column_step(
            Table::Keys,
            "test_model"@,
            "TEXT NOT NULL DEFAULT ''"@,
            "Failed to add api_key test model column: "@,
        ),
        column_step(
            Table::Keys,
            "test_protocol"@,
            "TEXT NOT NULL DEFAULT ''"@,
            "Failed to add api_key test protocol column: "@,
        ),
        column_step(
            Table::AccessKeys,
            "override_model"@,
            "TEXT NOT NULL DEFAULT ''"@,
            "Failed to add access key override_model column: "@,
        ),
        column_step(
            Table::AccessKeys,
            "image_proxy_id"@,
            "INTEGER"@,
            "Failed to add access key image_proxy_id column: "@,
        ),
    ]
}

/// A change is missing where its column is: the one that it adds, or the order that it fills.
pub open spec fn is_missing(columns: ColumnsView, change: ChangeView) -> bool {
    match change {
        ChangeView::AddColumn { table, column, .. } => !columns.of(table).contains(column),
        ChangeView::OrderPools => !columns.pools.contains("sort_order"@),
    }
}

/// The steps that bring the tables up to date: those of their growth that are missing.
pub open spec fn schema_steps(columns: ColumnsView) -> Seq<StepView> {
    growth().filter(|step: StepView| is_missing(columns, step.change))
}

impl TableColumns {
    fn of(&self, table: Table) -> (columns: &Vec<String>)
        ensures
            payload::strings_view(columns@) == self@.of(table),
    {
        match table {
            Table::Pools => &self.pools,
            Table::Suppliers => &self.suppliers,
            Table::Keys => &self.keys,
            Table::AccessKeys => &self.access_keys,
        }
    }

    fn lack(&self, change: SchemaChange) -> (missing: bool)
        ensures
            missing == is_missing(self@, change@),
    {
        match change {
            SchemaChange::AddColumn { table, column, .. } => !contains_text(self.of(table), column),
            SchemaChange::OrderPools => !contains_text(&self.pools, "sort_order"),
        }
    }
}

fn new_column(
    table: Table,
    column: &'static str,
    definition: &'static str,
    failure: &'static str,
) -> (step: SchemaStep)
    ensures
        step@ == column_step(table, column@, definition@, failure@),
{
    SchemaStep { change: SchemaChange::AddColumn { table, column, definition }, failure }
}

fn all_steps() -> (steps: [SchemaStep; 10])
    ensures
        steps_view(steps@) == growth(),
{
    let text = "TEXT NOT NULL DEFAULT ''";
    let steps = [
        new_column(Table::Pools, "note", text, "Failed to add proxy note column: "),
        new_column(
            Table::Pools,
            "sort_order",
            "INTEGER NOT NULL DEFAULT 0",
            "Failed to add proxy sort_order column: ",
        ),
        SchemaStep {
            change: SchemaChange::OrderPools,
            failure: "Failed to initialize proxy sort_order: ",
        },
        new_column(Table::Suppliers, "name", text, "Failed to add supplier name column: "),
        new_column(
            Table::Suppliers,
            "protocol_mode",
            "TEXT NOT NULL DEFAULT 'both'",
            "Failed to add supplier protocol column: ",
        ),
        new_column(
            Table::Suppliers,
            "override_model",
            text,
            "Failed to add supplier override_model column: ",
        ),
        new_column(Table::Keys, "test_model", text, "Failed to add api_key test model column: "),
        new_column(
            Table::Keys,
            "test_protocol",
            text,
            "Failed to add api_key test protocol column: ",
        ),
        new_column(
            Table::AccessKeys,
            "override_model",
            text,
            "Failed to add access key override_model column: ",
        ),
        new_column(
            Table::AccessKeys,
            "image_proxy_id",
            "INTEGER",
            "Failed to add access key image_proxy_id column: ",
        ),
    ];
    assert(steps_view(steps@) =~= growth());
    steps
}

/// The steps that bring the tables up to date.
pub fn init_database(columns: &TableColumns) -> (steps: Vec<SchemaStep>)
    ensures
        steps_view(steps@) == schema_steps(columns@),
{
    let all = all_steps();
    let ghost missing = |step: StepView| is_missing(columns@, step.change);
    let mut steps: Vec<SchemaStep> = Vec::new();
    let mut i: usize = 0;
    assert(growth().take(0) =~= Seq::empty());
    assert(steps_view(steps@) =~= growth().take(0).filter(missing));
    while i < 10
        invariant
            i <= 10,
            steps_view(all@) == growth(),
            missing == (|step: StepView| is_missing(columns@, step.change)),
            steps_view(steps@) == growth().take(i as int).filter(missing),
        decreases 10 - i,
    {
        let step = all[i];
        let ghost before = steps@;
        proof {
            reveal(Seq::filter);
            assert(steps_view(all@)[i as int] == step@);
            assert(growth().take(i + 1).drop_last() =~= growth().take(i as int));
            assert(growth().take(i + 1).last() == step@);
        }
        if columns.lack(step.change) {
            steps.push(step);
            assert(steps_view(steps@) =~= steps_view(before).push(step@));
        }
        i = i + 1;
    }
    assert(growth().take(10) =~= growth());
    steps
}

/// Tables that have all columns need no step.
pub proof fn complete_tables_need_no_step(columns: ColumnsView)
    requires
        columns.pools.contains("note"@),
        columns.pools.contains("sort_order"@),
        columns.suppliers.contains("name"@),
        columns.suppliers.contains("protocol_mode"@),
        columns.suppliers.contains("override_model"@),
        columns.keys.contains("test_model"@),
        columns.keys.contains("test_protocol"@),
        columns.access_keys.contains("override_model"@),
        columns.access_keys.contains("image_proxy_id"@),
    ensures
        schema_steps(columns).len() == 0,
{
    let missing = |step: StepView| is_missing(columns, step.change);
    if schema_steps(columns).len() > 0 {
        let step = schema_steps(columns)[0];
        growth().lemma_filter_pred(missing, 0);
        growth().lemma_filter_contains_rev(missing, step);
        let i = choose|i: int| 0 <= i < growth().len() && growth()[i] == step;
        assert(growth().len() == 10);
    }
}

/// The configuration of an earlier time: one supplier.
pub struct LegacyConfig {
    pub base_url: String,
    pub protocol_mode: String,
    pub enabled: bool,
    pub api_key: Option<String>,
}

/// What becomes of it: a pool of one supplier.
pub struct LegacyPlan {
    pub pool_name: &'static str,
    pub is_active: bool,
    pub base_url: String,
    pub protocol_mode: ProtocolMode,
    pub api_keys: Vec<String>,
    pub manually_disabled: bool,
}

pub ghost struct LegacyView {
    pub base_url: Seq<char>,
    pub protocol_mode: Seq<char>,
    pub enabled: bool,
    pub api_key: Option<Seq<char>>,
}

pub ghost struct LegacyPlanView {
    pub pool_name: Seq<char>,
    pub is_active: bool,
    pub base_url: Seq<char>,
    pub protocol_mode: ProtocolMode,
    pub api_keys: Seq<Seq<char>>,
    pub manually_disabled: bool,
}

impl View for LegacyConfig {
    type V = LegacyView;

    open spec fn view(&self) -> LegacyView {
        LegacyView {
            base_url: self.base_url@,
            protocol_mode: self.protocol_mode@,
            enabled: self.enabled,
            api_key: text::opt_string_view(self.api_key),
        }
    }
}

impl View for LegacyPlan {
    type V = LegacyPlanView;

    open spec fn view(&self) -> LegacyPlanView {
        LegacyPlanView {
            pool_name: self.pool_name@,
            is_active: self.is_active,
            base_url: self.base_url@,
            protocol_mode: self.protocol_mode,
            api_keys: payload::strings_view(self.api_keys@),
            manually_disabled: self.manually_disabled,
        }
    }
}

pub open spec fn opt_legacy_view(legacy: Option<LegacyConfig>) -> Option<LegacyView> {
    match legacy {
        Some(legacy) => Some(legacy@),
        None => None,
    }
}

pub open spec fn opt_plan_view(plan: Option<LegacyPlan>) -> Option<LegacyPlanView> {
    match plan {
        Some(plan) => Some(plan@),
        None => None,
    }
}

/// The keys of the configuration of an earlier time: those of their own table, or else its one.
pub open spec fn legacy_key_texts(legacy: LegacyView, api_keys: Seq<Seq<char>>) -> Seq<Seq<char>> {
    match legacy.api_key {
        Some(key) => if api_keys.len() == 0 {
            seq![key]
        } else {
            api_keys
        },
        None => api_keys,
    }
}

/// What becomes of the configuration of an earlier time, where there is no pool yet and its base
/// URL can be saved: an active pool. A protocol that is not known stands for both, and the keys of
/// one that was switched off are switched off.
pub open spec fn legacy_plan(
    pool_count: int,
    legacy: Option<LegacyView>,
    api_keys: Seq<Seq<char>>,
) -> Option<LegacyPlanView> {
    match legacy {
        Some(legacy) => match upstream::normal_base_url(legacy.base_url) {
            Ok(base_url) => if pool_count <= 0 {
                let keys = legacy_key_texts(legacy, api_keys);
                Some(
                    LegacyPlanView {
                        pool_name: "默认代理"@,
                        is_active: true,
                        base_url,
                        protocol_mode: match ProtocolMode::named(legacy.protocol_mode) {
                            Some(mode) => mode,
                            None => ProtocolMode::Both,
                        },
                        api_keys: payload::legacy_keys(keys, keys.len()),
                        manually_disabled: !legacy.enabled,
                    },
                )
            } else {
                None
            },
            Err(_) => None,
        },
        None => None,
    }
}

/// What becomes of the configuration of an earlier time.
pub fn migrate_legacy_openai_config(
    pool_count: i64,
    legacy: Option<LegacyConfig>,
    api_keys: Vec<String>,
) -> (plan: Option<LegacyPlan>)
    ensures
        opt_plan_view(plan) == legacy_plan(
            pool_count as int,
            opt_legacy_view(legacy),
            payload::strings_view(api_keys@),
        ),
{
    if pool_count > 0 {
        return None;
    }
    let legacy = match legacy {
        Some(legacy) => legacy,
        None => {
            return None;
        },
    };
    let base_url = match normalize_base_url(legacy.base_url.as_str()) {
        Ok(base_url) => base_url,
        Err(_) => {
            return None;
        },
    };
    let protocol_mode = match ProtocolMode::from_str(legacy.protocol_mode.as_str()) {
        Ok(mode) => mode,
        Err(_) => ProtocolMode::Both,
    };
    let ghost texts = legacy_key_texts(legacy@, payload::strings_view(api_keys@));
    let mut keys = api_keys;
    if keys.len() == 0 {
        if let Some(api_key) = legacy.api_key {
            keys.push(api_key);
            assert(payload::strings_view(keys@) =~= seq![api_key@]);
        }
    }
    assert(payload::strings_view(keys@) =~= texts);
    Some(
        LegacyPlan {
            pool_name: "默认代理",
            is_active: true,
            base_url,
            protocol_mode,
            api_keys: normalize_legacy_api_keys(keys),
            manually_disabled: !legacy.enabled,
        },
    )
}

/// A stored pool.
pub ghost struct PoolRecord {
    pub id: int,
    pub name: Seq<char>,
    pub note: Seq<char>,
    pub is_active: bool,
    pub sort_order: int,
    pub suppliers: Seq<SupplierRecord>,
}

/// A stored supplier.
pub ghost struct SupplierRecord {
    pub id: int,
    pub name: Seq<char>,
    pub base_url: Seq<char>,
    pub protocol_mode: Seq<char>,
    pub override_model: Seq<char>,
    pub sort_order: int,
    pub keys: Seq<KeyRecord>,
    pub image_keys: Seq<KeyRecord>,
}

/// A stored key. One for images has no test.
pub ghost struct KeyRecord {
    pub id: int,
    pub api_key: Seq<char>,
    pub sort_order: int,
    pub manually_disabled: bool,
    pub test_model: Seq<char>,
    pub test_protocol: Seq<char>,
}

/// A stored access key.
pub ghost struct AccessKeyRecord {
    pub id: int,
    pub name: Seq<char>,
    pub access_key: Seq<char>,
    pub proxy_id: int,
    pub image_proxy_id: Option<int>,
    pub override_model: Seq<char>,
    pub created_at: int,
    pub updated_at: int,
}

/// What is stored: the columns of the tables, the rows in them, and the configuration of an earlier
/// time.
pub ghost struct DatabaseView {
    pub columns: ColumnsView,
    pub pools: Seq<PoolRecord>,
    pub access_keys: Seq<AccessKeyRecord>,
    pub legacy: Option<LegacyView>,
    pub legacy_keys: Seq<Seq<char>>,
}

/// A key with the default of a new column.
pub open spec fn key_grown(key: KeyRecord, table: Table, column: Seq<char>) -> KeyRecord {
    if table == Table::Keys && column == "test_model"@ {
        KeyRecord { test_model: Seq::empty(), ..key }
    } else if table == Table::Keys && column == "test_protocol"@ {
        KeyRecord { test_protocol: Seq::empty(), ..key }
    } else {
        key
    }
}

/// A supplier, and its keys, with the default of a new column.
pub open spec fn supplier_grown(
    supplier: SupplierRecord,
    table: Table,
    column: Seq<char>,
) -> SupplierRecord {
    if table == Table::Suppliers && column == "name"@ {
        SupplierRecord { name: Seq::empty(), ..supplier }
    } else if table == Table::Suppliers && column == "protocol_mode"@ {
        SupplierRecord { protocol_mode: "both"@, ..supplier }
    } else if table == Table::Suppliers && column == "override_model"@ {
        SupplierRecord { override_model: Seq::empty(), ..supplier }
    } else {
        SupplierRecord {
            keys: supplier.keys.map_values(|key: KeyRecord| key_grown(key, table, column)),
            ..supplier
        }
    }
}

/// A pool, and its suppliers, with the default of a new column.
pub open spec fn pool_grown(pool: PoolRecord, table: Table, column: Seq<char>) -> PoolRecord {
    if table == Table::Pools && column == "note"@ {
        PoolRecord { note: Seq::empty(), ..pool }
    } else if table == Table::Pools && column == "sort_order"@ {
        PoolRecord { sort_order: 0, ..pool }
    } else {
        PoolRecord {
            suppliers: pool.suppliers.map_values(
                |supplier: SupplierRecord| supplier_grown(supplier, table, column),
            ),
            ..pool
        }
    }
}

/// An access key with the default of a new column.
pub open spec fn access_key_grown(
    key: AccessKeyRecord,
    table: Table,
    column: Seq<char>,
) -> AccessKeyRecord {
    if table == Table::AccessKeys && column == "override_model"@ {
        AccessKeyRecord { override_model: Seq::empty(), ..key }
    } else if table == Table::AccessKeys && column == "image_proxy_id"@ {
        AccessKeyRecord { image_proxy_id: None, ..key }
    } else {
        key
    }
}

/// The database after a change. A new column has its default in every row.
pub open spec fn changed(db: DatabaseView, change: ChangeView) -> DatabaseView {
    match change {
        ChangeView::AddColumn { table, column, .. } => DatabaseView {
            columns: db.columns.with(table, column),
            pools: db.pools.map_values(|pool: PoolRecord| pool_grown(pool, table, column)),
            access_keys: db.access_keys.map_values(
                |key: AccessKeyRecord| access_key_grown(key, table, column),
            ),
            ..db
        },
        ChangeView::OrderPools => DatabaseView {
            pools: db.pools.map_values(
                |pool: PoolRecord|
                    if pool.sort_order == 0 {
                        PoolRecord { sort_order: pool.id - 1, ..pool }
                    } else {
                        pool
                    },
            ),
            ..db
        },
    }
}

/// The database after steps, one after the other.
pub open spec fn stepped(db: DatabaseView, steps: Seq<StepView>) -> DatabaseView
    decreases steps.len(),
{
    if steps.len() == 0 {
        db
    } else {
        changed(stepped(db, steps.drop_last()), steps.last().change)
    }
}

/// The ids that new rows get.
pub ghost struct NewIds {
    pub pool: int,
    pub supplier: int,
    pub keys: Seq<int>,
}

/// The pool that a plan makes.
pub open spec fn planned_pool(plan: LegacyPlanView, ids: NewIds) -> PoolRecord {
    let keys = Seq::new(
        plan.api_keys.len(),
        |i: int|
            KeyRecord {
                id: ids.keys[i],
                api_key: plan.api_keys[i],
                sort_order: i,
                manually_disabled: plan.manually_disabled,
                test_model: Seq::empty(),
                test_protocol: Seq::empty(),
            },
    );
    let supplier = SupplierRecord {
        id: ids.supplier,
        name: Seq::empty(),
        base_url: plan.base_url,
        protocol_mode: plan.protocol_mode.name(),
        override_model: Seq::empty(),
        sort_order: 0,
        keys,
        image_keys: Seq::empty(),
    };
    PoolRecord {
        id: ids.pool,
        name: plan.pool_name,
        note: Seq::empty(),
        is_active: plan.is_active,
        sort_order: 0,
        suppliers: seq![supplier],
    }
}

/// The database after a start of the gateway: its tables are brought up to date, and the
/// configuration of an earlier time is taken over as a pool.
pub open spec fn started(db: DatabaseView, ids: NewIds) -> DatabaseView {
    let grown = stepped(db, schema_steps(db.columns));
    match legacy_plan(grown.pools.len() as int, grown.legacy, grown.legacy_keys) {
        Some(plan) => DatabaseView { pools: grown.pools.push(planned_pool(plan, ids)), ..grown },
        None => grown,
    }
}

proof fn steps_leave(db: DatabaseView, steps: Seq<StepView>)
    ensures
        stepped(db, steps).pools.len() == db.pools.len(),
        stepped(db, steps).legacy == db.legacy,
        stepped(db, steps).legacy_keys == db.legacy_keys,
        forall|change: ChangeView|
            is_missing(stepped(db, steps).columns, change) ==> #[trigger] is_missing(
                db.columns,
                change,
            ),
        forall|i: int|
            0 <= i < steps.len() && (#[trigger] steps[i]).change is AddColumn ==> !is_missing(
                stepped(db, steps).columns,
                steps[i].change,
            ),
    decreases steps.len(),
{
    if steps.len() > 0 {
        let init = steps.drop_last();
        let last = steps.last().change;
        let before = stepped(db, init);
        let after = stepped(db, steps);
        steps_leave(db, init);
        if let ChangeView::AddColumn { table, column, .. } = last {
            let columns = before.columns.of(table);
            assert(columns.push(column)[columns.len() as int] == column);
            assert(after.columns.of(table) == columns.push(column));
            assert(after.columns.of(table).contains(column));
            assert forall|other: Table, name: Seq<char>| #[trigger]
                before.columns.of(other).contains(name) implies after.columns.of(other).contains(
                name,
            ) by {
                let i = choose|i: int|
                    0 <= i < before.columns.of(other).len() && before.columns.of(other)[i] == name;
                assert(after.columns.of(other)[i] == name);
            }
        }
        assert forall|change: ChangeView| is_missing(after.columns, change) implies #[trigger]
            is_missing(db.columns, change) by {
            if !is_missing(before.columns, change) {
                match change {
                    ChangeView::AddColumn { table, column, .. } => {
                        assert(before.columns.of(table).contains(column));
                    },
                    ChangeView::OrderPools => {
                        assert(before.columns.of(Table::Pools).contains("sort_order"@));
                        assert(after.columns.of(Table::Pools).contains("sort_order"@));
                    },
                }
            }
        }
        assert forall|i: int|
            0 <= i < steps.len() && (#[trigger] steps[i]).change is AddColumn implies !is_missing(
            after.columns,
            steps[i].change,
        ) by {
            if i < init.len() {
                assert(init[i] == steps[i]);
                let change = steps[i].change;
                assert(before.columns.of(change->table).contains(change->column));
            }
        }
    }
}

/// The tables need no step after those that bring them up to date.
pub proof fn steps_are_taken_once(db: DatabaseView)
    ensures
        schema_steps(stepped(db, schema_steps(db.columns)).columns).len() == 0,
{
    let steps = schema_steps(db.columns);
    let after = stepped(db, steps);
    let missing = |step: StepView| is_missing(db.columns, step.change);
    let still_missing = |step: StepView| is_missing(after.columns, step.change);
    steps_leave(db, steps);
    if schema_steps(after.columns).len() > 0 {
        let step = schema_steps(after.columns)[0];
        growth().lemma_filter_pred(still_missing, 0);
        growth().lemma_filter_contains_rev(still_missing, step);
        assert(is_missing(db.columns, step.change));
        let k = choose|k: int| 0 <= k < growth().len() && growth()[k] == step;
        let order = growth()[1];
        if step.change is AddColumn {
            growth().lemma_filter_contains(missing, k);
            let i = choose|i: int| 0 <= i < steps.len() && steps[i] == step;
            assert(steps[i].change is AddColumn);
        } else {
            growth().lemma_filter_contains(missing, 1);
            let i = choose|i: int| 0 <= i < steps.len() && steps[i] == order;
            assert(steps[i].change is AddColumn);
        }
    }
}

/// A second start changes nothing: it finds no step to take and no configuration of an earlier time
/// to take over, and leaves the database as the first start left it.
pub proof fn second_start_changes_nothing(db: DatabaseView, ids: NewIds, other_ids: NewIds)
    ensures
        ({
            let after = started(db, ids);
            &&& schema_steps(after.columns).len() == 0
            &&& legacy_plan(after.pools.len() as int, after.legacy, after.legacy_keys) is None
            &&& started(after, other_ids) == after
        }),
{
    steps_leave(db, schema_steps(db.columns));
    steps_are_taken_once(db);
    let after = started(db, ids);
    assert(stepped(after, schema_steps(after.columns)) == after);
}

/// A row of a pool, with the rows of its suppliers in their order.
pub struct PoolRow {
    pub id: i64,
    pub name: String,
    pub note: String,
    pub is_active: i64,
    pub suppliers: Vec<SupplierRow>,
}

/// A row of a supplier, with the rows of its keys in their order.
pub struct SupplierRow {
    pub id: i64,
    pub name: String,
    pub base_url: String,
    pub protocol_mode: String,
    pub override_model: String,
    pub sort_order: i64,
    pub keys: Vec<KeyRow>,
    pub image_keys: Vec<ImageKeyRow>,
}

/// A row of a key.
pub struct KeyRow {
    pub id: i64,
    pub api_key: String,
    pub sort_order: i64,
    pub manually_disabled: i64,
    pub test_model: String,
    pub test_protocol: String,
}

/// A row of a key for images.
pub struct ImageKeyRow {
    pub id: i64,
    pub api_key: String,
    pub sort_order: i64,
    pub manually_disabled: i64,
}

/// The key of a row.
pub open spec fn key_loaded(row: KeyRow, supplier_id: i64, key: ApiKeyConfig) -> bool {
    &&& key.id == row.id
    &&& key.base_url_id == supplier_id
    &&& key.api_key@ == row.api_key@
    &&& key.sort_order == row.sort_order
    &&& key.manually_disabled == (row.manually_disabled != 0)
    &&& key.test_model@ == row.test_model@
    &&& key.test_protocol == TestProtocol::named(row.test_protocol@)
}

/// The key for images of a row.
pub open spec fn image_key_loaded(row: ImageKeyRow, supplier_id: i64, key: ApiKeyConfig) -> bool {
    &&& key.id == row.id
    &&& key.base_url_id == supplier_id
    &&& key.api_key@ == row.api_key@
    &&& key.sort_order == row.sort_order
    &&& key.manually_disabled == (row.manually_disabled != 0)
    &&& key.test_model@.len() == 0
    &&& key.test_protocol is None
}

/// The supplier of a row.
pub open spec fn supplier_loaded(row: SupplierRow, pool_id: i64, supplier: BaseUrlConfig) -> bool {
    &&& supplier.id == row.id
    &&& supplier.pool_id == pool_id
    &&& supplier.name@ == row.name@
    &&& supplier.base_url@ == row.base_url@
    &&& ProtocolMode::named(row.protocol_mode@) == Some(supplier.protocol_mode)
    &&& supplier.override_model@ == row.override_model@
    &&& supplier.sort_order == row.sort_order
    &&& supplier.api_keys@.len() == row.keys@.len()
    &&& forall|i: int|
        0 <= i < row.keys@.len() ==> #[trigger] key_loaded(
            row.keys@[i],
            row.id,
            supplier.api_keys@[i],
        )
    &&& supplier.image_keys@.len() == row.image_keys@.len()
    &&& forall|i: int|
        0 <= i < row.image_keys@.len() ==> #[trigger] image_key_loaded(
            row.image_keys@[i],
            row.id,
            supplier.image_keys@[i],
        )
}

/// The suppliers of rows can be loaded: the protocols of all of them are known.
pub open spec fn suppliers_loadable(rows: Seq<SupplierRow>) -> bool {
    forall|i: int|
        0 <= i < rows.len() ==> ProtocolMode::named((#[trigger] rows[i]).protocol_mode@) is Some
}

/// The pool of a row.
pub open spec fn pool_loaded(row: PoolRow, pool: PoolConfig) -> bool {
    &&& pool.id == row.id
    &&& pool.name@ == row.name@
    &&& pool.note@ == row.note@
    &&& pool.is_active == (row.is_active != 0)
    &&& pool.base_urls@.len() == row.suppliers@.len()
    &&& forall|i: int|
        0 <= i < row.suppliers@.len() ==> #[trigger] supplier_loaded(
            row.suppliers@[i],
            row.id,
            pool.base_urls@[i],
        )
}

fn load_keys(rows: &Vec<KeyRow>, supplier_id: i64) -> (keys: Vec<ApiKeyConfig>)
    ensures
        keys@.len() == rows@.len(),
        forall|i: int|
            0 <= i < rows@.len() ==> #[trigger] key_loaded(rows@[i], supplier_id, keys@[i]),
{
    let mut keys: Vec<ApiKeyConfig> = Vec::new();
    let mut i: usize = 0;
    while i < rows.len()
        invariant
            i <= rows@.len(),
            keys@.len() == i,
            forall|j: int|
                0 <= j < i ==> #[trigger] key_loaded(rows@[j], supplier_id, keys@[j]),
        decreases rows@.len() - i,
    {
        let row = &rows[i];
        let key = ApiKeyConfig {
            id: row.id,
            base_url_id: supplier_id,
            api_key: row.api_key.clone(),
            sort_order: row.sort_order,
            manually_disabled: row.manually_disabled != 0,
            test_model: row.test_model.clone(),
            test_protocol: TestProtocol::from_saved(row.test_protocol.as_str()),
        };
        let ghost before = keys@;
        keys.push(key);
        assert forall|j: int| 0 <= j < i + 1 implies #[trigger] key_loaded(
            rows@[j],
            supplier_id,
            keys@[j],
        ) by {
            if j < i {
                assert(key_loaded(rows@[j], supplier_id, before[j]));
            }
        }
        i = i + 1;
    }
    keys
}

fn load_image_keys(rows: &Vec<ImageKeyRow>, supplier_id: i64) -> (keys: Vec<ApiKeyConfig>)
    ensures
        keys@.len() == rows@.len(),
        forall|i: int|
            0 <= i < rows@.len() ==> #[trigger] image_key_loaded(rows@[i], supplier_id, keys@[i]),
{
    let mut keys: Vec<ApiKeyConfig> = Vec::new();
    let mut i: usize = 0;
    while i < rows.len()
        invariant
            i <= rows@.len(),
            keys@.len() == i,
            forall|j: int|
                0 <= j < i ==> #[trigger] image_key_loaded(rows@[j], supplier_id, keys@[j]),
        decreases rows@.len() - i,
    {
        let row = &rows[i];
        let key = ApiKeyConfig {
            id: row.id,
            base_url_id: supplier_id,
            api_key: row.api_key.clone(),
            sort_order: row.sort_order,
            manually_disabled: row.manually_disabled != 0,
            test_model: String::new(),
            test_protocol: None,
        };
        let ghost before = keys@;
        keys.push(key);
        assert forall|j: int| 0 <= j < i + 1 implies #[trigger] image_key_loaded(
            rows@[j],
            supplier_id,
            keys@[j],
        ) by {
            if j < i {
                assert(image_key_loaded(rows@[j], supplier_id, before[j]));
            }
        }
        i = i + 1;
    }
    keys
}

fn load_suppliers(rows: &Vec<SupplierRow>, pool_id: i64) -> (result: Result<
    Vec<BaseUrlConfig>,
    String,
>)
    ensures
        match result {
            Ok(suppliers) => {
                &&& suppliers_loadable(rows@)
                &&& suppliers@.len() == rows@.len()
                &&& forall|i: int|
                    0 <= i < rows@.len() ==> #[trigger] supplier_loaded(
                        rows@[i],
                        pool_id,
                        suppliers@[i],
                    )
            },
            Err(message) => {
                &&& !suppliers_loadable(rows@)
                &&& message@ == "protocol_mode must be chat, responses, or both"@
            },
        },
{
    let mut suppliers: Vec<BaseUrlConfig> = Vec::new();
    let mut i: usize = 0;
    while i < rows.len()
        invariant
            i <= rows@.len(),
            suppliers@.len() == i,
            forall|j: int|
                0 <= j < i ==> ProtocolMode::named((#[trigger] rows@[j]).protocol_mode@) is Some,
            forall|j: int|
                0 <= j < i ==> #[trigger] supplier_loaded(rows@[j], pool_id, suppliers@[j]),
        decreases rows@.len() - i,
    {
        let row = &rows[i];
        let protocol_mode = match ProtocolMode::from_str(row.protocol_mode.as_str()) {
            Ok(mode) => mode,
            Err(message) => {
                assert(ProtocolMode::named(rows@[i as int].protocol_mode@) is None);
                return Err(message);
            },
        };
        let supplier = BaseUrlConfig {
            id: row.id,
            pool_id,
            name: row.name.clone(),
            base_url: row.base_url.clone(),
            protocol_mode,
            override_model: row.override_model.clone(),
            sort_order: row.sort_order,
            api_keys: load_keys(&row.keys, row.id),
            image_keys: load_image_keys(&row.image_keys, row.id),
        };
        let ghost before = suppliers@;
        suppliers.push(supplier);
        assert forall|j: int| 0 <= j < i + 1 implies #[trigger] supplier_loaded(
            rows@[j],
            pool_id,
            suppliers@[j],
        ) by {
            if j < i {
                assert(supplier_loaded(rows@[j], pool_id, before[j]));
            }
        }
        i = i + 1;
    }
    Ok(suppliers)
}

/// The pools of all rows, in their order. A protocol that is not known fails the whole.
pub fn load_pools(rows: &Vec<PoolRow>) -> (result: Result<Vec<PoolConfig>, String>)
    ensures
        match result {
            Ok(pools) => {
                &&& forall|i: int|
                    0 <= i < rows@.len() ==> suppliers_loadable((#[trigger] rows@[i]).suppliers@)
                &&& pools@.len() == rows@.len()
                &&& forall|i: int|
                    0 <= i < rows@.len() ==> #[trigger] pool_loaded(rows@[i], pools@[i])
            },
            Err(message) => {
                &&& exists|i: int|
                    0 <= i < rows@.len() && !suppliers_loadable((#[trigger] rows@[i]).suppliers@)
                &&& message@ == "protocol_mode must be chat, responses, or both"@
            },
        },
{
    let mut pools: Vec<PoolConfig> = Vec::new();
    let mut i: usize = 0;
    while i < rows.len()
        invariant
            i <= rows@.len(),
            pools@.len() == i,
            forall|j: int| 0 <= j < i ==> suppliers_loadable((#[trigger] rows@[j]).suppliers@),
            forall|j: int| 0 <= j < i ==> #[trigger] pool_loaded(rows@[j], pools@[j]),
        decreases rows@.len() - i,
    {
        let row = &rows[i];
        let base_urls = match load_suppliers(&row.suppliers, row.id) {
            Ok(suppliers) => suppliers,
            Err(message) => {
                assert(!suppliers_loadable(rows@[i as int].suppliers@));
                return Err(message);
            },
        };
        let ghost before = pools@;
        pools.push(
            PoolConfig {
                id: row.id,
                name: row.name.clone(),
                note: row.note.clone(),
                is_active: row.is_active != 0,
                base_urls,
            },
        );
        assert forall|j: int| 0 <= j < i + 1 implies #[trigger] pool_loaded(
            rows@[j],
            pools@[j],
        ) by {
            if j < i {
                assert(pool_loaded(rows@[j], before[j]));
            }
        }
        i = i + 1;
    }
    Ok(pools)
}

/// The access keys of all rows, in their order; a row that cannot be read fails the whole.
pub fn load_access_keys(rows: Vec<Result<AccessKeyConfig, String>>) -> (result: Result<
    Vec<AccessKeyConfig>,
    String,
>)
    ensures
        match result {
            Ok(access_keys) => {
                &&& access_keys@.len() == rows@.len()
                &&& forall|i: int|
                    0 <= i < rows@.len() ==> (#[trigger] rows@[i]) == Ok::<AccessKeyConfig, String>(
                        access_keys@[i],
                    )
            },
            Err(message) => exists|i: int|
                {
                    &&& 0 <= i < rows@.len()
                    &&& (#[trigger] rows@[i]) matches Err(reason)
                    &&& message@ == "Failed to decode access key row: "@ + reason@
                    &&& forall|j: int| 0 <= j < i ==> (#[trigger] rows@[j]) is Ok
                },
        },
{
    let ghost all = rows@;
    let mut access_keys: Vec<AccessKeyConfig> = Vec::new();
    for row in it: rows
        invariant
            it.seq() == all,
            access_keys@.len() == it.index(),
            forall|j: int|
                0 <= j < it.index() ==> (#[trigger] all[j]) == Ok::<AccessKeyConfig, String>(
                    access_keys@[j],
                ),
    {
        match row {
            Ok(access_key) => {
                access_keys.push(access_key);
            },
            Err(reason) => {
                assert(all[it.index() as int] == Err::<AccessKeyConfig, String>(reason));
                return Err(concat2("Failed to decode access key row: ", reason.as_str()));
            },
        }
    }
    Ok(access_keys)
}

} // verus!
