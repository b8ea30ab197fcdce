//! Saving a pool whole: what is written, what is deleted, and which keys are forgotten.

use vstd::prelude::*;

use crate::answer;
use crate::answer::{json_error, Refusal, RefusalView, BAD_REQUEST, NOT_FOUND};
use crate::config::ProtocolMode;
use crate::payload::{PreparedApiKeySave, PreparedProxySave, PreparedSupplierSave};
use crate::text;
use crate::text::same;
use crate::usage::contains_id;

verus! {

/// A key that a supplier has.
pub struct StoredKey {
    pub id: i64,
    pub supplier_id: i64,
    pub api_key: String,
}

/// What is stored of a pool that is to be saved.
pub struct StoredPool {
    /// Another pool has the name.
    pub name_taken: bool,
    /// The pool that is to be saved is there.
    pub exists: bool,
    /// How many pools there are.
    pub pool_count: i64,
    pub supplier_ids: Vec<i64>,
    pub keys: Vec<StoredKey>,
    pub image_keys: Vec<StoredKey>,
}

/// How the pool itself is written.
#[derive(Clone, Copy, Debug, PartialEq, Eq, Structural)]
pub enum PoolWrite {
    /// In place of the pool of that id.
    Update { id: i64 },
    /// As a new pool, in front of the others.
    Insert { is_active: bool },
}

/// A key as it is written: in place of the key of that id, or as a new one.
pub struct KeyWrite {
    pub id: Option<i64>,
    pub api_key: String,
    pub sort_order: i64,
}

/// A supplier as it is written: in place of the supplier of that id, or as a new one.
pub struct SupplierWrite {
    pub id: Option<i64>,
    pub name: String,
    pub base_url: String,
    pub protocol: ProtocolMode,
    pub override_model: String,
    pub sort_order: i64,
    pub keys: Vec<KeyWrite>,
    pub deleted_keys: Vec<i64>,
    pub image_keys: Vec<KeyWrite>,
    pub deleted_image_keys: Vec<i64>,
}

/// All that is written, and which keys are forgotten then.
pub struct SavePlan {
    pub pool: PoolWrite,
    pub name: String,
    pub note: String,
    pub suppliers: Vec<SupplierWrite>,
    pub deleted_suppliers: Vec<i64>,
    pub forgotten_keys: Vec<i64>,
    pub forgotten_image_keys: Vec<i64>,
}

/// The key of that id that the supplier has.
pub open spec fn stored_key(stored: Seq<StoredKey>, supplier_id: i64, id: i64) -> Option<Seq<char>>
    decreases stored.len(),
{
    if stored.len() == 0 {
        None
    } else if stored.last().supplier_id == supplier_id && stored.last().id == id {
        Some(stored.last().api_key@)
    } else {
        stored_key(stored.drop_last(), supplier_id, id)
    }
}

/// The key of that id, where the supplier is one that there is.
pub open spec fn known_key(stored: Seq<StoredKey>, supplier_id: Option<i64>, id: i64) -> Option<
    Seq<char>,
> {
    match supplier_id {
        Some(supplier_id) => stored_key(stored, supplier_id, id),
        None => None,
    }
}

fn find_stored_key<'a>(stored: &'a Vec<StoredKey>, supplier_id: i64, id: i64) -> (found: Option<
    &'a str,
>)
    ensures
        text::opt_str_view(found) == stored_key(stored@, supplier_id, id),
{
    let mut n: usize = stored.len();
    assert(stored@.take(n as int) =~= stored@);
    while n > 0
        invariant
            n <= stored@.len(),
            stored_key(stored@, supplier_id, id) == stored_key(
                stored@.take(n as int),
                supplier_id,
                id,
            ),
        decreases n,
    {
        assert(stored@.take(n as int).drop_last() =~= stored@.take(n - 1));
        assert(stored@.take(n as int).last() == stored@[n - 1]);
        if stored[n - 1].supplier_id == supplier_id && stored[n - 1].id == id {
            return Some(stored[n - 1].api_key.as_str());
        }
        n = n - 1;
    }
    None
}

/// The words with which keys, or keys for images, are refused.
pub ghost struct KeyWords {
    pub missing: Seq<char>,
    pub doubled: Seq<char>,
}

pub open spec fn key_words() -> KeyWords {
    KeyWords { missing: "api_key not found"@, doubled: "duplicate api_key id in payload"@ }
}

pub open spec fn image_key_words() -> KeyWords {
    KeyWords {
        missing: "image_api_key not found"@,
        doubled: "duplicate image_api_key id in payload"@,
    }
}

/// Why a key cannot be written: it is to replace one that the supplier does not have, or one that
/// an earlier one replaces.
pub open spec fn key_refusal(
    keys: Seq<PreparedApiKeySave>,
    supplier_id: Option<i64>,
    stored: Seq<StoredKey>,
    words: KeyWords,
    i: int,
) -> Option<Seq<char>> {
    match keys[i].id {
        Some(id) => if known_key(stored, supplier_id, id) is None {
            Some(words.missing)
        } else if exists|j: int| 0 <= j < i && (#[trigger] keys[j]).id == Some(id) {
            Some(words.doubled)
        } else {
            None
        },
        None => None,
    }
}

/// Why the first `n` keys cannot be written.
pub open spec fn keys_refusal(
    keys: Seq<PreparedApiKeySave>,
    supplier_id: Option<i64>,
    stored: Seq<StoredKey>,
    words: KeyWords,
    n: nat,
) -> Option<Seq<char>>
    decreases n,
{
    if n == 0 {
        None
    } else {
        match keys_refusal(keys, supplier_id, stored, words, (n - 1) as nat) {
            Some(message) => Some(message),
            None => key_refusal(keys, supplier_id, stored, words, n - 1),
        }
    }
}

/// Why a supplier cannot be written: it is to replace one that the pool does not have, or one that
/// an earlier one replaces, or a key of it cannot be written.
pub open spec fn supplier_refusal(
    suppliers: Seq<PreparedSupplierSave>,
    stored: StoredPool,
    i: int,
) -> Option<Seq<char>> {
    let supplier = suppliers[i];
    let keys = keys_refusal(
        supplier.keys@,
        supplier.id,
        stored.keys@,
        key_words(),
        supplier.keys@.len(),
    );
    let image_keys = keys_refusal(
        supplier.image_keys@,
        supplier.id,
        stored.image_keys@,
        image_key_words(),
        supplier.image_keys@.len(),
    );
    let own = match supplier.id {
        Some(id) => if !stored.supplier_ids@.contains(id) {
            Some("supplier not found"@)
        } else if exists|j: int| 0 <= j < i && (#[trigger] suppliers[j]).id == Some(id) {
            Some("duplicate supplier id in payload"@)
        } else {
            None
        },
        None => None,
    };
    match own {
        Some(message) => Some(message),
        None => match keys {
            Some(message) => Some(message),
            None => image_keys,
        },
    }
}

/// Why the first `n` suppliers cannot be written.
pub open spec fn suppliers_refusal(
    suppliers: Seq<PreparedSupplierSave>,
    stored: StoredPool,
    n: nat,
) -> Option<Seq<char>>
    decreases n,
{
    if n == 0 {
        None
    } else {
        match suppliers_refusal(suppliers, stored, (n - 1) as nat) {
            Some(message) => Some(message),
            None => supplier_refusal(suppliers, stored, n - 1),
        }
    }
}

/// Why a pool cannot be saved.
pub open spec fn save_refusal(
    pool_id: Option<i64>,
    draft: PreparedProxySave,
    stored: StoredPool,
) -> Option<RefusalView> {
    if stored.name_taken {
        Some(answer::json_refusal(BAD_REQUEST, "proxy name already exists"@))
    } else if pool_id is Some && !stored.exists {
        Some(answer::json_refusal(NOT_FOUND, "proxy not found"@))
    } else {
        match suppliers_refusal(draft.suppliers@, stored, draft.suppliers@.len()) {
            Some(message) => Some(answer::json_refusal(BAD_REQUEST, message)),
            None => None,
        }
    }
}

/// One of the keys is to replace the key of that id.
pub open spec fn replaces_key(keys: Seq<PreparedApiKeySave>, id: i64) -> bool {
    exists|j: int| 0 <= j < keys.len() && (#[trigger] keys[j]).id == Some(id)
}

/// One of the suppliers is to replace the supplier of that id.
pub open spec fn replaces_supplier(suppliers: Seq<PreparedSupplierSave>, id: i64) -> bool {
    exists|i: int| 0 <= i < suppliers.len() && (#[trigger] suppliers[i]).id == Some(id)
}

/// One of the keys is the key of that id, as it is stored.
pub open spec fn keeps_key(keys: Seq<PreparedApiKeySave>, id: i64, api_key: Seq<char>) -> bool {
    exists|j: int|
        0 <= j < keys.len() && (#[trigger] keys[j]).id == Some(id) && keys[j].api_key@ == api_key
}

/// The keys, or the keys for images, of a supplier.
pub open spec fn keys_of(supplier: PreparedSupplierSave, images: bool) -> Seq<PreparedApiKeySave> {
    if images {
        supplier.image_keys@
    } else {
        supplier.keys@
    }
}

/// A stored key stays as it is: its supplier stays, and has it with the same text.
pub open spec fn stays(
    suppliers: Seq<PreparedSupplierSave>,
    images: bool,
    supplier_id: i64,
    id: i64,
    api_key: Seq<char>,
) -> bool {
    exists|i: int|
        0 <= i < suppliers.len() && (#[trigger] suppliers[i]).id == Some(supplier_id) && keeps_key(
            keys_of(suppliers[i], images),
            id,
            api_key,
        )
}

/// The keys that are deleted from a supplier: those that it has and that no key replaces.
pub open spec fn deleted_from(
    keys: Seq<PreparedApiKeySave>,
    supplier_id: Option<i64>,
    stored: Seq<StoredKey>,
) -> Set<i64> {
    Set::new(|id: i64| known_key(stored, supplier_id, id) is Some && !replaces_key(keys, id))
}

/// The keys that are forgotten: those that are changed or deleted, or go with their supplier.
pub open spec fn forgotten(
    suppliers: Seq<PreparedSupplierSave>,
    images: bool,
    supplier_ids: Seq<i64>,
    stored: Seq<StoredKey>,
) -> Set<i64> {
    Set::new(
        |id: i64|
            exists|supplier_id: i64|
                {
                    &&& supplier_ids.contains(supplier_id)
                    &&& #[trigger] stored_key(stored, supplier_id, id) matches Some(api_key)
                    &&& !stays(suppliers, images, supplier_id, id, api_key)
                },
    )
}

/// Keys are written as they were sent, in their order.
pub open spec fn writes_keys(keys: Seq<PreparedApiKeySave>, writes: Seq<KeyWrite>) -> bool {
    &&& writes.len() == keys.len()
    &&& forall|i: int|
        0 <= i < keys.len() ==> {
            &&& (#[trigger] writes[i]).id == keys[i].id
            &&& writes[i].api_key@ == keys[i].api_key@
            &&& writes[i].sort_order == i as i64
        }
}

/// A list of ids holds just those of a set, and each once.
pub open spec fn lists(ids: Seq<i64>, set: Set<i64>) -> bool {
    &&& ids.no_duplicates()
    &&& forall|id: i64| #[trigger] ids.contains(id) <==> set.contains(id)
}

/// A supplier is written as it was sent, in its place, and the keys that it had and that no key
/// replaces are deleted.
pub open spec fn writes_supplier(
    supplier: PreparedSupplierSave,
    stored: StoredPool,
    order: int,
    write: SupplierWrite,
) -> bool {
    &&& write.id == supplier.id
    &&& write.name@ == supplier.name@
    &&& write.base_url@ == supplier.base_url@
    &&& write.protocol == supplier.protocol
    &&& write.override_model@ == supplier.override_model@
    &&& write.sort_order == order as i64
    &&& writes_keys(supplier.keys@, write.keys@)
    &&& lists(write.deleted_keys@, deleted_from(supplier.keys@, supplier.id, stored.keys@))
    &&& writes_keys(supplier.image_keys@, write.image_keys@)
    &&& lists(
        write.deleted_image_keys@,
        deleted_from(supplier.image_keys@, supplier.id, stored.image_keys@),
    )
}

/// The suppliers that are deleted: those that no supplier replaces.
pub open spec fn deleted_suppliers(
    suppliers: Seq<PreparedSupplierSave>,
    stored: StoredPool,
) -> Set<i64> {
    Set::new(|id: i64| stored.supplier_ids@.contains(id) && !replaces_supplier(suppliers, id))
}

/// A pool is written as it was sent. The first pool that there is becomes the active one.
pub open spec fn writes_pool(
    pool_id: Option<i64>,
    draft: PreparedProxySave,
    stored: StoredPool,
    plan: SavePlan,
) -> bool {
    let suppliers = draft.suppliers@;
    &&& plan.pool == match pool_id {
        Some(id) => PoolWrite::Update { id },
        None => PoolWrite::Insert { is_active: stored.pool_count == 0 },
    }
    &&& plan.name@ == draft.name@
    &&& plan.note@ == draft.note@
    &&& plan.suppliers@.len() == suppliers.len()
    &&& forall|i: int|
        0 <= i < suppliers.len() ==> #[trigger] writes_supplier(
            suppliers[i],
            stored,
            i,
            plan.suppliers@[i],
        )
    &&& lists(plan.deleted_suppliers@, deleted_suppliers(suppliers, stored))
    &&& lists(
        plan.forgotten_keys@,
        forgotten(suppliers, false, stored.supplier_ids@, stored.keys@),
    )
    &&& lists(
        plan.forgotten_image_keys@,
        forgotten(suppliers, true, stored.supplier_ids@, stored.image_keys@),
    )
}

fn has_key_id(keys: &Vec<PreparedApiKeySave>, id: i64, n: usize) -> (found: bool)
    requires
        n <= keys@.len(),
    ensures
        found == exists|j: int| 0 <= j < n && (#[trigger] keys@[j]).id == Some(id),
{
    let mut i: usize = 0;
    while i < n
        invariant
            i <= n <= keys@.len(),
            forall|j: int| 0 <= j < i ==> (#[trigger] keys@[j]).id != Some(id),
        decreases n - i,
    {
        if let Some(other) = keys[i].id {
            if other == id {
                assert(keys@[i as int].id == Some(id));
                return true;
            }
        }
        i = i + 1;
    }
    false
}

fn has_supplier_id(suppliers: &Vec<PreparedSupplierSave>, id: i64, n: usize) -> (found: bool)
    requires
        n <= suppliers@.len(),
    ensures
        found == exists|j: int| 0 <= j < n && (#[trigger] suppliers@[j]).id == Some(id),
{
    let mut i: usize = 0;
    while i < n
        invariant
            i <= n <= suppliers@.len(),
            forall|j: int| 0 <= j < i ==> (#[trigger] suppliers@[j]).id != Some(id),
        decreases n - i,
    {
        if let Some(other) = suppliers[i].id {
            if other == id {
                assert(suppliers@[i as int].id == Some(id));
                return true;
            }
        }
        i = i + 1;
    }
    false
}

proof fn keys_refusal_stays(
    keys: Seq<PreparedApiKeySave>,
    supplier_id: Option<i64>,
    stored: Seq<StoredKey>,
    words: KeyWords,
    m: nat,
    n: nat,
)
    requires
        m <= n,
        keys_refusal(keys, supplier_id, stored, words, m) is Some,
    ensures
        keys_refusal(keys, supplier_id, stored, words, n) == keys_refusal(
            keys,
            supplier_id,
            stored,
            words,
            m,
        ),
    decreases n,
{
    if m < n {
        keys_refusal_stays(keys, supplier_id, stored, words, m, (n - 1) as nat);
    }
}

fn refuse_keys(
    keys: &Vec<PreparedApiKeySave>,
    supplier_id: Option<i64>,
    stored: &Vec<StoredKey>,
    missing: &'static str,
    doubled: &'static str,
    Ghost(words): Ghost<KeyWords>,
) -> (refusal: Option<&'static str>)
    requires
        words.missing == missing@,
        words.doubled == doubled@,
    ensures
        text::opt_str_view(refusal) == keys_refusal(
            keys@,
            supplier_id,
            stored@,
            words,
            keys@.len(),
        ),
{
    let mut i: usize = 0;
    while i < keys.len()
        invariant
            i <= keys@.len(),
            words.missing == missing@,
            words.doubled == doubled@,
            keys_refusal(keys@, supplier_id, stored@, words, i as nat) is None,
        decreases keys@.len() - i,
    {
        if let Some(id) = keys[i].id {
            proof {
                if key_refusal(keys@, supplier_id, stored@, words, i as int) is Some {
                    keys_refusal_stays(
                        keys@,
                        supplier_id,
                        stored@,
                        words,
                        (i + 1) as nat,
                        keys@.len(),
                    );
                }
            }
            let known = match supplier_id {
                Some(supplier_id) => find_stored_key(stored, supplier_id, id).is_some(),
                None => false,
            };
            if !known {
                return Some(missing);
            }
            if has_key_id(keys, id, i) {
                return Some(doubled);
            }
        }
        i = i + 1;
    }
    None
}

fn refuse_supplier(suppliers: &Vec<PreparedSupplierSave>, stored: &StoredPool, i: usize) -> (
    refusal: Option<&'static str>)
    requires
        i < suppliers@.len(),
    ensures
        text::opt_str_view(refusal) == supplier_refusal(suppliers@, *stored, i as int),
{
    let supplier = &suppliers[i];
    if let Some(id) = supplier.id {
        if !contains_id(&stored.supplier_ids, id) {
            return Some("supplier not found");
        }
        if has_supplier_id(suppliers, id, i) {
            return Some("duplicate supplier id in payload");
        }
    }
    let keys = refuse_keys(
        &supplier.keys,
        supplier.id,
        &stored.keys,
        "api_key not found",
        "duplicate api_key id in payload",
        Ghost(key_words()),
    );
    if keys.is_some() {
        return keys;
    }
    refuse_keys(
        &supplier.image_keys,
        supplier.id,
        &stored.image_keys,
        "image_api_key not found",
        "duplicate image_api_key id in payload",
        Ghost(image_key_words()),
    )
}

proof fn suppliers_refusal_stays(
    suppliers: Seq<PreparedSupplierSave>,
    stored: StoredPool,
    m: nat,
    n: nat,
)
    requires
        m <= n,
        suppliers_refusal(suppliers, stored, m) is Some,
    ensures
        suppliers_refusal(suppliers, stored, n) == suppliers_refusal(suppliers, stored, m),
    decreases n,
{
    if m < n {
        suppliers_refusal_stays(suppliers, stored, m, (n - 1) as nat);
    }
}

fn refuse_suppliers(suppliers: &Vec<PreparedSupplierSave>, stored: &StoredPool) -> (refusal: Option<
    &'static str,
>)
    ensures
        text::opt_str_view(refusal) == suppliers_refusal(
            suppliers@,
            *stored,
            suppliers@.len(),
        ),
{
    let mut i: usize = 0;
    while i < suppliers.len()
        invariant
            i <= suppliers@.len(),
            suppliers_refusal(suppliers@, *stored, i as nat) is None,
        decreases suppliers@.len() - i,
    {
        let refusal = refuse_supplier(suppliers, stored, i);
        if refusal.is_some() {
            proof {
                suppliers_refusal_stays(suppliers@, *stored, (i + 1) as nat, suppliers@.len());
            }
            return refusal;
        }
        i = i + 1;
    }
    None
}

fn write_keys(keys: &Vec<PreparedApiKeySave>) -> (writes: Vec<KeyWrite>)
    ensures
        writes_keys(keys@, writes@),
{
    let mut writes: Vec<KeyWrite> = Vec::new();
    let mut i: usize = 0;
    while i < keys.len()
        invariant
            i <= keys@.len(),
            writes@.len() == i,
            forall|j: int|
                0 <= j < i ==> {
                    &&& (#[trigger] writes@[j]).id == keys@[j].id
                    &&& writes@[j].api_key@ == keys@[j].api_key@
                    &&& writes@[j].sort_order == j as i64
                },
        decreases keys@.len() - i,
    {
        writes.push(
            KeyWrite { id: keys[i].id, api_key: keys[i].api_key.clone(), sort_order: i as i64 },
        );
        i = i + 1;
    }
    writes
}

/// Adds an id that is not on the list.
fn add_id(ids: &mut Vec<i64>, id: i64)
    requires
        old(ids)@.no_duplicates(),
    ensures
        final(ids)@.no_duplicates(),
        forall|other: i64| #[trigger]
            final(ids)@.contains(other) <==> (old(ids)@.contains(other) || other == id),
{
    if !contains_id(ids, id) {
        let ghost before = ids@;
        ids.push(id);
        proof {
            assert forall|other: i64| #[trigger] ids@.contains(other) <==> (before.contains(other)
                || other == id) by {
                if before.contains(other) {
                    let j = choose|j: int| 0 <= j < before.len() && before[j] == other;
                    assert(ids@[j] == other);
                }
                if other == id {
                    assert(ids@[before.len() as int] == other);
                }
            }
        }
    }
}

/// A key that a supplier has is on record.
proof fn stored_key_has_row(stored: Seq<StoredKey>, supplier_id: i64, id: i64)
    ensures
        stored_key(stored, supplier_id, id) is Some <==> exists|k: int|
            0 <= k < stored.len() && (#[trigger] stored[k]).supplier_id == supplier_id
                && stored[k].id == id,
    decreases stored.len(),
{
    if stored.len() > 0 {
        let last = stored.last();
        if last.supplier_id == supplier_id && last.id == id {
            assert(stored[stored.len() - 1].id == id);
        } else {
            stored_key_has_row(stored.drop_last(), supplier_id, id);
            if stored_key(stored, supplier_id, id) is Some {
                let k = choose|k: int|
                    0 <= k < stored.drop_last().len() && (
                    #[trigger] stored.drop_last()[k]).supplier_id == supplier_id
                        && stored.drop_last()[k].id == id;
                assert(stored[k].id == id);
            }
            if exists|k: int|
                0 <= k < stored.len() && (#[trigger] stored[k]).supplier_id == supplier_id
                    && stored[k].id == id {
                let k = choose|k: int|
                    0 <= k < stored.len() && (#[trigger] stored[k]).supplier_id == supplier_id
                        && stored[k].id == id;
                assert(stored.drop_last()[k].id == id);
            }
        }
    }
}

fn delete_keys(
    keys: &Vec<PreparedApiKeySave>,
    supplier_id: Option<i64>,
    stored: &Vec<StoredKey>,
) -> (ids: Vec<i64>)
    ensures
        lists(ids@, deleted_from(keys@, supplier_id, stored@)),
{
    let mut ids: Vec<i64> = Vec::new();
    let supplier_id = match supplier_id {
        Some(supplier_id) => supplier_id,
        None => {
            return ids;
        },
    };
    let mut i: usize = 0;
    while i < stored.len()
        invariant
            i <= stored@.len(),
            ids@.no_duplicates(),
            forall|id: i64| #[trigger]
                ids@.contains(id) <==> ((exists|k: int|
                    0 <= k < i && (#[trigger] stored@[k]).supplier_id == supplier_id
                        && stored@[k].id == id) && !replaces_key(keys@, id)),
        decreases stored@.len() - i,
    {
        let row = &stored[i];
        if row.supplier_id == supplier_id && !has_key_id(keys, row.id, keys.len()) {
            add_id(&mut ids, row.id);
        }
        assert forall|id: i64| #[trigger]
            ids@.contains(id) <==> ((exists|k: int|
                0 <= k < i + 1 && (#[trigger] stored@[k]).supplier_id == supplier_id
                    && stored@[k].id == id) && !replaces_key(keys@, id)) by {
            if row.id == id && row.supplier_id == supplier_id {
                assert(stored@[i as int].id == id);
            }
        }
        i = i + 1;
    }
    proof {
        assert forall|id: i64| #[trigger] ids@.contains(id) <==> deleted_from(
            keys@,
            Some(supplier_id),
            stored@,
        ).contains(id) by {
            stored_key_has_row(stored@, supplier_id, id);
        }
    }
    ids
}

fn write_supplier(supplier: &PreparedSupplierSave, stored: &StoredPool, order: usize) -> (write:
    SupplierWrite)
    ensures
        writes_supplier(*supplier, *stored, order as int, write),
{
    SupplierWrite {
        id: supplier.id,
        name: supplier.name.clone(),
        base_url: supplier.base_url.clone(),
        protocol: supplier.protocol,
        override_model: supplier.override_model.clone(),
        sort_order: order as i64,
        keys: write_keys(&supplier.keys),
        deleted_keys: delete_keys(&supplier.keys, supplier.id, &stored.keys),
        image_keys: write_keys(&supplier.image_keys),
        deleted_image_keys: delete_keys(&supplier.image_keys, supplier.id, &stored.image_keys),
    }
}

fn delete_suppliers(suppliers: &Vec<PreparedSupplierSave>, stored: &StoredPool) -> (ids: Vec<i64>)
    ensures
        lists(ids@, deleted_suppliers(suppliers@, *stored)),
{
    let mut ids: Vec<i64> = Vec::new();
    let mut i: usize = 0;
    while i < stored.supplier_ids.len()
        invariant
            i <= stored.supplier_ids@.len(),
            ids@.no_duplicates(),
            forall|id: i64| #[trigger]
                ids@.contains(id) <==> ((exists|k: int|
                    0 <= k < i && #[trigger] stored.supplier_ids@[k] == id) && !replaces_supplier(
                    suppliers@,
                    id,
                )),
        decreases stored.supplier_ids@.len() - i,
    {
        let supplier_id: i64 = stored.supplier_ids[i];
        if !has_supplier_id(suppliers, supplier_id, suppliers.len()) {
            add_id(&mut ids, supplier_id);
        }
        assert forall|id: i64| #[trigger]
            ids@.contains(id) <==> ((exists|k: int|
                0 <= k < i + 1 && #[trigger] stored.supplier_ids@[k] == id) && !replaces_supplier(
                suppliers@,
                id,
            )) by {
            if supplier_id == id {
                assert(stored.supplier_ids@[i as int] == id);
            }
        }
        i = i + 1;
    }
    ids
}

fn key_is_kept(keys: &Vec<PreparedApiKeySave>, id: i64, api_key: &str) -> (kept: bool)
    ensures
        kept == keeps_key(keys@, id, api_key@),
{
    let mut i: usize = 0;
    while i < keys.len()
        invariant
            i <= keys@.len(),
            forall|j: int|
                0 <= j < i ==> !((#[trigger] keys@[j]).id == Some(id) && keys@[j].api_key@
                    == api_key@),
        decreases keys@.len() - i,
    {
        if let Some(other) = keys[i].id {
            if other == id && same(keys[i].api_key.as_str(), api_key) {
                assert(keys@[i as int].id == Some(id));
                return true;
            }
        }
        i = i + 1;
    }
    false
}

fn key_stays(
    suppliers: &Vec<PreparedSupplierSave>,
    images: bool,
    supplier_id: i64,
    id: i64,
    api_key: &str,
) -> (kept: bool)
    ensures
        kept == stays(suppliers@, images, supplier_id, id, api_key@),
{
    let mut i: usize = 0;
    while i < suppliers.len()
        invariant
            i <= suppliers@.len(),
            forall|j: int|
                0 <= j < i ==> !((#[trigger] suppliers@[j]).id == Some(supplier_id) && keeps_key(
                    keys_of(suppliers@[j], images),
                    id,
                    api_key@,
                )),
        decreases suppliers@.len() - i,
    {
        let supplier = &suppliers[i];
        if let Some(other) = supplier.id {
            if other == supplier_id {
                let kept = if images {
                    key_is_kept(&supplier.image_keys, id, api_key)
                } else {
                    key_is_kept(&supplier.keys, id, api_key)
                };
                if kept {
                    assert(suppliers@[i as int].id == Some(supplier_id));
                    return true;
                }
            }
        }
        i = i + 1;
    }
    false
}

/// A key of one supplier is forgotten.
spec fn forgotten_at(
    suppliers: Seq<PreparedSupplierSave>,
    images: bool,
    stored: Seq<StoredKey>,
    supplier_id: i64,
    id: i64,
) -> bool {
    stored_key(stored, supplier_id, id) matches Some(api_key) && !stays(
        suppliers,
        images,
        supplier_id,
        id,
        api_key,
    )
}

fn forget_keys(
    suppliers: &Vec<PreparedSupplierSave>,
    images: bool,
    supplier_ids: &Vec<i64>,
    stored: &Vec<StoredKey>,
) -> (ids: Vec<i64>)
    ensures
        lists(ids@, forgotten(suppliers@, images, supplier_ids@, stored@)),
{
    let mut ids: Vec<i64> = Vec::new();
    let mut i: usize = 0;
    while i < stored.len()
        invariant
            i <= stored@.len(),
            ids@.no_duplicates(),
            forall|id: i64| #[trigger]
                ids@.contains(id) <==> exists|k: int|
                    0 <= k < i && (#[trigger] stored@[k]).id == id && supplier_ids@.contains(
                        stored@[k].supplier_id,
                    ) && forgotten_at(suppliers@, images, stored@, stored@[k].supplier_id, id),
        decreases stored@.len() - i,
    {
        let row = &stored[i];
        let ghost before = ids@;
        if contains_id(supplier_ids, row.supplier_id) {
            if let Some(api_key) = find_stored_key(stored, row.supplier_id, row.id) {
                if !key_stays(suppliers, images, row.supplier_id, row.id, api_key) {
                    add_id(&mut ids, row.id);
                }
            }
        }
        assert forall|id: i64| #[trigger]
            ids@.contains(id) <==> exists|k: int|
                0 <= k < i + 1 && (#[trigger] stored@[k]).id == id && supplier_ids@.contains(
                    stored@[k].supplier_id,
                ) && forgotten_at(suppliers@, images, stored@, stored@[k].supplier_id, id) by {
            if ids@.contains(id) && !before.contains(id) {
                assert(stored@[i as int].id == id);
            }
            if before.contains(id) {
                let k = choose|k: int|
                    0 <= k < i && (#[trigger] stored@[k]).id == id && supplier_ids@.contains(
                        stored@[k].supplier_id,
                    ) && forgotten_at(suppliers@, images, stored@, stored@[k].supplier_id, id);
                assert(stored@[k].id == id);
            }
        }
        i = i + 1;
    }
    proof {
        let set = forgotten(suppliers@, images, supplier_ids@, stored@);
        assert forall|id: i64| #[trigger] ids@.contains(id) <==> set.contains(id) by {
            if ids@.contains(id) {
                let k = choose|k: int|
                    0 <= k < stored@.len() && (#[trigger] stored@[k]).id == id
                        && supplier_ids@.contains(stored@[k].supplier_id) && forgotten_at(
                        suppliers@,
                        images,
                        stored@,
                        stored@[k].supplier_id,
                        id,
                    );
                assert(stored_key(stored@, stored@[k].supplier_id, id) is Some);
            }
            if set.contains(id) {
                let supplier_id = choose|supplier_id: i64|
                    {
                        &&& supplier_ids@.contains(supplier_id)
                        &&& #[trigger] stored_key(stored@, supplier_id, id) matches Some(api_key)
                        &&& !stays(suppliers@, images, supplier_id, id, api_key)
                    };
                stored_key_has_row(stored@, supplier_id, id);
                let k = choose|k: int|
                    0 <= k < stored@.len() && (#[trigger] stored@[k]).supplier_id == supplier_id
                        && stored@[k].id == id;
                assert(forgotten_at(suppliers@, images, stored@, stored@[k].supplier_id, id));
            }
        }
    }
    ids
}

/// How a pool is saved: in place of the one of that id, or as a new one. It is refused where its
/// name is taken, where it is not there, or where it is to replace a supplier or a key that it
/// does not have.
pub fn save_proxy_draft(
    pool_id: Option<i64>,
    draft: PreparedProxySave,
    stored: &StoredPool,
) -> (result: Result<SavePlan, Refusal>)
    ensures
        match result {
            Ok(plan) => {
                &&& save_refusal(pool_id, draft, *stored) is None
                &&& writes_pool(pool_id, draft, *stored, plan)
            },
            Err(refusal) => save_refusal(pool_id, draft, *stored) == Some(refusal@),
        },
{
    if stored.name_taken {
        return Err(json_error(BAD_REQUEST, "proxy name already exists".to_string()));
    }
    if pool_id.is_some() && !stored.exists {
        return Err(json_error(NOT_FOUND, "proxy not found".to_string()));
    }
    if let Some(message) = refuse_suppliers(&draft.suppliers, stored) {
        return Err(json_error(BAD_REQUEST, message.to_string()));
    }
    let ghost sent = draft.suppliers@;
    let mut suppliers: Vec<SupplierWrite> = Vec::new();
    let mut i: usize = 0;
    while i < draft.suppliers.len()
        invariant
            sent == draft.suppliers@,
            i <= sent.len(),
            suppliers@.len() == i,
            forall|j: int|
                0 <= j < i ==> #[trigger] writes_supplier(sent[j], *stored, j, suppliers@[j]),
        decreases sent.len() - i,
    {
        let ghost before = suppliers@;
        suppliers.push(write_supplier(&draft.suppliers[i], stored, i));
        assert forall|j: int| 0 <= j < i + 1 implies #[trigger] writes_supplier(
            sent[j],
            *stored,
            j,
            suppliers@[j],
        ) by {
            if j < i {
                assert(writes_supplier(sent[j], *stored, j, before[j]));
            }
        }
        i = i + 1;
    }
    let deleted_suppliers = delete_suppliers(&draft.suppliers, stored);
    let forgotten_keys = forget_keys(&draft.suppliers, false, &stored.supplier_ids, &stored.keys);
    let forgotten_image_keys = forget_keys(
        &draft.suppliers,
        true,
        &stored.supplier_ids,
        &stored.image_keys,
    );
    let pool = match pool_id {
        Some(id) => PoolWrite::Update { id },
        None => PoolWrite::Insert { is_active: stored.pool_count == 0 },
    };
    Ok(
        SavePlan {
            pool,
            name: draft.name,
            note: draft.note,
            suppliers,
            deleted_suppliers,
            forgotten_keys,
            forgotten_image_keys,
        },
    )
}

/// Each key that a pool has is accounted for: its supplier is deleted, or it is deleted from its
/// supplier, or it is replaced there, and just one of these.
pub proof fn stored_keys_are_accounted_for(
    pool_id: Option<i64>,
    draft: PreparedProxySave,
    stored: StoredPool,
    plan: SavePlan,
    supplier_id: i64,
    id: i64,
)
    requires
        writes_pool(pool_id, draft, stored, plan),
        stored.supplier_ids@.contains(supplier_id),
        stored_key(stored.keys@, supplier_id, id) is Some,
    ensures
        plan.deleted_suppliers@.contains(supplier_id) <==> !replaces_supplier(
            draft.suppliers@,
            supplier_id,
        ),
        forall|i: int|
            0 <= i < plan.suppliers@.len() && (#[trigger] plan.suppliers@[i]).id == Some(
                supplier_id,
            ) ==> (plan.suppliers@[i].deleted_keys@.contains(id) <==> !(exists|j: int|
                0 <= j < plan.suppliers@[i].keys@.len() && (
                #[trigger] plan.suppliers@[i].keys@[j]).id == Some(id))),
{
    assert forall|i: int|
        0 <= i < plan.suppliers@.len() && (#[trigger] plan.suppliers@[i]).id == Some(
            supplier_id,
        ) implies (plan.suppliers@[i].deleted_keys@.contains(id) <==> !(exists|j: int|
        0 <= j < plan.suppliers@[i].keys@.len() && (#[trigger] plan.suppliers@[i].keys@[j]).id
            == Some(id))) by {
        let supplier = draft.suppliers@[i];
        let write = plan.suppliers@[i];
        assert(writes_supplier(supplier, stored, i, write));
        assert(write.deleted_keys@.contains(id) <==> !replaces_key(supplier.keys@, id));
        if replaces_key(supplier.keys@, id) {
            let j = choose|j: int|
                0 <= j < supplier.keys@.len() && (#[trigger] supplier.keys@[j]).id == Some(id);
            assert(write.keys@[j].id == Some(id));
        }
        if exists|j: int| 0 <= j < write.keys@.len() && (#[trigger] write.keys@[j]).id == Some(id) {
            let j = choose|j: int|
                0 <= j < write.keys@.len() && (#[trigger] write.keys@[j]).id == Some(id);
            assert(supplier.keys@[j].id == Some(id));
        }
    }
}

/// The keys, or the keys for images, that a pool has.
pub open spec fn stored_kind(stored: StoredPool, images: bool) -> Seq<StoredKey> {
    if images {
        stored.image_keys@
    } else {
        stored.keys@
    }
}

/// A key that stays as it is keeps its failures and its ban; one that is changed or deleted loses
/// them. So it is with the keys for images.
pub proof fn only_changed_keys_are_forgotten(
    pool_id: Option<i64>,
    draft: PreparedProxySave,
    stored: StoredPool,
    plan: SavePlan,
    images: bool,
    supplier_id: i64,
    id: i64,
)
    requires
        writes_pool(pool_id, draft, stored, plan),
        stored.supplier_ids@.contains(supplier_id),
        stored_key(stored_kind(stored, images), supplier_id, id) is Some,
        forall|other: i64|
            other != supplier_id ==> (#[trigger] stored_key(
                stored_kind(stored, images),
                other,
                id,
            )) is None,
    ensures
        ({
            let forgotten_ids = if images {
                plan.forgotten_image_keys@
            } else {
                plan.forgotten_keys@
            };
            forgotten_ids.contains(id) <==> !stays(
                draft.suppliers@,
                images,
                supplier_id,
                id,
                stored_key(stored_kind(stored, images), supplier_id, id)->0,
            )
        }),
{
    let keys = stored_kind(stored, images);
    let set = forgotten(draft.suppliers@, images, stored.supplier_ids@, keys);
    let api_key = stored_key(keys, supplier_id, id)->0;
    if !stays(draft.suppliers@, images, supplier_id, id, api_key) {
        assert(set.contains(id));
    }
    if set.contains(id) {
        let other = choose|other: i64|
            {
                &&& stored.supplier_ids@.contains(other)
                &&& #[trigger] stored_key(keys, other, id) matches Some(text)
                &&& !stays(draft.suppliers@, images, other, id, text)
            };
        assert(other == supplier_id);
    }
}

/// A new pool deletes nothing and forgets nothing.
pub proof fn new_pool_deletes_nothing(draft: PreparedProxySave, stored: StoredPool, plan: SavePlan)
    requires
        writes_pool(None, draft, stored, plan),
        stored.supplier_ids@.len() == 0,
    ensures
        plan.deleted_suppliers@.len() == 0,
        plan.forgotten_keys@.len() == 0,
        plan.forgotten_image_keys@.len() == 0,
{
    if plan.deleted_suppliers@.len() > 0 {
        assert(plan.deleted_suppliers@.contains(plan.deleted_suppliers@[0]));
    }
    if plan.forgotten_keys@.len() > 0 {
        assert(plan.forgotten_keys@.contains(plan.forgotten_keys@[0]));
    }
    if plan.forgotten_image_keys@.len() > 0 {
        assert(plan.forgotten_image_keys@.contains(plan.forgotten_image_keys@[0]));
    }
}

} // verus!
