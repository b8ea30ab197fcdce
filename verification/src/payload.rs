//! What an administrator sends: trimmed, checked, and refused where it cannot be saved.

use vstd::prelude::*;

use crate::config::{ProtocolMode, TestProtocol};
use crate::text;
use crate::text::same;
use crate::upstream;
use crate::upstream::{normalize_base_url, text_result_view};

verus! {

/// A pool as it is to be saved, with its suppliers and their keys.
pub struct ProxySavePayload {
    pub name: String,
    pub note: String,
    pub suppliers: Vec<SupplierSavePayload>,
}

/// A supplier as it is to be saved: one that there is, or a new one.
pub struct SupplierSavePayload {
    pub id: Option<i64>,
    pub name: String,
    pub base_url: String,
    pub protocol: ProtocolMode,
    pub override_model: String,
    pub keys: Vec<ApiKeySavePayload>,
    pub image_keys: Vec<ApiKeySavePayload>,
}

/// A key as it is to be saved: one that there is, or a new one.
pub struct ApiKeySavePayload {
    pub id: Option<i64>,
    pub api_key: String,
}

/// A pool that can be saved.
pub struct PreparedProxySave {
    pub name: String,
    pub note: String,
    pub suppliers: Vec<PreparedSupplierSave>,
}

/// A supplier that can be saved.
pub struct PreparedSupplierSave {
    pub id: Option<i64>,
    pub name: String,
    pub base_url: String,
    pub protocol: ProtocolMode,
    pub override_model: String,
    pub keys: Vec<PreparedApiKeySave>,
    pub image_keys: Vec<PreparedApiKeySave>,
}

/// A key that can be saved.
pub struct PreparedApiKeySave {
    pub id: Option<i64>,
    pub api_key: String,
}

/// A text without the blanks round it, which must leave something.
pub open spec fn required_text(value: Seq<char>, refusal: Seq<char>) -> Result<
    Seq<char>,
    Seq<char>,
> {
    if text::trim_view(value).len() == 0 {
        Err(refusal)
    } else {
        Ok(text::trim_view(value))
    }
}

fn require_text(value: &str, refusal: &str) -> (result: Result<String, String>)
    ensures
        text_result_view(result) == required_text(value@, refusal@),
{
    let value = value.trim();
    if value.is_empty() {
        Err(refusal.to_string())
    } else {
        Ok(value.to_string())
    }
}

/// The name of a pool.
pub fn normalize_pool_name(value: &str) -> (result: Result<String, String>)
    ensures
        text_result_view(result) == required_text(value@, "pool name must not be empty"@),
{
    require_text(value, "pool name must not be empty")
}

/// A note.
pub fn normalize_note(value: &str) -> (note: String)
    ensures
        note@ == text::trim_view(value@),
{
    value.trim().to_string()
}

/// A key of a supplier.
pub fn normalize_api_key(value: &str) -> (result: Result<String, String>)
    ensures
        text_result_view(result) == required_text(value@, "api_key must not be empty"@),
{
    require_text(value, "api_key must not be empty")
}

/// The name of an access key.
pub fn normalize_access_key_name(value: &str) -> (result: Result<String, String>)
    ensures
        text_result_view(result) == required_text(value@, "access key name must not be empty"@),
{
    require_text(value, "access key name must not be empty")
}

/// The model that a key is tested with.
pub fn normalize_test_model(value: &str) -> (result: Result<String, String>)
    ensures
        text_result_view(result) == required_text(value@, "model is required"@),
{
    require_text(value, "model is required")
}

/// A name, key or model is kept as it is when it is normalized again.
pub proof fn required_text_is_stable(value: Seq<char>, refusal: Seq<char>)
    requires
        required_text(value, refusal) is Ok,
    ensures
        required_text(required_text(value, refusal)->Ok_0, refusal) == required_text(
            value,
            refusal,
        ),
{
    text::trim_twice(value);
}

/// The protocol that a key is tested with: the only one that its supplier speaks, or the one that
/// was asked for.
pub open spec fn test_protocol_for(
    supplier: ProtocolMode,
    requested: Option<TestProtocol>,
) -> Result<TestProtocol, Seq<char>> {
    match supplier {
        ProtocolMode::Chat => if requested == Some(TestProtocol::Responses) {
            Err("supplier protocol only allows chat"@)
        } else {
            Ok(TestProtocol::Chat)
        },
        ProtocolMode::Responses => if requested == Some(TestProtocol::Chat) {
            Err("supplier protocol only allows responses"@)
        } else {
            Ok(TestProtocol::Responses)
        },
        ProtocolMode::Both => match requested {
            Some(protocol) => Ok(protocol),
            None => Err("protocol is required"@),
        },
    }
}

/// The protocol that a key is tested with.
pub fn resolve_test_protocol(
    supplier_protocol: &ProtocolMode,
    requested: Option<TestProtocol>,
) -> (result: Result<TestProtocol, String>)
    ensures
        match result {
            Ok(protocol) => test_protocol_for(*supplier_protocol, requested) == Ok::<
                TestProtocol,
                Seq<char>,
            >(protocol),
            Err(message) => test_protocol_for(*supplier_protocol, requested) == Err::<
                TestProtocol,
                Seq<char>,
            >(message@),
        },
{
    match supplier_protocol {
        ProtocolMode::Chat => match requested {
            Some(TestProtocol::Responses) => Err("supplier protocol only allows chat".to_string()),
            _ => Ok(TestProtocol::Chat),
        },
        ProtocolMode::Responses => match requested {
            Some(TestProtocol::Chat) => Err("supplier protocol only allows responses".to_string()),
            _ => Ok(TestProtocol::Responses),
        },
        ProtocolMode::Both => match requested {
            Some(protocol) => Ok(protocol),
            None => Err("protocol is required".to_string()),
        },
    }
}

/// A key is tested with a protocol that its supplier speaks.
pub proof fn test_protocol_is_served(supplier: ProtocolMode, requested: Option<TestProtocol>)
    ensures
        test_protocol_for(supplier, requested) matches Ok(protocol) ==> crate::config::serves(
            supplier,
            protocol.endpoint_view(),
        ),
{
}

/// Why a key cannot be saved behind those before it: it is empty, or there twice.
pub open spec fn key_fault(keys: Seq<ApiKeySavePayload>, i: int) -> Option<Seq<char>> {
    let key = text::trim_view(keys[i].api_key@);
    if key.len() == 0 {
        Some("api_key must not be empty"@)
    } else if exists|j: int| 0 <= j < i && text::trim_view((#[trigger] keys[j]).api_key@) == key {
        Some("api_key already exists in supplier"@)
    } else {
        None
    }
}

/// The first fault of the first `n` keys.
pub open spec fn first_key_fault(keys: Seq<ApiKeySavePayload>, n: nat) -> Option<Seq<char>>
    decreases n,
{
    if n == 0 {
        None
    } else {
        match first_key_fault(keys, (n - 1) as nat) {
            Some(fault) => Some(fault),
            None => key_fault(keys, n - 1),
        }
    }
}

/// Keys that can be saved: each as it was sent, without the blanks round it.
pub open spec fn keys_prepared(
    keys: Seq<ApiKeySavePayload>,
    prepared: Seq<PreparedApiKeySave>,
) -> bool {
    &&& prepared.len() == keys.len()
    &&& forall|i: int|
        0 <= i < keys.len() ==> (#[trigger] prepared[i]).id == keys[i].id && prepared[i].api_key@
            == text::trim_view(keys[i].api_key@)
}

/// Keys that can be saved, or the first reason why not.
pub fn prepare_api_key_saves(keys: Vec<ApiKeySavePayload>) -> (result: Result<
    Vec<PreparedApiKeySave>,
    String,
>)
    ensures
        match result {
            Ok(prepared) => {
                &&& first_key_fault(keys@, keys@.len()) is None
                &&& keys_prepared(keys@, prepared@)
            },
            Err(message) => first_key_fault(keys@, keys@.len()) == Some(message@),
        },
{
    prepare_keys(&keys)
}

proof fn first_key_fault_stays(keys: Seq<ApiKeySavePayload>, m: nat, n: nat)
    requires
        m <= n,
        first_key_fault(keys, m) is Some,
    ensures
        first_key_fault(keys, n) == first_key_fault(keys, m),
    decreases n,
{
    if m < n {
        first_key_fault_stays(keys, m, (n - 1) as nat);
    }
}

fn prepare_keys(keys: &Vec<ApiKeySavePayload>) -> (result: Result<Vec<PreparedApiKeySave>, String>)
    ensures
        match result {
            Ok(prepared) => {
                &&& first_key_fault(keys@, keys@.len()) is None
                &&& keys_prepared(keys@, prepared@)
            },
            Err(message) => first_key_fault(keys@, keys@.len()) == Some(message@),
        },
{
    let mut prepared: Vec<PreparedApiKeySave> = Vec::new();
    let mut i: usize = 0;
    while i < keys.len()
        invariant
            i <= keys@.len(),
            first_key_fault(keys@, i as nat) is None,
            keys_prepared(keys@.take(i as int), prepared@),
        decreases keys@.len() - i,
    {
        let key = &keys[i];
        proof {
            if key_fault(keys@, i as int) is Some {
                first_key_fault_stays(keys@, (i + 1) as nat, keys@.len());
            }
        }
        let api_key = match normalize_api_key(key.api_key.as_str()) {
            Ok(api_key) => api_key,
            Err(message) => {
                return Err(message);
            },
        };
        let mut j: usize = 0;
        while j < prepared.len()
            invariant
                j <= prepared@.len(),
                i < keys@.len(),
                prepared@.len() == i,
                api_key@ == text::trim_view(keys@[i as int].api_key@),
                api_key@.len() > 0,
                keys_prepared(keys@.take(i as int), prepared@),
                key_fault(keys@, i as int) is Some ==> first_key_fault(keys@, keys@.len())
                    == key_fault(keys@, i as int),
                forall|k: int| 0 <= k < j ==> (#[trigger] prepared@[k]).api_key@ != api_key@,
            decreases prepared@.len() - j,
        {
            if same(prepared[j].api_key.as_str(), api_key.as_str()) {
                assert(prepared@[j as int].api_key@ == text::trim_view(
                    keys@.take(i as int)[j as int].api_key@,
                ));
                assert(text::trim_view(keys@[j as int].api_key@) == api_key@);
                return Err("api_key already exists in supplier".to_string());
            }
            j = j + 1;
        }
        proof {
            assert forall|k: int| 0 <= k < i implies text::trim_view(
                (#[trigger] keys@[k]).api_key@,
            ) != api_key@ by {
                assert(keys@.take(i as int)[k] == keys@[k]);
                assert(prepared@[k].api_key@ != api_key@);
            }
        }
        prepared.push(PreparedApiKeySave { id: key.id, api_key });
        i = i + 1;
        assert(keys_prepared(keys@.take(i as int), prepared@)) by {
            assert forall|k: int| 0 <= k < i implies (#[trigger] prepared@[k]).id == keys@.take(
                i as int,
            )[k].id && prepared@[k].api_key@ == text::trim_view(
                keys@.take(i as int)[k].api_key@,
            ) by {
                if k < i - 1 {
                    assert(keys@.take(i - 1)[k] == keys@[k]);
                }
            }
        }
    }
    assert(keys@.take(i as int) =~= keys@);
    Ok(prepared)
}

/// Keys that can be saved are not empty, and none is there twice.
pub proof fn prepared_keys_are_distinct(
    keys: Seq<ApiKeySavePayload>,
    prepared: Seq<PreparedApiKeySave>,
    i: int,
    j: int,
)
    requires
        first_key_fault(keys, keys.len()) is None,
        keys_prepared(keys, prepared),
        0 <= i < j < prepared.len(),
    ensures
        prepared[i].api_key@ != prepared[j].api_key@,
        prepared[i].api_key@.len() > 0,
{
    no_key_fault(keys, keys.len(), i);
    no_key_fault(keys, keys.len(), j);
    assert(text::trim_view(keys[i].api_key@) == prepared[i].api_key@);
}

proof fn no_key_fault(keys: Seq<ApiKeySavePayload>, n: nat, i: int)
    requires
        first_key_fault(keys, n) is None,
        0 <= i < n,
    ensures
        key_fault(keys, i) is None,
    decreases n,
{
    if i < n - 1 {
        no_key_fault(keys, (n - 1) as nat, i);
    }
}

/// Why a supplier cannot be saved behind those before it.
pub open spec fn supplier_fault(suppliers: Seq<SupplierSavePayload>, i: int) -> Option<Seq<char>> {
    let supplier = suppliers[i];
    match upstream::normal_base_url(supplier.base_url@) {
        Err(message) => Some(message),
        Ok(base_url) => if exists|j: int|
            0 <= j < i && upstream::normal_base_url((#[trigger] suppliers[j]).base_url@) == Ok::<
                Seq<char>,
                Seq<char>,
            >(base_url) {
            Some("base_url already exists in proxy"@)
        } else {
            match first_key_fault(supplier.keys@, supplier.keys@.len()) {
                Some(fault) => Some(fault),
                None => first_key_fault(supplier.image_keys@, supplier.image_keys@.len()),
            }
        },
    }
}

/// The first fault of the first `n` suppliers.
pub open spec fn first_supplier_fault(suppliers: Seq<SupplierSavePayload>, n: nat) -> Option<
    Seq<char>,
>
    decreases n,
{
    if n == 0 {
        None
    } else {
        match first_supplier_fault(suppliers, (n - 1) as nat) {
            Some(fault) => Some(fault),
            None => supplier_fault(suppliers, n - 1),
        }
    }
}

/// A supplier that can be saved, as it was sent: its base URL in its normal form, and its name and
/// its keys without the blanks round them.
pub open spec fn supplier_prepared(
    supplier: SupplierSavePayload,
    prepared: PreparedSupplierSave,
) -> bool {
    &&& prepared.id == supplier.id
    &&& prepared.name@ == text::trim_view(supplier.name@)
    &&& upstream::normal_base_url(supplier.base_url@) == Ok::<Seq<char>, Seq<char>>(
        prepared.base_url@,
    )
    &&& prepared.protocol == supplier.protocol
    &&& prepared.override_model@ == supplier.override_model@
    &&& keys_prepared(supplier.keys@, prepared.keys@)
    &&& keys_prepared(supplier.image_keys@, prepared.image_keys@)
}

/// Suppliers that can be saved.
pub open spec fn suppliers_prepared(
    suppliers: Seq<SupplierSavePayload>,
    prepared: Seq<PreparedSupplierSave>,
) -> bool {
    &&& prepared.len() == suppliers.len()
    &&& forall|i: int|
        0 <= i < suppliers.len() ==> #[trigger] supplier_prepared(suppliers[i], prepared[i])
}

/// Why a pool cannot be saved: its name, or the first fault of its suppliers.
pub open spec fn payload_fault(payload: ProxySavePayload) -> Option<Seq<char>> {
    match required_text(payload.name@, "pool name must not be empty"@) {
        Err(message) => Some(message),
        Ok(_) => first_supplier_fault(payload.suppliers@, payload.suppliers@.len()),
    }
}

proof fn first_supplier_fault_stays(suppliers: Seq<SupplierSavePayload>, m: nat, n: nat)
    requires
        m <= n,
        first_supplier_fault(suppliers, m) is Some,
    ensures
        first_supplier_fault(suppliers, n) == first_supplier_fault(suppliers, m),
    decreases n,
{
    if m < n {
        first_supplier_fault_stays(suppliers, m, (n - 1) as nat);
    }
}

fn prepare_supplier(
    suppliers: &Vec<SupplierSavePayload>,
    i: usize,
    before: &Vec<PreparedSupplierSave>,
) -> (result: Result<PreparedSupplierSave, String>)
    requires
        i < suppliers@.len(),
        suppliers_prepared(suppliers@.take(i as int), before@),
    ensures
        match result {
            Ok(prepared) => {
                &&& supplier_fault(suppliers@, i as int) is None
                &&& supplier_prepared(suppliers@[i as int], prepared)
            },
            Err(message) => supplier_fault(suppliers@, i as int) == Some(message@),
        },
{
    let supplier = &suppliers[i];
    let base_url = match normalize_base_url(supplier.base_url.as_str()) {
        Ok(base_url) => base_url,
        Err(message) => {
            return Err(message);
        },
    };
    let mut j: usize = 0;
    while j < before.len()
        invariant
            j <= before@.len(),
            i < suppliers@.len(),
            before@.len() == i,
            suppliers_prepared(suppliers@.take(i as int), before@),
            upstream::normal_base_url(suppliers@[i as int].base_url@) == Ok::<
                Seq<char>,
                Seq<char>,
            >(base_url@),
            forall|k: int| 0 <= k < j ==> (#[trigger] before@[k]).base_url@ != base_url@,
        decreases before@.len() - j,
    {
        if same(before[j].base_url.as_str(), base_url.as_str()) {
            assert(supplier_prepared(suppliers@.take(i as int)[j as int], before@[j as int]));
            assert(upstream::normal_base_url(suppliers@[j as int].base_url@) == Ok::<
                Seq<char>,
                Seq<char>,
            >(base_url@));
            return Err("base_url already exists in proxy".to_string());
        }
        j = j + 1;
    }
    proof {
        assert forall|k: int| 0 <= k < i implies upstream::normal_base_url(
            (#[trigger] suppliers@[k]).base_url@,
        ) != Ok::<Seq<char>, Seq<char>>(base_url@) by {
            assert(suppliers@.take(i as int)[k] == suppliers@[k]);
            assert(supplier_prepared(suppliers@.take(i as int)[k], before@[k]));
            assert(before@[k].base_url@ != base_url@);
        }
    }
    let keys = match prepare_keys(&supplier.keys) {
        Ok(keys) => keys,
        Err(message) => {
            return Err(message);
        },
    };
    let image_keys = match prepare_keys(&supplier.image_keys) {
        Ok(keys) => keys,
        Err(message) => {
            return Err(message);
        },
    };
    Ok(
        PreparedSupplierSave {
            id: supplier.id,
            name: supplier.name.as_str().trim().to_string(),
            base_url,
            protocol: supplier.protocol,
            override_model: supplier.override_model.clone(),
            keys,
            image_keys,
        },
    )
}

/// A pool that can be saved, or the first reason why not.
pub fn prepare_proxy_save_payload(payload: ProxySavePayload) -> (result: Result<
    PreparedProxySave,
    String,
>)
    ensures
        match result {
            Ok(prepared) => {
                &&& payload_fault(payload) is None
                &&& prepared.name@ == text::trim_view(payload.name@)
                &&& prepared.note@ == text::trim_view(payload.note@)
                &&& suppliers_prepared(payload.suppliers@, prepared.suppliers@)
            },
            Err(message) => payload_fault(payload) == Some(message@),
        },
{
    let name = match normalize_pool_name(payload.name.as_str()) {
        Ok(name) => name,
        Err(message) => {
            return Err(message);
        },
    };
    let note = normalize_note(payload.note.as_str());
    let ghost sent = payload.suppliers@;
    let mut suppliers: Vec<PreparedSupplierSave> = Vec::new();
    let mut i: usize = 0;
    while i < payload.suppliers.len()
        invariant
            sent == payload.suppliers@,
            i <= sent.len(),
            first_supplier_fault(sent, i as nat) is None,
            suppliers_prepared(sent.take(i as int), suppliers@),
            required_text(payload.name@, "pool name must not be empty"@) is Ok,
        decreases sent.len() - i,
    {
        let supplier = match prepare_supplier(&payload.suppliers, i, &suppliers) {
            Ok(supplier) => supplier,
            Err(message) => {
                proof {
                    first_supplier_fault_stays(sent, (i + 1) as nat, sent.len());
                }
                return Err(message);
            },
        };
        let ghost before = suppliers@;
        suppliers.push(supplier);
        i = i + 1;
        assert(suppliers_prepared(sent.take(i as int), suppliers@)) by {
            assert forall|k: int| 0 <= k < i implies #[trigger] supplier_prepared(
                sent.take(i as int)[k],
                suppliers@[k],
            ) by {
                if k < i - 1 {
                    assert(supplier_prepared(sent.take(i - 1)[k], before[k]));
                    assert(sent.take(i - 1)[k] == sent[k]);
                }
            }
        }
    }
    assert(sent.take(i as int) =~= sent);
    Ok(PreparedProxySave { name, note, suppliers })
}

proof fn no_supplier_fault(suppliers: Seq<SupplierSavePayload>, n: nat, i: int)
    requires
        first_supplier_fault(suppliers, n) is None,
        0 <= i < n,
    ensures
        supplier_fault(suppliers, i) is None,
    decreases n,
{
    if i < n - 1 {
        no_supplier_fault(suppliers, (n - 1) as nat, i);
    }
}

/// No two suppliers of a pool that can be saved have the same base URL.
pub proof fn prepared_base_urls_are_distinct(
    suppliers: Seq<SupplierSavePayload>,
    prepared: Seq<PreparedSupplierSave>,
    i: int,
    j: int,
)
    requires
        first_supplier_fault(suppliers, suppliers.len()) is None,
        suppliers_prepared(suppliers, prepared),
        0 <= i < j < prepared.len(),
    ensures
        prepared[i].base_url@ != prepared[j].base_url@,
{
    no_supplier_fault(suppliers, suppliers.len(), j);
    assert(supplier_prepared(suppliers[i], prepared[i]));
    assert(supplier_prepared(suppliers[j], prepared[j]));
}

/// The texts of a list.
pub open spec fn strings_view(list: Seq<String>) -> Seq<Seq<char>> {
    list.map_values(|text: String| text@)
}

/// The first `n` keys, without the blanks round them, without the empty ones, and each once.
pub open spec fn legacy_keys(keys: Seq<Seq<char>>, n: nat) -> Seq<Seq<char>>
    decreases n,
{
    if n == 0 {
        Seq::empty()
    } else {
        let before = legacy_keys(keys, (n - 1) as nat);
        let key = text::trim_view(keys[n - 1]);
        if key.len() == 0 || before.contains(key) {
            before
        } else {
            before.push(key)
        }
    }
}

/// Whether a list holds a text.
pub fn contains_text(list: &Vec<String>, wanted: &str) -> (found: bool)
    ensures
        found == strings_view(list@).contains(wanted@),
{
    let mut i: usize = 0;
    while i < list.len()
        invariant
            i <= list@.len(),
            forall|j: int| 0 <= j < i ==> (#[trigger] strings_view(list@)[j]) != wanted@,
        decreases list@.len() - i,
    {
        assert(strings_view(list@)[i as int] == list@[i as int]@);
        if same(list[i].as_str(), wanted) {
            return true;
        }
        i = i + 1;
    }
    false
}

/// Keys without the blanks round them, without the empty ones, and each once.
pub fn normalize_legacy_api_keys(api_keys: Vec<String>) -> (normalized: Vec<String>)
    ensures
        strings_view(normalized@) == legacy_keys(strings_view(api_keys@), api_keys@.len()),
{
    let mut normalized: Vec<String> = Vec::new();
    let mut i: usize = 0;
    assert(strings_view(normalized@) =~= Seq::empty());
    while i < api_keys.len()
        invariant
            i <= api_keys@.len(),
            strings_view(normalized@) == legacy_keys(strings_view(api_keys@), i as nat),
        decreases api_keys@.len() - i,
    {
        let key = api_keys[i].as_str().trim();
        if !key.is_empty() && !contains_text(&normalized, key) {
            let ghost before = normalized@;
            normalized.push(key.to_string());
            assert(strings_view(normalized@) =~= strings_view(before).push(key@));
        }
        i = i + 1;
    }
    normalized
}

/// No key is there twice, and none is empty.
pub proof fn legacy_keys_are_distinct(keys: Seq<Seq<char>>, n: nat)
    ensures
        legacy_keys(keys, n).no_duplicates(),
        forall|i: int|
            0 <= i < legacy_keys(keys, n).len() ==> (#[trigger] legacy_keys(keys, n)[i]).len() > 0,
    decreases n,
{
    if n > 0 {
        legacy_keys_are_distinct(keys, (n - 1) as nat);
    }
}

/// A key that is not empty, and before which none is the same.
pub open spec fn comes_first(keys: Seq<Seq<char>>, at: int) -> bool {
    &&& text::trim_view(keys[at]).len() > 0
    &&& forall|j: int|
        0 <= j < at ==> text::trim_view(#[trigger] keys[j]) != text::trim_view(keys[at])
}

/// The keys are those that were given, without the blanks round them and without the empty ones.
pub proof fn legacy_keys_are_those_given(keys: Seq<Seq<char>>, n: nat)
    requires
        n <= keys.len(),
    ensures
        forall|key: Seq<char>| #[trigger]
            legacy_keys(keys, n).contains(key) <==> key.len() > 0 && exists|i: int|
                0 <= i < n && text::trim_view(#[trigger] keys[i]) == key,
    decreases n,
{
    if n > 0 {
        let before = legacy_keys(keys, (n - 1) as nat);
        let after = legacy_keys(keys, n);
        let added = text::trim_view(keys[n - 1]);
        legacy_keys_are_those_given(keys, (n - 1) as nat);
        assert forall|key: Seq<char>| #[trigger] after.contains(key) <==> before.contains(key) || (
        key == added && key.len() > 0) by {
            if before.contains(key) {
                let i = choose|i: int| 0 <= i < before.len() && before[i] == key;
                assert(after[i] == key);
            }
            if key == added && key.len() > 0 && !before.contains(key) {
                assert(after[before.len() as int] == key);
            }
        }
        assert forall|key: Seq<char>| #[trigger] after.contains(key) <==> key.len() > 0 && exists|
            i: int,
        |
            0 <= i < n && text::trim_view(#[trigger] keys[i]) == key by {
            if after.contains(key) {
                if before.contains(key) {
                    let i = choose|i: int|
                        0 <= i < n - 1 && text::trim_view(#[trigger] keys[i]) == key;
                    assert(text::trim_view(keys[i]) == key);
                } else {
                    assert(text::trim_view(keys[n - 1]) == key);
                }
            }
            if key.len() > 0 && exists|i: int|
                0 <= i < n && text::trim_view(#[trigger] keys[i]) == key {
                let i = choose|i: int| 0 <= i < n && text::trim_view(#[trigger] keys[i]) == key;
                if i < n - 1 {
                    assert(before.contains(key));
                }
            }
        }
    }
}

/// The places of the keys that come first among the first `n`.
pub open spec fn first_places(keys: Seq<Seq<char>>, n: nat) -> Seq<int>
    decreases n,
{
    if n == 0 {
        Seq::empty()
    } else {
        let before = first_places(keys, (n - 1) as nat);
        if comes_first(keys, n - 1) {
            before.push(n - 1)
        } else {
            before
        }
    }
}

/// The keys stand in the order in which each came first.
pub proof fn legacy_keys_keep_their_order(keys: Seq<Seq<char>>, n: nat)
    requires
        n <= keys.len(),
    ensures
        legacy_keys(keys, n) == first_places(keys, n).map_values(
            |at: int| text::trim_view(keys[at]),
        ),
        forall|i: int, j: int|
            0 <= i < j < first_places(keys, n).len() ==> #[trigger] first_places(keys, n)[i]
                < #[trigger] first_places(keys, n)[j],
        forall|i: int|
            0 <= i < first_places(keys, n).len() ==> 0 <= #[trigger] first_places(keys, n)[i] < n,
    decreases n,
{
    let trimmed = |at: int| text::trim_view(keys[at]);
    if n == 0 {
        assert(legacy_keys(keys, n) =~= first_places(keys, n).map_values(trimmed));
    } else {
        let m = (n - 1) as nat;
        let key = text::trim_view(keys[n - 1]);
        legacy_keys_keep_their_order(keys, m);
        legacy_keys_are_those_given(keys, m);
        assert(legacy_keys(keys, m).contains(key) <==> key.len() > 0 && exists|i: int|
            0 <= i < m && text::trim_view(#[trigger] keys[i]) == key);
        assert(first_places(keys, m).push(n - 1).map_values(trimmed) =~= first_places(
            keys,
            m,
        ).map_values(trimmed).push(key));
    }
}

/// Keys that are distinct, and neither empty nor with blanks round them, stay as they are.
proof fn clean_keys_stay(keys: Seq<Seq<char>>, n: nat)
    requires
        n <= keys.len(),
        keys.no_duplicates(),
        forall|i: int|
            0 <= i < keys.len() ==> (#[trigger] keys[i]).len() > 0 && text::trim_view(keys[i])
                == keys[i],
    ensures
        legacy_keys(keys, n) == keys.take(n as int),
    decreases n,
{
    if n > 0 {
        let before = keys.take(n - 1);
        clean_keys_stay(keys, (n - 1) as nat);
        assert(keys[n - 1].len() > 0);
        if before.contains(keys[n - 1]) {
            let i = choose|i: int| 0 <= i < before.len() && before[i] == keys[n - 1];
            assert(keys[i] == keys[n - 1]);
        }
        assert(before.push(keys[n - 1]) =~= keys.take(n as int));
    } else {
        assert(keys.take(0) =~= Seq::empty());
    }
}

/// Normalizing twice changes nothing.
pub proof fn normal_legacy_keys_stay(keys: Seq<Seq<char>>)
    ensures
        ({
            let once = legacy_keys(keys, keys.len());
            legacy_keys(once, once.len()) == once
        }),
{
    let once = legacy_keys(keys, keys.len());
    legacy_keys_are_distinct(keys, keys.len());
    legacy_keys_are_those_given(keys, keys.len());
    assert forall|i: int| 0 <= i < once.len() implies (#[trigger] once[i]).len() > 0
        && text::trim_view(once[i]) == once[i] by {
        assert(once.contains(once[i]));
        let j = choose|j: int|
            0 <= j < keys.len() && text::trim_view(#[trigger] keys[j]) == once[i];
        text::trim_twice(keys[j]);
    }
    clean_keys_stay(once, once.len());
    assert(once.take(once.len() as int) =~= once);
}

} // verus!
