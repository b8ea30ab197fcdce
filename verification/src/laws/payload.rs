//! What holds of what is sent in to be saved, and of what is asked of suppliers on trial.

use vstd::prelude::*;
use vstd::utf8::*;

use crate::answer::RefusalView;
use crate::config::{ProtocolMode, TestProtocol};
use crate::headers;
use crate::json;
use crate::json::JsonView;
use crate::laws::responses::says;
use crate::models;
use crate::models::CallOutcome;
use crate::payload;
use crate::payload::{
    ApiKeySavePayload, PreparedApiKeySave, PreparedSupplierSave, ProxySavePayload,
    SupplierSavePayload,
};
use crate::probe;
use crate::probe::SupplierKeyRow;
use crate::proxy::AttemptView;
use crate::text;
use crate::upstream;

verus! {

proof fn asked_names()
    ensures
        text::word_mark("model"@) == (5nat, 'm', 'd', 'l'),
        text::word_mark("messages"@) == (8nat, 'm', 'a', 's'),
        text::word_mark("input"@) == (5nat, 'i', 'p', 't'),
        text::word_mark("role"@) == (4nat, 'r', 'l', 'e'),
        text::word_mark("content"@) == (7nat, 'c', 't', 't'),
        text::word_mark("object"@) == (6nat, 'o', 'e', 't'),
        text::word_mark("data"@) == (4nat, 'd', 't', 'a'),
        text::word_mark("id"@) == (2nat, 'i', 'd', 'd'),
        text::word_mark("created"@) == (7nat, 'c', 'a', 'd'),
        text::word_mark("owned_by"@) == (8nat, 'o', 'd', 'y'),
{
    reveal_strlit("model");
    reveal_strlit("messages");
    reveal_strlit("input");
    reveal_strlit("role");
    reveal_strlit("content");
    reveal_strlit("object");
    reveal_strlit("data");
    reveal_strlit("id");
    reveal_strlit("created");
    reveal_strlit("owned_by");
    assert("model"@.len() == 5);
    assert("messages"@.len() == 8);
    assert("input"@.len() == 5);
    assert("role"@.len() == 4);
    assert("content"@.len() == 7);
    assert("object"@.len() == 6);
    assert("data"@.len() == 4);
    assert("id"@.len() == 2);
    assert("created"@.len() == 7);
    assert("owned_by"@.len() == 8);
}

/// Text that has to be given is taken without the white space around it. Blank text is refused.
pub proof fn texts_have_to_be_given(value: Seq<char>, refusal: Seq<char>)
    ensures
        text::trim_view(value).len() > 0 ==> payload::required_text(value, refusal) == Ok::<
            Seq<char>,
            Seq<char>,
        >(text::trim_view(value)),
        text::trim_view(value).len() == 0 ==> payload::required_text(value, refusal) == Err::<
            Seq<char>,
            Seq<char>,
        >(refusal),
{
}

/// A key is tested in the protocol that its supplier serves. Where the supplier serves both, the one
/// to test has to be named; where it serves one, the other is refused.
pub proof fn tests_use_a_served_protocol(requested: TestProtocol)
    ensures
        payload::test_protocol_for(ProtocolMode::Both, Some(requested)) == Ok::<
            TestProtocol,
            Seq<char>,
        >(requested),
        payload::test_protocol_for(ProtocolMode::Both, None) == Err::<TestProtocol, Seq<char>>(
            "protocol is required"@,
        ),
        payload::test_protocol_for(ProtocolMode::Chat, None) == Ok::<TestProtocol, Seq<char>>(
            TestProtocol::Chat,
        ),
        payload::test_protocol_for(ProtocolMode::Chat, Some(TestProtocol::Chat)) == Ok::<
            TestProtocol,
            Seq<char>,
        >(TestProtocol::Chat),
        payload::test_protocol_for(ProtocolMode::Chat, Some(TestProtocol::Responses)) == Err::<
            TestProtocol,
            Seq<char>,
        >("supplier protocol only allows chat"@),
        payload::test_protocol_for(ProtocolMode::Responses, None) == Ok::<TestProtocol, Seq<char>>(
            TestProtocol::Responses,
        ),
        payload::test_protocol_for(ProtocolMode::Responses, Some(TestProtocol::Responses)) == Ok::<
            TestProtocol,
            Seq<char>,
        >(TestProtocol::Responses),
        payload::test_protocol_for(ProtocolMode::Responses, Some(TestProtocol::Chat)) == Err::<
            TestProtocol,
            Seq<char>,
        >("supplier protocol only allows responses"@),
{
}

/// The key that stands there, without the white space around it.
pub open spec fn key_at(keys: Seq<ApiKeySavePayload>, i: int) -> Seq<char> {
    text::trim_view(keys[i].api_key@)
}

/// Every key is given, and none is given twice.
pub open spec fn are_fine_keys(keys: Seq<ApiKeySavePayload>, n: int) -> bool {
    &&& forall|i: int| 0 <= i < n ==> #[trigger] key_at(keys, i).len() > 0
    &&& forall|i: int, j: int|
        0 <= i < j < n ==> #[trigger] key_at(keys, i) != #[trigger] key_at(keys, j)
}

/// Keys are saved where every one is given and none is given twice. Else the first that is not says
/// why they are not.
pub proof fn keys_are_checked(keys: Seq<ApiKeySavePayload>, n: nat)
    requires
        n <= keys.len(),
    ensures
        payload::first_key_fault(keys, n) is None <==> are_fine_keys(keys, n as int),
        payload::first_key_fault(keys, n) matches Some(fault) ==> exists|i: int|
            0 <= i < n && are_fine_keys(keys, i) && !are_fine_keys(keys, i + 1) && (if #[trigger]
            key_at(keys, i).len() == 0 {
                fault == "api_key must not be empty"@
            } else {
                fault == "api_key already exists in supplier"@
            }),
    decreases n,
{
    if n > 0 {
        let m = (n - 1) as nat;
        keys_are_checked(keys, m);
        match payload::first_key_fault(keys, m) {
            Some(fault) => {
                assert(!are_fine_keys(keys, m as int));
                let i = choose|i: int|
                    0 <= i < m && are_fine_keys(keys, i) && !are_fine_keys(keys, i + 1) && (if
                    #[trigger] key_at(keys, i).len() == 0 {
                        fault == "api_key must not be empty"@
                    } else {
                        fault == "api_key already exists in supplier"@
                    });
                assert(key_at(keys, i).len() >= 0);
            },
            None => {
                assert(are_fine_keys(keys, m as int));
                let last = key_at(keys, n - 1);
                match payload::key_fault(keys, n - 1) {
                    None => {
                        assert forall|i: int, j: int| 0 <= i < j < n implies #[trigger] key_at(
                            keys,
                            i,
                        ) != #[trigger] key_at(keys, j) by {
                            if j == n - 1 {
                                assert(text::trim_view(keys[i].api_key@) == key_at(keys, i));
                            }
                        }
                        assert(are_fine_keys(keys, n as int));
                    },
                    Some(fault) => {
                        if last.len() > 0 {
                            let j = choose|j: int|
                                0 <= j < n - 1 && text::trim_view((#[trigger] keys[j]).api_key@)
                                    == last;
                            assert(key_at(keys, j) == key_at(keys, n - 1));
                        }
                        assert(!are_fine_keys(keys, n as int));
                        assert(are_fine_keys(keys, n - 1) && !are_fine_keys(keys, n - 1 + 1));
                    },
                }
            },
        }
    }
}

/// Saved keys keep their ids and their order. Their values have no white space around them.
pub proof fn keys_are_taken(
    keys: Seq<ApiKeySavePayload>,
    prepared: Seq<PreparedApiKeySave>,
    i: int,
)
    requires
        payload::keys_prepared(keys, prepared),
        0 <= i < keys.len(),
    ensures
        prepared.len() == keys.len(),
        prepared[i].id == keys[i].id,
        prepared[i].api_key@ == text::trim_view(keys[i].api_key@),
{
}

/// The URL of a supplier, once it is checked.
pub open spec fn url_at(suppliers: Seq<SupplierSavePayload>, i: int) -> Result<
    Seq<char>,
    Seq<char>,
> {
    upstream::normal_base_url(suppliers[i].base_url@)
}

/// The supplier itself is fine, and its URL is not that of one before it.
pub open spec fn is_fine_supplier(suppliers: Seq<SupplierSavePayload>, i: int) -> bool {
    &&& url_at(suppliers, i) is Ok
    &&& forall|j: int| 0 <= j < i ==> #[trigger] url_at(suppliers, j) != url_at(suppliers, i)
    &&& are_fine_keys(suppliers[i].keys@, suppliers[i].keys@.len() as int)
    &&& are_fine_keys(suppliers[i].image_keys@, suppliers[i].image_keys@.len() as int)
}

proof fn supplier_is_checked(suppliers: Seq<SupplierSavePayload>, i: int)
    requires
        0 <= i < suppliers.len(),
    ensures
        payload::supplier_fault(suppliers, i) is None <==> is_fine_supplier(suppliers, i),
{
    let supplier = suppliers[i];
    keys_are_checked(supplier.keys@, supplier.keys@.len());
    keys_are_checked(supplier.image_keys@, supplier.image_keys@.len());
    if let Ok(base_url) = url_at(suppliers, i) {
        if exists|j: int|
            0 <= j < i && upstream::normal_base_url((#[trigger] suppliers[j]).base_url@) == Ok::<
                Seq<char>,
                Seq<char>,
            >(base_url) {
            let j = choose|j: int|
                0 <= j < i && upstream::normal_base_url((#[trigger] suppliers[j]).base_url@)
                    == Ok::<Seq<char>, Seq<char>>(base_url);
            assert(url_at(suppliers, j) == url_at(suppliers, i));
        } else {
            assert forall|j: int| 0 <= j < i implies #[trigger] url_at(suppliers, j) != url_at(
                suppliers,
                i,
            ) by {
                assert(upstream::normal_base_url(suppliers[j].base_url@) == url_at(suppliers, j));
            }
        }
    }
}

proof fn suppliers_are_checked(suppliers: Seq<SupplierSavePayload>, n: nat)
    requires
        n <= suppliers.len(),
    ensures
        payload::first_supplier_fault(suppliers, n) is None <==> forall|i: int|
            0 <= i < n ==> #[trigger] is_fine_supplier(suppliers, i),
        payload::first_supplier_fault(suppliers, n) matches Some(fault) ==> exists|i: int|
            0 <= i < n && !#[trigger] is_fine_supplier(suppliers, i)
                && payload::supplier_fault(suppliers, i) == Some(fault) && forall|j: int|
                0 <= j < i ==> #[trigger] is_fine_supplier(suppliers, j),
    decreases n,
{
    if n > 0 {
        let m = (n - 1) as nat;
        suppliers_are_checked(suppliers, m);
        supplier_is_checked(suppliers, n - 1);
        match payload::first_supplier_fault(suppliers, m) {
            Some(fault) => {
                let i = choose|i: int|
                    0 <= i < m && !#[trigger] is_fine_supplier(suppliers, i)
                        && payload::supplier_fault(suppliers, i) == Some(fault) && forall|j: int|
                        0 <= j < i ==> #[trigger] is_fine_supplier(suppliers, j);
                assert(!is_fine_supplier(suppliers, i));
            },
            None => {
                if payload::supplier_fault(suppliers, n - 1) is Some {
                    assert(!is_fine_supplier(suppliers, n - 1));
                }
            },
        }
    }
}

/// A pool is saved where it has a name, and where every supplier has a URL that is one, no two the
/// same, and keys that are fine, those for images among them. The first thing that is not so says
/// why it is not saved.
pub proof fn pools_are_checked(sent: ProxySavePayload)
    ensures
        payload::payload_fault(sent) is None <==> text::trim_view(sent.name@).len() > 0 && forall|
            i: int,
        |
            0 <= i < sent.suppliers@.len() ==> #[trigger] is_fine_supplier(sent.suppliers@, i),
        text::trim_view(sent.name@).len() == 0 ==> payload::payload_fault(sent) == Some(
            "pool name must not be empty"@,
        ),
        text::trim_view(sent.name@).len() > 0 ==> (payload::payload_fault(sent) matches Some(fault)
            ==> exists|i: int|
            0 <= i < sent.suppliers@.len() && !#[trigger] is_fine_supplier(sent.suppliers@, i)
                && payload::supplier_fault(sent.suppliers@, i) == Some(fault) && forall|j: int|
                0 <= j < i ==> #[trigger] is_fine_supplier(sent.suppliers@, j)),
{
    suppliers_are_checked(sent.suppliers@, sent.suppliers@.len());
}

/// What is wrong with a supplier: its URL, or that its URL was there before, or one of its keys, or
/// one of its keys for images, in this order.
pub proof fn what_is_wrong_with_a_supplier(suppliers: Seq<SupplierSavePayload>, i: int)
    requires
        0 <= i < suppliers.len(),
    ensures
        ({
            let fault = payload::supplier_fault(suppliers, i);
            let keys = suppliers[i].keys@;
            let image_keys = suppliers[i].image_keys@;
            let again = exists|j: int|
                0 <= j < i && #[trigger] url_at(suppliers, j) == url_at(suppliers, i);
            &&& url_at(suppliers, i) matches Err(message) ==> fault == Some(message)
            &&& url_at(suppliers, i) is Ok && again ==> fault == Some(
                "base_url already exists in proxy"@,
            )
            &&& url_at(suppliers, i) is Ok && !again ==> {
                &&& !are_fine_keys(keys, keys.len() as int) ==> fault == payload::first_key_fault(
                    keys,
                    keys.len(),
                )
                &&& are_fine_keys(keys, keys.len() as int) ==> fault == payload::first_key_fault(
                    image_keys,
                    image_keys.len(),
                )
            }
        }),
{
    let keys = suppliers[i].keys@;
    keys_are_checked(keys, keys.len());
    if let Ok(base_url) = url_at(suppliers, i) {
        if exists|j: int|
            0 <= j < i && upstream::normal_base_url((#[trigger] suppliers[j]).base_url@) == Ok::<
                Seq<char>,
                Seq<char>,
            >(base_url) {
            let j = choose|j: int|
                0 <= j < i && upstream::normal_base_url((#[trigger] suppliers[j]).base_url@)
                    == Ok::<Seq<char>, Seq<char>>(base_url);
            assert(url_at(suppliers, j) == url_at(suppliers, i));
        } else if exists|j: int|
            0 <= j < i && #[trigger] url_at(suppliers, j) == url_at(suppliers, i) {
            let j = choose|j: int|
                0 <= j < i && #[trigger] url_at(suppliers, j) == url_at(suppliers, i);
            assert(upstream::normal_base_url(suppliers[j].base_url@) == Ok::<Seq<char>, Seq<char>>(
                base_url,
            ));
        }
    }
}

/// A supplier is saved under its id, with its name without white space around it, its URL as it was
/// checked, its protocol, its model and its keys.
pub proof fn suppliers_are_taken(supplier: SupplierSavePayload, prepared: PreparedSupplierSave)
    requires
        payload::supplier_prepared(supplier, prepared),
    ensures
        prepared.id == supplier.id && prepared.protocol == supplier.protocol,
        prepared.name@ == text::trim_view(supplier.name@),
        upstream::normal_base_url(supplier.base_url@) == Ok::<Seq<char>, Seq<char>>(
            prepared.base_url@,
        ),
        prepared.override_model@ == supplier.override_model@,
        prepared.keys@.len() == supplier.keys@.len(),
        prepared.image_keys@.len() == supplier.image_keys@.len(),
        forall|i: int|
            0 <= i < supplier.keys@.len() ==> (#[trigger] prepared.keys@[i]).api_key@
                == text::trim_view(supplier.keys@[i].api_key@),
        forall|i: int|
            0 <= i < supplier.image_keys@.len() ==> (#[trigger] prepared.image_keys@[i]).api_key@
                == text::trim_view(supplier.image_keys@[i].api_key@),
{
}

/// The suppliers of a pool are saved all, and in their order.
pub proof fn all_suppliers_are_taken(
    suppliers: Seq<SupplierSavePayload>,
    prepared: Seq<PreparedSupplierSave>,
    i: int,
)
    requires
        payload::suppliers_prepared(suppliers, prepared),
        0 <= i < suppliers.len(),
    ensures
        prepared.len() == suppliers.len(),
        prepared[i].id == suppliers[i].id && prepared[i].protocol == suppliers[i].protocol,
        prepared[i].name@ == text::trim_view(suppliers[i].name@),
        prepared[i].keys@.len() == suppliers[i].keys@.len(),
        prepared[i].image_keys@.len() == suppliers[i].image_keys@.len(),
        url_at(suppliers, i) == Ok::<Seq<char>, Seq<char>>(prepared[i].base_url@),
{
    assert(payload::supplier_prepared(suppliers[i], prepared[i]));
}

proof fn earlier_legacy_keys(keys: Seq<Seq<char>>, key: Seq<char>, n: nat)
    requires
        n <= keys.len(),
    ensures
        payload::legacy_keys(keys.push(key), n) == payload::legacy_keys(keys, n),
    decreases n,
{
    if n > 0 {
        earlier_legacy_keys(keys, key, (n - 1) as nat);
        assert(keys.push(key)[n - 1] == keys[n - 1]);
    }
}

/// Of a list of keys each that is not blank is taken once, where it first stands, without the white
/// space around it.
pub proof fn old_keys_are_taken_once(keys: Seq<Seq<char>>, key: Seq<char>)
    ensures
        payload::legacy_keys(Seq::empty(), 0).len() == 0,
        ({
            let before = payload::legacy_keys(keys, keys.len());
            let trimmed = text::trim_view(key);
            payload::legacy_keys(keys.push(key), keys.len() + 1) == if trimmed.len() > 0
                && !before.contains(trimmed) {
                before.push(trimmed)
            } else {
                before
            }
        }),
{
    earlier_legacy_keys(keys, key, keys.len());
    assert(keys.push(key).last() == key);
}

proof fn earlier_ids(data: Seq<JsonView>, model: JsonView, n: nat)
    requires
        n <= data.len(),
    ensures
        models::ids_of(data.push(model), n) == models::ids_of(data, n),
    decreases n,
{
    if n > 0 {
        earlier_ids(data, model, (n - 1) as nat);
        assert(data.push(model)[n - 1] == data[n - 1]);
    }
}

/// The list of models with that data.
pub open spec fn list_of(members: Map<Seq<char>, JsonView>, data: Seq<JsonView>) -> JsonView {
    JsonView::Object(members.insert("data"@, JsonView::Array(data)))
}

/// The models of a supplier are those that its list names by an id, each once and in its order. A
/// list without data, and what is no JSON, is refused.
pub proof fn models_are_listed_once(
    members: Map<Seq<char>, JsonView>,
    data: Seq<JsonView>,
    model: JsonView,
    list: JsonView,
    body: Seq<u8>,
)
    ensures
        models::model_ids(list_of(members, Seq::empty())) matches Ok(ids) && ids.len() == 0,
        models::model_ids(list_of(members, data)) matches Ok(before) && models::model_ids(
            list_of(members, data.push(model)),
        ) == Ok::<Seq<Seq<char>>, Seq<char>>(
            match model.get("id"@) {
                Some(JsonView::String(id)) => if before.contains(id) {
                    before
                } else {
                    before.push(id)
                },
                _ => before,
            },
        ),
        !(list.get("data"@) matches Some(JsonView::Array(_))) ==> models::model_ids(list) == Err::<
            Seq<Seq<char>>,
            Seq<char>,
        >("models response missing data"@),
        json::parsed(body) matches Ok(list) ==> models::model_ids_body(body) == models::model_ids(
            list,
        ),
        json::parsed(body) matches Err(message) ==> models::model_ids_body(body) == Err::<
            Seq<Seq<char>>,
            Seq<char>,
        >("invalid models response JSON: "@ + message),
{
    earlier_ids(data, model, data.len());
    assert(data.push(model).last() == model);
    assert(list_of(members, Seq::empty()).get("data"@) == Some(
        JsonView::Array(Seq::<JsonView>::empty()),
    ));
    assert(list_of(members, data).get("data"@) == Some(JsonView::Array(data)));
    assert(list_of(members, data.push(model)).get("data"@) == Some(
        JsonView::Array(data.push(model)),
    ));
}

/// A key is tested with a greeting to the model, in the form of the protocol.
pub proof fn tests_greet_the_model(model: Seq<char>)
    ensures
        ({
            let chat = models::test_request(TestProtocol::Chat, model);
            &&& chat is Object && chat->Object_0.dom() == set!["model"@, "messages"@]
            &&& says(chat, "model"@, model)
            &&& chat.get("messages"@) matches Some(JsonView::Array(messages)) && messages.len() == 1
                && messages[0] is Object && messages[0]->Object_0.dom() == set![
                "role"@,
                "content"@,
            ] && says(messages[0], "role"@, "user"@) && says(messages[0], "content"@, "hi"@)
        }),
        ({
            let responses = models::test_request(TestProtocol::Responses, model);
            &&& responses is Object && responses->Object_0.dom() == set!["model"@, "input"@]
            &&& says(responses, "model"@, model)
            &&& says(responses, "input"@, "hi"@)
        }),
{
    asked_names();
    let chat = models::test_request(TestProtocol::Chat, model);
    assert(chat->Object_0.dom() =~= set!["model"@, "messages"@]);
    let message = chat.get("messages"@)->0->Array_0[0];
    assert(message->Object_0.dom() =~= set!["role"@, "content"@]);
    let responses = models::test_request(TestProtocol::Responses, model);
    assert(responses->Object_0.dom() =~= set!["model"@, "input"@]);
}

/// Where a model stands in for all others, the list of models holds that one.
pub proof fn the_model_is_the_list(model: Seq<char>)
    ensures
        ({
            let list = models::override_models(model);
            &&& list is Object && list->Object_0.dom() == set!["object"@, "data"@]
            &&& says(list, "object"@, "list"@)
            &&& list.get("data"@) matches Some(JsonView::Array(data)) && {
                &&& data.len() == 1
                &&& data[0] is Object
                &&& data[0]->Object_0.dom() == set!["id"@, "object"@, "created"@, "owned_by"@]
                &&& says(data[0], "id"@, model)
                &&& says(data[0], "object"@, "model"@)
                &&& data[0].get("created"@) == Some(JsonView::Number(json::integer_number(0)))
                &&& says(data[0], "owned_by"@, "proxy"@)
            }
        }),
{
    asked_names();
    let list = models::override_models(model);
    assert(list->Object_0.dom() =~= set!["object"@, "data"@]);
    let only = list.get("data"@)->0->Array_0[0];
    assert(only->Object_0.dom() =~= set!["id"@, "object"@, "created"@, "owned_by"@]);
}

/// Statuses that begin with 2 are successes. Of a failure the administrator is told what came.
pub proof fn failures_are_told(status: u16, reason: String)
    ensures
        models::is_success(status) <==> status / 100 == 2,
        models::models_failure_text(CallOutcome::Answered { status }) == if status / 100 == 2 {
            None
        } else {
            Some(
                "Failed to load models"@ + " ("@ + text::decimal_view(status as nat) + ")"@,
            )
        },
        models::models_failure_text(CallOutcome::TimedOut) == Some("加载模型超时"@),
        models::models_failure_text(CallOutcome::Failed { reason }) == Some(
            "加载模型失败: "@ + reason@,
        ),
{
}

/// A supplier on trial is asked at its URL for the path, with no header but its host and its key.
/// What makes a bad URL is a bad request; what makes no host or header is a bad gateway.
pub proof fn trials_use_the_key_alone(base_url: Seq<char>, path: Seq<char>, api_key: Seq<char>)
    ensures
        match upstream::upstream_url(base_url, path, None) {
            Err(message) => probe::probe_for(base_url, path, api_key) == Err::<
                AttemptView,
                RefusalView,
            >((RefusalView { status: 400, json: true, message })),
            Ok(url) => match upstream::authority_view(url) {
                Err(message) => probe::probe_for(base_url, path, api_key) == Err::<
                    AttemptView,
                    RefusalView,
                >((RefusalView { status: 502, json: true, message })),
                Ok(authority) => match headers::upstream_headers(
                    Map::empty(),
                    authority,
                    api_key,
                ) {
                    Err(message) => probe::probe_for(base_url, path, api_key) == Err::<
                        AttemptView,
                        RefusalView,
                    >((RefusalView { status: 502, json: true, message })),
                    Ok(sent) => {
                        &&& probe::probe_for(base_url, path, api_key) == Ok::<
                            AttemptView,
                            RefusalView,
                        >((AttemptView { url, headers: sent }))
                        &&& sent.dom() == set!["host"@, "authorization"@]
                    },
                },
            },
        },
{
    if let Ok(url) = upstream::upstream_url(base_url, path, None) {
        if let Ok(authority) = upstream::authority_view(url) {
            if let Ok(sent) = headers::upstream_headers(Map::empty(), authority, api_key) {
                assert(sent.dom() =~= set!["host"@, "authorization"@]);
            }
        }
    }
}

/// What a supplier told of its models is told to the administrator, or why it could not be read.
pub proof fn told_models_are_told_on(body: Seq<u8>, reason: Seq<char>)
    ensures
        probe::models_told(Err(reason)) == Err::<Seq<Seq<char>>, RefusalView>(
            (RefusalView {
                status: 502,
                json: true,
                message: "Failed to read upstream models response: "@ + reason,
            }),
        ),
        probe::models_told(Ok(body)) == match models::model_ids_body(body) {
            Ok(ids) => Ok(ids),
            Err(message) => Err(RefusalView { status: 502, json: true, message }),
        },
{
}

/// A supplier is asked with the first of its keys that is not disabled. Without a supplier, or
/// without such a key, it is not asked.
pub proof fn first_enabled_key_asks(base_url: Seq<char>, keys: Seq<SupplierKeyRow>, at: int)
    ensures
        probe::asked_with(None, keys) == Err::<(Seq<char>, Seq<char>), RefusalView>(
            (RefusalView { status: 404, json: true, message: "supplier not found"@ }),
        ),
        (forall|i: int| 0 <= i < keys.len() ==> (#[trigger] keys[i]).manually_disabled != 0)
            ==> probe::asked_with(Some(base_url), keys) == Err::<
            (Seq<char>, Seq<char>),
            RefusalView,
        >(
            (RefusalView {
                status: 400,
                json: true,
                message: "supplier has no available api_key"@,
            }),
        ),
        0 <= at < keys.len() && keys[at].manually_disabled == 0 && (forall|i: int|
            0 <= i < at ==> (#[trigger] keys[i]).manually_disabled != 0) ==> probe::asked_with(
            Some(base_url),
            keys,
        ) == Ok::<(Seq<char>, Seq<char>), RefusalView>((base_url, keys[at].api_key@)),
    decreases keys.len(),
{
    if keys.len() > 0 && keys[0].manually_disabled != 0 {
        let rest = keys.skip(1);
        first_enabled_key_asks(base_url, rest, at - 1);
        assert(forall|i: int| 0 <= i < rest.len() ==> #[trigger] rest[i] == keys[i + 1]);
        if 0 < at < keys.len() {
            assert(rest[at - 1] == keys[at]);
        }
    }
}

} // verus!
