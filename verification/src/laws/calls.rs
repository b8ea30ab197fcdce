//! What holds of whatever an operation gives back, read off what it was given.

use vstd::prelude::*;
use vstd::utf8::*;

use axum::http::HeaderMap;

use crate::access;
use crate::admin;
use crate::admin::{
    AccessKeyDraft, AccessKeyPayload, ApiKeyPayload, BaseUrlDraft, BaseUrlPayload, PoolDraft,
    PoolPayload,
};
use crate::answer::Refusal;
use crate::clock::{Instant, Moment};
use crate::config;
use crate::config::{
    AccessKeyConfig, BaseUrlConfig, ConversionMode, PoolConfig, ProtocolMode, TestProtocol,
};
use crate::headers;
use crate::headers::AdminCredentials;
use crate::json;
use crate::json::{Json, JsonView};
use crate::laws::proxy::{
    bans_are_allowed, body_asks_for_the_model, is_object_for, known_of, stands_in,
};
use crate::laws::responses::{responses_answer_as_chat, says};
use crate::laws::sse::{said_in_piece, tells_text, text_in_events, text_is_told};
use crate::laws::views::{all_keys, pool_has_key};
use crate::models;
use crate::models::{CallOutcome, KeyTestReport, KeyTestRow, KeyTestTarget};
use crate::payload;
use crate::payload::{PreparedProxySave, ProxySavePayload};
use crate::probe;
use crate::probe::KeyTest;
use crate::proxy;
use crate::proxy::{Attempt, Delivery, ProxyContext, ProxyRequest, ProxyRun, SupplierCall};
use crate::requests;
use crate::requests::BridgeContext;
use crate::responses;
use crate::runtime;
use crate::runtime::KeyRuntimeState;
use crate::sse;
use crate::sse::{ClientEvent, SseTransform};
use crate::store;
use crate::text;
use crate::upstream;
use crate::usage;
use crate::usage::{AccessKeyUsage, UsageRuntimeState};
use crate::views;
use crate::views::{AccessKeysResponse, ProxiesResponse};

verus! {

/// The refusal has that status, is told as JSON, and says that.
pub open spec fn refuses(refusal: Refusal, status: u16, message: Seq<char>) -> bool {
    refusal.status == status && refusal.json && refusal.message@ == message
}

/// The text without white space around it, where there is any.
pub open spec fn is_given(value: Seq<char>, taken: Seq<char>) -> bool {
    text::trim_view(value).len() > 0 && taken == text::trim_view(value)
}

/// The client of a converted Chat Completions answer is told of the text of a piece, whatever else
/// the piece holds, and before all else that the piece says.
pub proof fn pieces_tell_their_text(piece: Json, told: Option<String>)
    requires
        said_in_piece(piece@).len() > 0,
    ensures
        forall|completed: &mut bool| #[trigger]
            call_ensures(sse::chat_piece_to_responses_events, (&piece, completed), told)
                ==> exists|events: Seq<ClientEvent>|
                events.len() > 0 && tells_text(events[0], said_in_piece(piece@)) && text_in_events(
                    events,
                ) == said_in_piece(piece@) && #[trigger] sse::output(events)
                    == text::opt_string_view(told),
{
    assert forall|completed: &mut bool| #[trigger]
        call_ensures(
            sse::chat_piece_to_responses_events,
            (&piece, completed),
            told,
        ) implies exists|events: Seq<ClientEvent>|
        events.len() > 0 && tells_text(events[0], said_in_piece(piece@)) && text_in_events(events)
            == said_in_piece(piece@) && #[trigger] sse::output(events) == text::opt_string_view(
            told,
        ) by {
        text_is_told(piece@, *completed);
        let events = sse::responses_events(piece@, *completed).0;
        assert(sse::output(events) == text::opt_string_view(told));
    }
}

/// The answer that the client of a converted Responses answer gets says the text of that answer.
pub proof fn converted_answers_say_the_text(answer: Json, converted: Json)
    requires
        call_ensures(responses::responses_value_to_chat_answer, (&answer,), converted),
    ensures
        converted@.get("choices"@) matches Some(JsonView::Array(choices)) && choices.len() == 1 && (
        choices[0].get("message"@) matches Some(message) && says(
            message,
            "content"@,
            responses::answer_text(answer@),
        )),
{
    responses_answer_as_chat(answer@);
}

/// The call of a supplier asks for the model that stands in, if there is one: its body is the text
/// of the object that it would be otherwise, with that model.
pub proof fn calls_ask_for_the_model(
    request: ProxyRequest,
    access_key: AccessKeyConfig,
    supplier: BaseUrlConfig,
    call: SupplierCall,
)
    requires
        call_ensures(
            proxy::prepare_supplier_call,
            (&request, &access_key, &supplier),
            Ok::<SupplierCall, Refusal>(call),
        ),
    ensures
        stands_in(text::opt_string_view(call.model), request, access_key, supplier),
        requests::upstream_body(request.body@, call.conversion) matches Ok(body) && {
            &&& call.model is None ==> call.body@ == body
            &&& call.model matches Some(model) ==> (json::parsed(body) matches Ok(
                JsonView::Object(members),
            ) ==> is_object_for(call.body@, members, model@))
        },
{
    body_asks_for_the_model(request, access_key, supplier);
}

/// Bans are allowed in every pool of more than one supplier, and in none whose one supplier has one
/// key, for requests that are not for an image.
pub proof fn pools_allow_bans(pool: PoolConfig, allowed: bool)
    requires
        call_ensures(proxy::allow_auto_ban, (&pool, false), allowed),
    ensures
        pool.base_urls@.len() >= 2 ==> allowed,
        pool.base_urls@.len() == 1 ==> (allowed <==> pool.base_urls@[0].api_keys@.len() != 1),
{
    bans_are_allowed(pool);
}

/// A run starts at the first key of the first supplier, with nothing made and nothing failed.
pub proof fn runs_start_at_the_first_key(run: ProxyRun)
    requires
        call_ensures(ProxyRun::start, (), run),
    ensures
        run.supplier == 0 && run.key == 0 && run.call is None && run.last_error is None,
{
}

/// A success of a key clears what is known of it, and is remembered as the last use of the access
/// key and of the key, unless the key is one for images.
pub proof fn successes_are_remembered(
    run: ProxyRun,
    context: ProxyContext,
    now: Moment,
    used_at: i64,
)
    requires
        proxy::is_sent(*context.pool, run@),
    ensures
        forall|state: &mut KeyRuntimeState, usage: &mut UsageRuntimeState|
            call_ensures(
                ProxyRun::succeeded,
                (&run, &context, state, usage, now, used_at),
                (),
            ) ==> ({
                let key = proxy::current_key(*context.pool, run@);
                let images = run.call->0.images;
                &&& known_of(#[trigger] final(state)@, images, key.id, now.day) == (
                    0int,
                    None::<Instant>,
                )
                &&& images ==> (#[trigger] final(usage)@) == usage@
                &&& !images ==> {
                    &&& final(usage)@.by_access_key.get(context.access_key.id) == Some(
                        AccessKeyUsage {
                            access_key_id: context.access_key.id,
                            proxy_id: context.pool.id,
                            supplier_id: context.pool.base_urls@[run.supplier as int].id,
                            key_id: key.id,
                            used_at,
                        },
                    )
                    &&& final(usage)@.by_key.get(key.id) matches Some(last) && last.used_at
                        == used_at && last.access_key_id == context.access_key.id
                        && last.supplier_id == context.pool.base_urls@[run.supplier as int].id
                }
            }),
{
}

/// A request whose body is too large is refused as such.
pub proof fn large_bodies_are_refused(refusal: Refusal)
    requires
        call_ensures(proxy::body_too_large, (), refusal),
    ensures
        refusal.status == 413 && !refusal.json,
        refusal.message@ == "Request body exceeds "@ + text::decimal_view(20 * 1024 * 1024)
            + " bytes"@,
{
}

/// The state of a new stream holds nothing, and its end has not been told. What it takes in stands
/// behind what it has.
pub proof fn streams_take_text_in(
    conversion: ConversionMode,
    bridge_context: BridgeContext,
    state: SseTransform,
    bytes: &[u8],
)
    requires
        call_ensures(SseTransform::new, (conversion, bridge_context), state),
        valid_utf8(bytes@),
    ensures
        state.buffer@.len() == 0 && !state.completed_sent && state.conversion == conversion,
        state.bridge_context == bridge_context,
        forall|fed: &mut SseTransform| #[trigger]
            call_ensures(SseTransform::feed, (fed, bytes), ()) ==> {
                &&& final(fed).buffer@ == fed.buffer@ + text::unix_lines(decode_utf8(bytes@), 0)
                &&& final(fed).completed_sent == fed.completed_sent
                &&& final(fed).conversion == fed.conversion
                &&& final(fed).bridge_context == fed.bridge_context
            },
{
}

/// A pool needs a name. What is not said of it is left empty.
pub proof fn pools_are_named(sent: PoolPayload, result: Result<PoolDraft, Refusal>)
    requires
        call_ensures(admin::prepare_pool, (&sent,), result),
    ensures
        result matches Ok(draft) ==> is_given(sent.name@, draft.name@) && match sent.note {
            Some(note) => draft.note@ == text::trim_view(note@),
            None => draft.note@.len() == 0,
        },
        result matches Err(refusal) ==> text::trim_view(sent.name@).len() == 0 && refuses(
            refusal,
            400,
            "pool name must not be empty"@,
        ),
{
}

/// A new pool has a name that no other has. The first pool is the active one.
pub proof fn first_pool_is_active(name_taken: bool, pool_count: i64, result: Result<bool, Refusal>)
    requires
        call_ensures(admin::create_pool, (name_taken, pool_count), result),
    ensures
        result is Ok <==> !name_taken,
        result matches Ok(is_active) ==> (is_active <==> pool_count == 0),
        result matches Err(refusal) ==> refuses(refusal, 400, "proxy name already exists"@),
{
}

/// No pool is activated for all any more.
pub proof fn pools_are_not_activated(pools: Vec<PoolConfig>, id: i64, refusal: Refusal)
    requires
        call_ensures(admin::activate_pool, (&pools, id), refusal),
    ensures
        config::pool_of(pools@, id) is None ==> refuses(refusal, 404, "proxy not found"@),
        config::pool_of(pools@, id) is Some ==> refuses(
            refusal,
            400,
            "global proxy activation has been removed; bind a me-key to use this proxy"@,
        ),
{
}

/// An access key needs a name. It is bound to the pools that are asked for, and its model has no
/// white space around it.
pub proof fn access_keys_are_named(
    sent: AccessKeyPayload,
    result: Result<AccessKeyDraft, Refusal>,
)
    requires
        call_ensures(admin::prepare_access_key, (&sent,), result),
    ensures
        result matches Ok(draft) ==> is_given(sent.name@, draft.name@) && draft.proxy_id
            == sent.proxy_id && draft.image_proxy_id == sent.image_proxy_id && draft.override_model@
            == text::trim_view(sent.override_model@),
        result matches Err(refusal) ==> text::trim_view(sent.name@).len() == 0 && refuses(
            refusal,
            400,
            "access key name must not be empty"@,
        ),
{
}

/// What an access key used is forgotten when it is bound to another pool, for images or for the
/// rest, and only then.
pub proof fn bound_anew_is_forgotten(
    draft: AccessKeyDraft,
    current: Option<(i64, Option<i64>)>,
    result: Result<bool, Refusal>,
)
    requires
        call_ensures(admin::update_access_key, (&draft, current), result),
    ensures
        result is Ok <==> current is Some,
        result matches Ok(forget) ==> (!forget <==> current == Some(
            (draft.proxy_id, draft.image_proxy_id),
        )),
        result matches Err(refusal) ==> refuses(refusal, 404, "access key not found"@),
{
}

/// A supplier needs a URL that is one. The rest of it is taken as it is sent.
pub proof fn suppliers_need_a_url(sent: BaseUrlPayload, result: Result<BaseUrlDraft, Refusal>)
    requires
        call_ensures(admin::prepare_base_url, (&sent,), result),
    ensures
        result matches Ok(draft) ==> upstream::normal_base_url(sent.base_url@) == Ok::<
            Seq<char>,
            Seq<char>,
        >(draft.base_url@) && draft.name@ == text::trim_view(sent.name@) && draft.protocol
            == sent.protocol && draft.override_model@ == sent.override_model@ && draft.sort_order
            == sent.sort_order,
        result matches Err(refusal) ==> (upstream::normal_base_url(sent.base_url@) matches Err(
            message,
        ) && refuses(refusal, 400, message)),
{
}

/// The place that was asked for, or else the next one, or else the first.
pub open spec fn is_placed(order: i64, asked: Option<i64>, next: Option<i64>) -> bool {
    &&& asked matches Some(asked) ==> order == asked
    &&& asked is None ==> (next matches Some(next) ==> order == next)
    &&& asked is None && next is None ==> order == 0
}

/// A new supplier of a pool that is there, and does not have its URL, is put in its place.
pub proof fn suppliers_are_created(
    draft: BaseUrlDraft,
    pool_exists: bool,
    duplicate: bool,
    next: Option<i64>,
    result: Result<i64, Refusal>,
)
    requires
        call_ensures(admin::create_base_url, (&draft, pool_exists, duplicate, next), result),
    ensures
        result is Ok <==> pool_exists && !duplicate,
        result matches Ok(order) ==> is_placed(order, draft.sort_order, next),
        result matches Err(refusal) ==> if pool_exists {
            refuses(refusal, 400, "base_url already exists in proxy"@)
        } else {
            refuses(refusal, 404, "proxy not found"@)
        },
{
}

/// A supplier that is there, and whose URL no other has, is changed. It stays in its place unless
/// another is asked for.
pub proof fn suppliers_are_updated(
    draft: BaseUrlDraft,
    current: Option<i64>,
    duplicate: bool,
    result: Result<i64, Refusal>,
)
    requires
        call_ensures(admin::update_base_url, (&draft, current, duplicate), result),
    ensures
        result is Ok <==> current is Some && !duplicate,
        result matches Ok(order) ==> is_placed(order, draft.sort_order, current),
        result matches Err(refusal) ==> if current is Some {
            refuses(refusal, 400, "base_url already exists in proxy"@)
        } else {
            refuses(refusal, 404, "supplier not found"@)
        },
{
}

/// A key has to be given.
pub proof fn keys_are_given(sent: ApiKeyPayload, result: Result<String, Refusal>)
    requires
        call_ensures(admin::prepare_api_key, (&sent,), result),
    ensures
        result matches Ok(api_key) ==> is_given(sent.api_key@, api_key@),
        result matches Err(refusal) ==> text::trim_view(sent.api_key@).len() == 0 && refuses(
            refusal,
            400,
            "api_key must not be empty"@,
        ),
{
}

/// A new key of a supplier that is there, and does not have it, is put in its place.
pub proof fn keys_are_created(
    asked: Option<i64>,
    supplier_exists: bool,
    duplicate: bool,
    next: Option<i64>,
    result: Result<i64, Refusal>,
)
    requires
        call_ensures(admin::create_key, (asked, supplier_exists, duplicate, next), result),
    ensures
        result is Ok <==> supplier_exists && !duplicate,
        result matches Ok(order) ==> is_placed(order, asked, next),
        result matches Err(refusal) ==> if supplier_exists {
            refuses(refusal, 400, "api_key already exists in supplier"@)
        } else {
            refuses(refusal, 404, "supplier not found"@)
        },
{
}

/// A key that is there, and that its supplier has once, is changed. It stays in its place unless
/// another is asked for.
pub proof fn keys_are_updated(
    asked: Option<i64>,
    current: Option<i64>,
    duplicate: bool,
    result: Result<i64, Refusal>,
)
    requires
        call_ensures(admin::update_key, (asked, current, duplicate), result),
    ensures
        result is Ok <==> current is Some && !duplicate,
        result matches Ok(order) ==> is_placed(order, asked, current),
        result matches Err(refusal) ==> if current is Some {
            refuses(refusal, 400, "api_key already exists in supplier"@)
        } else {
            refuses(refusal, 404, "api_key not found"@)
        },
{
}

/// Unbanning a key that some supplier has forgets what is known of it. Of another nothing changes.
pub proof fn keys_are_unbanned(pools: Vec<PoolConfig>, id: i64, result: Result<(), Refusal>)
    ensures
        ({
            let known = exists|p: int, i: int, k: int|
                0 <= p < pools@.len() && #[trigger] pool_has_key(pools@[p], false, i, k, id);
            forall|state: &mut KeyRuntimeState| #[trigger]
                call_ensures(admin::unban_key, (&pools, state, id), result) ==> {
                    &&& result is Ok <==> known
                    &&& result matches Err(refusal) ==> refuses(refusal, 404, "api_key not found"@)
                        && final(state)@ == state@
                    &&& result is Ok ==> final(state)@.keys == state@.keys.remove(id)
                        && final(state)@.image_keys == state@.image_keys && final(state)@.day
                        == state@.day
                }
        }),
{
    all_keys(pools@, false, pools@.len(), id);
}

/// Unbanning a key for images that some supplier has forgets what is known of it. Of another nothing
/// changes.
pub proof fn image_keys_are_unbanned(pools: Vec<PoolConfig>, id: i64, result: Result<(), Refusal>)
    ensures
        ({
            let known = exists|p: int, i: int, k: int|
                0 <= p < pools@.len() && #[trigger] pool_has_key(pools@[p], true, i, k, id);
            forall|state: &mut KeyRuntimeState| #[trigger]
                call_ensures(admin::unban_image_key, (&pools, state, id), result) ==> {
                    &&& result is Ok <==> known
                    &&& result matches Err(refusal) ==> refuses(
                        refusal,
                        404,
                        "image api_key not found"@,
                    ) && final(state)@ == state@
                    &&& result is Ok ==> final(state)@.image_keys == state@.image_keys.remove(id)
                        && final(state)@.keys == state@.keys && final(state)@.day == state@.day
                }
        }),
{
    all_keys(pools@, true, pools@.len(), id);
}

/// Enabling a key that is there forgets what is known of it. Disabling it, or what is not there,
/// changes nothing of that.
pub proof fn enabled_keys_start_anew(
    updated: usize,
    disabled: bool,
    id: i64,
    result: Result<(), Refusal>,
)
    ensures
        forall|state: &mut KeyRuntimeState| #[trigger]
            call_ensures(admin::set_key_disabled, (updated, disabled, state, id), result) ==> {
                &&& result is Ok <==> updated > 0
                &&& result matches Err(refusal) ==> refuses(refusal, 404, "api_key not found"@)
                &&& disabled || updated == 0 ==> final(state)@ == state@
                &&& !disabled && updated > 0 ==> final(state)@.keys == state@.keys.remove(id)
                    && final(state)@.image_keys == state@.image_keys && final(state)@.day
                    == state@.day
            },
        forall|state: &mut KeyRuntimeState| #[trigger]
            call_ensures(
                admin::set_image_key_disabled,
                (updated, disabled, state, id),
                result,
            ) ==> {
                &&& result is Ok <==> updated > 0
                &&& result matches Err(refusal) ==> refuses(
                    refusal,
                    404,
                    "image api_key not found"@,
                )
                &&& disabled || updated == 0 ==> final(state)@ == state@
                &&& !disabled && updated > 0 ==> final(state)@.image_keys
                    == state@.image_keys.remove(id) && final(state)@.keys == state@.keys
                    && final(state)@.day == state@.day
            },
{
}

/// Both the name and the password of the administrator have to be set, and neither may be empty.
pub proof fn administrators_have_a_password(
    username: Option<String>,
    password: Option<String>,
    result: Result<AdminCredentials, String>,
)
    requires
        call_ensures(headers::load_admin_credentials, (username, password), result),
    ensures
        result is Ok <==> username is Some && password is Some && username->0@.len() > 0
            && password->0@.len() > 0,
        result matches Ok(admin) ==> username == Some(admin.username) && password == Some(
            admin.password,
        ),
        result matches Err(message) ==> message@ == if username is None {
            "ADMIN_USERNAME is required"@
        } else if password is None {
            "ADMIN_PASSWORD is required"@
        } else {
            "ADMIN_USERNAME and ADMIN_PASSWORD must not be empty"@
        },
{
}

/// A key is tested with what is stored of it. A blank model and an unknown protocol are none.
pub proof fn tests_use_what_is_stored(row: KeyTestRow, result: Result<KeyTestTarget, String>)
    requires
        call_ensures(models::key_test_target, (row,), result),
    ensures
        result is Ok <==> ProtocolMode::named(row.protocol_mode@) is Some,
        result matches Ok(target) ==> {
            &&& Some(target.supplier_protocol) == ProtocolMode::named(row.protocol_mode@)
            &&& target.api_key == row.api_key && target.base_url == row.base_url
            &&& text::trim_view(row.test_model@).len() == 0 ==> target.selected_model is None
            &&& text::trim_view(row.test_model@).len() > 0 ==> target.selected_model == Some(
                row.test_model,
            )
            &&& target.selected_protocol == TestProtocol::named(row.test_protocol@)
        },
        result matches Err(message) ==> message@
            == "protocol_mode must be chat, responses, or both"@,
{
}

/// A test has passed where the supplier answered with a success. What came is told.
pub proof fn tests_are_reported(outcome: CallOutcome, report: KeyTestReport)
    requires
        call_ensures(models::test_key_report, (outcome,), report),
    ensures
        report.ok <==> (outcome matches CallOutcome::Answered { status } && status / 100 == 2),
        report.status_code == match outcome {
            CallOutcome::Answered { status } => Some(status),
            _ => None,
        },
        report.message@ == match outcome {
            CallOutcome::Answered { status } => (if status / 100 == 2 {
                "测试成功"@
            } else {
                "测试失败"@
            }) + " ("@ + text::decimal_view(status as nat) + ")"@,
            CallOutcome::TimedOut => "测试超时"@,
            CallOutcome::Failed { reason } => "测试失败: "@ + reason@,
        },
{
}

/// A test needs a model, and a key that is there, and a protocol that its supplier serves.
pub proof fn tests_need_a_model_and_a_key(
    model: &str,
    asked: Result<String, Refusal>,
    target: Option<&KeyTestTarget>,
    requested: Option<TestProtocol>,
    protocol: Result<TestProtocol, Refusal>,
)
    requires
        call_ensures(probe::requested_model, (model,), asked),
        call_ensures(probe::requested_protocol, (target, requested), protocol),
    ensures
        asked matches Ok(taken) ==> is_given(model@, taken@),
        asked matches Err(refusal) ==> text::trim_view(model@).len() == 0 && refuses(
            refusal,
            400,
            "model is required"@,
        ),
        target is None ==> (protocol matches Err(refusal) && refuses(
            refusal,
            404,
            "api_key not found"@,
        )),
        target matches Some(target) ==> match payload::test_protocol_for(
            target.supplier_protocol,
            requested,
        ) {
            Ok(served) => protocol == Ok::<TestProtocol, Refusal>(served),
            Err(message) => protocol matches Err(refusal) && refuses(refusal, 400, message),
        },
{
}

/// A test goes to the endpoint of its protocol, at the supplier's URL, with the key that is tested
/// and with a greeting to the model.
pub proof fn tests_are_sent(
    target: KeyTestTarget,
    protocol: TestProtocol,
    model: &str,
    test: KeyTest,
)
    requires
        call_ensures(
            probe::test_key,
            (&target, protocol, model),
            Some(Ok::<KeyTest, Refusal>(test)),
        ),
    ensures
        ({
            let path = match protocol {
                TestProtocol::Chat => "/v1/chat/completions"@,
                TestProtocol::Responses => "/v1/responses"@,
            };
            probe::probe_for(target.base_url@, path, target.api_key@) matches Ok(attempt)
                && test.attempt@ == attempt
        }),
        test.body@ == encode_utf8(json::json_text(models::test_request(protocol, model@))),
{
}

/// Deleting an access key forgets its use and every use by it. Deleting a supplier forgets every use
/// of it. The rest stays.
pub proof fn deleted_things_are_forgotten(id: i64, other: i64)
    ensures
        forall|used: &mut UsageRuntimeState| #[trigger]
            call_ensures(usage::clear_access_key_usage, (used, id), ()) ==> {
                &&& final(used)@.by_access_key.get(other) == if other == id {
                    None
                } else {
                    used@.by_access_key.get(other)
                }
                &&& final(used)@.by_key.get(other) == match used@.by_key.get(other) {
                    Some(last) => if last.access_key_id == id {
                        None
                    } else {
                        Some(last)
                    },
                    None => None,
                }
            },
        forall|used: &mut UsageRuntimeState| #[trigger]
            call_ensures(usage::clear_supplier_usage, (used, id), ()) ==> {
                &&& final(used)@.by_access_key.get(other) == match used@.by_access_key.get(other) {
                    Some(last) => if last.supplier_id == id {
                        None
                    } else {
                        Some(last)
                    },
                    None => None,
                }
                &&& final(used)@.by_key.get(other) == match used@.by_key.get(other) {
                    Some(last) => if last.supplier_id == id {
                        None
                    } else {
                        Some(last)
                    },
                    None => None,
                }
            },
{
}

/// The access keys are read all or not at all: the first that cannot be read says why.
pub proof fn access_keys_are_read(
    rows: Vec<Result<AccessKeyConfig, String>>,
    result: Result<Vec<AccessKeyConfig>, String>,
    i: int,
)
    requires
        call_ensures(store::load_access_keys, (rows,), result),
        0 <= i < rows@.len(),
    ensures
        result matches Ok(read) ==> read@.len() == rows@.len() && rows@[i] == Ok::<
            AccessKeyConfig,
            String,
        >(read@[i]),
        result is Err ==> exists|k: int| 0 <= k < rows@.len() && (#[trigger] rows@[k]) is Err,
        rows@[i] is Err && (forall|j: int| 0 <= j < i ==> (#[trigger] rows@[j]) is Ok) ==> (
        result matches Err(message) && message@ == "Failed to decode access key row: "@
            + rows@[i]->Err_0@),
{
    if rows@[i] is Err && (forall|j: int| 0 <= j < i ==> (#[trigger] rows@[j]) is Ok) {
        if let Err(message) = result {
            let k = choose|k: int|
                {
                    &&& 0 <= k < rows@.len()
                    &&& (#[trigger] rows@[k]) matches Err(reason)
                    &&& message@ == "Failed to decode access key row: "@ + reason@
                    &&& forall|j: int| 0 <= j < k ==> (#[trigger] rows@[j]) is Ok
                };
            if k < i {
                assert(rows@[k] is Ok);
            }
            if i < k {
                assert(rows@[i] is Ok);
            }
        }
    }
}

/// New access keys are all alike in form, and no more are tried than the limit.
pub proof fn new_access_keys(key: String, tried: u32, result: Result<String, String>)
    requires
        call_ensures(access::generate_access_key_value, (), key),
        call_ensures(access::generate_unique_access_key, (tried,), result),
    ensures
        key@.len() == 67 && text::has_prefix(key@, "me-"@),
        result is Ok <==> tried < 16,
        result matches Err(message) ==> message@ == "Failed to generate a unique access key"@,
{
}

/// A request says that it asks for a stream where it is JSON that does.
pub proof fn stream_requests_say_so(body: &[u8], stream: bool)
    requires
        call_ensures(requests::is_stream_request, (body,), stream),
    ensures
        stream <==> (json::parsed(body@) matches Ok(JsonView::Object(members)) && members.get(
            "stream"@,
        ) == Some(JsonView::Bool(true))),
{
}

/// Clearing what is known of keys clears just that.
pub proof fn cleared_keys_are_forgotten(ids: Vec<i64>, id: i64, other: i64, day: i32)
    ensures
        forall|state: &mut KeyRuntimeState| #[trigger]
            call_ensures(runtime::clear_key_runtime, (state, id), ()) ==> {
                &&& known_of(final(state)@, false, other, day) == if other == id {
                    (0int, None::<Instant>)
                } else {
                    known_of(state@, false, other, day)
                }
                &&& known_of(final(state)@, true, other, day) == known_of(state@, true, other, day)
            },
        forall|state: &mut KeyRuntimeState| #[trigger]
            call_ensures(runtime::clear_image_key_runtime, (state, id), ()) ==> {
                &&& known_of(final(state)@, true, other, day) == if other == id {
                    (0int, None::<Instant>)
                } else {
                    known_of(state@, true, other, day)
                }
                &&& known_of(final(state)@, false, other, day) == known_of(
                    state@,
                    false,
                    other,
                    day,
                )
            },
        forall|state: &mut KeyRuntimeState| #[trigger]
            call_ensures(runtime::clear_key_runtimes, (state, &ids), ()) ==> {
                &&& known_of(final(state)@, false, other, day) == if ids@.contains(other) {
                    (0int, None::<Instant>)
                } else {
                    known_of(state@, false, other, day)
                }
                &&& known_of(final(state)@, true, other, day) == known_of(state@, true, other, day)
            },
        forall|state: &mut KeyRuntimeState| #[trigger]
            call_ensures(runtime::clear_image_key_runtimes, (state, &ids), ()) ==> {
                &&& known_of(final(state)@, true, other, day) == if ids@.contains(other) {
                    (0int, None::<Instant>)
                } else {
                    known_of(state@, true, other, day)
                }
                &&& known_of(final(state)@, false, other, day) == known_of(
                    state@,
                    false,
                    other,
                    day,
                )
            },
{
    assert(ids@.to_set().contains(other) <==> ids@.contains(other));
}

/// The pools are shown all, and none as the active one for all.
pub proof fn all_pools_are_shown(
    pools: Vec<PoolConfig>,
    access_keys: Vec<AccessKeyConfig>,
    used: UsageRuntimeState,
    now: Moment,
    shown: ProxiesResponse,
)
    ensures
        forall|state: &mut KeyRuntimeState| #[trigger]
            call_ensures(
                views::pools_response,
                (&pools, &access_keys, &used, state, now),
                shown,
            ) ==> shown.active_proxy_id is None && shown.proxies@.len() == pools@.len(),
{
}

/// The access keys are shown all, with the pools that they can be bound to, in their order.
pub proof fn all_access_keys_are_shown(
    access_keys: Vec<AccessKeyConfig>,
    pools: Vec<PoolConfig>,
    used: UsageRuntimeState,
    shown: AccessKeysResponse,
    p: int,
)
    requires
        call_ensures(views::access_keys_response, (&access_keys, &pools, &used), shown),
        0 <= p < pools@.len(),
    ensures
        shown.access_keys@.len() == access_keys@.len(),
        shown.proxies@.len() == pools@.len(),
        shown.proxies@[p].id == pools@[p].id && shown.proxies@[p].name@ == pools@[p].name@,
{
    assert(views::offers_pool(shown.proxies@[p], pools@[p]));
}

/// A pool that is sent in to be saved is taken with its name and its note, without white space around
/// them, and with all of its suppliers.
pub proof fn sent_pools_are_taken(
    sent: ProxySavePayload,
    result: Result<PreparedProxySave, String>,
)
    requires
        call_ensures(payload::prepare_proxy_save_payload, (sent,), result),
    ensures
        result is Ok <==> payload::payload_fault(sent) is None,
        result matches Ok(draft) ==> is_given(sent.name@, draft.name@) && draft.note@
            == text::trim_view(sent.note@) && payload::suppliers_prepared(
            sent.suppliers@,
            draft.suppliers@,
        ),
        result matches Err(message) ==> payload::payload_fault(sent) == Some(message@),
{
}

/// A failure of a key is one more on that day, and a success leaves none. The keys for images are
/// counted apart.
pub proof fn outcomes_are_counted(
    id: i64,
    now: Moment,
    allow_ban: bool,
    next_day: Instant,
    other: i64,
)
    requires
        other != id,
    ensures
        forall|state: &mut KeyRuntimeState|
            runtime::can_fail(runtime::on_day(state@, now.day).keys, id, now.at)
                && #[trigger] call_ensures(
                runtime::count_key_fail,
                (id, state, now, allow_ban, next_day),
                (),
            ) ==> {
                &&& known_of(final(state)@, false, id, now.day).0 == known_of(
                    state@,
                    false,
                    id,
                    now.day,
                ).0 + 1
                &&& known_of(final(state)@, false, other, now.day) == known_of(
                    state@,
                    false,
                    other,
                    now.day,
                )
                &&& known_of(final(state)@, true, id, now.day) == known_of(
                    state@,
                    true,
                    id,
                    now.day,
                )
            },
        forall|state: &mut KeyRuntimeState|
            runtime::can_fail(runtime::on_day(state@, now.day).image_keys, id, now.at)
                && #[trigger] call_ensures(
                runtime::count_image_key_fail,
                (id, state, now, allow_ban, next_day),
                (),
            ) ==> {
                &&& known_of(final(state)@, true, id, now.day).0 == known_of(
                    state@,
                    true,
                    id,
                    now.day,
                ).0 + 1
                &&& known_of(final(state)@, true, other, now.day) == known_of(
                    state@,
                    true,
                    other,
                    now.day,
                )
                &&& known_of(final(state)@, false, id, now.day) == known_of(
                    state@,
                    false,
                    id,
                    now.day,
                )
            },
        forall|state: &mut KeyRuntimeState| #[trigger]
            call_ensures(runtime::mark_key_success_in_state, (id, state, now), ()) ==> {
                &&& known_of(final(state)@, false, id, now.day) == (0int, None::<Instant>)
                &&& known_of(final(state)@, false, other, now.day) == known_of(
                    state@,
                    false,
                    other,
                    now.day,
                )
                &&& known_of(final(state)@, true, id, now.day) == known_of(
                    state@,
                    true,
                    id,
                    now.day,
                )
            },
        forall|state: &mut KeyRuntimeState| #[trigger]
            call_ensures(runtime::mark_image_key_success_in_state, (id, state, now), ()) ==> {
                &&& known_of(final(state)@, true, id, now.day) == (0int, None::<Instant>)
                &&& known_of(final(state)@, true, other, now.day) == known_of(
                    state@,
                    true,
                    other,
                    now.day,
                )
                &&& known_of(final(state)@, false, id, now.day) == known_of(
                    state@,
                    false,
                    id,
                    now.day,
                )
            },
{
}

/// The models of a supplier are asked for at their path, and what is not a success is told as a bad
/// gateway.
pub proof fn models_are_asked_for(
    base_url: &str,
    api_key: &str,
    attempt: Attempt,
    outcome: CallOutcome,
    answered: Result<(), Refusal>,
)
    requires
        call_ensures(
            probe::load_upstream_models,
            (base_url, api_key),
            Some(Ok::<Attempt, Refusal>(attempt)),
        ),
        call_ensures(probe::models_answered, (outcome,), answered),
    ensures
        probe::probe_for(base_url@, "/v1/models"@, api_key@) matches Ok(sent) && attempt@ == sent,
        answered is Ok <==> (outcome matches CallOutcome::Answered { status } && status / 100 == 2),
        answered matches Err(refusal) ==> (models::models_failure_text(outcome) matches Some(
            message,
        ) && refuses(refusal, 502, message)),
{
}

/// The headers of an answer that was converted lose its length and its encoding, and name its new
/// type. Those of an answer that was not stay.
pub proof fn delivered_headers(
    source: HeaderMap,
    delivery: Delivery,
    result: Result<HeaderMap, String>,
)
    requires
        call_ensures(proxy::downstream_headers, (&source, delivery), result),
    ensures
        result matches Ok(sent) && headers::header_contents(sent) == headers::client_headers(
            headers::header_contents(source),
            delivery !is Direct,
            match delivery {
                Delivery::Direct => None,
                Delivery::Events => Some("text/event-stream"@),
                Delivery::Whole => Some("application/json"@),
            },
        ),
{
}

} // verus!
