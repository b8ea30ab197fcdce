//! What holds of the way of a request to a supplier, and of what its keys have to stand for.

use vstd::prelude::*;
use vstd::utf8::*;

use crate::answer::RefusalView;
use crate::clock::{Instant, Moment};
use crate::config;
use crate::config::{
    AccessKeyConfig, ApiKeyConfig, BaseUrlConfig, ConversionMode, OpenAiEndpoint, PoolConfig,
    ProtocolMode, TestProtocol,
};
use crate::headers;
use crate::json;
use crate::json::JsonView;
use crate::models;
use crate::models::CallOutcome;
use crate::proxy;
use crate::proxy::{AfterFailureView, Delivery, ProxyRequest, RunView, StepView};
use crate::requests;
use crate::runtime;
use crate::runtime::RuntimeView;
use crate::text;
use crate::upstream;

verus! {

proof fn path_names()
    ensures
        text::word_mark("/v1/chat/completions"@) == (20nat, '/', 'o', 's'),
        text::word_mark("/v1/responses"@) == (13nat, '/', 's', 's'),
        text::word_mark("/v1/images/generations"@) == (22nat, '/', 'g', 's'),
        text::word_mark("/v1/models"@) == (10nat, '/', 'o', 's'),
{
    reveal_strlit("/v1/chat/completions");
    reveal_strlit("/v1/responses");
    reveal_strlit("/v1/images/generations");
    reveal_strlit("/v1/models");
    assert("/v1/chat/completions"@.len() == 20);
    assert("/v1/responses"@.len() == 13);
    assert("/v1/images/generations"@.len() == 22);
    assert("/v1/models"@.len() == 10);
}

/// The request is one for an image.
pub open spec fn wants_image(request: ProxyRequest) -> bool {
    request.is_post && request.path@ == "/v1/images/generations"@
}

/// A request for a completion goes to an endpoint that the supplier serves, and is converted just
/// where that is another than the client called. Every other request goes to its own path as it is.
/// A request for an image uses the keys for images of a supplier that has any.
pub proof fn requests_go_where_they_are_served(
    request: ProxyRequest,
    access_key: AccessKeyConfig,
    supplier: BaseUrlConfig,
)
    ensures
        proxy::supplier_call(request, access_key, supplier) matches Ok(call) ==> {
            let chat = request.is_post && request.path@ == "/v1/chat/completions"@;
            let responses = request.is_post && request.path@ == "/v1/responses"@;
            &&& chat && supplier.protocol_mode == ProtocolMode::Responses ==> call.path
                == "/v1/responses"@ && call.conversion == ConversionMode::ChatToResponses
            &&& responses && supplier.protocol_mode == ProtocolMode::Chat ==> call.path
                == "/v1/chat/completions"@ && call.conversion == ConversionMode::ResponsesToChat
            &&& !(chat && supplier.protocol_mode == ProtocolMode::Responses) && !(responses
                && supplier.protocol_mode == ProtocolMode::Chat) ==> call.path == request.path@
                && call.conversion == ConversionMode::Direct
            &&& call.images <==> wants_image(request) && supplier.image_keys@.len() > 0
            &&& call.tools == requests::upstream_tools(request.body@, call.conversion)
        },
{
    path_names();
}

/// The model that stands for the one that the client asked for, if any: that of the access key, or
/// else that of the supplier. The white space around it is none of it. Requests for an image keep
/// their model.
pub open spec fn stands_in(
    model: Option<Seq<char>>,
    request: ProxyRequest,
    access_key: AccessKeyConfig,
    supplier: BaseUrlConfig,
) -> bool {
    let own = text::trim_view(access_key.override_model@);
    let common = text::trim_view(supplier.override_model@);
    &&& wants_image(request) ==> model is None
    &&& !wants_image(request) && own.len() > 0 ==> model == Some(own)
    &&& !wants_image(request) && own.len() == 0 && common.len() > 0 ==> model == Some(common)
    &&& own.len() == 0 && common.len() == 0 ==> model is None
}

/// The bytes are the text of the object, with that model and nothing else changed.
pub open spec fn is_object_for(
    body: Seq<u8>,
    members: Map<Seq<char>, JsonView>,
    model: Seq<char>,
) -> bool {
    exists|sent: Map<Seq<char>, JsonView>|
        body == encode_utf8(#[trigger] json::json_text(JsonView::Object(sent))) && sent.get(
            "model"@,
        ) == Some(JsonView::String(model)) && forall|name: Seq<char>|
            name != "model"@ ==> #[trigger] sent.get(name) == members.get(name)
}

/// The model that stands in is the model of the body that is sent, whether the request is converted
/// or not. Without one the body is that of the request, converted where that is called for.
pub proof fn body_asks_for_the_model(
    request: ProxyRequest,
    access_key: AccessKeyConfig,
    supplier: BaseUrlConfig,
)
    ensures
        ({
            let made = proxy::supplier_call(request, access_key, supplier);
            let conversion = proxy::route(request, supplier).1;
            let model = proxy::model_for(request, access_key, supplier);
            &&& stands_in(model, request, access_key, supplier)
            &&& made matches Ok(call) ==> call.model == model && call.conversion == conversion
            &&& match requests::upstream_body(request.body@, conversion) {
                Err(message) => made == Err::<proxy::CallView, RefusalView>(
                    RefusalView { status: 400, json: true, message },
                ),
                Ok(body) => match (model, json::parsed(body)) {
                    (None, _) => made matches Ok(call) && call.body == body,
                    (Some(model), Ok(JsonView::Object(members))) => made matches Ok(call)
                        && is_object_for(call.body, members, model),
                    (Some(_), Ok(value)) => made matches Ok(call) && call.body == encode_utf8(
                        json::json_text(value),
                    ),
                    (Some(_), Err(message)) => made == Err::<proxy::CallView, RefusalView>(
                        RefusalView {
                            status: 400,
                            json: true,
                            message: "invalid request JSON: "@ + message,
                        },
                    ),
                },
            }
        }),
{
    path_names();
    let conversion = proxy::route(request, supplier).1;
    if let Ok(body) = requests::upstream_body(request.body@, conversion) {
        if let Ok(JsonView::Object(members)) = json::parsed(body) {
            if let Some(model) = proxy::model_for(request, access_key, supplier) {
                let sent = members.insert("model"@, JsonView::String(model));
                assert(is_object_for(
                    encode_utf8(json::json_text(JsonView::Object(sent))),
                    members,
                    model,
                ));
            }
        }
    }
}

/// Where a model stands in, a request that goes out as it came asks for that model: its body, an
/// object, is sent with that model and nothing else changed.
pub proof fn direct_requests_ask_for_the_model(
    request: ProxyRequest,
    access_key: AccessKeyConfig,
    supplier: BaseUrlConfig,
    members: Map<Seq<char>, JsonView>,
    model: Seq<char>,
)
    requires
        !wants_image(request),
        json::parsed(request.body@) == Ok::<JsonView, Seq<char>>(JsonView::Object(members)),
        model.len() > 0,
        model == text::trim_view(access_key.override_model@) || (text::trim_view(
            access_key.override_model@,
        ).len() == 0 && model == text::trim_view(supplier.override_model@)),
        !(request.is_post && request.path@ == "/v1/chat/completions"@ && supplier.protocol_mode
            == ProtocolMode::Responses),
        !(request.is_post && request.path@ == "/v1/responses"@ && supplier.protocol_mode
            == ProtocolMode::Chat),
    ensures
        proxy::supplier_call(request, access_key, supplier) matches Ok(call) && call.conversion
            == ConversionMode::Direct && is_object_for(call.body, members, model),
{
    path_names();
    body_asks_for_the_model(request, access_key, supplier);
    requests_go_where_they_are_served(request, access_key, supplier);
}

/// An endpoint is known by its path, and a protocol by its name. What is served is asked for as it
/// is; else it is asked for in the protocol that is served.
pub proof fn endpoints_and_protocols(path: Seq<char>, name: Seq<char>)
    ensures
        OpenAiEndpoint::at(path) == if path == "/v1/chat/completions"@ {
            Some(OpenAiEndpoint::Chat)
        } else if path == "/v1/responses"@ {
            Some(OpenAiEndpoint::Responses)
        } else {
            None
        },
        OpenAiEndpoint::Chat.location() == "/v1/chat/completions"@,
        OpenAiEndpoint::Responses.location() == "/v1/responses"@,
        ProtocolMode::named("chat"@) == Some(ProtocolMode::Chat),
        ProtocolMode::named("responses"@) == Some(ProtocolMode::Responses),
        ProtocolMode::named("both"@) == Some(ProtocolMode::Both),
        ProtocolMode::named(name) is Some ==> name == "chat"@ || name == "responses"@ || name
            == "both"@,
        TestProtocol::named("chat"@) == Some(TestProtocol::Chat),
        TestProtocol::named("responses"@) == Some(TestProtocol::Responses),
        TestProtocol::named(name) is Some ==> name == "chat"@ || name == "responses"@,
        TestProtocol::Chat.endpoint_view() == OpenAiEndpoint::Chat,
        TestProtocol::Responses.endpoint_view() == OpenAiEndpoint::Responses,
{
    path_names();
    config::protocol_mode_name_leads_back(ProtocolMode::Chat);
    config::protocol_mode_name_leads_back(ProtocolMode::Responses);
    config::protocol_mode_name_leads_back(ProtocolMode::Both);
    config::test_protocol_name_leads_back(TestProtocol::Chat);
    config::test_protocol_name_leads_back(TestProtocol::Responses);
}

/// A pool is found by its id: the first that has it.
pub proof fn pools_are_found_by_id(pools: Seq<PoolConfig>, id: i64)
    ensures
        match config::pool_of(pools, id) {
            Some(pool) => exists|i: int|
                0 <= i < pools.len() && #[trigger] pools[i] == pool && pool.id == id && forall|
                    j: int,
                |
                    0 <= j < i ==> (#[trigger] pools[j]).id != id,
            None => forall|i: int| 0 <= i < pools.len() ==> (#[trigger] pools[i]).id != id,
        },
    decreases pools.len(),
{
    if pools.len() > 0 && pools[0].id != id {
        let rest = pools.skip(1);
        pools_are_found_by_id(rest, id);
        match config::pool_of(rest, id) {
            Some(pool) => {
                let k = choose|k: int|
                    0 <= k < rest.len() && #[trigger] rest[k] == pool && pool.id == id && forall|
                        j: int,
                    |
                        0 <= j < k ==> (#[trigger] rest[j]).id != id;
                assert(pools[k + 1] == pool);
                assert forall|j: int| 0 <= j < k + 1 implies (#[trigger] pools[j]).id != id by {
                    if j > 0 {
                        assert(rest[j - 1] == pools[j]);
                    }
                }
            },
            None => {
                assert forall|i: int| 0 <= i < pools.len() implies (#[trigger] pools[i]).id
                    != id by {
                    if i > 0 {
                        assert(rest[i - 1] == pools[i]);
                    }
                }
            },
        }
    }
}

/// The keys of a supplier that a request for an image can use: its keys for images, or all of its
/// keys where it has none of those.
pub open spec fn usable_for_images(supplier: BaseUrlConfig) -> Seq<ApiKeyConfig> {
    if supplier.image_keys@.len() > 0 {
        supplier.image_keys@
    } else {
        supplier.api_keys@
    }
}

/// One key of one supplier is all that there is for a request for an image.
pub open spec fn is_only_image_key(suppliers: Seq<BaseUrlConfig>, at: int) -> bool {
    &&& 0 <= at < suppliers.len()
    &&& usable_for_images(suppliers[at]).len() == 1
    &&& forall|i: int|
        0 <= i < suppliers.len() && i != at ==> usable_for_images(#[trigger] suppliers[i]).len()
            == 0
}

proof fn counts_no_candidate(suppliers: Seq<BaseUrlConfig>, n: nat)
    requires
        n <= suppliers.len(),
    ensures
        runtime::image_candidate_count(suppliers, n) == 0 <==> forall|i: int|
            0 <= i < n ==> usable_for_images(#[trigger] suppliers[i]).len() == 0,
    decreases n,
{
    if n > 0 {
        counts_no_candidate(suppliers, (n - 1) as nat);
        let last = suppliers[n - 1];
        assert(runtime::image_candidates(last) == usable_for_images(last).len());
        if runtime::image_candidate_count(suppliers, n) == 0 {
            assert forall|i: int| 0 <= i < n implies usable_for_images(
                #[trigger] suppliers[i],
            ).len() == 0 by {
                if i < n - 1 {
                }
            }
        }
    }
}

proof fn counts_one_candidate(suppliers: Seq<BaseUrlConfig>, n: nat)
    requires
        n <= suppliers.len(),
    ensures
        runtime::image_candidate_count(suppliers, n) == 1 <==> exists|at: int|
            0 <= at < n && usable_for_images(#[trigger] suppliers[at]).len() == 1 && forall|i: int|
                0 <= i < n && i != at ==> usable_for_images(#[trigger] suppliers[i]).len() == 0,
    decreases n,
{
    if n > 0 {
        let m = (n - 1) as nat;
        counts_one_candidate(suppliers, m);
        counts_no_candidate(suppliers, m);
        let last = suppliers[n - 1];
        assert(runtime::image_candidates(last) == usable_for_images(last).len());
        if runtime::image_candidate_count(suppliers, n) == 1 {
            if usable_for_images(last).len() == 1 {
                assert(usable_for_images(suppliers[n - 1]).len() == 1);
            } else {
                let at = choose|at: int|
                    0 <= at < m && usable_for_images(#[trigger] suppliers[at]).len() == 1 && forall|
                        i: int,
                    |
                        0 <= i < m && i != at ==> usable_for_images(#[trigger] suppliers[i]).len()
                            == 0;
                assert(usable_for_images(suppliers[at]).len() == 1);
            }
        }
        if exists|at: int|
            0 <= at < n && usable_for_images(#[trigger] suppliers[at]).len() == 1 && forall|i: int|
                0 <= i < n && i != at ==> usable_for_images(#[trigger] suppliers[i]).len() == 0 {
            let at = choose|at: int|
                0 <= at < n && usable_for_images(#[trigger] suppliers[at]).len() == 1 && forall|
                    i: int,
                |
                    0 <= i < n && i != at ==> usable_for_images(#[trigger] suppliers[i]).len() == 0;
            if at == n - 1 {
                assert(runtime::image_candidate_count(suppliers, m) == 0);
            } else {
                assert(usable_for_images(suppliers[n - 1]).len() == 0);
                assert(usable_for_images(suppliers[at]).len() == 1);
            }
        }
    }
}

/// A key is never banned where it is all that there is: the one key of the one supplier of a pool or,
/// for a request for an image, the one key that such a request can use. A pool of more than one
/// supplier allows bans whatever keys they have, and so does a supplier of more than one key.
pub proof fn bans_are_allowed(pool: PoolConfig)
    ensures
        pool.base_urls@.len() >= 2 ==> proxy::allows_ban(pool, false),
        pool.base_urls@.len() == 0 ==> proxy::allows_ban(pool, false),
        pool.base_urls@.len() == 1 ==> (proxy::allows_ban(pool, false)
            <==> pool.base_urls@[0].api_keys@.len() != 1),
        !proxy::allows_ban(pool, true) <==> exists|at: int| #[trigger]
            is_only_image_key(pool.base_urls@, at),
{
    let suppliers = pool.base_urls@;
    counts_one_candidate(suppliers, suppliers.len());
    if !proxy::allows_ban(pool, true) {
        let at = choose|at: int|
            0 <= at < suppliers.len() && usable_for_images(#[trigger] suppliers[at]).len() == 1
                && forall|i: int|
                0 <= i < suppliers.len() && i != at ==> usable_for_images(
                    #[trigger] suppliers[i],
                ).len() == 0;
        assert(is_only_image_key(suppliers, at));
    }
    if exists|at: int| #[trigger] is_only_image_key(suppliers, at) {
        let at = choose|at: int| #[trigger] is_only_image_key(suppliers, at);
        assert(usable_for_images(suppliers[at]).len() == 1);
    }
}

/// What is known of a key on that day: how often it failed, and until when it is banned.
pub open spec fn known_of(state: RuntimeView, images: bool, id: i64, day: i32) -> (int, Option<
    Instant,
>) {
    let keys = if images {
        state.image_keys
    } else {
        state.keys
    };
    if state.day == day && keys.contains_key(id) {
        (keys[id].fail_count as int, keys[id].ban_until)
    } else {
        (0, None)
    }
}

/// What a failure leaves of a key: one more failure of the day. From the third of a day on the key
/// is banned for five minutes, from the fifth on for the rest of the day, unless bans are not
/// allowed. Nothing else changes on that day.
pub proof fn failures_are_counted(
    state: RuntimeView,
    images: bool,
    id: i64,
    now: Moment,
    allow_ban: bool,
    next_day: Instant,
    other: i64,
)
    requires
        proxy::can_count(state, images, id, now),
        now.at.nanos < 1_000_000_000,
        other != id,
    ensures
        ({
            let after = proxy::after_fail(state, images, id, now, allow_ban, next_day);
            let (fails, banned) = known_of(state, images, id, now.day);
            let (more, until) = known_of(after, images, id, now.day);
            &&& after.day == now.day
            &&& more == fails + 1
            &&& !allow_ban ==> until is None
            &&& allow_ban && more >= 5 ==> until == Some(next_day)
            &&& allow_ban && 3 <= more < 5 ==> until == Some(
                Instant { secs: (now.at.secs + 300) as i64, nanos: now.at.nanos },
            )
            &&& allow_ban && more < 3 ==> until == if (banned matches Some(end) && now.at.before(
                end,
            )) {
                banned
            } else {
                None
            }
            &&& known_of(after, images, other, now.day) == known_of(state, images, other, now.day)
            &&& known_of(after, !images, id, now.day) == known_of(state, !images, id, now.day)
            &&& known_of(after, !images, other, now.day) == known_of(
                state,
                !images,
                other,
                now.day,
            )
        }),
{
}

/// A success leaves nothing of the failures of a key, and nothing else changes on that day.
pub proof fn successes_clear_the_key(
    state: RuntimeView,
    images: bool,
    id: i64,
    now: Moment,
    other: i64,
)
    requires
        other != id,
    ensures
        ({
            let after = proxy::after_success(state, images, id, now);
            &&& after.day == now.day
            &&& known_of(after, images, id, now.day) == (0int, None::<Instant>)
            &&& known_of(after, images, other, now.day) == known_of(state, images, other, now.day)
            &&& known_of(after, !images, id, now.day) == known_of(state, !images, id, now.day)
            &&& known_of(after, !images, other, now.day) == known_of(
                state,
                !images,
                other,
                now.day,
            )
        }),
{
}

/// A key can be used where it is not disabled by hand and no ban of the day lasts. Looking ends a ban
/// that is over, and changes nothing else on that day.
pub proof fn keys_can_be_used(
    state: RuntimeView,
    images: bool,
    key: ApiKeyConfig,
    now: Moment,
    other: i64,
)
    requires
        other != key.id,
    ensures
        ({
            let (found, after) = proxy::looked(state, images, key, now);
            let (fails, until) = known_of(state, images, key.id, now.day);
            let lasts = until matches Some(end) && now.at.before(end);
            &&& found.fail_count == fails
            &&& found.banned <==> lasts
            &&& found.ban_until == if lasts {
                Some(until->0.secs)
            } else {
                None
            }
            &&& found.schedulable <==> !key.manually_disabled && !lasts
            &&& after.day == now.day
            &&& known_of(after, images, key.id, now.day) == (
                fails,
                if lasts {
                    until
                } else {
                    None
                },
            )
            &&& known_of(after, images, other, now.day) == known_of(state, images, other, now.day)
            &&& known_of(after, !images, key.id, now.day) == known_of(
                state,
                !images,
                key.id,
                now.day,
            )
            &&& known_of(after, !images, other, now.day) == known_of(
                state,
                !images,
                other,
                now.day,
            )
        }),
{
}

/// In a pool of more than one supplier the third failure of a key on a day bans it until five
/// minutes later, whatever keys the suppliers have, and the next key is tried.
pub proof fn third_failure_bans_in_a_pool_of_many(
    pool: PoolConfig,
    request: ProxyRequest,
    run: RunView,
    state: RuntimeView,
    outcome: CallOutcome,
    now: Moment,
    next_day: Instant,
    later: Moment,
)
    requires
        pool.base_urls@.len() >= 2,
        !wants_image(request),
        proxy::is_sent(pool, run),
        !run.call->0.images,
        !(request.path@ == "/v1/models"@ && run.call->0.model is Some),
        proxy::can_count(state, false, proxy::current_key(pool, run).id, now),
        known_of(state, false, proxy::current_key(pool, run).id, now.day).0 == 2,
        now.at.nanos < 1_000_000_000,
        later.day == now.day,
        later.at.before(Instant { secs: (now.at.secs + 300) as i64, nanos: now.at.nanos }),
    ensures
        ({
            let (after, next, left) = proxy::failure_move(
                pool,
                request,
                run,
                state,
                outcome,
                now,
                next_day,
                later,
            );
            &&& known_of(left, false, proxy::current_key(pool, run).id, now.day) == (
                3int,
                Some(Instant { secs: (now.at.secs + 300) as i64, nanos: now.at.nanos }),
            )
            &&& after is Continue
            &&& next.key == run.key + 1
            &&& next.supplier == run.supplier
        }),
{
    path_names();
    let key = proxy::current_key(pool, run);
    let other: i64 = if key.id == 0 {
        1
    } else {
        0
    };
    bans_are_allowed(pool);
    failures_are_counted(state, false, key.id, now, true, next_day, other);
    let marked = proxy::after_fail(state, false, key.id, now, true, next_day);
    keys_can_be_used(marked, false, key, later, other);
}

/// What a failure is remembered as.
pub open spec fn is_told_as(message: Seq<char>, outcome: CallOutcome) -> bool {
    match outcome {
        CallOutcome::Answered { status } => message == "Upstream returned "@ + text::decimal_view(
            status as nat,
        ),
        CallOutcome::TimedOut => message == "Gateway Timeout"@,
        CallOutcome::Failed { reason } => message == "Bad Gateway: "@ + reason@,
    }
}

/// After a failure a client that asked for the models, where a model stands in, is told of that
/// model. Else the failure is remembered. The same key is tried again where bans are allowed and it
/// can still be used; if not, the next one is. In every case the failure is counted.
pub proof fn failures_lead_on(
    pool: PoolConfig,
    request: ProxyRequest,
    run: RunView,
    state: RuntimeView,
    outcome: CallOutcome,
    now: Moment,
    next_day: Instant,
    later: Moment,
)
    requires
        proxy::is_sent(pool, run),
        proxy::can_count(state, run.call->0.images, proxy::current_key(pool, run).id, now),
    ensures
        ({
            let call = run.call->0;
            let key = proxy::current_key(pool, run);
            let allowed = proxy::allows_ban(pool, wants_image(request));
            let marked = proxy::after_fail(state, call.images, key.id, now, allowed, next_day);
            let (found, checked) = proxy::looked(marked, call.images, key, later);
            let (after, next, left) = proxy::failure_move(
                pool,
                request,
                run,
                state,
                outcome,
                now,
                next_day,
                later,
            );
            let models = request.path@ == "/v1/models"@ && call.model is Some;
            &&& models ==> left == marked && next == run && after == AfterFailureView::Models(
                json::json_text(models::override_models(call.model->0)),
            )
            &&& !models ==> {
                &&& next.last_error matches Some(message) && is_told_as(message, outcome)
                &&& next.supplier == run.supplier
                &&& next.call == run.call
                &&& allowed && found.schedulable ==> after is Retry && next.key == run.key
                &&& !(allowed && found.schedulable) ==> after is Continue && next.key == run.key + 1
                &&& left == if allowed {
                    checked
                } else {
                    marked
                }
            }
        }),
{
    path_names();
}

/// The steps of a run: at the end of the suppliers the client is refused; at a new supplier the call
/// is made for it; behind its last key the next supplier comes; a key that cannot be used is passed;
/// one that can be used is sent to, with its own key.
pub proof fn steps_of_a_run(
    pool: PoolConfig,
    access_key: AccessKeyConfig,
    request: ProxyRequest,
    run: RunView,
    state: RuntimeView,
    now: Moment,
)
    requires
        run.supplier >= 0,
        run.key >= 0,
    ensures
        ({
            let (step, next, after) = proxy::next_move(pool, access_key, request, run, state, now);
            let suppliers = pool.base_urls@;
            let supplier = suppliers[run.supplier];
            let query = match request.query {
                Some(query) => Some(query@),
                None => None,
            };
            &&& next.last_error == run.last_error
            &&& run.supplier >= suppliers.len() ==> {
                let all = "All supplier / API Key candidates are unavailable"@;
                &&& step matches StepView::Refuse(refusal) && refusal.status == 503 && !refusal.json
                    && refusal.message == match run.last_error {
                    Some(error) => all + ". "@ + error,
                    None => all,
                }
                &&& next == run && after == state
            }
            &&& run.supplier < suppliers.len() && run.call is None ==> {
                &&& after == state
                &&& match proxy::supplier_call(request, access_key, supplier) {
                    Ok(call) => {
                        &&& step is Continue
                        &&& next.call == Some(call)
                        &&& next.supplier == run.supplier && next.key == run.key
                    },
                    Err(refusal) => step == StepView::Refuse(refusal) && next == run,
                }
            }
            &&& run.supplier < suppliers.len() ==> (run.call matches Some(call) ==> {
                let keys = if call.images {
                    supplier.image_keys@
                } else {
                    supplier.api_keys@
                };
                let key = keys[run.key];
                let usable = proxy::looked(state, call.images, key, now).0.schedulable;
                &&& run.key >= keys.len() ==> step is Continue && after == state && next.call
                    is None && next.supplier == run.supplier + 1 && next.key == 0
                &&& run.key < keys.len() ==> after == proxy::looked(
                    state,
                    call.images,
                    key,
                    now,
                ).1 && next.call == run.call && next.supplier == run.supplier
                &&& run.key < keys.len() && !usable ==> step is Continue && next.key == run.key + 1
                &&& run.key < keys.len() && usable && upstream::countable(
                    supplier.base_url@,
                    call.path,
                    query,
                ) ==> {
                    &&& next.key == run.key
                    &&& match proxy::attempt_for(
                        supplier.base_url@,
                        call.path,
                        query,
                        headers::header_contents(request.headers),
                        key.api_key@,
                    ) {
                        Ok(attempt) => step == StepView::Send(attempt),
                        Err(refusal) => step == StepView::Refuse(refusal),
                    }
                }
            })
        }),
{
    reveal_strlit("All supplier / API Key candidates are unavailable. ");
    reveal_strlit("All supplier / API Key candidates are unavailable");
    reveal_strlit(". ");
    assert("All supplier / API Key candidates are unavailable. "@
        =~= "All supplier / API Key candidates are unavailable"@ + ". "@);
}

/// An attempt goes to the URL of the supplier for the path and the query, with the client's headers,
/// made out to that host and with the supplier's key. What cannot be is a bad gateway.
pub proof fn attempts_are_made_out_to_the_supplier(
    base_url: Seq<char>,
    path: Seq<char>,
    query: Option<Seq<char>>,
    source: headers::HeadersView,
    api_key: Seq<char>,
)
    ensures
        match proxy::attempt_for(base_url, path, query, source, api_key) {
            Ok(attempt) => {
                &&& upstream::upstream_url(base_url, path, query) == Ok::<_, Seq<char>>(attempt.url)
                &&& upstream::authority_view(attempt.url) matches Ok(authority)
                    && headers::upstream_headers(source, authority, api_key) == Ok::<_, Seq<char>>(
                    attempt.headers,
                )
            },
            Err(refusal) => {
                &&& refusal.status == 502
                &&& !refusal.json
                &&& match upstream::upstream_url(base_url, path, query) {
                    Err(message) => refusal.message == message,
                    Ok(url) => match upstream::authority_view(url) {
                        Err(message) => refusal.message == message,
                        Ok(authority) => headers::upstream_headers(source, authority, api_key)
                            == Err::<headers::HeadersView, Seq<char>>(refusal.message),
                    },
                }
            },
        },
{
}

/// Statuses that begin with 4 or 5 are failures. An answer in the client's own protocol is passed on
/// as it is; another is converted event by event where it is streamed, and whole where it is not,
/// and is labelled as what it has become.
pub proof fn answers_are_delivered(status: u16, conversion: ConversionMode)
    ensures
        proxy::is_error_status(status) <==> status / 100 == 4 || status / 100 == 5,
        proxy::delivery_for(ConversionMode::Direct, true) is Direct,
        proxy::delivery_for(ConversionMode::Direct, false) is Direct,
        conversion !is Direct ==> proxy::delivery_for(conversion, true) is Events,
        conversion !is Direct ==> proxy::delivery_for(conversion, false) is Whole,
        proxy::content_type_of(Delivery::Direct) is None,
        proxy::content_type_of(Delivery::Events) == Some("text/event-stream"@),
        proxy::content_type_of(Delivery::Whole) == Some("application/json"@),
{
}

/// That key of the supplier has that id.
pub open spec fn has_key(supplier: BaseUrlConfig, images: bool, k: int, id: i64) -> bool {
    let keys = if images {
        supplier.image_keys@
    } else {
        supplier.api_keys@
    };
    0 <= k < keys.len() && keys[k].id == id
}

/// The ids of the keys of suppliers, of those for images or of the others, are all listed.
pub proof fn keys_of_suppliers(suppliers: Seq<BaseUrlConfig>, images: bool, n: nat, id: i64)
    requires
        n <= suppliers.len(),
    ensures
        runtime::supplier_key_ids(suppliers, images, n).contains(id) <==> exists|i: int, k: int|
            0 <= i < n && #[trigger] has_key(suppliers[i], images, k, id),
    decreases n,
{
    if n > 0 {
        let m = (n - 1) as nat;
        keys_of_suppliers(suppliers, images, m, id);
        let keys = if images {
            suppliers[n - 1].image_keys@
        } else {
            suppliers[n - 1].api_keys@
        };
        let before = runtime::supplier_key_ids(suppliers, images, m);
        let more = runtime::key_ids(keys);
        if (before + more).contains(id) {
            let at = choose|at: int| 0 <= at < (before + more).len() && (before + more)[at] == id;
            if at < before.len() {
                assert(before[at] == id);
                assert(before.contains(id));
            } else {
                assert(more[at - before.len()] == id);
                assert(has_key(suppliers[n - 1], images, at - before.len(), id));
            }
        }
        if exists|i: int, k: int| 0 <= i < n && #[trigger] has_key(suppliers[i], images, k, id) {
            let (i, k) = choose|i: int, k: int|
                0 <= i < n && #[trigger] has_key(suppliers[i], images, k, id);
            if i < m {
                let at = choose|at: int| 0 <= at < before.len() && before[at] == id;
                assert((before + more)[at] == id);
            } else {
                assert(more[k] == id);
                assert((before + more)[before.len() + k] == id);
            }
        }
    } else {
        assert(runtime::supplier_key_ids(suppliers, images, n).len() == 0);
    }
}

/// Clearing a pool forgets what is known of every key of its suppliers, of those for images and of
/// the others, and of no other key.
pub proof fn cleared_pools_are_forgotten(
    state: RuntimeView,
    pool: PoolConfig,
    images: bool,
    id: i64,
)
    ensures
        ({
            let after = runtime::without_pool(state, pool);
            let of_pool = exists|i: int, k: int|
                0 <= i < pool.base_urls@.len() && #[trigger] has_key(
                    pool.base_urls@[i],
                    images,
                    k,
                    id,
                );
            &&& after.day == state.day
            &&& known_of(after, images, id, state.day) == if of_pool {
                (0int, None::<Instant>)
            } else {
                known_of(state, images, id, state.day)
            }
        }),
{
    let suppliers = pool.base_urls@;
    keys_of_suppliers(suppliers, images, suppliers.len(), id);
    let ids = runtime::supplier_key_ids(suppliers, images, suppliers.len());
    assert(ids.to_set().contains(id) <==> ids.contains(id));
}

} // verus!
