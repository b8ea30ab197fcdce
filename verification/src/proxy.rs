//! A client's request on its way through a pool: the suppliers and their keys are tried in turn
//! until one answers.

use vstd::prelude::*;
use vstd::utf8::*;

use axum::http::HeaderMap;

use crate::answer;
use crate::answer::{
    json_error,
    plain_error,
    Refusal,
    RefusalView,
    BAD_GATEWAY,
    BAD_REQUEST,
    PAYLOAD_TOO_LARGE,
    SERVICE_UNAVAILABLE,
};
use crate::clock;
use crate::clock::{next_day_zero, Instant, Moment};
use crate::config;
use crate::config::{
    effective_override_model,
    upstream_plan,
    AccessKeyConfig,
    ApiKeyConfig,
    BaseUrlConfig,
    ConversionMode,
    OpenAiEndpoint,
    PoolConfig,
    IMAGES_GENERATIONS_PATH,
    MODELS_PATH,
};
use crate::headers;
use crate::headers::{build_upstream_headers, response_headers, HeadersView};
use crate::json;
use crate::models;
use crate::models::{build_override_models_response, CallOutcome};
use crate::requests;
use crate::requests::{override_model_in_body, transform_request_body, BridgeContext};
use crate::runtime;
use crate::runtime::{
    count_image_key_fail,
    count_key_fail,
    image_key_availability_in_state,
    image_request_has_single_candidate,
    key_availability_in_state,
    mark_image_key_success_in_state,
    mark_key_success_in_state,
    pool_has_single_supplier_and_key,
    KeyAvailability,
    KeyRuntimeState,
    RuntimeView,
};
use crate::text;
use crate::text::{concat2, decimal, same};
use crate::tools::ToolContextView;
use crate::upstream;
use crate::upstream::{try_build_upstream_url, upstream_authority, UpstreamUrl, UrlView};
use crate::usage;
use crate::usage::{note_key_usage, AccessKeyUsage, UsageRuntimeState};

verus! {

/// The largest body of a request, in bytes.
pub const MAX_REQUEST_BODY_BYTES: usize = 20_971_520;

/// A request that is too large is refused.
pub fn body_too_large() -> (refusal: Refusal)
    ensures
        refusal@ == answer::plain_refusal(
            PAYLOAD_TOO_LARGE,
            "Request body exceeds "@ + text::decimal_view(MAX_REQUEST_BODY_BYTES as nat)
                + " bytes"@,
        ),
{
    let mut message = concat2(
        "Request body exceeds ",
        decimal(MAX_REQUEST_BODY_BYTES as u128).as_str(),
    );
    message.append(" bytes");
    plain_error(PAYLOAD_TOO_LARGE, message)
}

/// A request of a client.
pub struct ProxyRequest {
    /// The method is `POST`.
    pub is_post: bool,
    pub path: String,
    pub query: Option<String>,
    pub body: Vec<u8>,
    pub headers: HeaderMap,
}

/// A request, and the pool that it goes through.
pub struct ProxyContext<'a> {
    pub pool: &'a PoolConfig,
    pub access_key: &'a AccessKeyConfig,
    pub request: &'a ProxyRequest,
}

/// The path is that of images, and the method fits.
pub open spec fn asks_for_image(is_post: bool, path: Seq<char>) -> bool {
    is_post && path == IMAGES_GENERATIONS_PATH@
}

/// Whether a request asks for an image.
pub fn is_image_request(is_post: bool, path: &str) -> (image: bool)
    ensures
        image == asks_for_image(is_post, path@),
{
    is_post && same(path, IMAGES_GENERATIONS_PATH)
}

impl ProxyRequest {
    pub open spec fn for_image(self) -> bool {
        asks_for_image(self.is_post, self.path@)
    }

    /// The endpoint that a request is converted from; none for a request that is passed on as it
    /// is.
    pub open spec fn endpoint(self) -> Option<OpenAiEndpoint> {
        if self.is_post {
            OpenAiEndpoint::at(self.path@)
        } else {
            None
        }
    }
}

/// How a request goes to a supplier.
pub struct SupplierCall {
    pub path: String,
    pub conversion: ConversionMode,
    pub body: Vec<u8>,
    pub bridge_context: BridgeContext,
    /// The model that the request is sent with in place of its own.
    pub model: Option<String>,
    /// The supplier's keys for images are used.
    pub images: bool,
}

pub ghost struct CallView {
    pub path: Seq<char>,
    pub conversion: ConversionMode,
    pub body: Seq<u8>,
    pub tools: Option<ToolContextView>,
    pub model: Option<Seq<char>>,
    pub images: bool,
}

impl View for SupplierCall {
    type V = CallView;

    open spec fn view(&self) -> CallView {
        CallView {
            path: self.path@,
            conversion: self.conversion,
            body: self.body@,
            tools: self.bridge_context.tools(),
            model: text::opt_string_view(self.model),
            images: self.images,
        }
    }
}

/// Where a request goes at a supplier, and how it gets there.
pub open spec fn route(request: ProxyRequest, supplier: BaseUrlConfig) -> (
    Seq<char>,
    ConversionMode,
) {
    match request.endpoint() {
        Some(endpoint) => {
            let plan = config::plan_for(endpoint, supplier.protocol_mode);
            (plan.upstream_endpoint.location(), plan.conversion)
        },
        None => (request.path@, ConversionMode::Direct),
    }
}

/// The model that a request is sent with in place of its own; an image keeps its own.
pub open spec fn model_for(
    request: ProxyRequest,
    access_key: AccessKeyConfig,
    supplier: BaseUrlConfig,
) -> Option<Seq<char>> {
    if request.for_image() {
        None
    } else {
        config::override_model_of(access_key, supplier)
    }
}

/// How a request goes to a supplier; one that cannot be converted is refused.
pub open spec fn supplier_call(
    request: ProxyRequest,
    access_key: AccessKeyConfig,
    supplier: BaseUrlConfig,
) -> Result<CallView, RefusalView> {
    let (path, conversion) = route(request, supplier);
    let model = model_for(request, access_key, supplier);
    let body = match requests::upstream_body(request.body@, conversion) {
        Err(message) => Err(message),
        Ok(body) => match model {
            Some(model) => requests::model_body(body, model),
            None => Ok(body),
        },
    };
    match body {
        Ok(body) => Ok(
            CallView {
                path,
                conversion,
                body,
                tools: requests::upstream_tools(request.body@, conversion),
                model,
                images: request.for_image() && supplier.image_keys@.len() > 0,
            },
        ),
        Err(message) => Err(answer::json_refusal(BAD_REQUEST, message)),
    }
}

/// What a result of a call stands for.
pub open spec fn call_result_view(result: Result<SupplierCall, Refusal>) -> Result<
    CallView,
    RefusalView,
> {
    match result {
        Ok(call) => Ok(call@),
        Err(refusal) => Err(refusal@),
    }
}

/// How a request goes to a supplier.
pub fn prepare_supplier_call(
    request: &ProxyRequest,
    access_key: &AccessKeyConfig,
    supplier: &BaseUrlConfig,
) -> (result: Result<SupplierCall, Refusal>)
    ensures
        call_result_view(result) == supplier_call(*request, *access_key, *supplier),
{
    let endpoint = if request.is_post {
        OpenAiEndpoint::from_path(request.path.as_str())
    } else {
        None
    };
    let (path, conversion) = match endpoint {
        Some(endpoint) => {
            let plan = upstream_plan(endpoint, &supplier.protocol_mode);
            (plan.upstream_endpoint.path().to_string(), plan.conversion)
        },
        None => (request.path.clone(), ConversionMode::Direct),
    };
    let converted = match transform_request_body(request.body.as_slice(), conversion) {
        Ok(converted) => converted,
        Err(message) => {
            return Err(json_error(BAD_REQUEST, message));
        },
    };
    let for_image = is_image_request(request.is_post, request.path.as_str());
    let model = if for_image {
        None
    } else {
        match effective_override_model(access_key, supplier) {
            Some(model) => Some(model.to_string()),
            None => None,
        }
    };
    let body = match &model {
        Some(model) => match override_model_in_body(converted.body.as_slice(), model.as_str()) {
            Ok(body) => body,
            Err(message) => {
                return Err(json_error(BAD_REQUEST, message));
            },
        },
        None => converted.body,
    };
    Ok(
        SupplierCall {
            path,
            conversion,
            body,
            bridge_context: converted.bridge_context,
            model,
            images: for_image && supplier.image_keys.len() > 0,
        },
    )
}

/// What is sent to a supplier beside the body.
pub struct Attempt {
    pub url: UpstreamUrl,
    pub headers: HeaderMap,
}

pub ghost struct AttemptView {
    pub url: UrlView,
    pub headers: HeadersView,
}

impl View for Attempt {
    type V = AttemptView;

    open spec fn view(&self) -> AttemptView {
        AttemptView { url: self.url@, headers: headers::header_contents(self.headers) }
    }
}

/// What is sent to a supplier with a key; a URL or a header that cannot be made is refused.
pub open spec fn attempt_for(
    base_url: Seq<char>,
    path: Seq<char>,
    query: Option<Seq<char>>,
    source: HeadersView,
    api_key: Seq<char>,
) -> Result<AttemptView, RefusalView> {
    match upstream::upstream_url(base_url, path, query) {
        Err(message) => Err(answer::plain_refusal(BAD_GATEWAY, message)),
        Ok(url) => match upstream::authority_view(url) {
            Err(message) => Err(answer::plain_refusal(BAD_GATEWAY, message)),
            Ok(authority) => match headers::upstream_headers(source, authority, api_key) {
                Err(message) => Err(answer::plain_refusal(BAD_GATEWAY, message)),
                Ok(headers) => Ok(AttemptView { url, headers }),
            },
        },
    }
}

/// What is sent to a supplier with a key; none where the URL cannot be counted.
pub fn prepare_attempt(
    base_url: &str,
    path: &str,
    query: Option<&str>,
    source: &HeaderMap,
    api_key: &str,
) -> (result: Option<Result<Attempt, Refusal>>)
    requires
        headers::header_contents(*source).dom().len() + 2 < headers::MAX_NAMES,
    ensures
        match result {
            Some(result) => {
                let expected = attempt_for(
                    base_url@,
                    path@,
                    text::opt_str_view(query),
                    headers::header_contents(*source),
                    api_key@,
                );
                &&& upstream::countable(base_url@, path@, text::opt_str_view(query))
                &&& match result {
                    Ok(attempt) => expected == Ok::<AttemptView, RefusalView>(attempt@),
                    Err(refusal) => expected == Err::<AttemptView, RefusalView>(refusal@),
                }
            },
            None => !upstream::countable(base_url@, path@, text::opt_str_view(query)),
        },
{
    let url = match try_build_upstream_url(base_url, path, query) {
        None => {
            return None;
        },
        Some(Ok(url)) => url,
        Some(Err(message)) => {
            return Some(Err(plain_error(BAD_GATEWAY, message)));
        },
    };
    let authority = match upstream_authority(&url) {
        Ok(authority) => authority,
        Err(message) => {
            return Some(Err(plain_error(BAD_GATEWAY, message)));
        },
    };
    match build_upstream_headers(source, authority.as_str(), api_key) {
        Ok(headers) => Some(Ok(Attempt { url, headers })),
        Err(message) => Some(Err(plain_error(BAD_GATEWAY, message))),
    }
}

/// Where a request is: the supplier and the key that are tried next.
pub struct ProxyRun {
    pub supplier: usize,
    pub key: usize,
    /// How the request goes to that supplier, once that was found out.
    pub call: Option<SupplierCall>,
    /// What came of the last key that was tried.
    pub last_error: Option<String>,
}

pub ghost struct RunView {
    pub supplier: int,
    pub key: int,
    pub call: Option<CallView>,
    pub last_error: Option<Seq<char>>,
}

impl View for ProxyRun {
    type V = RunView;

    open spec fn view(&self) -> RunView {
        RunView {
            supplier: self.supplier as int,
            key: self.key as int,
            call: match self.call {
                Some(call) => Some(call@),
                None => None,
            },
            last_error: text::opt_string_view(self.last_error),
        }
    }
}

/// What is done next with a request.
pub enum ProxyStep {
    /// Nothing was to be done here: ask again.
    Continue,
    /// The request is sent; what comes of it is told.
    Send(Attempt),
    /// The request is refused.
    Refuse(Refusal),
    /// The URL of the supplier is longer than can be counted.
    TooLong,
}

pub ghost enum StepView {
    Continue,
    Send(AttemptView),
    Refuse(RefusalView),
    TooLong,
}

impl View for ProxyStep {
    type V = StepView;

    open spec fn view(&self) -> StepView {
        match self {
            ProxyStep::Continue => StepView::Continue,
            ProxyStep::Send(attempt) => StepView::Send(attempt@),
            ProxyStep::Refuse(refusal) => StepView::Refuse(refusal@),
            ProxyStep::TooLong => StepView::TooLong,
        }
    }
}

/// The refusal when all suppliers and keys were tried.
pub open spec fn exhausted(last_error: Option<Seq<char>>) -> RefusalView {
    answer::plain_refusal(
        SERVICE_UNAVAILABLE,
        match last_error {
            Some(error) => "All supplier / API Key candidates are unavailable. "@ + error,
            None => "All supplier / API Key candidates are unavailable"@,
        },
    )
}

fn refuse_exhausted(last_error: &Option<String>) -> (refusal: Refusal)
    ensures
        refusal@ == exhausted(text::opt_string_view(*last_error)),
{
    let message = match last_error {
        Some(error) => concat2(
            "All supplier / API Key candidates are unavailable. ",
            error.as_str(),
        ),
        None => "All supplier / API Key candidates are unavailable".to_string(),
    };
    plain_error(SERVICE_UNAVAILABLE, message)
}

/// The keys that are tried at a supplier.
pub open spec fn candidate_keys(supplier: BaseUrlConfig, images: bool) -> Seq<ApiKeyConfig> {
    if images {
        supplier.image_keys@
    } else {
        supplier.api_keys@
    }
}

/// How a key can be used now, and what is remembered once it was asked.
pub open spec fn looked(state: RuntimeView, images: bool, key: ApiKeyConfig, now: Moment) -> (
    KeyAvailability,
    RuntimeView,
) {
    let today = runtime::on_day(state, now.day);
    if images {
        (
            runtime::availability(key.manually_disabled, today.image_keys, key.id, now.at),
            RuntimeView {
                image_keys: runtime::looked_at(today.image_keys, key.id, now.at),
                ..today
            },
        )
    } else {
        (
            runtime::availability(key.manually_disabled, today.keys, key.id, now.at),
            RuntimeView { keys: runtime::looked_at(today.keys, key.id, now.at), ..today },
        )
    }
}

fn look(key: &ApiKeyConfig, images: bool, state: &mut KeyRuntimeState, now: Moment) -> (found:
    KeyAvailability)
    ensures
        (found, final(state)@) == looked(old(state)@, images, *key, now),
{
    if images {
        image_key_availability_in_state(key, state, now)
    } else {
        key_availability_in_state(key, state, now)
    }
}

/// The next move of a request through a pool: to find out how it goes to the supplier, to leave a
/// supplier whose keys were all tried, to pass over a key that cannot be used, or to send it.
pub open spec fn next_move(
    pool: PoolConfig,
    access_key: AccessKeyConfig,
    request: ProxyRequest,
    run: RunView,
    state: RuntimeView,
    now: Moment,
) -> (StepView, RunView, RuntimeView) {
    if run.supplier >= pool.base_urls@.len() {
        (StepView::Refuse(exhausted(run.last_error)), run, state)
    } else {
        let supplier = pool.base_urls@[run.supplier];
        match run.call {
            None => match supplier_call(request, access_key, supplier) {
                Err(refusal) => (StepView::Refuse(refusal), run, state),
                Ok(call) => (StepView::Continue, RunView { call: Some(call), ..run }, state),
            },
            Some(call) => {
                let keys = candidate_keys(supplier, call.images);
                if run.key >= keys.len() {
                    let next = RunView {
                        supplier: run.supplier + 1,
                        key: 0,
                        call: None,
                        last_error: run.last_error,
                    };
                    (StepView::Continue, next, state)
                } else {
                    let key = keys[run.key];
                    let (found, after) = looked(state, call.images, key, now);
                    let query = text::opt_string_view(request.query);
                    if !found.schedulable {
                        (StepView::Continue, RunView { key: run.key + 1, ..run }, after)
                    } else if !upstream::countable(supplier.base_url@, call.path, query) {
                        (StepView::TooLong, run, after)
                    } else {
                        match attempt_for(
                            supplier.base_url@,
                            call.path,
                            query,
                            headers::header_contents(request.headers),
                            key.api_key@,
                        ) {
                            Ok(attempt) => (StepView::Send(attempt), run, after),
                            Err(refusal) => (StepView::Refuse(refusal), run, after),
                        }
                    }
                }
            },
        }
    }
}

/// The headers of a request leave room for those that the gateway sets.
pub open spec fn has_room(request: ProxyRequest) -> bool {
    headers::header_contents(request.headers).dom().len() + 2 < headers::MAX_NAMES
}

impl ProxyRun {
    /// A request that was not sent yet.
    pub fn start() -> (run: ProxyRun)
        ensures
            run@ == (RunView { supplier: 0, key: 0, call: None, last_error: None }),
    {
        ProxyRun { supplier: 0, key: 0, call: None, last_error: None }
    }

    /// The next move.
    pub fn step(&mut self, context: &ProxyContext, state: &mut KeyRuntimeState, now: Moment) -> (
        step: ProxyStep)
        requires
            has_room(*context.request),
        ensures
            (step@, final(self)@, final(state)@) == next_move(
                *context.pool,
                *context.access_key,
                *context.request,
                old(self)@,
                old(state)@,
                now,
            ),
    {
        if self.supplier >= context.pool.base_urls.len() {
            return ProxyStep::Refuse(refuse_exhausted(&self.last_error));
        }
        let supplier = &context.pool.base_urls[self.supplier];
        let images = match &self.call {
            Some(call) => call.images,
            None => {
                match prepare_supplier_call(context.request, context.access_key, supplier) {
                    Ok(call) => {
                        self.call = Some(call);
                        return ProxyStep::Continue;
                    },
                    Err(refusal) => {
                        return ProxyStep::Refuse(refusal);
                    },
                }
            },
        };
        let keys = if images {
            &supplier.image_keys
        } else {
            &supplier.api_keys
        };
        if self.key >= keys.len() {
            self.supplier = self.supplier + 1;
            self.key = 0;
            self.call = None;
            return ProxyStep::Continue;
        }
        let key = &keys[self.key];
        let found = look(key, images, state, now);
        if !found.schedulable {
            self.key = self.key + 1;
            return ProxyStep::Continue;
        }
        let query = match &context.request.query {
            Some(query) => Some(query.as_str()),
            None => None,
        };
        let path = match &self.call {
            Some(call) => call.path.as_str(),
            None => "",
        };
        match prepare_attempt(
            supplier.base_url.as_str(),
            path,
            query,
            &context.request.headers,
            key.api_key.as_str(),
        ) {
            Some(Ok(attempt)) => ProxyStep::Send(attempt),
            Some(Err(refusal)) => ProxyStep::Refuse(refusal),
            None => ProxyStep::TooLong,
        }
    }
}

/// An answer with that status is a failure of the key.
pub open spec fn is_error_status(status: u16) -> bool {
    400 <= status < 600
}

/// Whether an answer with that status is a failure of the key.
pub fn is_failure(status: u16) -> (failure: bool)
    ensures
        failure == is_error_status(status),
{
    400 <= status && status < 600
}

/// What is said of a failure.
pub open spec fn failure_text(outcome: CallOutcome) -> Seq<char> {
    match outcome {
        CallOutcome::Answered { status } => "Upstream returned "@ + text::decimal_view(
            status as nat,
        ),
        CallOutcome::TimedOut => "Gateway Timeout"@,
        CallOutcome::Failed { reason } => "Bad Gateway: "@ + reason@,
    }
}

fn describe_failure(outcome: &CallOutcome) -> (message: String)
    ensures
        message@ == failure_text(*outcome),
{
    match outcome {
        CallOutcome::Answered { status } => concat2(
            "Upstream returned ",
            decimal(*status as u128).as_str(),
        ),
        CallOutcome::TimedOut => "Gateway Timeout".to_string(),
        CallOutcome::Failed { reason } => concat2("Bad Gateway: ", reason.as_str()),
    }
}

/// Keys that fail may be banned: not where the pool has one candidate alone.
pub open spec fn allows_ban(pool: PoolConfig, for_image: bool) -> bool {
    let suppliers = pool.base_urls@;
    if for_image {
        runtime::image_candidate_count(suppliers, suppliers.len()) != 1
    } else {
        !(suppliers.len() == 1 && suppliers[0].api_keys@.len() == 1)
    }
}

/// Whether keys that fail may be banned.
pub fn allow_auto_ban(pool: &PoolConfig, for_image: bool) -> (allowed: bool)
    ensures
        allowed == allows_ban(*pool, for_image),
{
    if for_image {
        !image_request_has_single_candidate(pool)
    } else {
        !pool_has_single_supplier_and_key(pool)
    }
}

/// What is remembered after a failure of a key.
pub open spec fn after_fail(
    state: RuntimeView,
    images: bool,
    id: i64,
    now: Moment,
    allow_ban: bool,
    next_day: Instant,
) -> RuntimeView {
    let today = runtime::on_day(state, now.day);
    if images {
        RuntimeView {
            image_keys: runtime::with_failure(
                today.image_keys,
                id,
                now.at,
                allow_ban,
                next_day,
            ),
            ..today
        }
    } else {
        RuntimeView {
            keys: runtime::with_failure(today.keys, id, now.at, allow_ban, next_day),
            ..today
        }
    }
}

/// A failure of a key can be counted.
pub open spec fn can_count(state: RuntimeView, images: bool, id: i64, now: Moment) -> bool {
    let today = runtime::on_day(state, now.day);
    runtime::can_fail(
        if images {
            today.image_keys
        } else {
            today.keys
        },
        id,
        now.at,
    )
}

/// What is done after a failure.
pub enum AfterFailure {
    /// The list of the one model is the answer.
    Models(String),
    /// The same key is tried again in a moment.
    Retry,
    /// The next key is tried.
    Continue,
}

pub ghost enum AfterFailureView {
    Models(Seq<char>),
    Retry,
    Continue,
}

impl View for AfterFailure {
    type V = AfterFailureView;

    open spec fn view(&self) -> AfterFailureView {
        match self {
            AfterFailure::Models(body) => AfterFailureView::Models(body@),
            AfterFailure::Retry => AfterFailureView::Retry,
            AfterFailure::Continue => AfterFailureView::Continue,
        }
    }
}

/// A request that was sent: the key that it was sent with is there.
pub open spec fn is_sent(pool: PoolConfig, run: RunView) -> bool {
    &&& 0 <= run.supplier < pool.base_urls@.len()
    &&& run.call is Some
    &&& 0 <= run.key < candidate_keys(pool.base_urls@[run.supplier], run.call->0.images).len()
}

/// The key that a request was sent with.
pub open spec fn current_key(pool: PoolConfig, run: RunView) -> ApiKeyConfig {
    candidate_keys(pool.base_urls@[run.supplier], run.call->0.images)[run.key]
}

/// What is done after a failure at `now`. The list of models is answered by the gateway where it
/// knows the model; otherwise the key is tried again where bans are allowed and it can still be
/// used at `later`, and the next one is tried where not.
pub open spec fn failure_move(
    pool: PoolConfig,
    request: ProxyRequest,
    run: RunView,
    state: RuntimeView,
    outcome: CallOutcome,
    now: Moment,
    next_day: Instant,
    later: Moment,
) -> (AfterFailureView, RunView, RuntimeView) {
    let call = run.call->0;
    let key = current_key(pool, run);
    let allow_ban = allows_ban(pool, request.for_image());
    let marked = after_fail(state, call.images, key.id, now, allow_ban, next_day);
    if request.path@ == MODELS_PATH@ && call.model is Some {
        (
            AfterFailureView::Models(json::json_text(models::override_models(call.model->0))),
            run,
            marked,
        )
    } else {
        let noted = RunView { last_error: Some(failure_text(outcome)), ..run };
        let passed = RunView { key: run.key + 1, ..noted };
        let (found, checked) = looked(marked, call.images, key, later);
        if !allow_ban {
            (AfterFailureView::Continue, passed, marked)
        } else if found.schedulable {
            (AfterFailureView::Retry, noted, checked)
        } else {
            (AfterFailureView::Continue, passed, checked)
        }
    }
}

/// What is remembered after a success of a key.
pub open spec fn after_success(
    state: RuntimeView,
    images: bool,
    id: i64,
    now: Moment,
) -> RuntimeView {
    let today = runtime::on_day(state, now.day);
    if images {
        RuntimeView { image_keys: today.image_keys.remove(id), ..today }
    } else {
        RuntimeView { keys: today.keys.remove(id), ..today }
    }
}

impl ProxyRun {
    /// What is done after a failure at `now`, where the next day begins at `next_day` and it is
    /// `later` when the key is looked at again.
    pub fn failed_at(
        &mut self,
        context: &ProxyContext,
        state: &mut KeyRuntimeState,
        outcome: &CallOutcome,
        now: Moment,
        next_day: Instant,
        later: Moment,
    ) -> (after: AfterFailure)
        requires
            is_sent(*context.pool, old(self)@),
            can_count(
                old(state)@,
                old(self)@.call->0.images,
                current_key(*context.pool, old(self)@).id,
                now,
            ),
        ensures
            (after@, final(self)@, final(state)@) == failure_move(
                *context.pool,
                *context.request,
                old(self)@,
                old(state)@,
                *outcome,
                now,
                next_day,
                later,
            ),
    {
        let supplier = &context.pool.base_urls[self.supplier];
        let images = match &self.call {
            Some(call) => call.images,
            None => false,
        };
        let keys = if images {
            &supplier.image_keys
        } else {
            &supplier.api_keys
        };
        let key = &keys[self.key];
        let for_image = is_image_request(context.request.is_post, context.request.path.as_str());
        let allow_ban = allow_auto_ban(context.pool, for_image);
        if images {
            count_image_key_fail(key.id, state, now, allow_ban, next_day);
        } else {
            count_key_fail(key.id, state, now, allow_ban, next_day);
        }
        if same(context.request.path.as_str(), MODELS_PATH) {
            if let Some(call) = &self.call {
                if let Some(model) = &call.model {
                    return AfterFailure::Models(build_override_models_response(model.as_str()));
                }
            }
        }
        self.last_error = Some(describe_failure(outcome));
        if allow_ban {
            let found = look(key, images, state, later);
            if found.schedulable {
                return AfterFailure::Retry;
            }
        }
        assert(self.key < keys.len());
        self.key = self.key + 1;
        AfterFailure::Continue
    }

    /// What is done after a failure at `now`, where it is `later` when the key is looked at again.
    pub fn failed(
        &mut self,
        context: &ProxyContext,
        state: &mut KeyRuntimeState,
        outcome: &CallOutcome,
        now: Moment,
        later: Moment,
    ) -> (after: AfterFailure)
        requires
            now.valid(),
            is_sent(*context.pool, old(self)@),
            can_count(
                old(state)@,
                old(self)@.call->0.images,
                current_key(*context.pool, old(self)@).id,
                now,
            ),
        ensures
            exists|local: Option<Instant>|
                clock::is_local_start(clock::following_day(now.day), local) && (
                after@, final(self)@, final(state)@) == failure_move(
                    *context.pool,
                    *context.request,
                    old(self)@,
                    old(state)@,
                    *outcome,
                    now,
                    #[trigger] clock::start_of_day(clock::following_day(now.day), local),
                    later,
                ),
    {
        let next_day = next_day_zero(now.day);
        self.failed_at(context, state, outcome, now, next_day, later)
    }

    /// Notes that a key worked: its failures are forgotten, and where it was not one for images,
    /// its use is noted.
    pub fn succeeded(
        &self,
        context: &ProxyContext,
        state: &mut KeyRuntimeState,
        usage: &mut UsageRuntimeState,
        now: Moment,
        used_at: i64,
    )
        requires
            is_sent(*context.pool, self@),
        ensures
            final(state)@ == after_success(
                old(state)@,
                self@.call->0.images,
                current_key(*context.pool, self@).id,
                now,
            ),
            final(usage)@ == if self@.call->0.images {
                old(usage)@
            } else {
                usage::with_use(
                    old(usage)@,
                    AccessKeyUsage {
                        access_key_id: context.access_key.id,
                        proxy_id: context.pool.id,
                        supplier_id: context.pool.base_urls@[self@.supplier].id,
                        key_id: current_key(*context.pool, self@).id,
                        used_at,
                    },
                )
            },
    {
        let supplier = &context.pool.base_urls[self.supplier];
        let images = match &self.call {
            Some(call) => call.images,
            None => false,
        };
        if images {
            mark_image_key_success_in_state(supplier.image_keys[self.key].id, state, now);
        } else {
            let key_id: i64 = supplier.api_keys[self.key].id;
            mark_key_success_in_state(key_id, state, now);
            note_key_usage(
                usage,
                AccessKeyUsage {
                    access_key_id: context.access_key.id,
                    proxy_id: context.pool.id,
                    supplier_id: supplier.id,
                    key_id,
                    used_at,
                },
            );
        }
    }
}

/// How an answer goes to the client.
#[derive(Clone, Copy, Debug, PartialEq, Eq, Structural)]
pub enum Delivery {
    /// As it comes.
    Direct,
    /// Event by event, converted.
    Events,
    /// As a whole, converted.
    Whole,
}

/// How an answer goes to the client.
pub open spec fn delivery_for(conversion: ConversionMode, is_streaming: bool) -> Delivery {
    if conversion == ConversionMode::Direct {
        Delivery::Direct
    } else if is_streaming {
        Delivery::Events
    } else {
        Delivery::Whole
    }
}

/// How an answer goes to the client.
pub fn delivery(conversion: ConversionMode, is_streaming: bool) -> (delivery: Delivery)
    ensures
        delivery == delivery_for(conversion, is_streaming),
{
    match conversion {
        ConversionMode::Direct => Delivery::Direct,
        _ => if is_streaming {
            Delivery::Events
        } else {
            Delivery::Whole
        },
    }
}

/// The type of a body that the gateway made.
pub open spec fn content_type_of(delivery: Delivery) -> Option<Seq<char>> {
    match delivery {
        Delivery::Direct => None,
        Delivery::Events => Some("text/event-stream"@),
        Delivery::Whole => Some("application/json"@),
    }
}

proof fn content_types_are_visible()
    ensures
        headers::is_visible(encode_utf8("text/event-stream"@)),
        headers::is_visible(encode_utf8("application/json"@)),
{
    reveal_strlit("text/event-stream");
    reveal_strlit("application/json");
    is_ascii_chars_encode_utf8("text/event-stream"@);
    is_ascii_chars_encode_utf8("application/json"@);
}

/// The headers of an answer for the client.
pub fn downstream_headers(source: &HeaderMap, delivery: Delivery) -> (result: Result<
    HeaderMap,
    String,
>)
    requires
        headers::header_contents(*source).dom().len() + 1 < headers::MAX_NAMES,
    ensures
        result is Ok,
        headers::header_contents(result->Ok_0) == headers::client_headers(
            headers::header_contents(*source),
            delivery != Delivery::Direct,
            content_type_of(delivery),
        ),
{
    proof {
        content_types_are_visible();
    }
    match delivery {
        Delivery::Direct => response_headers(source, false, None),
        Delivery::Events => response_headers(source, true, Some("text/event-stream")),
        Delivery::Whole => response_headers(source, true, Some("application/json")),
    }
}

/// A request is sent with a key that can be used: not with one that is switched off or banned.
pub proof fn sent_key_is_schedulable(
    pool: PoolConfig,
    access_key: AccessKeyConfig,
    request: ProxyRequest,
    run: RunView,
    state: RuntimeView,
    now: Moment,
)
    requires
        run.supplier >= 0,
        run.key >= 0,
        next_move(pool, access_key, request, run, state, now).0 is Send,
    ensures
        is_sent(pool, run),
        !current_key(pool, run).manually_disabled,
        looked(state, run.call->0.images, current_key(pool, run), now).0.schedulable,
        next_move(pool, access_key, request, run, state, now).1 == run,
{
}

/// A request moves on and never back: each move that does not end it leads to a later place, or
/// finds out how it goes to the supplier.
pub proof fn moves_lead_on(
    pool: PoolConfig,
    access_key: AccessKeyConfig,
    request: ProxyRequest,
    run: RunView,
    state: RuntimeView,
    now: Moment,
)
    requires
        next_move(pool, access_key, request, run, state, now).0 is Continue,
    ensures
        ({
            let next = next_move(pool, access_key, request, run, state, now).1;
            ||| next.supplier == run.supplier + 1 && next.key == 0
            ||| next.supplier == run.supplier && next.key == run.key + 1
            ||| next.supplier == run.supplier && next.key == run.key && run.call is None
                && next.call is Some
        }),
{
}

/// No candidate is passed over: a key is left out only where it cannot be used, and a supplier is
/// left only when all of its keys were gone through.
pub proof fn no_candidate_is_passed_over(
    pool: PoolConfig,
    access_key: AccessKeyConfig,
    request: ProxyRequest,
    run: RunView,
    state: RuntimeView,
    now: Moment,
)
    requires
        0 <= run.supplier < pool.base_urls@.len(),
        next_move(pool, access_key, request, run, state, now).0 is Continue,
    ensures
        ({
            let next = next_move(pool, access_key, request, run, state, now).1;
            let supplier = pool.base_urls@[run.supplier];
            let keys = candidate_keys(supplier, run.call->0.images);
            &&& next.supplier != run.supplier ==> run.call is Some && run.key >= keys.len()
            &&& next.key == run.key + 1 ==> !looked(
                state,
                run.call->0.images,
                keys[run.key],
                now,
            ).0.schedulable || run.key >= keys.len()
            &&& next.last_error == run.last_error
        }),
{
}

/// A key that failed is left only where it cannot be used any more or may not be banned, and the
/// failure is told of then.
pub proof fn failed_key_is_left_for_cause(
    pool: PoolConfig,
    request: ProxyRequest,
    run: RunView,
    state: RuntimeView,
    outcome: CallOutcome,
    now: Moment,
    next_day: Instant,
    later: Moment,
)
    requires
        is_sent(pool, run),
        can_count(state, run.call->0.images, current_key(pool, run).id, now),
    ensures
        ({
            let (after, next, left) = failure_move(
                pool,
                request,
                run,
                state,
                outcome,
                now,
                next_day,
                later,
            );
            &&& after !is Models ==> next.last_error == Some(failure_text(outcome))
            &&& after is Continue ==> next.key == run.key + 1 && (!allows_ban(
                pool,
                request.for_image(),
            ) || !looked(left, run.call->0.images, current_key(pool, run), later).0.schedulable)
            &&& after is Retry ==> next.key == run.key
            &&& next.supplier == run.supplier
        }),
{
}

/// A request is refused for want of candidates only when all suppliers were gone through, and is
/// then told of the last failure.
pub proof fn exhausted_after_all(
    pool: PoolConfig,
    access_key: AccessKeyConfig,
    request: ProxyRequest,
    run: RunView,
    state: RuntimeView,
    now: Moment,
)
    requires
        run.supplier >= pool.base_urls@.len(),
    ensures
        next_move(pool, access_key, request, run, state, now).0 == StepView::Refuse(
            exhausted(run.last_error),
        ),
{
}

/// A pool with one candidate alone tries it once: it is neither banned nor tried again.
pub proof fn single_candidate_is_tried_once(
    pool: PoolConfig,
    request: ProxyRequest,
    run: RunView,
    state: RuntimeView,
    outcome: CallOutcome,
    now: Moment,
    next_day: Instant,
    later: Moment,
)
    requires
        is_sent(pool, run),
        !allows_ban(pool, request.for_image()),
        can_count(state, run.call->0.images, current_key(pool, run).id, now),
    ensures
        ({
            let (after, next, marked) = failure_move(
                pool,
                request,
                run,
                state,
                outcome,
                now,
                next_day,
                later,
            );
            &&& after !is Retry
            &&& later.day == now.day ==> !looked(
                marked,
                run.call->0.images,
                current_key(pool, run),
                later,
            ).0.banned
        }),
{
}

/// A key is tried again at most until it is banned: after its third failure of the day the next
/// one is tried, while the ban lasts.
pub proof fn banned_key_is_not_retried(
    pool: PoolConfig,
    request: ProxyRequest,
    run: RunView,
    state: RuntimeView,
    outcome: CallOutcome,
    now: Moment,
    next_day: Instant,
    later: Moment,
)
    requires
        is_sent(pool, run),
        can_count(state, run.call->0.images, current_key(pool, run).id, now),
        later.day == now.day,
        later.at.before(now.at.later_by(60 * runtime::TEMP_BAN_MINUTES)),
        later.at.before(next_day),
        ({
            let today = runtime::on_day(state, now.day);
            let keys = if run.call->0.images {
                today.image_keys
            } else {
                today.keys
            };
            runtime::entry_of(keys, current_key(pool, run).id).fail_count + 1
                >= runtime::TEMP_BAN_FAILS
        }),
    ensures
        failure_move(pool, request, run, state, outcome, now, next_day, later).0 !is Retry,
{
}

/// The keys of one kind are not touched by what happens to those of the other.
pub proof fn image_keys_are_apart(
    state: RuntimeView,
    key: ApiKeyConfig,
    now: Moment,
    allow_ban: bool,
    next_day: Instant,
)
    requires
        state.day == now.day,
    ensures
        looked(state, true, key, now).1.keys == state.keys,
        after_fail(state, true, key.id, now, allow_ban, next_day).keys == state.keys,
        after_success(state, true, key.id, now).keys == state.keys,
        looked(state, false, key, now).1.image_keys == state.image_keys,
        after_fail(state, false, key.id, now, allow_ban, next_day).image_keys == state.image_keys,
        after_success(state, false, key.id, now).image_keys == state.image_keys,
{
}

/// A request that needs no conversion and no other model goes to the supplier as it came.
pub proof fn plain_request_is_unchanged(
    request: ProxyRequest,
    access_key: AccessKeyConfig,
    supplier: BaseUrlConfig,
)
    requires
        route(request, supplier).1 == ConversionMode::Direct,
        model_for(request, access_key, supplier) is None,
    ensures
        supplier_call(request, access_key, supplier) matches Ok(call) && call.body == request.body@
            && call.tools is None,
{
}

/// An image is asked for with the client's own model, and only with the keys for images where the
/// supplier has any.
pub proof fn image_request_keeps_its_model(
    request: ProxyRequest,
    access_key: AccessKeyConfig,
    supplier: BaseUrlConfig,
)
    requires
        request.for_image(),
    ensures
        supplier_call(request, access_key, supplier) matches Ok(call) && call.body == request.body@
            && call.path == request.path@ && call.model is None && (call.images
            <==> supplier.image_keys@.len() > 0),
{
    reveal_strlit("/v1/images/generations");
    reveal_strlit("/v1/chat/completions");
    reveal_strlit("/v1/responses");
    assert(IMAGES_GENERATIONS_PATH@.len() == 22);
    assert(config::CHAT_PATH@.len() == 20);
    assert(config::RESPONSES_PATH@.len() == 13);
}

/// The model of the access key comes before that of the supplier.
pub proof fn access_key_model_comes_first(
    request: ProxyRequest,
    access_key: AccessKeyConfig,
    supplier: BaseUrlConfig,
)
    requires
        !request.for_image(),
        text::trim_view(access_key.override_model@).len() > 0,
    ensures
        model_for(request, access_key, supplier) == Some(
            text::trim_view(access_key.override_model@),
        ),
{
}

} // verus!
