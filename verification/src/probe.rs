//! Asking a supplier beside its clients' requests: for its models, and whether a key works.

use vstd::prelude::*;
use vstd::utf8::*;

use crate::admin;
use crate::answer;
use crate::answer::{
    json_error,
    Refusal,
    RefusalView,
    BAD_GATEWAY,
    BAD_REQUEST,
    INTERNAL_SERVER_ERROR,
    NOT_FOUND,
};
use crate::config::{TestProtocol, MODELS_PATH};
use crate::headers;
use crate::headers::build_upstream_headers;
use crate::json;
use crate::models;
use crate::models::{
    models_failure,
    parse_model_ids,
    test_request_body,
    CallOutcome,
    KeyTestTarget,
};
use crate::payload;
use crate::payload::{normalize_test_model, resolve_test_protocol};
use crate::proxy::{Attempt, AttemptView};
use crate::text;
use crate::text::concat2;
use crate::upstream;
use crate::upstream::{try_build_upstream_url, upstream_authority};

verus! {

/// What is sent to a supplier with a key, where no client stands behind it. A URL that cannot be
/// made is the administrator's fault, a header that cannot be made the supplier's.
pub open spec fn probe_for(base_url: Seq<char>, path: Seq<char>, api_key: Seq<char>) -> Result<
    AttemptView,
    RefusalView,
> {
    match upstream::upstream_url(base_url, path, None) {
        Err(message) => Err(answer::json_refusal(BAD_REQUEST, message)),
        Ok(url) => match upstream::authority_view(url) {
            Err(message) => Err(answer::json_refusal(BAD_GATEWAY, message)),
            Ok(authority) => match headers::upstream_headers(
                headers::no_headers(),
                authority,
                api_key,
            ) {
                Err(message) => Err(answer::json_refusal(BAD_GATEWAY, message)),
                Ok(headers) => Ok(AttemptView { url, headers }),
            },
        },
    }
}

/// What a result of an attempt stands for.
pub open spec fn attempt_result_view(result: Result<Attempt, Refusal>) -> Result<
    AttemptView,
    RefusalView,
> {
    match result {
        Ok(attempt) => Ok(attempt@),
        Err(refusal) => Err(refusal@),
    }
}

fn prepare_probe(base_url: &str, path: &str, api_key: &str) -> (result: Option<
    Result<Attempt, Refusal>,
>)
    ensures
        match result {
            Some(result) => {
                &&& upstream::countable(base_url@, path@, None)
                &&& attempt_result_view(result) == probe_for(base_url@, path@, api_key@)
            },
            None => !upstream::countable(base_url@, path@, None),
        },
{
    let url = match try_build_upstream_url(base_url, path, None) {
        None => {
            return None;
        },
        Some(Ok(url)) => url,
        Some(Err(message)) => {
            return Some(Err(json_error(BAD_REQUEST, message)));
        },
    };
    let authority = match upstream_authority(&url) {
        Ok(authority) => authority,
        Err(message) => {
            return Some(Err(json_error(BAD_GATEWAY, message)));
        },
    };
    match build_upstream_headers(&headers::new_headers(), authority.as_str(), api_key) {
        Ok(headers) => Some(Ok(Attempt { url, headers })),
        Err(message) => Some(Err(json_error(BAD_GATEWAY, message))),
    }
}

/// What is sent to a supplier to ask for its models; none where the URL cannot be counted.
pub fn load_upstream_models(base_url: &str, api_key: &str) -> (result: Option<
    Result<Attempt, Refusal>,
>)
    ensures
        match result {
            Some(result) => {
                &&& upstream::countable(base_url@, MODELS_PATH@, None)
                &&& attempt_result_view(result) == probe_for(base_url@, MODELS_PATH@, api_key@)
            },
            None => !upstream::countable(base_url@, MODELS_PATH@, None),
        },
{
    prepare_probe(base_url, MODELS_PATH, api_key)
}

/// Refuses where the supplier did not answer the question for its models with success.
pub fn models_answered(outcome: CallOutcome) -> (result: Result<(), Refusal>)
    ensures
        admin::done_view(result) == match models::models_failure_text(outcome) {
            Some(message) => Err(answer::json_refusal(BAD_GATEWAY, message)),
            None => Ok(()),
        },
{
    match models_failure(outcome) {
        Some(message) => Err(json_error(BAD_GATEWAY, message)),
        None => Ok(()),
    }
}

/// The models that a supplier named, or why they cannot be told: its answer broke off, or is no
/// list of models.
pub open spec fn models_told(body: Result<Seq<u8>, Seq<char>>) -> Result<
    Seq<Seq<char>>,
    RefusalView,
> {
    match body {
        Err(reason) => Err(
            answer::json_refusal(
                BAD_GATEWAY,
                "Failed to read upstream models response: "@ + reason,
            ),
        ),
        Ok(body) => match models::model_ids_body(body) {
            Ok(ids) => Ok(ids),
            Err(message) => Err(answer::json_refusal(BAD_GATEWAY, message)),
        },
    }
}

/// The models that a supplier named.
pub fn models_in_answer(body: Result<&[u8], String>) -> (result: Result<Vec<String>, Refusal>)
    ensures
        (match result {
            Ok(ids) => Ok::<Seq<Seq<char>>, RefusalView>(payload::strings_view(ids@)),
            Err(refusal) => Err(refusal@),
        }) == models_told(
            match body {
                Ok(body) => Ok(body@),
                Err(reason) => Err(reason@),
            },
        ),
{
    match body {
        Err(reason) => Err(
            json_error(
                BAD_GATEWAY,
                concat2("Failed to read upstream models response: ", reason.as_str()),
            ),
        ),
        Ok(body) => match parse_model_ids(body) {
            Ok(ids) => Ok(ids),
            Err(message) => Err(json_error(BAD_GATEWAY, message)),
        },
    }
}

/// A key of a supplier as it is stored.
pub struct SupplierKeyRow {
    pub api_key: String,
    pub manually_disabled: i64,
}

/// The first key that is switched on.
pub open spec fn first_enabled(keys: Seq<SupplierKeyRow>) -> Option<Seq<char>>
    decreases keys.len(),
{
    if keys.len() == 0 {
        None
    } else if keys[0].manually_disabled == 0 {
        Some(keys[0].api_key@)
    } else {
        first_enabled(keys.skip(1))
    }
}

/// The base URL and the key with which a supplier is asked for its models: the first of its keys,
/// in their order, that is switched on.
pub open spec fn asked_with(base_url: Option<Seq<char>>, keys: Seq<SupplierKeyRow>) -> Result<
    (Seq<char>, Seq<char>),
    RefusalView,
> {
    match base_url {
        None => Err(answer::json_refusal(NOT_FOUND, "supplier not found"@)),
        Some(base_url) => match first_enabled(keys) {
            None => Err(
                answer::json_refusal(BAD_REQUEST, "supplier has no available api_key"@),
            ),
            Some(api_key) => Ok((base_url, api_key)),
        },
    }
}

/// The base URL and the key with which a supplier is asked for its models. The keys come in their
/// order.
pub fn supplier_models(base_url: Option<String>, keys: &Vec<SupplierKeyRow>) -> (result: Result<
    (String, String),
    Refusal,
>)
    ensures
        (match result {
            Ok((base_url, api_key)) => Ok::<(Seq<char>, Seq<char>), RefusalView>(
                (base_url@, api_key@),
            ),
            Err(refusal) => Err(refusal@),
        }) == asked_with(text::opt_string_view(base_url), keys@),
{
    let url = match base_url {
        Some(url) => url,
        None => {
            return Err(json_error(NOT_FOUND, "supplier not found".to_string()));
        },
    };
    let mut i: usize = 0;
    assert(keys@.skip(0) =~= keys@);
    while i < keys.len()
        invariant
            i <= keys@.len(),
            text::opt_string_view(base_url) == Some(url@),
            first_enabled(keys@) == first_enabled(keys@.skip(i as int)),
        decreases keys@.len() - i,
    {
        assert(keys@.skip(i as int)[0] == keys@[i as int]);
        if keys[i].manually_disabled == 0 {
            return Ok((url, keys[i].api_key.clone()));
        }
        assert(keys@.skip(i as int).skip(1) =~= keys@.skip(i + 1));
        i = i + 1;
    }
    Err(json_error(BAD_REQUEST, "supplier has no available api_key".to_string()))
}

/// The model that a key is to be tested with; a blank one is refused.
pub fn requested_model(model: &str) -> (result: Result<String, Refusal>)
    ensures
        match result {
            Ok(model_text) => payload::required_text(model@, "model is required"@) == Ok::<
                Seq<char>,
                Seq<char>,
            >(model_text@),
            Err(refusal) => {
                &&& text::trim_view(model@).len() == 0
                &&& refusal@ == answer::json_refusal(BAD_REQUEST, "model is required"@)
            },
        },
{
    match normalize_test_model(model) {
        Ok(model) => Ok(model),
        Err(message) => Err(json_error(BAD_REQUEST, message)),
    }
}

/// The protocol that a key is tested with: the one that is asked for, where the supplier serves
/// it. A key that is not there is refused.
pub fn requested_protocol(target: Option<&KeyTestTarget>, requested: Option<TestProtocol>) -> (
    result: Result<TestProtocol, Refusal>)
    ensures
        (match result {
            Ok(protocol) => Ok::<TestProtocol, RefusalView>(protocol),
            Err(refusal) => Err(refusal@),
        }) == match target {
            None => Err(answer::json_refusal(NOT_FOUND, "api_key not found"@)),
            Some(target) => match payload::test_protocol_for(
                target.supplier_protocol,
                requested,
            ) {
                Ok(protocol) => Ok(protocol),
                Err(message) => Err(answer::json_refusal(BAD_REQUEST, message)),
            },
        },
{
    match target {
        None => Err(json_error(NOT_FOUND, "api_key not found".to_string())),
        Some(target) => match resolve_test_protocol(&target.supplier_protocol, requested) {
            Ok(protocol) => Ok(protocol),
            Err(message) => Err(json_error(BAD_REQUEST, message)),
        },
    }
}

/// What is sent to a supplier to test a key.
pub struct KeyTest {
    pub attempt: Attempt,
    pub body: Vec<u8>,
}

/// What is sent to a supplier to test a key; none where the URL cannot be counted.
pub fn test_key(target: &KeyTestTarget, protocol: TestProtocol, model: &str) -> (result: Option<
    Result<KeyTest, Refusal>,
>)
    ensures
        ({
            let path = protocol.endpoint_view().location();
            let probe = probe_for(target.base_url@, path, target.api_key@);
            match result {
                Some(Ok(test)) => {
                    &&& upstream::countable(target.base_url@, path, None)
                    &&& probe == Ok::<AttemptView, RefusalView>(test.attempt@)
                    &&& test.body@ == encode_utf8(
                        json::json_text(models::test_request(protocol, model@)),
                    )
                },
                Some(Err(refusal)) => {
                    &&& upstream::countable(target.base_url@, path, None)
                    &&& probe == Err::<AttemptView, RefusalView>(refusal@)
                },
                None => !upstream::countable(target.base_url@, path, None),
            }
        }),
{
    let path = protocol.endpoint().path();
    let attempt = match prepare_probe(target.base_url.as_str(), path, target.api_key.as_str()) {
        None => {
            return None;
        },
        Some(Ok(attempt)) => attempt,
        Some(Err(refusal)) => {
            return Some(Err(refusal));
        },
    };
    match test_request_body(protocol, model) {
        Ok(body) => Some(Ok(KeyTest { attempt, body })),
        Err(message) => Some(Err(json_error(INTERNAL_SERVER_ERROR, message))),
    }
}

/// A supplier is asked for its models with a key of its own that is switched on.
pub proof fn asked_with_an_enabled_key(base_url: Option<Seq<char>>, keys: Seq<SupplierKeyRow>)
    ensures
        asked_with(base_url, keys) matches Ok((_, api_key)) ==> exists|i: int|
            0 <= i < keys.len() && (#[trigger] keys[i]).manually_disabled == 0 && keys[i].api_key@
                == api_key,
    decreases keys.len(),
{
    if base_url is Some && keys.len() > 0 && keys[0].manually_disabled != 0 {
        asked_with_an_enabled_key(base_url, keys.skip(1));
        if first_enabled(keys) is Some {
            let rest = keys.skip(1);
            let i = choose|i: int|
                0 <= i < rest.len() && (#[trigger] rest[i]).manually_disabled == 0
                    && rest[i].api_key@ == first_enabled(keys)->0;
            assert(keys[i + 1] == rest[i]);
        }
    }
}

} // verus!
