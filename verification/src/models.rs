//! Models: the list that a supplier gives, and the request that a key is tested with.

use vstd::prelude::*;
use vstd::utf8::*;

use crate::config::{ProtocolMode, TestProtocol};
use crate::json;
use crate::json::{integer, json_to_string, json_to_vec, parse_json, Json, JsonMap, JsonView};
use crate::payload;
use crate::payload::contains_text;
use crate::requests;
use crate::responses;
use crate::text;
use crate::text::{concat2, decimal};

verus! {

/// The ids of the first `n` entries, each once; an entry without one is left out.
pub open spec fn ids_of(data: Seq<JsonView>, n: nat) -> Seq<Seq<char>>
    decreases n,
{
    if n == 0 {
        Seq::empty()
    } else {
        let before = ids_of(data, (n - 1) as nat);
        match data[n - 1].get_str("id"@) {
            Some(id) => if before.contains(id) {
                before
            } else {
                before.push(id)
            },
            None => before,
        }
    }
}

/// The ids in a list of models.
pub open spec fn model_ids(list: JsonView) -> Result<Seq<Seq<char>>, Seq<char>> {
    match list.get("data"@) {
        Some(JsonView::Array(data)) => Ok(ids_of(data, data.len())),
        _ => Err("models response missing data"@),
    }
}

/// What a result of texts stands for.
pub open spec fn texts_result_view(result: Result<Vec<String>, String>) -> Result<
    Seq<Seq<char>>,
    Seq<char>,
> {
    match result {
        Ok(texts) => Ok(payload::strings_view(texts@)),
        Err(message) => Err(message@),
    }
}

/// The ids in a list of models.
pub fn model_ids_in_value(list: &Json) -> (result: Result<Vec<String>, String>)
    ensures
        texts_result_view(result) == model_ids(list@),
{
    let data = match list.get("data") {
        Some(data) => match data {
            Json::Array(data) => data,
            _ => {
                return Err("models response missing data".to_string());
            },
        },
        None => {
            return Err("models response missing data".to_string());
        },
    };
    let mut models: Vec<String> = Vec::new();
    let mut i: usize = 0;
    assert(payload::strings_view(models@) =~= Seq::empty());
    while i < data.len()
        invariant
            i <= data@.len(),
            payload::strings_view(models@) == ids_of(json::items_view(data@), i as nat),
        decreases data@.len() - i,
    {
        if let Json::Object(members) = &data[i] {
            if let Some(id) = members.get_str("id") {
                if !contains_text(&models, id) {
                    let ghost before = models@;
                    models.push(id.to_string());
                    assert(payload::strings_view(models@) =~= payload::strings_view(before).push(
                        id@,
                    ));
                }
            }
        }
        i = i + 1;
    }
    Ok(models)
}

/// The ids in the body of a list of models.
pub open spec fn model_ids_body(body: Seq<u8>) -> Result<Seq<Seq<char>>, Seq<char>> {
    match json::parsed(body) {
        Ok(list) => model_ids(list),
        Err(message) => Err("invalid models response JSON: "@ + message),
    }
}

/// The ids in the body of a list of models.
pub fn parse_model_ids(body: &[u8]) -> (result: Result<Vec<String>, String>)
    ensures
        texts_result_view(result) == model_ids_body(body@),
{
    match parse_json(body) {
        Ok(list) => model_ids_in_value(&list),
        Err(message) => Err(concat2("invalid models response JSON: ", message.as_str())),
    }
}

/// No model is listed twice.
pub proof fn model_ids_are_distinct(data: Seq<JsonView>, n: nat)
    ensures
        ids_of(data, n).no_duplicates(),
    decreases n,
{
    if n > 0 {
        model_ids_are_distinct(data, (n - 1) as nat);
    }
}

/// The request that a key is tested with.
pub open spec fn test_request(protocol: TestProtocol, model: Seq<char>) -> JsonView {
    match protocol {
        TestProtocol::Chat => JsonView::Object(
            map![
                "model"@ => JsonView::String(model),
                "messages"@ => JsonView::Array(
                    seq![requests::message_view("user"@, JsonView::String("hi"@))],
                ),
            ],
        ),
        TestProtocol::Responses => JsonView::Object(
            map!["model"@ => JsonView::String(model), "input"@ => JsonView::String("hi"@)],
        ),
    }
}

/// The request that a key is tested with.
pub fn test_request_value(protocol: TestProtocol, model: &str) -> (request: Json)
    ensures
        request@ == test_request(protocol, model@),
{
    match protocol {
        TestProtocol::Chat => {
            let message = Json::Object(
                JsonMap::new().with("role", Json::text("user")).with("content", Json::text("hi")),
            );
            let mut messages: Vec<Json> = Vec::new();
            messages.push(message);
            assert(json::items_view(messages@) =~= seq![message@]);
            Json::Object(
                JsonMap::new().with("model", Json::text(model)).with(
                    "messages",
                    Json::Array(messages),
                ),
            )
        },
        TestProtocol::Responses => Json::Object(
            JsonMap::new().with("model", Json::text(model)).with("input", Json::text("hi")),
        ),
    }
}

/// The body of the request that a key is tested with.
pub fn test_request_body(protocol: TestProtocol, model: &str) -> (result: Result<Vec<u8>, String>)
    ensures
        requests::bytes_result_view(result) == Ok::<Seq<u8>, Seq<char>>(
            encode_utf8(json::json_text(test_request(protocol, model@))),
        ),
{
    match json_to_vec(&test_request_value(protocol, model)) {
        Ok(body) => Ok(body),
        Err(message) => Err(concat2("failed to encode test request: ", message.as_str())),
    }
}

/// The list of the one model that all requests are sent with.
pub open spec fn override_models(model: Seq<char>) -> JsonView {
    JsonView::Object(
        map![
            "object"@ => JsonView::String("list"@),
            "data"@ => JsonView::Array(
                seq![
                    JsonView::Object(
                        map![
                            "id"@ => JsonView::String(model),
                            "object"@ => JsonView::String("model"@),
                            "created"@ => responses::zero_view(),
                            "owned_by"@ => JsonView::String("proxy"@),
                        ],
                    ),
                ],
            ),
        ],
    )
}

/// The list of the one model that all requests are sent with.
pub fn override_models_value(model: &str) -> (list: Json)
    ensures
        list@ == override_models(model@),
{
    let entry = Json::Object(
        JsonMap::new().with("id", Json::text(model)).with("object", Json::text("model")).with(
            "created",
            integer(0),
        ).with("owned_by", Json::text("proxy")),
    );
    let mut data: Vec<Json> = Vec::new();
    data.push(entry);
    assert(json::items_view(data@) =~= seq![entry@]);
    Json::Object(JsonMap::new().with("object", Json::text("list")).with("data", Json::Array(data)))
}

/// The text of the list of the one model that all requests are sent with.
pub fn build_override_models_response(model: &str) -> (body: String)
    ensures
        body@ == json::json_text(override_models(model@)),
{
    match json_to_string(&override_models_value(model)) {
        Ok(text) => text,
        Err(_) => String::new(),
    }
}

/// The list that stands in for the supplier's holds the one model.
pub proof fn override_models_hold_the_model(model: Seq<char>)
    ensures
        model_ids(override_models(model)) == Ok::<Seq<Seq<char>>, Seq<char>>(seq![model]),
{
    let data = override_models(model).get("data"@)->0->Array_0;
    json_names_differ();
    assert(data.len() == 1);
    assert(data[0].get_str("id"@) == Some(model));
    assert(ids_of(data, 0) =~= Seq::empty());
    assert(ids_of(data, 1) =~= seq![model]);
}

proof fn json_names_differ()
    ensures
        "data"@ != "object"@,
        "id"@ != "object"@,
        "id"@ != "created"@,
        "id"@ != "owned_by"@,
{
    reveal_strlit("data");
    reveal_strlit("object");
    reveal_strlit("id");
    reveal_strlit("created");
    reveal_strlit("owned_by");
    assert("id"@.len() == 2 && "object"@.len() == 6 && "data"@.len() == 4);
    assert("created"@.len() == 7 && "owned_by"@.len() == 8);
}

/// A key and its supplier, as far as a test needs them.
pub struct KeyTestTarget {
    pub api_key: String,
    pub base_url: String,
    pub supplier_protocol: ProtocolMode,
    pub selected_model: Option<String>,
    pub selected_protocol: Option<TestProtocol>,
}

/// A key and its supplier as they are saved.
pub struct KeyTestRow {
    pub api_key: String,
    pub base_url: String,
    pub protocol_mode: String,
    pub test_model: String,
    pub test_protocol: String,
}

/// What a test needs of a key: a model or a protocol that was saved blank is none.
pub fn key_test_target(row: KeyTestRow) -> (result: Result<KeyTestTarget, String>)
    ensures
        match result {
            Ok(target) => {
                &&& ProtocolMode::named(row.protocol_mode@) == Some(target.supplier_protocol)
                &&& target.api_key == row.api_key
                &&& target.base_url == row.base_url
                &&& target.selected_model == if text::trim_view(row.test_model@).len() == 0 {
                    None
                } else {
                    Some(row.test_model)
                }
                &&& target.selected_protocol == TestProtocol::named(row.test_protocol@)
            },
            Err(message) => {
                &&& ProtocolMode::named(row.protocol_mode@) is None
                &&& message@ == "protocol_mode must be chat, responses, or both"@
            },
        },
{
    let supplier_protocol = match ProtocolMode::from_str(row.protocol_mode.as_str()) {
        Ok(mode) => mode,
        Err(message) => {
            return Err(message);
        },
    };
    let selected_protocol = TestProtocol::from_saved(row.test_protocol.as_str());
    let blank = row.test_model.as_str().trim().is_empty();
    Ok(
        KeyTestTarget {
            api_key: row.api_key,
            base_url: row.base_url,
            supplier_protocol,
            selected_model: if blank {
                None
            } else {
                Some(row.test_model)
            },
            selected_protocol,
        },
    )
}

/// A status tells of success.
pub open spec fn is_success(status: u16) -> bool {
    200 <= status < 300
}

/// What came of a call to a supplier.
pub enum CallOutcome {
    /// An answer with that status.
    Answered { status: u16 },
    /// No answer in time.
    TimedOut,
    /// No answer, for that reason.
    Failed { reason: String },
}

/// What the administrator is told of a test.
pub struct KeyTestReport {
    pub ok: bool,
    pub message: String,
    pub status_code: Option<u16>,
}

/// The text of a status in brackets, behind some text.
pub open spec fn with_status(label: Seq<char>, status: u16) -> Seq<char> {
    label + " ("@ + text::decimal_view(status as nat) + ")"@
}

fn label_status(label: &str, status: u16) -> (text: String)
    ensures
        text@ == with_status(label@, status),
{
    let mut text = concat2(label, " (");
    text.append(decimal(status as u128).as_str());
    text.append(")");
    text
}

/// What the administrator is told of a test.
pub fn test_key_report(outcome: CallOutcome) -> (report: KeyTestReport)
    ensures
        match outcome {
            CallOutcome::Answered { status } => {
                &&& report.ok == is_success(status)
                &&& report.status_code == Some(status)
                &&& report.message@ == if is_success(status) {
                    with_status("测试成功"@, status)
                } else {
                    with_status("测试失败"@, status)
                }
            },
            CallOutcome::TimedOut => {
                &&& !report.ok
                &&& report.status_code is None
                &&& report.message@ == "测试超时"@
            },
            CallOutcome::Failed { reason } => {
                &&& !report.ok
                &&& report.status_code is None
                &&& report.message@ == "测试失败: "@ + reason@
            },
        },
{
    match outcome {
        CallOutcome::Answered { status } => {
            let ok = 200 <= status && status < 300;
            let message = if ok {
                label_status("测试成功", status)
            } else {
                label_status("测试失败", status)
            };
            KeyTestReport { ok, message, status_code: Some(status) }
        },
        CallOutcome::TimedOut => KeyTestReport {
            ok: false,
            message: "测试超时".to_string(),
            status_code: None,
        },
        CallOutcome::Failed { reason } => KeyTestReport {
            ok: false,
            message: concat2("测试失败: ", reason.as_str()),
            status_code: None,
        },
    }
}

/// Why the list of models could not be loaded; none where the supplier answered with success.
pub open spec fn models_failure_text(outcome: CallOutcome) -> Option<Seq<char>> {
    match outcome {
        CallOutcome::Answered { status } => if is_success(status) {
            None
        } else {
            Some(with_status("Failed to load models"@, status))
        },
        CallOutcome::TimedOut => Some("加载模型超时"@),
        CallOutcome::Failed { reason } => Some("加载模型失败: "@ + reason@),
    }
}

/// Why the list of models could not be loaded; none where the supplier answered with success.
pub fn models_failure(outcome: CallOutcome) -> (message: Option<String>)
    ensures
        text::opt_string_view(message) == models_failure_text(outcome),
{
    match outcome {
        CallOutcome::Answered { status } => if 200 <= status && status < 300 {
            None
        } else {
            Some(label_status("Failed to load models", status))
        },
        CallOutcome::TimedOut => Some("加载模型超时".to_string()),
        CallOutcome::Failed { reason } => Some(concat2("加载模型失败: ", reason.as_str())),
    }
}

} // verus!
