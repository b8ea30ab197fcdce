//! Answers on their way back to the client: Chat Completions as Responses, and Responses as Chat
//! Completions.

use vstd::prelude::*;
use vstd::utf8::*;

use crate::config::ConversionMode;
use crate::json;
use crate::json::{integer, json_to_vec, parse_json, parse_json_text, Json, JsonMap, JsonView};
use crate::requests;
use crate::requests::BridgeContext;
use crate::text;
use crate::text::{concat2, same};
use crate::tools;
use crate::tools::{
    ResponsesToolContext,
    ResponsesToolKind,
    ResponsesToolSpec,
    ToolContextView,
    ToolSpecView,
};

verus! {

/// The text of a part: its member `text`, or the part itself where it is a string.
pub open spec fn part_text(part: JsonView) -> Seq<char> {
    match part.get_str("text"@) {
        Some(text) => text,
        None => match part {
            JsonView::String(text) => text,
            _ => Seq::empty(),
        },
    }
}

/// The text of the first `n` parts, one behind the other.
pub open spec fn parts_text(parts: Seq<JsonView>, n: nat) -> Seq<char>
    decreases n,
{
    if n == 0 {
        Seq::empty()
    } else {
        parts_text(parts, (n - 1) as nat) + part_text(parts[n - 1])
    }
}

/// The text of a Chat Completions message.
pub open spec fn message_text(message: JsonView) -> Seq<char> {
    match message.get("content"@) {
        Some(JsonView::String(text)) => text,
        Some(JsonView::Array(parts)) => parts_text(parts, parts.len()),
        _ => Seq::empty(),
    }
}

/// The member of that name, where it is a string.
fn get_str<'a>(value: &'a Json, name: &str) -> (text: Option<&'a str>)
    ensures
        text::opt_str_view(text) == value@.get_str(name@),
{
    match value {
        Json::Object(members) => members.get_str(name),
        _ => None,
    }
}

/// The text of a Chat Completions message.
pub fn extract_chat_content(message: &Json) -> (text: String)
    ensures
        text@ == message_text(message@),
{
    match message.get("content") {
        Some(content) => match content {
            Json::String(text) => text.clone(),
            Json::Array(parts) => {
                let mut text = String::new();
                let mut i: usize = 0;
                assert(text@ =~= Seq::empty());
                while i < parts.len()
                    invariant
                        i <= parts@.len(),
                        text@ == parts_text(json::items_view(parts@), i as nat),
                    decreases parts@.len() - i,
                {
                    let part = &parts[i];
                    match get_str(part, "text") {
                        Some(piece) => {
                            text.append(piece);
                        },
                        None => {
                            if let Json::String(piece) = part {
                                text.append(piece.as_str());
                            } else {
                                assert(text@ + Seq::<char>::empty() =~= text@);
                            }
                        },
                    }
                    i = i + 1;
                }
                text
            },
            _ => String::new(),
        },
        None => String::new(),
    }
}

/// The member of that name, or the default where there is none.
pub open spec fn get_or(value: JsonView, name: Seq<char>, default: JsonView) -> JsonView {
    match value.get(name) {
        Some(member) => member,
        None => default,
    }
}

fn member_or(value: &Json, name: &str, default: Json) -> (member: Json)
    ensures
        member@ == get_or(value@, name@, default@),
{
    match value.get(name) {
        Some(member) => member.clone(),
        None => default,
    }
}

/// The JSON number 0.
pub open spec fn zero_view() -> JsonView {
    JsonView::Number(json::integer_number(0))
}

/// The counts of tokens under the names of Responses; a count that is missing is 0.
pub open spec fn responses_usage(usage: Option<JsonView>) -> JsonView {
    match usage {
        Some(usage) => JsonView::Object(
            map![
                "input_tokens"@ => get_or(usage, "prompt_tokens"@, zero_view()),
                "output_tokens"@ => get_or(usage, "completion_tokens"@, zero_view()),
                "total_tokens"@ => get_or(usage, "total_tokens"@, zero_view()),
            ],
        ),
        None => JsonView::Null,
    }
}

/// The counts of tokens under the names of Responses.
pub fn chat_usage_to_responses_usage(usage: Option<&Json>) -> (converted: Json)
    ensures
        converted@ == responses_usage(json::opt_view(usage)),
{
    match usage {
        Some(usage) => Json::Object(
            JsonMap::new().with(
                "input_tokens",
                member_or(usage, "prompt_tokens", integer(0)),
            ).with("output_tokens", member_or(usage, "completion_tokens", integer(0))).with(
                "total_tokens",
                member_or(usage, "total_tokens", integer(0)),
            ),
        ),
        None => Json::Null,
    }
}

/// The arguments of a call: a string is read as JSON where it is JSON.
pub open spec fn tool_arguments(arguments: Option<JsonView>) -> JsonView {
    match arguments {
        Some(JsonView::String(text)) => match json::parsed(encode_utf8(text)) {
            Ok(value) => value,
            Err(_) => JsonView::String(text),
        },
        Some(value) => value,
        None => JsonView::Object(Map::empty()),
    }
}

/// The arguments of a call.
pub fn parse_tool_arguments(arguments: Option<&Json>) -> (value: Json)
    ensures
        value@ == tool_arguments(json::opt_view(arguments)),
{
    match arguments {
        Some(arguments) => match arguments {
            Json::String(text) => match parse_json_text(text.as_str()) {
                Some(value) => value,
                None => Json::String(text.clone()),
            },
            other => other.clone(),
        },
        None => Json::Object(JsonMap::new()),
    }
}

/// The member of that name of the function that a call names.
pub open spec fn function_member(tool_call: JsonView, name: Seq<char>) -> Option<JsonView> {
    match tool_call.get("function"@) {
        Some(function) => function.get(name),
        None => None,
    }
}

fn get_function_member<'a>(tool_call: &'a Json, name: &str) -> (member: Option<&'a Json>)
    ensures
        json::opt_view(member) == function_member(tool_call@, name@),
{
    match tool_call.get("function") {
        Some(function) => function.get(name),
        None => None,
    }
}

/// The chat name that a call names, or none.
pub open spec fn called_name(tool_call: JsonView) -> Seq<char> {
    match function_member(tool_call, "name"@) {
        Some(JsonView::String(name)) => name,
        _ => Seq::empty(),
    }
}

fn get_called_name(tool_call: &Json) -> (name: &str)
    ensures
        name@ == called_name(tool_call@),
{
    proof {
        text::empty_literal();
    }
    match get_function_member(tool_call, "name") {
        Some(name) => match name.as_str() {
            Some(name) => name,
            None => "",
        },
        None => "",
    }
}

/// A call of a custom tool, with the input that its arguments hold.
pub open spec fn custom_tool_call(id: JsonView, name: Seq<char>, arguments: JsonView) -> JsonView {
    requests::custom_item_view(
        id,
        name,
        get_or(arguments, "input"@, JsonView::String(Seq::empty())),
    )
}

/// A tool search, with the query and the limit that its arguments hold.
pub open spec fn tool_search_call(id: JsonView, name: Seq<char>, arguments: JsonView) -> JsonView {
    let members = map![
        "type"@ => JsonView::String("tool_search_call"@),
        "id"@ => id,
        "call_id"@ => id,
        "name"@ => JsonView::String(name),
    ];
    let with_query = match arguments.get("query"@) {
        Some(query) => members.insert("query"@, query),
        None => members,
    };
    JsonView::Object(
        match arguments.get("limit"@) {
            Some(limit) => with_query.insert("limit"@, limit),
            None => with_query,
        },
    )
}

/// A call of a function, in its namespace where it has one.
pub open spec fn function_call(
    id: JsonView,
    name: Seq<char>,
    arguments: JsonView,
    namespace: Option<Seq<char>>,
) -> JsonView {
    let members = map![
        "type"@ => JsonView::String("function_call"@),
        "id"@ => id,
        "call_id"@ => id,
        "name"@ => JsonView::String(name),
        "arguments"@ => arguments,
    ];
    JsonView::Object(
        match namespace {
            Some(namespace) => members.insert("namespace"@, JsonView::String(namespace)),
            None => members,
        },
    )
}

/// A call in a Chat Completions message as an item of a Responses output: a call of the tool that
/// its name stands for, under that tool's own name.
pub open spec fn responses_call_item(
    tool_call: JsonView,
    tool_spec: Option<ToolSpecView>,
) -> JsonView {
    let id = get_or(tool_call, "id"@, JsonView::String("call_0"@));
    let arguments = tool_arguments(function_member(tool_call, "arguments"@));
    let raw_arguments = match function_member(tool_call, "arguments"@) {
        Some(arguments) => arguments,
        None => JsonView::String(Seq::empty()),
    };
    match tool_spec {
        Some(tool_spec) => match tool_spec.kind {
            ResponsesToolKind::Custom => custom_tool_call(id, tool_spec.name, arguments),
            ResponsesToolKind::ToolSearch => tool_search_call(id, tool_spec.name, arguments),
            _ => function_call(id, tool_spec.name, raw_arguments, tool_spec.namespace),
        },
        None => function_call(id, called_name(tool_call), raw_arguments, None),
    }
}

/// The tool that a call names.
pub open spec fn called_tool(
    tool_call: JsonView,
    context: Option<ToolContextView>,
) -> Option<ToolSpecView> {
    match context {
        Some(context) => tools::spec_of(context.specs, called_name(tool_call)),
        None => None,
    }
}

/// What an optional context stands for.
pub open spec fn context_view(context: Option<&ResponsesToolContext>) -> Option<ToolContextView> {
    match context {
        Some(context) => Some(context@),
        None => None,
    }
}

fn call_members(kind: &str, id: Json, name: &str) -> (members: JsonMap)
    ensures
        members@ == map![
            "type"@ => JsonView::String(kind@),
            "id"@ => id@,
            "call_id"@ => id@,
            "name"@ => JsonView::String(name@),
        ],
{
    JsonMap::new().with("type", Json::text(kind)).with("id", id.clone()).with("call_id", id).with(
        "name",
        Json::text(name),
    )
}

/// A call in a Chat Completions message as an item of a Responses output.
pub fn chat_tool_call_to_responses_item(
    tool_call: &Json,
    context: Option<&ResponsesToolContext>,
) -> (item: Json)
    ensures
        item@ == responses_call_item(tool_call@, called_tool(tool_call@, context_view(context))),
{
    proof {
        text::empty_literal();
    }
    let id = member_or(tool_call, "id", Json::text("call_0"));
    let chat_name = get_called_name(tool_call);
    let arguments = parse_tool_arguments(get_function_member(tool_call, "arguments"));
    let raw_arguments = match get_function_member(tool_call, "arguments") {
        Some(arguments) => arguments.clone(),
        None => Json::text(""),
    };
    let tool_spec: Option<&ResponsesToolSpec> = match context {
        Some(context) => context.spec_for(chat_name),
        None => None,
    };
    match tool_spec {
        Some(tool_spec) => {
            let name = tool_spec.name.as_str();
            match tool_spec.kind {
                ResponsesToolKind::Custom => {
                    let input = member_or(&arguments, "input", Json::text(""));
                    Json::Object(call_members("custom_tool_call", id, name).with("input", input))
                },
                ResponsesToolKind::ToolSearch => {
                    let mut members = call_members("tool_search_call", id, name);
                    if let Some(query) = arguments.get("query") {
                        members.insert("query".to_string(), query.clone());
                    }
                    if let Some(limit) = arguments.get("limit") {
                        members.insert("limit".to_string(), limit.clone());
                    }
                    Json::Object(members)
                },
                _ => {
                    let mut members = call_members("function_call", id, name).with(
                        "arguments",
                        raw_arguments,
                    );
                    if let Some(namespace) = &tool_spec.namespace {
                        members.insert("namespace".to_string(), Json::text(namespace.as_str()));
                    }
                    Json::Object(members)
                },
            }
        },
        None => Json::Object(
            call_members("function_call", id, chat_name).with("arguments", raw_arguments),
        ),
    }
}

/// The first choice of an answer, or an empty one.
pub open spec fn first_choice(answer: JsonView) -> JsonView {
    match answer.get("choices"@) {
        Some(JsonView::Array(choices)) => if choices.len() > 0 {
            choices[0]
        } else {
            JsonView::Object(Map::empty())
        },
        _ => JsonView::Object(Map::empty()),
    }
}

fn get_first_choice(answer: &Json) -> (choice: Option<&Json>)
    ensures
        match choice {
            Some(choice) => {
                &&& answer@.get("choices"@) matches Some(JsonView::Array(choices))
                &&& choices.len() > 0
                &&& choice@ == choices[0]
            },
            None => match answer@.get("choices"@) {
                Some(JsonView::Array(choices)) => choices.len() == 0,
                _ => true,
            },
        },
{
    if let Some(choices) = answer.get("choices") {
        if let Json::Array(choices) = choices {
            if choices.len() > 0 {
                return Some(&choices[0]);
            }
        }
    }
    None
}

/// The message of an answer, or an empty one of the assistant.
pub open spec fn answer_message(answer: JsonView) -> JsonView {
    get_or(
        first_choice(answer),
        "message"@,
        requests::message_view("assistant"@, JsonView::String(Seq::empty())),
    )
}

/// A message of a Responses output.
pub open spec fn output_message(text: Seq<char>) -> JsonView {
    JsonView::Object(
        map![
            "id"@ => JsonView::String("msg_0"@),
            "type"@ => JsonView::String("message"@),
            "status"@ => JsonView::String("completed"@),
            "role"@ => JsonView::String("assistant"@),
            "content"@ => JsonView::Array(
                seq![
                    JsonView::Object(
                        map![
                            "type"@ => JsonView::String("output_text"@),
                            "text"@ => JsonView::String(text),
                            "annotations"@ => JsonView::Array(Seq::empty()),
                        ],
                    ),
                ],
            ),
        ],
    )
}

fn build_output_message(text: &str) -> (message: Json)
    ensures
        message@ == output_message(text@),
{
    let annotations: Vec<Json> = Vec::new();
    assert(json::items_view(annotations@) =~= Seq::empty());
    let part = Json::Object(
        JsonMap::new().with("type", Json::text("output_text")).with("text", Json::text(text)).with(
            "annotations",
            Json::Array(annotations),
        ),
    );
    let mut content: Vec<Json> = Vec::new();
    content.push(part);
    assert(json::items_view(content@) =~= seq![part@]);
    Json::Object(
        JsonMap::new().with("id", Json::text("msg_0")).with("type", Json::text("message")).with(
            "status",
            Json::text("completed"),
        ).with("role", Json::text("assistant")).with("content", Json::Array(content)),
    )
}

/// The items for the calls of a message.
pub open spec fn call_items(
    calls: Seq<JsonView>,
    context: Option<ToolContextView>,
) -> Seq<JsonView> {
    calls.map_values(|call: JsonView| responses_call_item(call, called_tool(call, context)))
}

/// The output for a message: its text, where it has any, and then its calls.
pub open spec fn output_items(
    message: JsonView,
    context: Option<ToolContextView>,
) -> Seq<JsonView> {
    let text = message_text(message);
    let said: Seq<JsonView> = if text.len() > 0 {
        seq![output_message(text)]
    } else {
        Seq::empty()
    };
    match message.get("tool_calls"@) {
        Some(JsonView::Array(calls)) => said + call_items(calls, context),
        _ => said,
    }
}

/// A Chat Completions answer as a Responses answer.
pub open spec fn responses_answer(
    answer: JsonView,
    context: Option<ToolContextView>,
) -> JsonView {
    let message = answer_message(answer);
    JsonView::Object(
        map![
            "id"@ => get_or(answer, "id"@, JsonView::String("resp_proxy"@)),
            "object"@ => JsonView::String("response"@),
            "created_at"@ => get_or(answer, "created"@, JsonView::Null),
            "model"@ => get_or(answer, "model"@, JsonView::Null),
            "status"@ => JsonView::String("completed"@),
            "output"@ => JsonView::Array(output_items(message, context)),
            "output_text"@ => JsonView::String(message_text(message)),
            "usage"@ => responses_usage(answer.get("usage"@)),
        ],
    )
}

/// A Chat Completions answer as a Responses answer.
pub fn chat_value_to_responses_answer(answer: &Json, context: Option<&ResponsesToolContext>) -> (
    converted: Json)
    ensures
        converted@ == responses_answer(answer@, context_view(context)),
{
    proof {
        text::empty_literal();
    }
    let empty_message = Json::Object(
        JsonMap::new().with("role", Json::text("assistant")).with("content", Json::text("")),
    );
    let message = match get_first_choice(answer) {
        Some(choice) => member_or(choice, "message", empty_message),
        None => empty_message,
    };
    let text = extract_chat_content(&message);
    let mut output: Vec<Json> = Vec::new();
    if !text.as_str().is_empty() {
        output.push(build_output_message(text.as_str()));
    }
    let ghost said = json::items_view(output@);
    assert(said =~= if text@.len() > 0 {
        seq![output_message(text@)]
    } else {
        Seq::<JsonView>::empty()
    });
    if let Some(calls) = message.get("tool_calls") {
        if let Json::Array(calls) = calls {
            let ghost views = json::items_view(calls@);
            let mut i: usize = 0;
            assert(said + call_items(views.take(0), context_view(context)) =~= said);
            while i < calls.len()
                invariant
                    i <= calls@.len(),
                    views == json::items_view(calls@),
                    json::items_view(output@) == said + call_items(
                        views.take(i as int),
                        context_view(context),
                    ),
                decreases calls@.len() - i,
            {
                let item = chat_tool_call_to_responses_item(&calls[i], context);
                proof {
                    json::items_push(output@, item);
                    let done = call_items(views.take(i as int), context_view(context));
                    assert(call_items(views.take(i + 1), context_view(context)) =~= done.push(
                        item@,
                    ));
                    assert((said + done).push(item@) =~= said + done.push(item@));
                }
                output.push(item);
                i = i + 1;
            }
            assert(views.take(i as int) =~= views);
        }
    }
    Json::Object(
        JsonMap::new().with("id", member_or(answer, "id", Json::text("resp_proxy"))).with(
            "object",
            Json::text("response"),
        ).with("created_at", member_or(answer, "created", Json::Null)).with(
            "model",
            member_or(answer, "model", Json::Null),
        ).with("status", Json::text("completed")).with("output", Json::Array(output)).with(
            "output_text",
            Json::String(text),
        ).with("usage", chat_usage_to_responses_usage(answer.get("usage"))),
    )
}

/// The body of a Responses answer for that of a Chat Completions answer.
pub open spec fn responses_answer_body(
    body: Seq<u8>,
    context: Option<ToolContextView>,
) -> Result<Seq<u8>, Seq<char>> {
    match json::parsed(body) {
        Ok(answer) => Ok(encode_utf8(json::json_text(responses_answer(answer, context)))),
        Err(message) => Err("invalid Chat Completions response JSON: "@ + message),
    }
}

/// The body of a Chat Completions answer as that of a Responses answer.
pub fn chat_response_to_responses(body: &[u8], context: Option<&ResponsesToolContext>) -> (result:
    Result<Vec<u8>, String>)
    ensures
        requests::bytes_result_view(result) == responses_answer_body(body@, context_view(context)),
{
    let answer = match parse_json(body) {
        Ok(answer) => answer,
        Err(message) => {
            return Err(concat2("invalid Chat Completions response JSON: ", message.as_str()));
        },
    };
    match json_to_vec(&chat_value_to_responses_answer(&answer, context)) {
        Ok(bytes) => Ok(bytes),
        Err(message) => Err(concat2("failed to encode Responses response: ", message.as_str())),
    }
}

/// The text of a part of an output.
pub open spec fn output_part_text(part: JsonView) -> Seq<char> {
    match part.get_str("text"@) {
        Some(text) => if part.get_str("type"@) == Some("output_text"@) {
            text
        } else {
            Seq::empty()
        },
        None => Seq::empty(),
    }
}

/// The text of the first `n` parts of an item.
pub open spec fn content_text(content: Seq<JsonView>, n: nat) -> Seq<char>
    decreases n,
{
    if n == 0 {
        Seq::empty()
    } else {
        content_text(content, (n - 1) as nat) + output_part_text(content[n - 1])
    }
}

/// The text of an item of an output.
pub open spec fn item_text(item: JsonView) -> Seq<char> {
    match item.get("content"@) {
        Some(JsonView::Array(content)) => content_text(content, content.len()),
        _ => Seq::empty(),
    }
}

/// The text of the first `n` items of an output.
pub open spec fn output_text(output: Seq<JsonView>, n: nat) -> Seq<char>
    decreases n,
{
    if n == 0 {
        Seq::empty()
    } else {
        output_text(output, (n - 1) as nat) + item_text(output[n - 1])
    }
}

/// The text of a Responses answer: the one that it states, or else that of its output.
pub open spec fn answer_text(answer: JsonView) -> Seq<char> {
    match answer.get_str("output_text"@) {
        Some(text) => text,
        None => match answer.get("output"@) {
            Some(JsonView::Array(output)) => output_text(output, output.len()),
            _ => Seq::empty(),
        },
    }
}

fn append_item_text(item: &Json, text: &mut String)
    ensures
        final(text)@ == old(text)@ + item_text(item@),
{
    let ghost before = text@;
    if let Some(content) = item.get("content") {
        if let Json::Array(content) = content {
            let ghost parts = json::items_view(content@);
            let mut i: usize = 0;
            assert(before + content_text(parts, 0) =~= before);
            while i < content.len()
                invariant
                    i <= content@.len(),
                    parts == json::items_view(content@),
                    text@ == before + content_text(parts, i as nat),
                decreases content@.len() - i,
            {
                let part = &content[i];
                let ghost so_far = content_text(parts, i as nat);
                let is_text = match get_str(part, "type") {
                    Some(kind) => same(kind, "output_text"),
                    None => false,
                };
                assert((before + so_far) + Seq::<char>::empty() =~= before + (so_far
                    + Seq::<char>::empty()));
                if is_text {
                    if let Some(piece) = get_str(part, "text") {
                        text.append(piece);
                        assert((before + so_far) + piece@ =~= before + (so_far + piece@));
                    }
                }
                assert(text@ =~= before + (so_far + output_part_text(part@)));
                i = i + 1;
            }
            return;
        }
    }
    assert(before + Seq::<char>::empty() =~= before);
}

/// The text of a Responses answer.
pub fn responses_output_text(value: &Json) -> (text: String)
    ensures
        text@ == answer_text(value@),
{
    if let Some(text) = get_str(value, "output_text") {
        return text.to_string();
    }
    let mut text = String::new();
    if let Some(output) = value.get("output") {
        if let Json::Array(output) = output {
            let mut i: usize = 0;
            while i < output.len()
                invariant
                    i <= output@.len(),
                    text@ == output_text(json::items_view(output@), i as nat),
                decreases output@.len() - i,
            {
                append_item_text(&output[i], &mut text);
                i = i + 1;
            }
        }
    }
    text
}

/// The counts of tokens under the names of Chat Completions; a count that is missing is 0.
pub open spec fn chat_usage(usage: Option<JsonView>) -> JsonView {
    match usage {
        Some(usage) => JsonView::Object(
            map![
                "prompt_tokens"@ => get_or(usage, "input_tokens"@, zero_view()),
                "completion_tokens"@ => get_or(usage, "output_tokens"@, zero_view()),
                "total_tokens"@ => get_or(usage, "total_tokens"@, zero_view()),
            ],
        ),
        None => JsonView::Null,
    }
}

/// The counts of tokens under the names of Chat Completions.
pub fn responses_usage_to_chat_usage(usage: Option<&Json>) -> (converted: Json)
    ensures
        converted@ == chat_usage(json::opt_view(usage)),
{
    match usage {
        Some(usage) => Json::Object(
            JsonMap::new().with(
                "prompt_tokens",
                member_or(usage, "input_tokens", integer(0)),
            ).with("completion_tokens", member_or(usage, "output_tokens", integer(0))).with(
                "total_tokens",
                member_or(usage, "total_tokens", integer(0)),
            ),
        ),
        None => Json::Null,
    }
}

/// The one choice of a Chat Completions answer.
pub open spec fn stop_choice(text: Seq<char>) -> JsonView {
    JsonView::Object(
        map![
            "index"@ => zero_view(),
            "message"@ => requests::message_view("assistant"@, JsonView::String(text)),
            "finish_reason"@ => JsonView::String("stop"@),
        ],
    )
}

/// A Responses answer as a Chat Completions answer.
pub open spec fn chat_answer(answer: JsonView) -> JsonView {
    JsonView::Object(
        map![
            "id"@ => get_or(answer, "id"@, JsonView::String("chatcmpl_proxy"@)),
            "object"@ => JsonView::String("chat.completion"@),
            "created"@ => get_or(answer, "created_at"@, JsonView::Null),
            "model"@ => get_or(answer, "model"@, JsonView::Null),
            "choices"@ => JsonView::Array(seq![stop_choice(answer_text(answer))]),
            "usage"@ => chat_usage(answer.get("usage"@)),
        ],
    )
}

/// A Responses answer as a Chat Completions answer.
pub fn responses_value_to_chat_answer(answer: &Json) -> (converted: Json)
    ensures
        converted@ == chat_answer(answer@),
{
    let text = responses_output_text(answer);
    let message = Json::Object(
        JsonMap::new().with("role", Json::text("assistant")).with("content", Json::String(text)),
    );
    let choice = Json::Object(
        JsonMap::new().with("index", integer(0)).with("message", message).with(
            "finish_reason",
            Json::text("stop"),
        ),
    );
    let mut choices: Vec<Json> = Vec::new();
    choices.push(choice);
    assert(json::items_view(choices@) =~= seq![choice@]);
    Json::Object(
        JsonMap::new().with("id", member_or(answer, "id", Json::text("chatcmpl_proxy"))).with(
            "object",
            Json::text("chat.completion"),
        ).with("created", member_or(answer, "created_at", Json::Null)).with(
            "model",
            member_or(answer, "model", Json::Null),
        ).with("choices", Json::Array(choices)).with(
            "usage",
            responses_usage_to_chat_usage(answer.get("usage")),
        ),
    )
}

/// The body of a Chat Completions answer for that of a Responses answer.
pub open spec fn chat_answer_body(body: Seq<u8>) -> Result<Seq<u8>, Seq<char>> {
    match json::parsed(body) {
        Ok(answer) => Ok(encode_utf8(json::json_text(chat_answer(answer)))),
        Err(message) => Err("invalid Responses response JSON: "@ + message),
    }
}

/// The body of a Responses answer as that of a Chat Completions answer.
pub fn responses_response_to_chat(body: &[u8]) -> (result: Result<Vec<u8>, String>)
    ensures
        requests::bytes_result_view(result) == chat_answer_body(body@),
{
    let answer = match parse_json(body) {
        Ok(answer) => answer,
        Err(message) => {
            return Err(concat2("invalid Responses response JSON: ", message.as_str()));
        },
    };
    match json_to_vec(&responses_value_to_chat_answer(&answer)) {
        Ok(bytes) => Ok(bytes),
        Err(message) => Err(
            concat2("failed to encode Chat Completions response: ", message.as_str()),
        ),
    }
}

/// The body of an answer in the client's protocol.
pub open spec fn client_body(
    body: Seq<u8>,
    conversion: ConversionMode,
    context: Option<ToolContextView>,
) -> Result<Seq<u8>, Seq<char>> {
    match conversion {
        ConversionMode::Direct => Ok(body),
        ConversionMode::ChatToResponses => chat_answer_body(body),
        ConversionMode::ResponsesToChat => responses_answer_body(body, context),
    }
}

/// The body of an answer in the client's protocol.
pub fn transform_response_body(
    body: &[u8],
    conversion: ConversionMode,
    bridge_context: &BridgeContext,
) -> (result: Result<Vec<u8>, String>)
    ensures
        requests::bytes_result_view(result) == client_body(
            body@,
            conversion,
            bridge_context.tools(),
        ),
{
    match conversion {
        ConversionMode::Direct => Ok(vstd::slice::slice_to_vec(body)),
        ConversionMode::ChatToResponses => responses_response_to_chat(body),
        ConversionMode::ResponsesToChat => chat_response_to_responses(
            body,
            bridge_context.responses_tool_context.as_ref(),
        ),
    }
}

proof fn answer_names_differ()
    ensures
        "output_text"@ != "usage"@,
        "choices"@ != "usage"@,
        "message"@ != "finish_reason"@,
        "role"@ != "content"@,
{
    reveal_strlit("output_text");
    reveal_strlit("usage");
    reveal_strlit("choices");
    reveal_strlit("message");
    reveal_strlit("finish_reason");
    reveal_strlit("role");
    reveal_strlit("content");
    assert("output_text"@.len() == 11 && "usage"@.len() == 5 && "choices"@.len() == 7);
    assert("message"@.len() == 7 && "finish_reason"@.len() == 13);
    assert("role"@.len() == 4 && "content"@.len() == 7);
}

/// A converted answer says what the supplier's says.
pub proof fn converted_answer_keeps_its_text(answer: JsonView, context: Option<ToolContextView>)
    ensures
        answer_text(responses_answer(answer, context)) == message_text(answer_message(answer)),
        message_text(answer_message(chat_answer(answer))) == answer_text(answer),
{
    answer_names_differ();
    let converted = responses_answer(answer, context);
    assert(converted.get("output_text"@) == Some(
        JsonView::String(message_text(answer_message(answer))),
    ));
    let chat = chat_answer(answer);
    let choice = stop_choice(answer_text(answer));
    assert(chat.get("choices"@) == Some(JsonView::Array(seq![choice])));
    assert(first_choice(chat) == choice);
    assert(choice.get("message"@) == Some(
        requests::message_view("assistant"@, JsonView::String(answer_text(answer))),
    ));
}

proof fn token_names_differ()
    ensures
        "input_tokens"@ != "output_tokens"@,
        "input_tokens"@ != "total_tokens"@,
        "output_tokens"@ != "total_tokens"@,
        "prompt_tokens"@ != "completion_tokens"@,
        "prompt_tokens"@ != "total_tokens"@,
        "completion_tokens"@ != "total_tokens"@,
{
    reveal_strlit("input_tokens");
    reveal_strlit("output_tokens");
    reveal_strlit("total_tokens");
    reveal_strlit("prompt_tokens");
    reveal_strlit("completion_tokens");
    assert("input_tokens"@[0] == 'i' && "total_tokens"@[0] == 't');
    assert("output_tokens"@.len() == 13 && "total_tokens"@.len() == 12);
    assert("input_tokens"@.len() == 12 && "prompt_tokens"@.len() == 13);
    assert("completion_tokens"@.len() == 17);
}

/// The counts of tokens survive a conversion and the one back.
pub proof fn token_counts_survive(usage: JsonView)
    ensures
        chat_usage(Some(responses_usage(Some(chat_usage(Some(usage)))))) == chat_usage(Some(usage)),
        responses_usage(Some(chat_usage(Some(responses_usage(Some(usage)))))) == responses_usage(
            Some(usage),
        ),
{
    token_names_differ();
    let chat = chat_usage(Some(usage));
    let there = responses_usage(Some(chat));
    assert(there.get("input_tokens"@) == chat.get("prompt_tokens"@));
    assert(there.get("output_tokens"@) == chat.get("completion_tokens"@));
    assert(there.get("total_tokens"@) == chat.get("total_tokens"@));
    let responses = responses_usage(Some(usage));
    let back = chat_usage(Some(responses));
    assert(back.get("prompt_tokens"@) == responses.get("input_tokens"@));
    assert(back.get("completion_tokens"@) == responses.get("output_tokens"@));
    assert(back.get("total_tokens"@) == responses.get("total_tokens"@));
}

pub(crate) proof fn call_names_differ()
    ensures
        "id"@ != "type"@,
        "id"@ != "function"@,
        "type"@ != "function"@,
        "name"@ != "arguments"@,
{
    reveal_strlit("id");
    reveal_strlit("type");
    reveal_strlit("function");
    reveal_strlit("name");
    reveal_strlit("arguments");
    assert("id"@.len() == 2 && "type"@.len() == 4 && "function"@.len() == 8);
    assert("name"@.len() == 4 && "arguments"@.len() == 9);
}

/// What is read of a call in a message of the assistant.
pub(crate) proof fn call_members_are_read(id: JsonView, chat_name: Seq<char>, arguments: Seq<char>)
    ensures
        ({
            let call = requests::chat_tool_call_view(id, chat_name, arguments);
            &&& get_or(call, "id"@, JsonView::String("call_0"@)) == id
            &&& called_name(call) == chat_name
            &&& function_member(call, "arguments"@) == Some(JsonView::String(arguments))
        }),
{
    call_names_differ();
    let call = requests::chat_tool_call_view(id, chat_name, arguments);
    let function = JsonView::Object(
        map![
            "name"@ => JsonView::String(chat_name),
            "arguments"@ => JsonView::String(arguments),
        ],
    );
    assert(call.get("id"@) == Some(id));
    assert(call.get("function"@) == Some(function));
    assert(function.get("name"@) == Some(JsonView::String(chat_name)));
    assert(function.get("arguments"@) == Some(JsonView::String(arguments)));
}

/// A call of a function that a client sent comes back as it was: under its own name, in its
/// namespace, with its id and its arguments. Outside a namespace a name stands for the tool that
/// was registered first under it, which may be a custom tool or a tool search.
pub proof fn function_call_comes_back(
    item: Map<Seq<char>, JsonView>,
    context: ToolContextView,
    name: Seq<char>,
    namespace: Option<Seq<char>>,
    arguments: Seq<char>,
)
    requires
        tools::well_formed(context),
        exists|i: int|
            0 <= i < context.specs.len() && (#[trigger] context.specs[i]).1.name == name
                && context.specs[i].1.namespace == namespace,
        json::member_str(item, "name"@) == Some(name),
        json::member_str(item, "namespace"@) == namespace,
        item.get("arguments"@) == Some(JsonView::String(arguments)),
    ensures
        ({
            let call = requests::function_call_view(item, context);
            let tool_spec = called_tool(call, Some(context));
            &&& tool_spec is Some
            &&& tool_spec->0.kind == ResponsesToolKind::Function || tool_spec->0.kind
                == ResponsesToolKind::Namespace ==> responses_call_item(call, tool_spec)
                == function_call(
                requests::call_id_view(item),
                name,
                JsonView::String(arguments),
                namespace,
            )
        }),
{
    tools::chat_name_leads_back(context, name, namespace);
    call_members_are_read(
        requests::call_id_view(item),
        tools::chat_name_of(context, name, namespace),
        arguments,
    );
}

} // verus!
