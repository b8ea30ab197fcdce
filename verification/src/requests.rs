//! Requests on their way to a supplier: Chat Completions as Responses, Responses as Chat
//! Completions, and the model put in place of the client's.

use vstd::prelude::*;
use vstd::utf8::*;

use crate::config::ConversionMode;
use crate::json;
use crate::json::{json_to_string, json_to_vec, parse_json, Json, JsonMap, JsonView};
use crate::responses;
use crate::text;
use crate::text::{concat2, same};
use crate::tools;
use crate::tools::{
    build_responses_tool_context,
    chat_tool_name_for_response_tool,
    responses_tool_choice_to_chat,
    ResponsesToolContext,
    ResponsesToolKind,
    ToolContextView,
};

verus! {

/// What the answer to a converted request needs to know of the request.
pub struct BridgeContext {
    pub responses_tool_context: Option<ResponsesToolContext>,
}

/// A request in the supplier's protocol.
pub struct RequestTransformResult {
    pub body: Vec<u8>,
    pub bridge_context: BridgeContext,
}

impl BridgeContext {
    pub open spec fn tools(self) -> Option<ToolContextView> {
        match self.responses_tool_context {
            Some(context) => Some(context@),
            None => None,
        }
    }
}

impl Default for BridgeContext {
    fn default() -> (context: BridgeContext)
        ensures
            context.tools() is None,
    {
        BridgeContext { responses_tool_context: None }
    }
}

/// A request asks for a stream where its member `stream` is `true`.
pub open spec fn asks_for_stream(request: JsonView) -> bool {
    request.get("stream"@) == Some(JsonView::Bool(true))
}

/// Whether a request asks for a stream.
pub fn is_stream_value(request: &Json) -> (stream: bool)
    ensures
        stream == asks_for_stream(request@),
{
    match request.get("stream") {
        Some(value) => match value.as_bool() {
            Some(stream) => stream,
            None => false,
        },
        None => false,
    }
}

/// Whether the body of a request asks for a stream; one that is no JSON does not.
pub fn is_stream_request(body: &[u8]) -> (stream: bool)
    ensures
        stream == match json::parsed(body@) {
            Ok(request) => asks_for_stream(request),
            Err(_) => false,
        },
{
    match parse_json(body) {
        Ok(request) => is_stream_value(&request),
        Err(_) => false,
    }
}

/// `target` with the member `from` of `source` under the name `to`, where there is one.
pub open spec fn with_renamed(
    source: Map<Seq<char>, JsonView>,
    target: Map<Seq<char>, JsonView>,
    from: Seq<char>,
    to: Seq<char>,
) -> Map<Seq<char>, JsonView> {
    match source.get(from) {
        Some(value) => target.insert(to, value),
        None => target,
    }
}

/// `target` with those of the first `n` names that `source` has a member for.
pub open spec fn with_fields(
    source: Map<Seq<char>, JsonView>,
    target: Map<Seq<char>, JsonView>,
    names: Seq<Seq<char>>,
    n: nat,
) -> Map<Seq<char>, JsonView>
    decreases n,
{
    if n == 0 {
        target
    } else {
        with_renamed(
            source,
            with_fields(source, target, names, (n - 1) as nat),
            names[n - 1],
            names[n - 1],
        )
    }
}

/// Copies a member.
pub fn copy_field(source: &JsonMap, target: &mut JsonMap, name: &str)
    ensures
        final(target)@ == with_renamed(source@, old(target)@, name@, name@),
{
    copy_renamed_field(source, target, name, name);
}

/// Copies a member under another name.
pub fn copy_renamed_field(source: &JsonMap, target: &mut JsonMap, from: &str, to: &str)
    ensures
        final(target)@ == with_renamed(source@, old(target)@, from@, to@),
{
    if let Some(value) = source.get(from) {
        target.insert(to.to_string(), value.clone());
    }
}

fn copy_fields(source: &JsonMap, target: &mut JsonMap, names: &[&str], Ghost(fields): Ghost<
    Seq<Seq<char>>,
>)
    requires
        fields.len() == names@.len(),
        forall|i: int| 0 <= i < names@.len() ==> (#[trigger] names@[i])@ == fields[i],
    ensures
        final(target)@ == with_fields(source@, old(target)@, fields, fields.len()),
{
    let ghost before = target@;
    let mut i: usize = 0;
    while i < names.len()
        invariant
            i <= names@.len(),
            fields.len() == names@.len(),
            forall|i: int| 0 <= i < names@.len() ==> (#[trigger] names@[i])@ == fields[i],
            target@ == with_fields(source@, before, fields, i as nat),
        decreases names@.len() - i,
    {
        copy_field(source, target, names[i]);
        i = i + 1;
    }
}

/// The members that a Chat Completions request and a Responses request share.
pub open spec fn chat_request_fields() -> Seq<Seq<char>> {
    seq![
        "model"@,
        "stream"@,
        "temperature"@,
        "top_p"@,
        "tools"@,
        "tool_choice"@,
        "parallel_tool_calls"@,
        "metadata"@,
        "user"@,
        "store"@,
        "instructions"@,
        "stop"@,
    ]
}

/// A Chat Completions request as a Responses request: the messages are the input, the limit on
/// tokens has another name, and the other members stay.
pub open spec fn responses_request(request: JsonView) -> Result<JsonView, Seq<char>> {
    match request {
        JsonView::Object(members) => match members.get("messages"@) {
            Some(messages) => {
                let fields = with_fields(
                    members,
                    map!["input"@ => messages],
                    chat_request_fields(),
                    chat_request_fields().len(),
                );
                let limit = if members.contains_key("max_completion_tokens"@) {
                    "max_completion_tokens"@
                } else {
                    "max_tokens"@
                };
                Ok(JsonView::Object(with_renamed(members, fields, limit, "max_output_tokens"@)))
            },
            None => Err("Chat Completions request is missing messages"@),
        },
        _ => Err("Chat Completions request must be a JSON object"@),
    }
}

/// A Chat Completions request as a Responses request.
pub fn chat_value_to_responses(request: &Json) -> (result: Result<Json, String>)
    ensures
        match result {
            Ok(converted) => responses_request(request@) == Ok::<JsonView, Seq<char>>(converted@),
            Err(message) => responses_request(request@) == Err::<JsonView, Seq<char>>(message@),
        },
{
    let members = match request {
        Json::Object(members) => members,
        _ => {
            return Err("Chat Completions request must be a JSON object".to_string());
        },
    };
    let messages = match members.get("messages") {
        Some(messages) => messages.clone(),
        None => {
            return Err("Chat Completions request is missing messages".to_string());
        },
    };
    let mut target = JsonMap::new().with("input", messages);
    let names: [&str; 12] = [
        "model",
        "stream",
        "temperature",
        "top_p",
        "tools",
        "tool_choice",
        "parallel_tool_calls",
        "metadata",
        "user",
        "store",
        "instructions",
        "stop",
    ];
    copy_fields(members, &mut target, &names, Ghost(chat_request_fields()));
    if members.contains_key("max_completion_tokens") {
        copy_renamed_field(members, &mut target, "max_completion_tokens", "max_output_tokens");
    } else {
        copy_renamed_field(members, &mut target, "max_tokens", "max_output_tokens");
    }
    Ok(Json::Object(target))
}

/// The bytes of a converted request, or the message with which the conversion was refused.
pub open spec fn encoded(result: Result<JsonView, Seq<char>>) -> Result<Seq<u8>, Seq<char>> {
    match result {
        Ok(value) => Ok(encode_utf8(json::json_text(value))),
        Err(message) => Err(message),
    }
}

/// The body of a Responses request for the body of a Chat Completions request.
pub open spec fn responses_request_body(body: Seq<u8>) -> Result<Seq<u8>, Seq<char>> {
    match json::parsed(body) {
        Ok(request) => encoded(responses_request(request)),
        Err(message) => Err("invalid Chat Completions request JSON: "@ + message),
    }
}

/// What a result of bytes stands for.
pub open spec fn bytes_result_view(result: Result<Vec<u8>, String>) -> Result<
    Seq<u8>,
    Seq<char>,
> {
    match result {
        Ok(bytes) => Ok(bytes@),
        Err(message) => Err(message@),
    }
}

/// The body of a Chat Completions request as that of a Responses request.
pub fn chat_request_to_responses(body: &[u8]) -> (result: Result<Vec<u8>, String>)
    ensures
        bytes_result_view(result) == responses_request_body(body@),
{
    let request = match parse_json(body) {
        Ok(request) => request,
        Err(message) => {
            return Err(concat2("invalid Chat Completions request JSON: ", message.as_str()));
        },
    };
    let converted = match chat_value_to_responses(&request) {
        Ok(converted) => converted,
        Err(message) => {
            return Err(message);
        },
    };
    match json_to_vec(&converted) {
        Ok(bytes) => Ok(bytes),
        Err(message) => Err(concat2("failed to encode Responses request: ", message.as_str())),
    }
}

/// A string as it is, and any other value as JSON text.
pub open spec fn json_string(value: JsonView) -> Seq<char> {
    match value {
        JsonView::String(text) => text,
        _ => json::json_text(value),
    }
}

/// A string as it is, and any other value as JSON text.
pub fn value_to_json_string(value: &Json) -> (text: String)
    ensures
        text@ == json_string(value@),
{
    match value {
        Json::String(text) => text.clone(),
        _ => match json_to_string(value) {
            Ok(text) => text,
            Err(_) => String::new(),
        },
    }
}

/// The messages so far, and the tool calls that the next assistant message will hold.
pub ghost struct Conversation {
    pub messages: Seq<JsonView>,
    pub pending: Seq<JsonView>,
}

/// A message of that role.
pub open spec fn message_view(role: Seq<char>, content: JsonView) -> JsonView {
    JsonView::Object(map!["role"@ => JsonView::String(role), "content"@ => content])
}

fn message(role: &str, content: Json) -> (value: Json)
    ensures
        value@ == message_view(role@, content@),
{
    Json::Object(JsonMap::new().with("role", Json::text(role)).with("content", content))
}

/// Pending tool calls become one message of the assistant.
pub open spec fn flushed(conversation: Conversation) -> Conversation {
    if conversation.pending.len() == 0 {
        conversation
    } else {
        Conversation {
            messages: conversation.messages.push(
                JsonView::Object(
                    map![
                        "role"@ => JsonView::String("assistant"@),
                        "content"@ => JsonView::Null,
                        "tool_calls"@ => JsonView::Array(conversation.pending),
                    ],
                ),
            ),
            pending: Seq::empty(),
        }
    }
}

/// The conversation that two lists hold.
pub open spec fn conversation_view(messages: Seq<Json>, pending: Seq<Json>) -> Conversation {
    Conversation { messages: json::items_view(messages), pending: json::items_view(pending) }
}

/// Closes the message of the assistant that pending tool calls belong to.
pub fn flush_pending_tool_calls(messages: &mut Vec<Json>, pending_tool_calls: &mut Vec<Json>)
    ensures
        conversation_view(final(messages)@, final(pending_tool_calls)@) == flushed(
            conversation_view(old(messages)@, old(pending_tool_calls)@),
        ),
{
    if pending_tool_calls.len() == 0 {
        return;
    }
    let mut calls: Vec<Json> = Vec::new();
    assert(json::items_view(calls@) =~= Seq::empty());
    core::mem::swap(&mut calls, pending_tool_calls);
    let call = Json::Object(
        JsonMap::new().with("role", Json::text("assistant")).with("content", Json::Null).with(
            "tool_calls",
            Json::Array(calls),
        ),
    );
    proof {
        json::items_push(messages@, call);
    }
    messages.push(call);
}

/// The id of a call: its call id, or else its id.
pub open spec fn call_id_view(item: Map<Seq<char>, JsonView>) -> JsonView {
    match item.get("call_id"@) {
        Some(id) => id,
        None => json::member_or(item, "id"@, JsonView::String("call_0"@)),
    }
}

fn call_id(item: &JsonMap) -> (id: Json)
    ensures
        id@ == call_id_view(item@),
{
    match item.get("call_id") {
        Some(id) => id.clone(),
        None => item.get_or("id", Json::text("call_0")),
    }
}

/// A call of a function in a message of the assistant.
pub open spec fn chat_tool_call_view(
    id: JsonView,
    chat_name: Seq<char>,
    arguments: Seq<char>,
) -> JsonView {
    JsonView::Object(
        map![
            "id"@ => id,
            "type"@ => JsonView::String("function"@),
            "function"@ => JsonView::Object(
                map![
                    "name"@ => JsonView::String(chat_name),
                    "arguments"@ => JsonView::String(arguments),
                ],
            ),
        ],
    )
}

fn chat_tool_call(id: Json, chat_name: String, arguments: String) -> (call: Json)
    ensures
        call@ == chat_tool_call_view(id@, chat_name@, arguments@),
{
    let function = JsonMap::new().with("name", Json::String(chat_name)).with(
        "arguments",
        Json::String(arguments),
    );
    Json::Object(
        JsonMap::new().with("id", id).with("type", Json::text("function")).with(
            "function",
            Json::Object(function),
        ),
    )
}

/// The string in a member, or the default.
pub open spec fn str_or(
    item: Map<Seq<char>, JsonView>,
    name: Seq<char>,
    default: Seq<char>,
) -> Seq<char> {
    match json::member_str(item, name) {
        Some(text) => text,
        None => default,
    }
}

fn text_or<'a>(item: &'a JsonMap, name: &str, default: &'a str) -> (text: &'a str)
    ensures
        text@ == str_or(item@, name@, default@),
{
    match item.get_str(name) {
        Some(text) => text,
        None => default,
    }
}

pub open spec fn function_call_view(
    item: Map<Seq<char>, JsonView>,
    context: ToolContextView,
) -> JsonView {
    chat_tool_call_view(
        call_id_view(item),
        tools::chat_name_of(
            context,
            str_or(item, "name"@, Seq::empty()),
            json::member_str(item, "namespace"@),
        ),
        match item.get("arguments"@) {
            Some(arguments) => json_string(arguments),
            None => "{}"@,
        },
    )
}

/// A function call of a Responses input as a call in a message of the assistant.
pub fn responses_function_call_to_chat_tool_call(
    item: &JsonMap,
    context: &ResponsesToolContext,
) -> (call: Json)
    ensures
        call@ == function_call_view(item@, context@),
{
    proof {
        text::empty_literal();
    }
    let name = text_or(item, "name", "");
    let namespace = item.get_str("namespace");
    let chat_name = chat_tool_name_for_response_tool(context, name, namespace);
    let arguments = match item.get("arguments") {
        Some(arguments) => value_to_json_string(arguments),
        None => "{}".to_string(),
    };
    chat_tool_call(call_id(item), chat_name, arguments)
}

pub open spec fn custom_call_view(
    item: Map<Seq<char>, JsonView>,
    context: ToolContextView,
) -> JsonView {
    let input = json::member_or(item, "input"@, JsonView::String(Seq::empty()));
    chat_tool_call_view(
        call_id_view(item),
        tools::chat_name_of(context, str_or(item, "name"@, Seq::empty()), None),
        json::json_text(JsonView::Object(map!["input"@ => input])),
    )
}

/// The JSON text of an object; the text of one that cannot be written is empty.
fn object_text(members: JsonMap) -> (text: String)
    ensures
        text@ == json::json_text(JsonView::Object(members@)),
        json::is_input_object(JsonView::Object(members@)) ==> json::parsed(encode_utf8(text@))
            == Ok::<JsonView, Seq<char>>(JsonView::Object(members@)),
{
    match json_to_string(&Json::Object(members)) {
        Ok(text) => text,
        Err(_) => String::new(),
    }
}

/// A call of a custom tool, as it was sent or as it comes back.
pub open spec fn custom_item_view(id: JsonView, name: Seq<char>, input: JsonView) -> JsonView {
    JsonView::Object(
        map![
            "type"@ => JsonView::String("custom_tool_call"@),
            "id"@ => id,
            "call_id"@ => id,
            "name"@ => JsonView::String(name),
            "input"@ => input,
        ],
    )
}

/// A call of a custom tool as a call of the function of one string that stands for the tool. On
/// its way back such a call, whatever name the tool has, has the id and the input that were sent.
pub fn responses_custom_tool_call_to_chat_tool_call(
    item: &JsonMap,
    context: &ResponsesToolContext,
) -> (call: Json)
    ensures
        call@ == custom_call_view(item@, context@),
        forall|name: Seq<char>|
            json::member_or(item@, "input"@, JsonView::String(Seq::empty())) is String
                ==> responses::responses_call_item(
                call@,
                Some(#[trigger] tools::plain_spec(ResponsesToolKind::Custom, name)),
            ) == custom_item_view(
                call_id_view(item@),
                name,
                json::member_or(item@, "input"@, JsonView::String(Seq::empty())),
            ),
{
    proof {
        text::empty_literal();
    }
    let name = text_or(item, "name", "");
    let chat_name = chat_tool_name_for_response_tool(context, name, None);
    let input = item.get_or("input", Json::text(""));
    let ghost sent = input@;
    let members = JsonMap::new().with("input", input);
    let ghost object = JsonView::Object(members@);
    let arguments = object_text(members);
    proof {
        responses::call_members_are_read(call_id_view(item@), chat_name@, arguments@);
        if sent is String {
            assert(json::is_input_object(object));
            assert(object.get("input"@) == Some(sent));
        }
    }
    chat_tool_call(call_id(item), chat_name, arguments)
}

/// The arguments that a tool search may name.
pub open spec fn search_fields() -> Seq<Seq<char>> {
    seq!["query"@, "limit"@]
}

/// The arguments of a tool search: its query and limit, or else those that it holds as an object.
pub open spec fn search_arguments(item: Map<Seq<char>, JsonView>) -> Map<Seq<char>, JsonView> {
    let given = with_fields(item, Map::empty(), search_fields(), 2);
    if given == Map::<Seq<char>, JsonView>::empty() {
        match item.get("arguments"@) {
            Some(JsonView::Object(arguments)) => arguments,
            _ => given,
        }
    } else {
        given
    }
}

pub open spec fn tool_search_call_view(
    item: Map<Seq<char>, JsonView>,
    context: ToolContextView,
) -> JsonView {
    chat_tool_call_view(
        call_id_view(item),
        tools::chat_name_of(context, str_or(item, "name"@, "tool_search"@), None),
        json::json_text(JsonView::Object(search_arguments(item))),
    )
}

/// A tool search as a call of the function that stands for it.
pub fn responses_tool_search_call_to_chat_tool_call(
    item: &JsonMap,
    context: &ResponsesToolContext,
) -> (call: Json)
    ensures
        call@ == tool_search_call_view(item@, context@),
{
    let mut arguments = JsonMap::new();
    let names: [&str; 2] = ["query", "limit"];
    copy_fields(item, &mut arguments, &names, Ghost(search_fields()));
    if arguments.is_empty() {
        if let Some(given) = item.get("arguments") {
            if let Json::Object(given) = given {
                arguments = given.clone();
            }
        }
    }
    let name = text_or(item, "name", "tool_search");
    let chat_name = chat_tool_name_for_response_tool(context, name, None);
    chat_tool_call(call_id(item), chat_name, object_text(arguments))
}

/// A part of a message's content: text and images have another form, anything else stays.
pub open spec fn chat_part(part: JsonView) -> JsonView {
    match part {
        JsonView::Object(members) => {
            let kind = json::member_str(members, "type"@);
            if kind == Some("input_text"@) || kind == Some("output_text"@) {
                JsonView::Object(
                    map![
                        "type"@ => JsonView::String("text"@),
                        "text"@ => json::member_or(
                            members,
                            "text"@,
                            JsonView::String(Seq::empty()),
                        ),
                    ],
                )
            } else if kind == Some("input_image"@) {
                let url = match members.get("image_url"@) {
                    Some(url) => url,
                    None => json::member_or(members, "file_id"@, JsonView::String(Seq::empty())),
                };
                JsonView::Object(
                    map![
                        "type"@ => JsonView::String("image_url"@),
                        "image_url"@ => JsonView::Object(map!["url"@ => url]),
                    ],
                )
            } else {
                part
            }
        },
        _ => part,
    }
}

fn part_to_chat(part: &Json) -> (converted: Json)
    ensures
        converted@ == chat_part(part@),
{
    proof {
        text::empty_literal();
    }
    let members = match part {
        Json::Object(members) => members,
        _ => {
            return part.clone();
        },
    };
    let kind = match members.get_str("type") {
        Some(kind) => kind,
        None => {
            return part.clone();
        },
    };
    if same(kind, "input_text") || same(kind, "output_text") {
        Json::Object(
            JsonMap::new().with("type", Json::text("text")).with(
                "text",
                members.get_or("text", Json::text("")),
            ),
        )
    } else if same(kind, "input_image") {
        let url = match members.get("image_url") {
            Some(url) => url.clone(),
            None => members.get_or("file_id", Json::text("")),
        };
        Json::Object(
            JsonMap::new().with("type", Json::text("image_url")).with(
                "image_url",
                Json::Object(JsonMap::new().with("url", url)),
            ),
        )
    } else {
        part.clone()
    }
}

/// The content of a message: part by part where it is a list.
pub open spec fn chat_content(content: JsonView) -> JsonView {
    match content {
        JsonView::Array(parts) => JsonView::Array(
            parts.map_values(|part: JsonView| chat_part(part)),
        ),
        _ => content,
    }
}

/// The content of a message of a Responses input in a Chat Completions message.
pub fn responses_content_to_chat_content(content: &Json) -> (converted: Json)
    ensures
        converted@ == chat_content(content@),
{
    let parts = match content {
        Json::Array(parts) => parts,
        _ => {
            return content.clone();
        },
    };
    let mut converted: Vec<Json> = Vec::new();
    let mut i: usize = 0;
    while i < parts.len()
        invariant
            i <= parts@.len(),
            converted@.len() == i,
            forall|j: int| 0 <= j < i ==> (#[trigger] converted@[j])@ == chat_part(parts@[j]@),
        decreases parts@.len() - i,
    {
        converted.push(part_to_chat(&parts[i]));
        i = i + 1;
    }
    assert(json::items_view(converted@) =~= json::items_view(parts@).map_values(
        |part: JsonView| chat_part(part),
    ));
    Json::Array(converted)
}

/// The message that answers a call.
pub open spec fn tool_output_view(item: Map<Seq<char>, JsonView>) -> JsonView {
    JsonView::Object(
        map![
            "role"@ => JsonView::String("tool"@),
            "tool_call_id"@ => call_id_view(item),
            "content"@ => JsonView::String(
                match item.get("output"@) {
                    Some(output) => json_string(output),
                    None => json_string(JsonView::Object(item)),
                },
            ),
        ],
    )
}

fn tool_output(members: &JsonMap, item: &Json) -> (value: Json)
    requires
        item@ == JsonView::Object(members@),
    ensures
        value@ == tool_output_view(members@),
{
    let content = match members.get("output") {
        Some(output) => value_to_json_string(output),
        None => value_to_json_string(item),
    };
    Json::Object(
        JsonMap::new().with("role", Json::text("tool")).with("tool_call_id", call_id(members)).with(
            "content",
            Json::String(content),
        ),
    )
}

/// A message of a Responses input. The developer speaks as the system; what has no role was said
/// by the user.
pub open spec fn role_message(item: Map<Seq<char>, JsonView>, is_message: bool) -> JsonView {
    match json::member_str(item, "role"@) {
        Some(role) => message_view(
            if is_message && role == "developer"@ {
                "system"@
            } else {
                role
            },
            match item.get("content"@) {
                Some(content) => chat_content(content),
                None => if is_message {
                    JsonView::String(Seq::empty())
                } else {
                    JsonView::Object(item)
                },
            },
        ),
        None => message_view("user"@, JsonView::Object(item)),
    }
}

fn role_to_message(members: &JsonMap, item: &Json, is_message: bool) -> (value: Json)
    requires
        item@ == JsonView::Object(members@),
    ensures
        value@ == role_message(members@, is_message),
{
    proof {
        text::empty_literal();
    }
    match members.get_str("role") {
        Some(role) => {
            let content = match members.get("content") {
                Some(content) => responses_content_to_chat_content(content),
                None => if is_message {
                    Json::text("")
                } else {
                    item.clone()
                },
            };
            let chat_role = if is_message && same(role, "developer") {
                "system"
            } else {
                role
            };
            message(chat_role, content)
        },
        None => message("user", item.clone()),
    }
}

/// The conversation with a message behind it.
pub open spec fn said(conversation: Conversation, message: JsonView) -> Conversation {
    let closed = flushed(conversation);
    Conversation { messages: closed.messages.push(message), pending: closed.pending }
}

/// The conversation with one more pending call.
pub open spec fn called(conversation: Conversation, call: JsonView) -> Conversation {
    Conversation { messages: conversation.messages, pending: conversation.pending.push(call) }
}

pub open spec fn is_output_kind(kind: Seq<char>) -> bool {
    kind == "function_call_output"@ || kind == "custom_tool_call_output"@ || kind
        == "tool_search_output"@
}

/// The conversation after an item of a Responses input. Calls wait for the message of the
/// assistant that they belong to; everything else is a message of its own.
pub open spec fn item_added(
    conversation: Conversation,
    item: JsonView,
    context: ToolContextView,
) -> Conversation {
    match item {
        JsonView::Object(members) => match json::member_str(members, "type"@) {
            Some(kind) => if kind == "function_call"@ {
                called(conversation, function_call_view(members, context))
            } else if kind == "custom_tool_call"@ {
                called(conversation, custom_call_view(members, context))
            } else if kind == "tool_search_call"@ {
                called(conversation, tool_search_call_view(members, context))
            } else if is_output_kind(kind) {
                said(conversation, tool_output_view(members))
            } else {
                said(conversation, role_message(members, kind == "message"@))
            },
            None => said(conversation, role_message(members, true)),
        },
        _ => said(conversation, message_view("user"@, item)),
    }
}

fn say(message: Json, messages: &mut Vec<Json>, pending_tool_calls: &mut Vec<Json>)
    ensures
        conversation_view(final(messages)@, final(pending_tool_calls)@) == said(
            conversation_view(old(messages)@, old(pending_tool_calls)@),
            message@,
        ),
{
    flush_pending_tool_calls(messages, pending_tool_calls);
    proof {
        json::items_push(messages@, message);
    }
    messages.push(message);
}

fn call(call: Json, pending_tool_calls: &mut Vec<Json>)
    ensures
        json::items_view(final(pending_tool_calls)@) == json::items_view(
            old(pending_tool_calls)@,
        ).push(call@),
{
    proof {
        json::items_push(pending_tool_calls@, call);
    }
    pending_tool_calls.push(call);
}

/// Adds an item of a Responses input to the messages of a Chat Completions request.
pub fn responses_item_to_chat_message(
    item: &Json,
    context: &ResponsesToolContext,
    messages: &mut Vec<Json>,
    pending_tool_calls: &mut Vec<Json>,
)
    ensures
        conversation_view(final(messages)@, final(pending_tool_calls)@) == item_added(
            conversation_view(old(messages)@, old(pending_tool_calls)@),
            item@,
            context@,
        ),
{
    let members = match item {
        Json::Object(members) => members,
        _ => {
            say(message("user", item.clone()), messages, pending_tool_calls);
            return;
        },
    };
    let kind = match members.get_str("type") {
        Some(kind) => kind,
        None => {
            say(role_to_message(members, item, true), messages, pending_tool_calls);
            return;
        },
    };
    if same(kind, "function_call") {
        call(responses_function_call_to_chat_tool_call(members, context), pending_tool_calls);
    } else if same(kind, "custom_tool_call") {
        call(responses_custom_tool_call_to_chat_tool_call(members, context), pending_tool_calls);
    } else if same(kind, "tool_search_call") {
        call(responses_tool_search_call_to_chat_tool_call(members, context), pending_tool_calls);
    } else if same(kind, "function_call_output") || same(kind, "custom_tool_call_output") || same(
        kind,
        "tool_search_output",
    ) {
        say(tool_output(members, item), messages, pending_tool_calls);
    } else {
        let is_message = same(kind, "message");
        say(role_to_message(members, item, is_message), messages, pending_tool_calls);
    }
}

/// The conversation after the first `n` items.
pub open spec fn items_added(items: Seq<JsonView>, context: ToolContextView, n: nat) -> Conversation
    decreases n,
{
    if n == 0 {
        Conversation { messages: Seq::empty(), pending: Seq::empty() }
    } else {
        item_added(items_added(items, context, (n - 1) as nat), items[n - 1], context)
    }
}

/// The messages of a Responses input.
pub open spec fn input_messages(input: JsonView, context: ToolContextView) -> Seq<JsonView> {
    match input {
        JsonView::Array(items) => flushed(items_added(items, context, items.len())).messages,
        _ => seq![message_view("user"@, input)],
    }
}

/// The messages of a Responses input.
pub fn responses_input_to_chat_messages(input: &Json, context: &ResponsesToolContext) -> (messages:
    Vec<Json>)
    ensures
        json::items_view(messages@) == input_messages(input@, context@),
{
    match input {
        Json::Array(items) => {
            let mut messages: Vec<Json> = Vec::new();
            let mut pending_tool_calls: Vec<Json> = Vec::new();
            assert(json::items_view(messages@) =~= Seq::empty());
            assert(json::items_view(pending_tool_calls@) =~= Seq::empty());
            let mut i: usize = 0;
            while i < items.len()
                invariant
                    i <= items@.len(),
                    conversation_view(messages@, pending_tool_calls@) == items_added(
                        json::items_view(items@),
                        context@,
                        i as nat,
                    ),
                decreases items@.len() - i,
            {
                responses_item_to_chat_message(
                    &items[i],
                    context,
                    &mut messages,
                    &mut pending_tool_calls,
                );
                i = i + 1;
            }
            flush_pending_tool_calls(&mut messages, &mut pending_tool_calls);
            messages
        },
        _ => {
            let mut messages: Vec<Json> = Vec::new();
            messages.push(message("user", input.clone()));
            assert(json::items_view(messages@) =~= seq![message_view("user"@, input@)]);
            messages
        },
    }
}

/// The members that a Responses request and a Chat Completions request share.
pub open spec fn responses_request_fields() -> Seq<Seq<char>> {
    seq![
        "model"@,
        "stream"@,
        "temperature"@,
        "top_p"@,
        "parallel_tool_calls"@,
        "metadata"@,
        "user"@,
        "stop"@,
    ]
}

/// The members of the Chat Completions request for a Responses request with that input.
pub open spec fn chat_request_members(
    members: Map<Seq<char>, JsonView>,
    input: JsonView,
) -> Map<Seq<char>, JsonView> {
    let context = tools::tool_context(members.get("tools"@));
    let instructions: Seq<JsonView> = match members.get("instructions"@) {
        Some(instructions) => seq![message_view("system"@, instructions)],
        None => Seq::empty(),
    };
    let messages = instructions + input_messages(input, context);
    let fields = with_fields(
        members,
        map!["messages"@ => JsonView::Array(messages)],
        responses_request_fields(),
        responses_request_fields().len(),
    );
    let offered = if context.chat_tools.len() > 0 {
        fields.insert("tools"@, JsonView::Array(context.chat_tools))
    } else {
        fields
    };
    let chosen = match members.get("tool_choice"@) {
        Some(choice) => offered.insert("tool_choice"@, tools::chat_tool_choice(choice, context)),
        None => offered,
    };
    with_renamed(members, chosen, "max_output_tokens"@, "max_tokens"@)
}

/// A Responses request as a Chat Completions request: the instructions and the input are the
/// messages, the tools are functions, and the limit on tokens has another name.
pub open spec fn chat_request(request: JsonView) -> Result<JsonView, Seq<char>> {
    match request {
        JsonView::Object(members) => match members.get("input"@) {
            Some(input) => Ok(JsonView::Object(chat_request_members(members, input))),
            None => Err("Responses request is missing input"@),
        },
        _ => Err("Responses request must be a JSON object"@),
    }
}

/// What the answer needs to know of the tools of a request: nothing where it has none.
pub open spec fn bridge_tools(request: JsonView) -> Option<ToolContextView> {
    let context = tools::tool_context(request.get("tools"@));
    if context.specs.len() > 0 {
        Some(context)
    } else {
        None
    }
}

/// A Responses request as a Chat Completions request, with what the answer needs to know of it.
pub fn responses_value_to_chat(request: &Json) -> (result: Result<(Json, BridgeContext), String>)
    ensures
        match result {
            Ok((converted, bridge)) => {
                &&& chat_request(request@) == Ok::<JsonView, Seq<char>>(converted@)
                &&& bridge.tools() == bridge_tools(request@)
            },
            Err(message) => chat_request(request@) == Err::<JsonView, Seq<char>>(message@),
        },
{
    let members = match request {
        Json::Object(members) => members,
        _ => {
            return Err("Responses request must be a JSON object".to_string());
        },
    };
    let input = match members.get("input") {
        Some(input) => input,
        None => {
            return Err("Responses request is missing input".to_string());
        },
    };
    let context = build_responses_tool_context(members.get("tools"));
    let mut messages: Vec<Json> = Vec::new();
    assert(json::items_view(messages@) =~= Seq::empty());
    if let Some(instructions) = members.get("instructions") {
        messages.push(message("system", instructions.clone()));
        assert(json::items_view(messages@) =~= seq![messages@[0]@]);
    }
    let mut said = responses_input_to_chat_messages(input, &context);
    proof {
        json::items_concat(messages@, said@);
    }
    messages.append(&mut said);

    let mut target = JsonMap::new().with("messages", Json::Array(messages));
    let names: [&str; 8] = [
        "model",
        "stream",
        "temperature",
        "top_p",
        "parallel_tool_calls",
        "metadata",
        "user",
        "stop",
    ];
    copy_fields(members, &mut target, &names, Ghost(responses_request_fields()));
    if context.chat_tools.len() > 0 {
        target.insert("tools".to_string(), Json::Array(json::clone_items(&context.chat_tools)));
    }
    if let Some(choice) = members.get("tool_choice") {
        target.insert("tool_choice".to_string(), responses_tool_choice_to_chat(choice, &context));
    }
    copy_renamed_field(members, &mut target, "max_output_tokens", "max_tokens");

    let bridge = if context.chat_name_to_spec.len() > 0 {
        BridgeContext { responses_tool_context: Some(context) }
    } else {
        BridgeContext { responses_tool_context: None }
    };
    Ok((Json::Object(target), bridge))
}

/// The body of a Chat Completions request for the body of a Responses request.
pub open spec fn chat_request_body(body: Seq<u8>) -> Result<Seq<u8>, Seq<char>> {
    match json::parsed(body) {
        Ok(request) => encoded(chat_request(request)),
        Err(message) => Err("invalid Responses request JSON: "@ + message),
    }
}

/// The body of a Responses request as that of a Chat Completions request.
pub fn responses_request_to_chat(body: &[u8]) -> (result: Result<RequestTransformResult, String>)
    ensures
        match result {
            Ok(converted) => {
                &&& chat_request_body(body@) == Ok::<Seq<u8>, Seq<char>>(converted.body@)
                &&& converted.bridge_context.tools() == bridge_tools(json::parsed(body@)->Ok_0)
            },
            Err(message) => chat_request_body(body@) == Err::<Seq<u8>, Seq<char>>(message@),
        },
{
    let request = match parse_json(body) {
        Ok(request) => request,
        Err(message) => {
            return Err(concat2("invalid Responses request JSON: ", message.as_str()));
        },
    };
    let (converted, bridge_context) = match responses_value_to_chat(&request) {
        Ok(converted) => converted,
        Err(message) => {
            return Err(message);
        },
    };
    match json_to_vec(&converted) {
        Ok(body) => Ok(RequestTransformResult { body, bridge_context }),
        Err(message) => Err(
            concat2("failed to encode Chat Completions request: ", message.as_str()),
        ),
    }
}

/// The body of a request in the supplier's protocol.
pub open spec fn upstream_body(body: Seq<u8>, conversion: ConversionMode) -> Result<
    Seq<u8>,
    Seq<char>,
> {
    match conversion {
        ConversionMode::Direct => Ok(body),
        ConversionMode::ChatToResponses => responses_request_body(body),
        ConversionMode::ResponsesToChat => chat_request_body(body),
    }
}

/// What the answer to a request needs to know of it.
pub open spec fn upstream_tools(body: Seq<u8>, conversion: ConversionMode) -> Option<
    ToolContextView,
> {
    match (conversion, json::parsed(body)) {
        (ConversionMode::ResponsesToChat, Ok(request)) => bridge_tools(request),
        _ => None,
    }
}

/// The body of a request in the supplier's protocol.
pub fn transform_request_body(body: &[u8], conversion: ConversionMode) -> (result: Result<
    RequestTransformResult,
    String,
>)
    ensures
        match result {
            Ok(converted) => {
                &&& upstream_body(body@, conversion) == Ok::<Seq<u8>, Seq<char>>(converted.body@)
                &&& converted.bridge_context.tools() == upstream_tools(body@, conversion)
            },
            Err(message) => upstream_body(body@, conversion) == Err::<Seq<u8>, Seq<char>>(
                message@,
            ),
        },
{
    match conversion {
        ConversionMode::Direct => Ok(
            RequestTransformResult {
                body: vstd::slice::slice_to_vec(body),
                bridge_context: BridgeContext { responses_tool_context: None },
            },
        ),
        ConversionMode::ChatToResponses => match chat_request_to_responses(body) {
            Ok(body) => Ok(
                RequestTransformResult {
                    body,
                    bridge_context: BridgeContext { responses_tool_context: None },
                },
            ),
            Err(message) => Err(message),
        },
        ConversionMode::ResponsesToChat => responses_request_to_chat(body),
    }
}

/// A request with that model; what is no object has none.
pub open spec fn with_model(request: JsonView, model: Seq<char>) -> JsonView {
    match request {
        JsonView::Object(members) => JsonView::Object(
            members.insert("model"@, JsonView::String(model)),
        ),
        _ => request,
    }
}

/// A request with that model.
pub fn override_model_in_value(request: Json, model: &str) -> (overridden: Json)
    ensures
        overridden@ == with_model(request@, model@),
{
    match request {
        Json::Object(members) => Json::Object(members.with("model", Json::text(model))),
        other => other,
    }
}

/// The body of a request with that model.
pub open spec fn model_body(body: Seq<u8>, model: Seq<char>) -> Result<Seq<u8>, Seq<char>> {
    match json::parsed(body) {
        Ok(request) => Ok(encode_utf8(json::json_text(with_model(request, model)))),
        Err(message) => Err("invalid request JSON: "@ + message),
    }
}

/// The body of a request with that model.
pub fn override_model_in_body(body: &[u8], model: &str) -> (result: Result<Vec<u8>, String>)
    ensures
        bytes_result_view(result) == model_body(body@, model@),
{
    let request = match parse_json(body) {
        Ok(request) => request,
        Err(message) => {
            return Err(concat2("invalid request JSON: ", message.as_str()));
        },
    };
    match json_to_vec(&override_model_in_value(request, model)) {
        Ok(bytes) => Ok(bytes),
        Err(message) => Err(concat2("failed to encode request: ", message.as_str())),
    }
}

/// What a copied member is: that of the source, where its name is among the first `n` and the
/// source has it, and otherwise that of the target.
proof fn with_fields_get(
    source: Map<Seq<char>, JsonView>,
    target: Map<Seq<char>, JsonView>,
    names: Seq<Seq<char>>,
    n: nat,
    name: Seq<char>,
)
    requires
        n <= names.len(),
    ensures
        with_fields(source, target, names, n).get(name) == if names.take(n as int).contains(name)
            && source.contains_key(name) {
            source.get(name)
        } else {
            target.get(name)
        },
    decreases n,
{
    if n > 0 {
        let before = names.take(n - 1);
        with_fields_get(source, target, names, (n - 1) as nat, name);
        assert(names.take(n as int) =~= before.push(names[n - 1]));
        if before.contains(name) {
            let i = choose|i: int| 0 <= i < before.len() && before[i] == name;
            assert(names.take(n as int)[i] == name);
        }
        if names[n - 1] == name {
            assert(names.take(n as int)[n - 1] == name);
        }
        if names.take(n as int).contains(name) && !before.contains(name) {
            let i = choose|i: int|
                0 <= i < names.take(n as int).len() && names.take(n as int)[i] == name;
            if i < n - 1 {
                assert(before[i] == name);
            }
        }
    } else {
        assert(names.take(0) =~= Seq::empty());
    }
}

proof fn member_names_differ()
    ensures
        "input"@ != "model"@,
        "input"@ != "stream"@,
        "messages"@ != "model"@,
        "messages"@ != "stream"@,
        "tools"@ != "model"@,
        "tools"@ != "stream"@,
        "tool_choice"@ != "model"@,
        "tool_choice"@ != "stream"@,
        "max_output_tokens"@ != "model"@,
        "max_output_tokens"@ != "stream"@,
        "max_tokens"@ != "model"@,
        "max_tokens"@ != "stream"@,
{
    reveal_strlit("input");
    reveal_strlit("model");
    reveal_strlit("stream");
    reveal_strlit("messages");
    reveal_strlit("tools");
    reveal_strlit("tool_choice");
    reveal_strlit("max_output_tokens");
    reveal_strlit("max_tokens");
    assert("input"@[0] == 'i' && "model"@[0] == 'm' && "tools"@[0] == 't');
    assert("stream"@.len() == 6 && "input"@.len() == 5 && "tools"@.len() == 5);
    assert("model"@.len() == 5 && "messages"@.len() == 8 && "tool_choice"@.len() == 11);
    assert("max_output_tokens"@.len() == 17 && "max_tokens"@.len() == 10);
}

/// A converted request asks for the same model, and for a stream where the client does.
pub proof fn converted_request_keeps_model_and_stream(request: JsonView)
    ensures
        responses_request(request) matches Ok(converted) ==> {
            &&& converted.get("model"@) == request.get("model"@)
            &&& asks_for_stream(converted) == asks_for_stream(request)
        },
        chat_request(request) matches Ok(converted) ==> {
            &&& converted.get("model"@) == request.get("model"@)
            &&& asks_for_stream(converted) == asks_for_stream(request)
        },
{
    member_names_differ();
    if let JsonView::Object(members) = request {
        let chat = chat_request_fields();
        assert(chat.take(chat.len() as int) =~= chat);
        assert(chat[0] == "model"@ && chat[1] == "stream"@);
        if let Some(messages) = members.get("messages"@) {
            let target = map!["input"@ => messages];
            with_fields_get(members, target, chat, chat.len(), "model"@);
            with_fields_get(members, target, chat, chat.len(), "stream"@);
        }
        let fields = responses_request_fields();
        assert(fields.take(fields.len() as int) =~= fields);
        assert(fields[0] == "model"@ && fields[1] == "stream"@);
        if let Some(input) = members.get("input"@) {
            let context = tools::tool_context(members.get("tools"@));
            let instructions: Seq<JsonView> = match members.get("instructions"@) {
                Some(instructions) => seq![message_view("system"@, instructions)],
                None => Seq::empty(),
            };
            let messages = instructions + input_messages(input, context);
            let target = map!["messages"@ => JsonView::Array(messages)];
            with_fields_get(members, target, fields, fields.len(), "model"@);
            with_fields_get(members, target, fields, fields.len(), "stream"@);
        }
    }
}

/// No call is left behind: when an input has been gone through, every call is in a message.
pub proof fn no_call_is_left_pending(conversation: Conversation)
    ensures
        flushed(conversation).pending.len() == 0,
        conversation.pending.len() > 0 ==> flushed(conversation).messages.len()
            == conversation.messages.len() + 1,
{
}

} // verus!
