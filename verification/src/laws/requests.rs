//! What holds of converted requests, read off the members of the request and of what it becomes.

use vstd::prelude::*;
use vstd::utf8::*;

use crate::config::ConversionMode;
use crate::json;
use crate::json::JsonView;
use crate::requests;
use crate::text;
use crate::tools;
use crate::tools::ToolContextView;

verus! {

proof fn member_names()
    ensures
        text::word_mark("input"@) == (5nat, 'i', 'p', 't'),
        text::word_mark("messages"@) == (8nat, 'm', 'a', 's'),
        text::word_mark("model"@) == (5nat, 'm', 'd', 'l'),
        text::word_mark("stream"@) == (6nat, 's', 'e', 'm'),
        text::word_mark("temperature"@) == (11nat, 't', 'r', 'e'),
        text::word_mark("top_p"@) == (5nat, 't', 'p', 'p'),
        text::word_mark("tools"@) == (5nat, 't', 'o', 's'),
        text::word_mark("tool_choice"@) == (11nat, 't', 'c', 'e'),
        text::word_mark("parallel_tool_calls"@) == (19nat, 'p', 't', 's'),
        text::word_mark("metadata"@) == (8nat, 'm', 'd', 'a'),
        text::word_mark("user"@) == (4nat, 'u', 'e', 'r'),
        text::word_mark("store"@) == (5nat, 's', 'o', 'e'),
        text::word_mark("instructions"@) == (12nat, 'i', 'c', 's'),
        text::word_mark("stop"@) == (4nat, 's', 'o', 'p'),
        text::word_mark("max_output_tokens"@) == (17nat, 'm', 'u', 's'),
        text::word_mark("max_completion_tokens"@) == (21nat, 'm', 't', 's'),
        text::word_mark("max_tokens"@) == (10nat, 'm', 'o', 's'),
{
    reveal_strlit("input");
    reveal_strlit("messages");
    reveal_strlit("model");
    reveal_strlit("stream");
    reveal_strlit("temperature");
    reveal_strlit("top_p");
    reveal_strlit("tools");
    reveal_strlit("tool_choice");
    reveal_strlit("parallel_tool_calls");
    reveal_strlit("metadata");
    reveal_strlit("user");
    reveal_strlit("store");
    reveal_strlit("instructions");
    reveal_strlit("stop");
    reveal_strlit("max_output_tokens");
    reveal_strlit("max_completion_tokens");
    reveal_strlit("max_tokens");
    assert("input"@.len() == 5);
    assert("messages"@.len() == 8);
    assert("model"@.len() == 5);
    assert("stream"@.len() == 6);
    assert("temperature"@.len() == 11);
    assert("top_p"@.len() == 5);
    assert("tools"@.len() == 5);
    assert("tool_choice"@.len() == 11);
    assert("parallel_tool_calls"@.len() == 19);
    assert("metadata"@.len() == 8);
    assert("user"@.len() == 4);
    assert("store"@.len() == 5);
    assert("instructions"@.len() == 12);
    assert("stop"@.len() == 4);
    assert("max_output_tokens"@.len() == 17);
    assert("max_completion_tokens"@.len() == 21);
    assert("max_tokens"@.len() == 10);
}

proof fn item_names()
    ensures
        text::word_mark("type"@) == (4nat, 't', 'p', 'e'),
        text::word_mark("role"@) == (4nat, 'r', 'l', 'e'),
        text::word_mark("content"@) == (7nat, 'c', 't', 't'),
        text::word_mark("tool_call_id"@) == (12nat, 't', 'a', 'd'),
        text::word_mark("tool_calls"@) == (10nat, 't', 'c', 's'),
        text::word_mark("tool"@) == (4nat, 't', 'o', 'l'),
        text::word_mark("output"@) == (6nat, 'o', 'p', 't'),
        text::word_mark("call_id"@) == (7nat, 'c', 'l', 'd'),
        text::word_mark("id"@) == (2nat, 'i', 'd', 'd'),
        text::word_mark("call_0"@) == (6nat, 'c', 'l', '0'),
        text::word_mark("name"@) == (4nat, 'n', 'm', 'e'),
        text::word_mark("namespace"@) == (9nat, 'n', 's', 'e'),
        text::word_mark("arguments"@) == (9nat, 'a', 'm', 's'),
        text::word_mark("function"@) == (8nat, 'f', 't', 'n'),
        text::word_mark("function_call"@) == (13nat, 'f', 'o', 'l'),
        text::word_mark("custom_tool_call"@) == (16nat, 'c', 'o', 'l'),
        text::word_mark("tool_search_call"@) == (16nat, 't', 'r', 'l'),
        text::word_mark("function_call_output"@) == (20nat, 'f', 'a', 't'),
        text::word_mark("custom_tool_call_output"@) == (23nat, 'c', '_', 't'),
        text::word_mark("tool_search_output"@) == (18nat, 't', 'c', 't'),
        text::word_mark("message"@) == (7nat, 'm', 's', 'e'),
        text::word_mark("developer"@) == (9nat, 'd', 'l', 'r'),
        text::word_mark("system"@) == (6nat, 's', 't', 'm'),
        text::word_mark("user"@) == (4nat, 'u', 'e', 'r'),
        text::word_mark("assistant"@) == (9nat, 'a', 's', 't'),
        text::word_mark("input"@) == (5nat, 'i', 'p', 't'),
        text::word_mark("query"@) == (5nat, 'q', 'e', 'y'),
        text::word_mark("limit"@) == (5nat, 'l', 'm', 't'),
        text::word_mark("text"@) == (4nat, 't', 'x', 't'),
        text::word_mark("input_text"@) == (10nat, 'i', '_', 't'),
        text::word_mark("output_text"@) == (11nat, 'o', 't', 't'),
        text::word_mark("input_image"@) == (11nat, 'i', '_', 'e'),
        text::word_mark("image_url"@) == (9nat, 'i', 'e', 'l'),
        text::word_mark("file_id"@) == (7nat, 'f', 'e', 'd'),
        text::word_mark("url"@) == (3nat, 'u', 'r', 'l'),
        text::word_mark("tool_search"@) == (11nat, 't', 's', 'h'),
        text::word_mark("{}"@) == (2nat, '{', '}', '}'),
{
    reveal_strlit("type");
    reveal_strlit("role");
    reveal_strlit("content");
    reveal_strlit("tool_call_id");
    reveal_strlit("tool_calls");
    reveal_strlit("tool");
    reveal_strlit("output");
    reveal_strlit("call_id");
    reveal_strlit("id");
    reveal_strlit("call_0");
    reveal_strlit("name");
    reveal_strlit("namespace");
    reveal_strlit("arguments");
    reveal_strlit("function");
    reveal_strlit("function_call");
    reveal_strlit("custom_tool_call");
    reveal_strlit("tool_search_call");
    reveal_strlit("function_call_output");
    reveal_strlit("custom_tool_call_output");
    reveal_strlit("tool_search_output");
    reveal_strlit("message");
    reveal_strlit("developer");
    reveal_strlit("system");
    reveal_strlit("user");
    reveal_strlit("assistant");
    reveal_strlit("input");
    reveal_strlit("query");
    reveal_strlit("limit");
    reveal_strlit("text");
    reveal_strlit("input_text");
    reveal_strlit("output_text");
    reveal_strlit("input_image");
    reveal_strlit("image_url");
    reveal_strlit("file_id");
    reveal_strlit("url");
    reveal_strlit("tool_search");
    reveal_strlit("{}");
    assert("type"@.len() == 4);
    assert("role"@.len() == 4);
    assert("content"@.len() == 7);
    assert("tool_call_id"@.len() == 12);
    assert("tool_calls"@.len() == 10);
    assert("tool"@.len() == 4);
    assert("output"@.len() == 6);
    assert("call_id"@.len() == 7);
    assert("id"@.len() == 2);
    assert("call_0"@.len() == 6);
    assert("name"@.len() == 4);
    assert("namespace"@.len() == 9);
    assert("arguments"@.len() == 9);
    assert("function"@.len() == 8);
    assert("function_call"@.len() == 13);
    assert("custom_tool_call"@.len() == 16);
    assert("tool_search_call"@.len() == 16);
    assert("function_call_output"@.len() == 20);
    assert("custom_tool_call_output"@.len() == 23);
    assert("tool_search_output"@.len() == 18);
    assert("message"@.len() == 7);
    assert("developer"@.len() == 9);
    assert("system"@.len() == 6);
    assert("user"@.len() == 4);
    assert("assistant"@.len() == 9);
    assert("input"@.len() == 5);
    assert("query"@.len() == 5);
    assert("limit"@.len() == 5);
    assert("text"@.len() == 4);
    assert("input_text"@.len() == 10);
    assert("output_text"@.len() == 11);
    assert("input_image"@.len() == 11);
    assert("image_url"@.len() == 9);
    assert("file_id"@.len() == 7);
    assert("url"@.len() == 3);
    assert("tool_search"@.len() == 11);
    assert("{}"@.len() == 2);
}

/// What a copied member is.
proof fn copied(
    source: Map<Seq<char>, JsonView>,
    target: Map<Seq<char>, JsonView>,
    names: Seq<Seq<char>>,
    n: nat,
)
    requires
        n <= names.len(),
    ensures
        forall|name: Seq<char>|
            #[trigger] requests::with_fields(source, target, names, n).get(name) == if (exists|
                i: int,
            |
                0 <= i < n && #[trigger] names[i] == name) && source.contains_key(name) {
                source.get(name)
            } else {
                target.get(name)
            },
    decreases n,
{
    if n > 0 {
        copied(source, target, names, (n - 1) as nat);
        let before = requests::with_fields(source, target, names, (n - 1) as nat);
        let last = names[n - 1];
        assert forall|name: Seq<char>|
            #[trigger] requests::with_fields(source, target, names, n).get(name) == if (exists|
                i: int,
            |
                0 <= i < n && #[trigger] names[i] == name) && source.contains_key(name) {
                source.get(name)
            } else {
                target.get(name)
            } by {
            assert(before.get(name) == before.get(name));
            if exists|i: int| 0 <= i < n - 1 && #[trigger] names[i] == name {
                let i = choose|i: int| 0 <= i < n - 1 && #[trigger] names[i] == name;
                assert(names[i] == name);
            }
            if exists|i: int| 0 <= i < n && #[trigger] names[i] == name {
                let i = choose|i: int| 0 <= i < n && #[trigger] names[i] == name;
                if i < n - 1 {
                    assert(names[i] == name);
                }
            }
        }
    }
}

/// A member that a Chat Completions request and a Responses request have in common.
pub open spec fn is_shared_by_chat(name: Seq<char>) -> bool {
    name == "model"@ || name == "stream"@ || name == "temperature"@ || name == "top_p"@ || name == "tools"@ || name == "tool_choice"@ || name == "parallel_tool_calls"@ || name == "metadata"@ || name == "user"@ || name == "store"@ || name == "instructions"@ || name == "stop"@
}

/// A member that a Responses request and a Chat Completions request have in common.
pub open spec fn is_shared_by_responses(name: Seq<char>) -> bool {
    name == "model"@ || name == "stream"@ || name == "temperature"@ || name == "top_p"@ || name == "parallel_tool_calls"@ || name == "metadata"@ || name == "user"@ || name == "stop"@
}

/// Every member of the Responses request for a Chat Completions request: the messages are its
/// input, the newer limit on tokens comes before the older one, the members that both know are kept,
/// and there are no others. A request without messages is refused.
pub proof fn chat_request_as_responses(request: Map<Seq<char>, JsonView>)
    ensures
        !request.contains_key("messages"@) ==> requests::responses_request(
            JsonView::Object(request),
        ) == Err::<JsonView, Seq<char>>("Chat Completions request is missing messages"@),
        request.contains_key("messages"@) ==> {
            &&& requests::responses_request(JsonView::Object(request)) matches Ok(
                JsonView::Object(sent),
            )
            &&& forall|name: Seq<char>| #[trigger]
                sent.get(name) == if name == "input"@ {
                    request.get("messages"@)
                } else if name == "max_output_tokens"@ {
                    if request.contains_key("max_completion_tokens"@) {
                        request.get("max_completion_tokens"@)
                    } else {
                        request.get("max_tokens"@)
                    }
                } else if is_shared_by_chat(name) {
                    request.get(name)
                } else {
                    None
                }
        },
{
    member_names();
    let names = requests::chat_request_fields();
    assert(names.len() == 12);
    if let Some(messages) = request.get("messages"@) {
        let target = map!["input"@ => messages];
        copied(request, target, names, 12);
        let fields = requests::with_fields(request, target, names, 12);
        let sent = requests::responses_request(JsonView::Object(request))->Ok_0->Object_0;
        assert forall|name: Seq<char>| is_shared_by_chat(name) <==> exists|i: int|
            0 <= i < 12 && #[trigger] names[i] == name by {
            assert(names[0] == "model"@);
            assert(names[1] == "stream"@);
            assert(names[2] == "temperature"@);
            assert(names[3] == "top_p"@);
            assert(names[4] == "tools"@);
            assert(names[5] == "tool_choice"@);
            assert(names[6] == "parallel_tool_calls"@);
            assert(names[7] == "metadata"@);
            assert(names[8] == "user"@);
            assert(names[9] == "store"@);
            assert(names[10] == "instructions"@);
            assert(names[11] == "stop"@);
        }
        assert forall|name: Seq<char>| #[trigger]
            sent.get(name) == if name == "input"@ {
                request.get("messages"@)
            } else if name == "max_output_tokens"@ {
                if request.contains_key("max_completion_tokens"@) {
                    request.get("max_completion_tokens"@)
                } else {
                    request.get("max_tokens"@)
                }
            } else if is_shared_by_chat(name) {
                request.get(name)
            } else {
                None
            } by {
            assert(fields.get(name) == fields.get(name));
            assert(is_shared_by_chat(name) <==> exists|i: int|
                0 <= i < 12 && #[trigger] names[i] == name);
        }
    }
}

/// What is no object is refused as a request, in either protocol.
pub proof fn requests_are_objects(request: JsonView)
    requires
        request !is Object,
    ensures
        requests::responses_request(request) == Err::<JsonView, Seq<char>>(
            "Chat Completions request must be a JSON object"@,
        ),
        requests::chat_request(request) == Err::<JsonView, Seq<char>>(
            "Responses request must be a JSON object"@,
        ),
{
}

/// Every member of the Chat Completions request for a Responses request, but for its messages: the
/// limit on tokens has its older name, the tools are the functions that stand for them and are left
/// out where there are none, the choice among them is made by their names there, the members that
/// both know are kept, and there are no others. A request without input is refused.
pub proof fn responses_request_as_chat(request: Map<Seq<char>, JsonView>)
    ensures
        !request.contains_key("input"@) ==> requests::chat_request(JsonView::Object(request))
            == Err::<JsonView, Seq<char>>("Responses request is missing input"@),
        request.contains_key("input"@) ==> {
            let context = tools::tool_context(request.get("tools"@));
            &&& requests::chat_request(JsonView::Object(request)) matches Ok(JsonView::Object(sent))
            &&& forall|name: Seq<char>|
                name != "messages"@ ==> #[trigger] sent.get(name) == if name == "max_tokens"@ {
                    request.get("max_output_tokens"@)
                } else if name == "tools"@ {
                    if context.chat_tools.len() > 0 {
                        Some(JsonView::Array(context.chat_tools))
                    } else {
                        None
                    }
                } else if name == "tool_choice"@ {
                    match request.get("tool_choice"@) {
                        Some(choice) => Some(tools::chat_tool_choice(choice, context)),
                        None => None,
                    }
                } else if is_shared_by_responses(name) {
                    request.get(name)
                } else {
                    None
                }
        },
{
    member_names();
    let names = requests::responses_request_fields();
    assert(names.len() == 8);
    if let Some(input) = request.get("input"@) {
        let context = tools::tool_context(request.get("tools"@));
        let instructions: Seq<JsonView> = match request.get("instructions"@) {
            Some(instructions) => seq![requests::message_view("system"@, instructions)],
            None => Seq::empty(),
        };
        let messages = instructions + requests::input_messages(input, context);
        let target = map!["messages"@ => JsonView::Array(messages)];
        copied(request, target, names, 8);
        let fields = requests::with_fields(request, target, names, 8);
        let sent = requests::chat_request(JsonView::Object(request))->Ok_0->Object_0;
        assert forall|name: Seq<char>| is_shared_by_responses(name) <==> exists|i: int|
            0 <= i < 8 && #[trigger] names[i] == name by {
            assert(names[0] == "model"@);
            assert(names[1] == "stream"@);
            assert(names[2] == "temperature"@);
            assert(names[3] == "top_p"@);
            assert(names[4] == "parallel_tool_calls"@);
            assert(names[5] == "metadata"@);
            assert(names[6] == "user"@);
            assert(names[7] == "stop"@);
        }
        assert forall|name: Seq<char>|
            name != "messages"@ implies #[trigger] sent.get(name) == if name == "max_tokens"@ {
                request.get("max_output_tokens"@)
            } else if name == "tools"@ {
                if context.chat_tools.len() > 0 {
                    Some(JsonView::Array(context.chat_tools))
                } else {
                    None
                }
            } else if name == "tool_choice"@ {
                match request.get("tool_choice"@) {
                    Some(choice) => Some(tools::chat_tool_choice(choice, context)),
                    None => None,
                }
            } else if is_shared_by_responses(name) {
                request.get(name)
            } else {
                None
            } by {
            assert(fields.get(name) == fields.get(name));
            assert(is_shared_by_responses(name) <==> exists|i: int|
                0 <= i < 8 && #[trigger] names[i] == name);
        }
    }
}

/// An item or a part of that type.
pub open spec fn has_type(value: JsonView, kind: Seq<char>) -> bool {
    value.get("type"@) == Some(JsonView::String(kind))
}

/// An item of a Responses input that calls a tool.
pub open spec fn is_call(item: JsonView) -> bool {
    has_type(item, "function_call"@) || has_type(item, "custom_tool_call"@) || has_type(
        item,
        "tool_search_call"@,
    )
}

/// An item of a Responses input that gives what a tool put out.
pub open spec fn is_tool_output(item: JsonView) -> bool {
    has_type(item, "function_call_output"@) || has_type(item, "custom_tool_call_output"@)
        || has_type(item, "tool_search_output"@)
}

/// The id by which a call and its output find each other.
pub open spec fn is_id_of(item: JsonView, id: JsonView) -> bool {
    match (item.get("call_id"@), item.get("id"@)) {
        (Some(call_id), _) => id == call_id,
        (None, Some(own)) => id == own,
        (None, None) => id == JsonView::String("call_0"@),
    }
}

/// A value as text: a string is the text, anything else is written as JSON.
pub open spec fn is_text_of(value: JsonView, text: Seq<char>) -> bool {
    match value {
        JsonView::String(own) => text == own,
        _ => text == json::json_text(value),
    }
}

proof fn earlier_items(
    items: Seq<JsonView>,
    item: JsonView,
    context: ToolContextView,
    n: nat,
)
    requires
        n <= items.len(),
    ensures
        requests::items_added(items.push(item), context, n) == requests::items_added(
            items,
            context,
            n,
        ),
    decreases n,
{
    if n > 0 {
        earlier_items(items, item, context, (n - 1) as nat);
        assert(items.push(item)[n - 1] == items[n - 1]);
    }
}

proof fn calls_wait(items: Seq<JsonView>, context: ToolContextView, n: nat)
    requires
        n <= items.len(),
    ensures
        requests::items_added(items, context, n).pending.len() > 0 <==> n > 0 && is_call(
            items[n - 1],
        ),
    decreases n,
{
    item_names();
    if n > 0 {
        calls_wait(items, context, (n - 1) as nat);
    }
}

/// The messages of an input that is a list.
pub open spec fn messages_of(items: Seq<JsonView>, context: ToolContextView) -> Seq<JsonView> {
    requests::input_messages(JsonView::Array(items), context)
}

/// An input that is a list of nothing has no messages, and one that is no list is what the user
/// says.
pub proof fn messages_of_plain_inputs(input: JsonView, context: ToolContextView)
    ensures
        messages_of(Seq::empty(), context).len() == 0,
        input !is Array ==> {
            let messages = requests::input_messages(input, context);
            &&& messages.len() == 1
            &&& messages[0] == JsonView::Object(
                map!["role"@ => JsonView::String("user"@), "content"@ => input],
            )
        },
{
}

/// An item that is no call adds one message behind those of the items before it.
pub proof fn other_items_are_messages(
    items: Seq<JsonView>,
    item: JsonView,
    context: ToolContextView,
)
    requires
        !is_call(item),
    ensures
        messages_of(items.push(item), context).len() == messages_of(items, context).len() + 1,
        messages_of(items.push(item), context).drop_last() == messages_of(items, context),
{
    item_names();
    earlier_items(items, item, context, items.len());
    let before = requests::items_added(items, context, items.len());
    let closed = requests::flushed(before);
    let after = requests::items_added(items.push(item), context, items.len() + 1);
    assert(after.pending == closed.pending);
    assert(after.messages.drop_last() =~= closed.messages);
}

/// What a tool put out is a message of the tool, which answers the call of the same id and holds
/// what was put out as text.
pub proof fn tool_outputs_answer_their_call(
    items: Seq<JsonView>,
    item: JsonView,
    context: ToolContextView,
)
    requires
        is_tool_output(item),
    ensures
        ({
            let message = messages_of(items.push(item), context).last();
            &&& message.get("role"@) == Some(JsonView::String("tool"@))
            &&& message.get("tool_call_id"@) matches Some(id) && is_id_of(item, id)
            &&& message.get("content"@) matches Some(JsonView::String(text)) && match item.get(
                "output"@,
            ) {
                Some(output) => is_text_of(output, text),
                None => is_text_of(item, text),
            }
            &&& message->Object_0.dom() == set!["role"@, "tool_call_id"@, "content"@]
        }),
{
    item_names();
    other_items_are_messages(items, item, context);
    earlier_items(items, item, context, items.len());
    let message = messages_of(items.push(item), context).last();
    assert(message == requests::tool_output_view(item->Object_0));
    assert(message->Object_0.dom() =~= set!["role"@, "tool_call_id"@, "content"@]);
}

/// A part of the content of a message, and what it becomes.
pub open spec fn part_becomes(part: JsonView, chat: JsonView) -> bool {
    if has_type(part, "input_text"@) || has_type(part, "output_text"@) {
        &&& chat is Object
        &&& chat->Object_0.dom() == set!["type"@, "text"@]
        &&& has_type(chat, "text"@)
        &&& chat.get("text"@) == match part.get("text"@) {
            Some(text) => Some(text),
            None => Some(JsonView::String(Seq::empty())),
        }
    } else if has_type(part, "input_image"@) {
        &&& chat is Object
        &&& chat->Object_0.dom() == set!["type"@, "image_url"@]
        &&& has_type(chat, "image_url"@)
        &&& chat.get("image_url"@) matches Some(JsonView::Object(image)) && image.dom()
            == set!["url"@] && image["url"@] == match (part.get("image_url"@), part.get("file_id"@)) {
            (Some(url), _) => url,
            (None, Some(file)) => file,
            (None, None) => JsonView::String(Seq::empty()),
        }
    } else {
        chat == part
    }
}

/// The content of a message, and what it becomes.
pub open spec fn content_becomes(content: JsonView, chat: JsonView) -> bool {
    match content {
        JsonView::Array(parts) => match chat {
            JsonView::Array(converted) => {
                &&& converted.len() == parts.len()
                &&& forall|i: int|
                    0 <= i < parts.len() ==> part_becomes(parts[i], #[trigger] converted[i])
            },
            _ => false,
        },
        _ => chat == content,
    }
}

/// The content of a message is converted part by part.
pub proof fn content_is_converted(content: JsonView)
    ensures
        content_becomes(content, requests::chat_content(content)),
{
    item_names();
    if let JsonView::Array(parts) = content {
        let converted = requests::chat_content(content)->Array_0;
        assert forall|i: int| 0 <= i < parts.len() implies part_becomes(
            parts[i],
            #[trigger] converted[i],
        ) by {
            let part = parts[i];
            let chat = converted[i];
            assert(chat == requests::chat_part(part));
            if has_type(part, "input_text"@) || has_type(part, "output_text"@) {
                assert(chat->Object_0.dom() =~= set!["type"@, "text"@]);
            } else if has_type(part, "input_image"@) {
                assert(chat->Object_0.dom() =~= set!["type"@, "image_url"@]);
                assert(chat.get("image_url"@)->0->Object_0.dom() =~= set!["url"@]);
            }
        }
    }
}

/// A message says what its content says, in the role that it has; the developer of a message speaks
/// as the system. What is no message, and has a role, keeps it. What has no role is what the user
/// says, whole.
pub proof fn messages_are_said_in_their_role(
    items: Seq<JsonView>,
    item: JsonView,
    context: ToolContextView,
)
    requires
        !is_call(item),
        !is_tool_output(item),
    ensures
        ({
            let message = messages_of(items.push(item), context).last();
            let plain = has_type(item, "message"@) || !(item.get("type"@) matches Some(
                JsonView::String(_),
            ));
            &&& message is Object
            &&& message->Object_0.dom() == set!["role"@, "content"@]
            &&& match item.get("role"@) {
                Some(JsonView::String(role)) => {
                    &&& message.get("role"@) == Some(
                        JsonView::String(
                            if plain && role == "developer"@ {
                                "system"@
                            } else {
                                role
                            },
                        ),
                    )
                    &&& match item.get("content"@) {
                        Some(content) => content_becomes(content, message.get("content"@)->0),
                        None => if plain {
                            message.get("content"@) == Some(JsonView::String(Seq::empty()))
                        } else {
                            message.get("content"@) == Some(item)
                        },
                    }
                },
                _ => {
                    &&& message.get("role"@) == Some(JsonView::String("user"@))
                    &&& message.get("content"@) == Some(item)
                },
            }
        }),
{
    item_names();
    other_items_are_messages(items, item, context);
    earlier_items(items, item, context, items.len());
    let message = messages_of(items.push(item), context).last();
    assert(message->Object_0.dom() =~= set!["role"@, "content"@]);
    if let Some(content) = item.get("content"@) {
        content_is_converted(content);
    }
}

/// Calls that stand together are calls of one message of the assistant, in their order; a call that
/// stands behind anything else begins a new one.
pub proof fn calls_are_gathered(items: Seq<JsonView>, item: JsonView, context: ToolContextView)
    requires
        is_call(item),
    ensures
        ({
            let before = messages_of(items, context);
            let after = messages_of(items.push(item), context);
            let message = after.last();
            let call = requests::items_added(items.push(item), context, items.len() + 1).pending
                .last();
            &&& after.len() > 0
            &&& message is Object
            &&& message->Object_0.dom() == set!["role"@, "content"@, "tool_calls"@]
            &&& message.get("role"@) == Some(JsonView::String("assistant"@))
            &&& message.get("content"@) == Some(JsonView::Null)
            &&& message.get("tool_calls"@) matches Some(JsonView::Array(calls)) && calls.len() > 0
                && calls.last() == call && if items.len() > 0 && is_call(items.last()) {
                &&& after.len() == before.len()
                &&& after.drop_last() == before.drop_last()
                &&& before.last().get("tool_calls"@) == Some(JsonView::Array(calls.drop_last()))
            } else {
                &&& after.drop_last() == before
                &&& calls.len() == 1
            }
        }),
{
    item_names();
    earlier_items(items, item, context, items.len());
    calls_wait(items, context, items.len());
    let conversation = requests::items_added(items, context, items.len());
    let grown = requests::items_added(items.push(item), context, items.len() + 1);
    assert(grown.pending.drop_last() =~= conversation.pending);
    let after = messages_of(items.push(item), context);
    let before = messages_of(items, context);
    assert(after.drop_last() =~= conversation.messages);
    assert(after.last()->Object_0.dom() =~= set!["role"@, "content"@, "tool_calls"@]);
    if conversation.pending.len() > 0 {
        assert(before.drop_last() =~= conversation.messages);
    } else {
        assert(before =~= conversation.messages);
    }
}

/// The call that an item becomes.
pub open spec fn call_of(item: JsonView, context: ToolContextView) -> JsonView {
    messages_of(seq![item], context)[0].get("tool_calls"@)->0->Array_0[0]
}

proof fn one_call(item: JsonView, context: ToolContextView)
    requires
        is_call(item),
    ensures
        messages_of(seq![item], context).len() == 1,
        call_of(item, context) == requests::items_added(seq![item], context, 1).pending.last(),
        requests::items_added(seq![item], context, 1) == requests::item_added(
            requests::Conversation { messages: Seq::empty(), pending: Seq::empty() },
            item,
            context,
        ),
{
    item_names();
    reveal_with_fuel(requests::items_added, 2);
    calls_are_gathered(Seq::empty(), item, context);
    assert(Seq::<JsonView>::empty().push(item) =~= seq![item]);
}

/// A call has the id of its item, under which its output answers it, and calls a function by the
/// name that the tool goes by.
pub proof fn calls_keep_their_id_and_tool(item: JsonView, context: ToolContextView)
    requires
        is_call(item),
    ensures
        ({
            let call = call_of(item, context);
            let name = match item.get("name"@) {
                Some(JsonView::String(name)) => name,
                _ => if has_type(item, "tool_search_call"@) {
                    "tool_search"@
                } else {
                    Seq::empty()
                },
            };
            let namespace = match item.get("namespace"@) {
                Some(JsonView::String(namespace)) => if has_type(item, "function_call"@) {
                    Some(namespace)
                } else {
                    None
                },
                _ => None,
            };
            &&& call is Object
            &&& call->Object_0.dom() == set!["id"@, "type"@, "function"@]
            &&& call.get("id"@) matches Some(id) && is_id_of(item, id)
            &&& has_type(call, "function"@)
            &&& call.get("function"@) matches Some(JsonView::Object(function)) && function.dom()
                == set!["name"@, "arguments"@] && function["name"@] == JsonView::String(
                tools::chat_name_of(context, name, namespace),
            )
        }),
{
    item_names();
    one_call(item, context);
    let call = call_of(item, context);
    assert(call->Object_0.dom() =~= set!["id"@, "type"@, "function"@]);
    assert(call.get("function"@)->0->Object_0.dom() =~= set!["name"@, "arguments"@]);
}

/// A call item and an output item of the same call id give a call and a message with the same id.
pub proof fn call_and_output_share_their_id(
    call_item: JsonView,
    output_item: JsonView,
    context: ToolContextView,
    id: JsonView,
)
    requires
        is_call(call_item),
        is_tool_output(output_item),
        call_item.get("call_id"@) == Some(id),
        output_item.get("call_id"@) == Some(id),
    ensures
        ({
            let messages = messages_of(seq![call_item, output_item], context);
            &&& messages.len() == 2
            &&& messages[0].get("tool_calls"@) matches Some(JsonView::Array(calls)) && calls.len()
                == 1 && calls[0].get("id"@) == Some(id)
            &&& messages[1].get("tool_call_id"@) == Some(id)
        }),
{
    item_names();
    let one = seq![call_item];
    assert(one.push(output_item) =~= seq![call_item, output_item]);
    calls_are_gathered(Seq::empty(), call_item, context);
    assert(Seq::<JsonView>::empty().push(call_item) =~= one);
    calls_keep_their_id_and_tool(call_item, context);
    one_call(call_item, context);
    other_items_are_messages(one, output_item, context);
    tool_outputs_answer_their_call(one, output_item, context);
    let messages = messages_of(seq![call_item, output_item], context);
    assert(messages.drop_last()[0] == messages[0]);
}

/// The arguments of a call of a function are those of its item, as text; of a custom tool they are
/// the text of an object that holds the input; of a tool search that of an object with the query and
/// the limit, or with the arguments given where it has neither.
pub proof fn calls_keep_their_arguments(item: JsonView, context: ToolContextView)
    requires
        is_call(item),
    ensures
        ({
            let arguments = call_of(item, context).get("function"@)->0.get("arguments"@);
            &&& has_type(item, "function_call"@) ==> match item.get("arguments"@) {
                Some(given) => arguments matches Some(JsonView::String(text)) && is_text_of(
                    given,
                    text,
                ),
                None => arguments == Some(JsonView::String("{}"@)),
            }
            &&& has_type(item, "custom_tool_call"@) ==> arguments == Some(
                JsonView::String(
                    json::json_text(
                        JsonView::Object(
                            map![
                                "input"@ => match item.get("input"@) {
                                    Some(input) => input,
                                    None => JsonView::String(Seq::empty()),
                                },
                            ],
                        ),
                    ),
                ),
            )
            &&& has_type(item, "tool_search_call"@) ==> exists|given: Map<Seq<char>, JsonView>|
                arguments == Some(
                    JsonView::String(#[trigger] json::json_text(JsonView::Object(given))),
                ) && if item.get("query"@) is Some || item.get("limit"@) is Some {
                    &&& given.get("query"@) == item.get("query"@)
                    &&& given.get("limit"@) == item.get("limit"@)
                    &&& given.dom().subset_of(set!["query"@, "limit"@])
                } else {
                    given == match item.get("arguments"@) {
                        Some(JsonView::Object(own)) => own,
                        _ => Map::empty(),
                    }
                }
        }),
{
    item_names();
    one_call(item, context);
    if has_type(item, "tool_search_call"@) {
        let members = item->Object_0;
        let names = requests::search_fields();
        let given = requests::search_arguments(members);
        copied(members, Map::empty(), names, 2);
        let fields = requests::with_fields(members, Map::empty(), names, 2);
        assert(names[0] == "query"@ && names[1] == "limit"@);
        assert(fields.get("query"@) == item.get("query"@));
        assert(fields.get("limit"@) == item.get("limit"@));
        assert forall|name: Seq<char>| fields.contains_key(name) implies name == "query"@ || name
            == "limit"@ by {
            assert(fields.get(name) is Some);
        }
        if item.get("query"@) is Some || item.get("limit"@) is Some {
            assert(fields.contains_key("query"@) || fields.contains_key("limit"@));
            assert(fields != Map::<Seq<char>, JsonView>::empty());
        } else {
            assert(fields =~= Map::<Seq<char>, JsonView>::empty());
        }
        assert(call_of(item, context).get("function"@)->0.get("arguments"@) == Some(
            JsonView::String(json::json_text(JsonView::Object(given))),
        ));
    }
}

/// The messages of a Chat Completions request are the instructions, said by the system, and then
/// those of the input.
pub proof fn instructions_come_first(request: Map<Seq<char>, JsonView>)
    requires
        request.contains_key("input"@),
    ensures
        ({
            let said = requests::input_messages(
                request["input"@],
                tools::tool_context(request.get("tools"@)),
            );
            &&& requests::chat_request(JsonView::Object(request)) matches Ok(JsonView::Object(sent))
            &&& sent.get("messages"@) matches Some(JsonView::Array(messages)) && match request.get(
                "instructions"@,
            ) {
                Some(instructions) => {
                    &&& messages.len() == said.len() + 1
                    &&& messages[0] == JsonView::Object(
                        map!["role"@ => JsonView::String("system"@), "content"@ => instructions],
                    )
                    &&& messages.skip(1) == said
                },
                None => messages == said,
            }
        }),
{
    member_names();
    let names = requests::responses_request_fields();
    let input = request["input"@];
    let context = tools::tool_context(request.get("tools"@));
    let said = requests::input_messages(input, context);
    let instructions: Seq<JsonView> = match request.get("instructions"@) {
        Some(instructions) => seq![requests::message_view("system"@, instructions)],
        None => Seq::empty(),
    };
    let messages = instructions + said;
    let target = map!["messages"@ => JsonView::Array(messages)];
    copied(request, target, names, 8);
    let fields = requests::with_fields(request, target, names, 8);
    assert(names.len() == 8);
    assert forall|i: int| 0 <= i < 8 implies #[trigger] names[i] != "messages"@ by {}
    assert(fields.get("messages"@) == Some(JsonView::Array(messages)));
    if request.get("instructions"@) is Some {
        assert(messages.skip(1) =~= said);
    } else {
        assert(messages =~= said);
    }
}

/// The body of a request: as it came where the protocols agree; else what it says in the other
/// protocol, as JSON. What is no JSON is refused, but where it is passed on as it came.
pub proof fn bodies_are_converted(body: Seq<u8>)
    ensures
        requests::upstream_body(body, ConversionMode::Direct) == Ok::<Seq<u8>, Seq<char>>(body),
        match json::parsed(body) {
            Ok(request) => {
                &&& requests::upstream_body(body, ConversionMode::ChatToResponses)
                    == match requests::responses_request(request) {
                    Ok(sent) => Ok(encode_utf8(json::json_text(sent))),
                    Err(message) => Err(message),
                }
                &&& requests::upstream_body(body, ConversionMode::ResponsesToChat)
                    == match requests::chat_request(request) {
                    Ok(sent) => Ok(encode_utf8(json::json_text(sent))),
                    Err(message) => Err(message),
                }
            },
            Err(message) => {
                &&& requests::upstream_body(body, ConversionMode::ChatToResponses) == Err::<
                    Seq<u8>,
                    Seq<char>,
                >("invalid Chat Completions request JSON: "@ + message)
                &&& requests::upstream_body(body, ConversionMode::ResponsesToChat) == Err::<
                    Seq<u8>,
                    Seq<char>,
                >("invalid Responses request JSON: "@ + message)
            },
        },
{
}

/// What the answer is told of the tools of a request: those of a Responses request that goes out as
/// a Chat Completions request, where it has any.
pub proof fn tools_are_remembered(body: Seq<u8>)
    ensures
        requests::upstream_tools(body, ConversionMode::Direct) is None,
        requests::upstream_tools(body, ConversionMode::ChatToResponses) is None,
        json::parsed(body) matches Ok(request) ==> requests::upstream_tools(
            body,
            ConversionMode::ResponsesToChat,
        ) == if tools::tool_context(request.get("tools"@)).specs.len() > 0 {
            Some(tools::tool_context(request.get("tools"@)))
        } else {
            None
        },
{
}

/// A request with another model is the same request but for the model; what is no object stays, and
/// what is no JSON is refused.
pub proof fn only_the_model_is_replaced(body: Seq<u8>, model: Seq<char>)
    ensures
        match json::parsed(body) {
            Ok(JsonView::Object(request)) => exists|sent: Map<Seq<char>, JsonView>|
                requests::model_body(body, model) == Ok::<Seq<u8>, Seq<char>>(
                    encode_utf8(#[trigger] json::json_text(JsonView::Object(sent))),
                ) && sent.get("model"@) == Some(JsonView::String(model)) && forall|name: Seq<char>|
                    name != "model"@ ==> #[trigger] sent.get(name) == request.get(name),
            Ok(request) => requests::model_body(body, model) == Ok::<Seq<u8>, Seq<char>>(
                encode_utf8(json::json_text(request)),
            ),
            Err(message) => requests::model_body(body, model) == Err::<Seq<u8>, Seq<char>>(
                "invalid request JSON: "@ + message,
            ),
        },
{
    if let Ok(JsonView::Object(request)) = json::parsed(body) {
        let sent = request.insert("model"@, JsonView::String(model));
        assert(requests::model_body(body, model) == Ok::<Seq<u8>, Seq<char>>(
            encode_utf8(json::json_text(JsonView::Object(sent))),
        ));
    }
}

/// A request asks for a stream where it says so, and not where it says anything else.
pub proof fn streams_are_asked_for(request: JsonView)
    ensures
        requests::asks_for_stream(request) <==> request is Object && request->Object_0.contains_key(
            "stream"@,
        ) && request->Object_0["stream"@] == JsonView::Bool(true),
{
}

} // verus!
