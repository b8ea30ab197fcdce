//! What holds of converted answers, read off the members of the answer and of what it becomes.

use vstd::prelude::*;
use vstd::utf8::*;

use crate::config::ConversionMode;
use crate::json;
use crate::json::JsonView;
use crate::responses;
use crate::text;
use crate::tools;
use crate::tools::{ResponsesToolKind, ToolContextView, ToolSpecView};

verus! {

proof fn answer_names()
    ensures
        text::word_mark("id"@) == (2nat, 'i', 'd', 'd'),
        text::word_mark("object"@) == (6nat, 'o', 'e', 't'),
        text::word_mark("created_at"@) == (10nat, 'c', 'e', 't'),
        text::word_mark("created"@) == (7nat, 'c', 'a', 'd'),
        text::word_mark("model"@) == (5nat, 'm', 'd', 'l'),
        text::word_mark("status"@) == (6nat, 's', 't', 's'),
        text::word_mark("output"@) == (6nat, 'o', 'p', 't'),
        text::word_mark("output_text"@) == (11nat, 'o', 't', 't'),
        text::word_mark("usage"@) == (5nat, 'u', 'a', 'e'),
        text::word_mark("choices"@) == (7nat, 'c', 'i', 's'),
        text::word_mark("message"@) == (7nat, 'm', 's', 'e'),
        text::word_mark("content"@) == (7nat, 'c', 't', 't'),
        text::word_mark("text"@) == (4nat, 't', 'x', 't'),
        text::word_mark("type"@) == (4nat, 't', 'p', 'e'),
        text::word_mark("role"@) == (4nat, 'r', 'l', 'e'),
        text::word_mark("annotations"@) == (11nat, 'a', 'a', 's'),
        text::word_mark("tool_calls"@) == (10nat, 't', 'c', 's'),
        text::word_mark("function"@) == (8nat, 'f', 't', 'n'),
        text::word_mark("name"@) == (4nat, 'n', 'm', 'e'),
        text::word_mark("arguments"@) == (9nat, 'a', 'm', 's'),
        text::word_mark("input"@) == (5nat, 'i', 'p', 't'),
        text::word_mark("query"@) == (5nat, 'q', 'e', 'y'),
        text::word_mark("limit"@) == (5nat, 'l', 'm', 't'),
        text::word_mark("namespace"@) == (9nat, 'n', 's', 'e'),
        text::word_mark("call_id"@) == (7nat, 'c', 'l', 'd'),
        text::word_mark("finish_reason"@) == (13nat, 'f', '_', 'n'),
        text::word_mark("index"@) == (5nat, 'i', 'd', 'x'),
        text::word_mark("input_tokens"@) == (12nat, 'i', 't', 's'),
        text::word_mark("output_tokens"@) == (13nat, 'o', '_', 's'),
        text::word_mark("total_tokens"@) == (12nat, 't', 't', 's'),
        text::word_mark("prompt_tokens"@) == (13nat, 'p', '_', 's'),
        text::word_mark("completion_tokens"@) == (17nat, 'c', 'o', 's'),
{
    reveal_strlit("id");
    reveal_strlit("object");
    reveal_strlit("created_at");
    reveal_strlit("created");
    reveal_strlit("model");
    reveal_strlit("status");
    reveal_strlit("output");
    reveal_strlit("output_text");
    reveal_strlit("usage");
    reveal_strlit("choices");
    reveal_strlit("message");
    reveal_strlit("content");
    reveal_strlit("text");
    reveal_strlit("type");
    reveal_strlit("role");
    reveal_strlit("annotations");
    reveal_strlit("tool_calls");
    reveal_strlit("function");
    reveal_strlit("name");
    reveal_strlit("arguments");
    reveal_strlit("input");
    reveal_strlit("query");
    reveal_strlit("limit");
    reveal_strlit("namespace");
    reveal_strlit("call_id");
    reveal_strlit("finish_reason");
    reveal_strlit("index");
    reveal_strlit("input_tokens");
    reveal_strlit("output_tokens");
    reveal_strlit("total_tokens");
    reveal_strlit("prompt_tokens");
    reveal_strlit("completion_tokens");
    assert("id"@.len() == 2);
    assert("object"@.len() == 6);
    assert("created_at"@.len() == 10);
    assert("created"@.len() == 7);
    assert("model"@.len() == 5);
    assert("status"@.len() == 6);
    assert("output"@.len() == 6);
    assert("output_text"@.len() == 11);
    assert("usage"@.len() == 5);
    assert("choices"@.len() == 7);
    assert("message"@.len() == 7);
    assert("content"@.len() == 7);
    assert("text"@.len() == 4);
    assert("type"@.len() == 4);
    assert("role"@.len() == 4);
    assert("annotations"@.len() == 11);
    assert("tool_calls"@.len() == 10);
    assert("function"@.len() == 8);
    assert("name"@.len() == 4);
    assert("arguments"@.len() == 9);
    assert("input"@.len() == 5);
    assert("query"@.len() == 5);
    assert("limit"@.len() == 5);
    assert("namespace"@.len() == 9);
    assert("call_id"@.len() == 7);
    assert("finish_reason"@.len() == 13);
    assert("index"@.len() == 5);
    assert("input_tokens"@.len() == 12);
    assert("output_tokens"@.len() == 13);
    assert("total_tokens"@.len() == 12);
    assert("prompt_tokens"@.len() == 13);
    assert("completion_tokens"@.len() == 17);
}

/// The value, or else the other.
pub open spec fn or_else(value: Option<JsonView>, other: JsonView) -> JsonView {
    match value {
        Some(value) => value,
        None => other,
    }
}

/// The member of that name is that string.
pub open spec fn says(value: JsonView, name: Seq<char>, text: Seq<char>) -> bool {
    value.get(name) == Some(JsonView::String(text))
}

/// The message that a Chat Completions answer gives: that of its first choice.
pub open spec fn given_message(answer: JsonView) -> Option<JsonView> {
    match answer.get("choices"@) {
        Some(JsonView::Array(choices)) => if choices.len() > 0 {
            choices[0].get("message"@)
        } else {
            None
        },
        _ => None,
    }
}

/// The text of a message is its content where that is a string. Where it is a list the texts of its
/// parts stand one behind the other: a part has its text in a member, or is the text. A message
/// without either has none.
pub proof fn text_of_a_message(
    message: JsonView,
    members: Map<Seq<char>, JsonView>,
    parts: Seq<JsonView>,
    part: JsonView,
)
    ensures
        message.get("content"@) matches Some(JsonView::String(text)) ==> responses::message_text(
            message,
        ) == text,
        !(message.get("content"@) matches Some(JsonView::String(_))) && !(message.get("content"@)
            matches Some(JsonView::Array(_))) ==> responses::message_text(message).len() == 0,
        responses::message_text(
            JsonView::Object(members.insert("content"@, JsonView::Array(Seq::empty()))),
        ).len() == 0,
        responses::message_text(
            JsonView::Object(members.insert("content"@, JsonView::Array(parts.push(part)))),
        ) == responses::message_text(
            JsonView::Object(members.insert("content"@, JsonView::Array(parts))),
        ) + match (part, part.get("text"@)) {
            (_, Some(JsonView::String(text))) => text,
            (JsonView::String(text), _) => text,
            _ => Seq::empty(),
        },
{
    earlier_parts(parts, part, parts.len());
}

proof fn earlier_parts(parts: Seq<JsonView>, part: JsonView, n: nat)
    requires
        n <= parts.len(),
    ensures
        responses::parts_text(parts.push(part), n) == responses::parts_text(parts, n),
    decreases n,
{
    if n > 0 {
        earlier_parts(parts, part, (n - 1) as nat);
        assert(parts.push(part)[n - 1] == parts[n - 1]);
    }
}

/// The counts of tokens of a Responses answer are those of the Chat Completions answer.
pub open spec fn usage_becomes(chat: Option<JsonView>, converted: JsonView) -> bool {
    match chat {
        Some(chat) => {
            let zero = JsonView::Number(json::integer_number(0));
            &&& converted is Object
            &&& converted->Object_0.dom() == set!["input_tokens"@, "output_tokens"@, "total_tokens"@]
            &&& converted.get("input_tokens"@) == Some(or_else(chat.get("prompt_tokens"@), zero))
            &&& converted.get("output_tokens"@) == Some(
                or_else(chat.get("completion_tokens"@), zero),
            )
            &&& converted.get("total_tokens"@) == Some(or_else(chat.get("total_tokens"@), zero))
        },
        None => converted == JsonView::Null,
    }
}

/// The counts of tokens of a Chat Completions answer are those of the Responses answer.
pub open spec fn usage_comes_from(converted: JsonView, given: Option<JsonView>) -> bool {
    match given {
        Some(given) => {
            let zero = JsonView::Number(json::integer_number(0));
            &&& converted is Object
            &&& converted->Object_0.dom() == set![
                "prompt_tokens"@,
                "completion_tokens"@,
                "total_tokens"@,
            ]
            &&& converted.get("prompt_tokens"@) == Some(or_else(given.get("input_tokens"@), zero))
            &&& converted.get("completion_tokens"@) == Some(
                or_else(given.get("output_tokens"@), zero),
            )
            &&& converted.get("total_tokens"@) == Some(or_else(given.get("total_tokens"@), zero))
        },
        None => converted == JsonView::Null,
    }
}

/// A count keeps its meaning under its other name; one that is not given is 0.
pub proof fn counts_are_renamed(usage: Option<JsonView>)
    ensures
        usage_becomes(usage, responses::responses_usage(usage)),
        usage_comes_from(responses::chat_usage(usage), usage),
{
    answer_names();
    if usage is Some {
        assert(responses::responses_usage(usage)->Object_0.dom() =~= set![
            "input_tokens"@,
            "output_tokens"@,
            "total_tokens"@,
        ]);
        assert(responses::chat_usage(usage)->Object_0.dom() =~= set![
            "prompt_tokens"@,
            "completion_tokens"@,
            "total_tokens"@,
        ]);
    }
}

/// The members of the Responses answer for a Chat Completions answer, but for its output: it has the
/// id, the time and the model of the answer, is completed, and tells the text of the message.
pub proof fn chat_answer_as_responses(answer: JsonView, context: Option<ToolContextView>)
    ensures
        ({
            let sent = responses::responses_answer(answer, context);
            &&& sent is Object
            &&& sent->Object_0.dom() == set![
                "id"@,
                "object"@,
                "created_at"@,
                "model"@,
                "status"@,
                "output"@,
                "output_text"@,
                "usage"@,
            ]
            &&& sent.get("id"@) == Some(
                or_else(answer.get("id"@), JsonView::String("resp_proxy"@)),
            )
            &&& says(sent, "object"@, "response"@)
            &&& sent.get("created_at"@) == Some(or_else(answer.get("created"@), JsonView::Null))
            &&& sent.get("model"@) == Some(or_else(answer.get("model"@), JsonView::Null))
            &&& says(sent, "status"@, "completed"@)
            &&& sent.get("usage"@) matches Some(usage) && usage_becomes(answer.get("usage"@), usage)
            &&& says(
                sent,
                "output_text"@,
                match given_message(answer) {
                    Some(message) => responses::message_text(message),
                    None => Seq::empty(),
                },
            )
        }),
{
    answer_names();
    counts_are_renamed(answer.get("usage"@));
    let sent = responses::responses_answer(answer, context);
    assert(sent->Object_0.dom() =~= set![
        "id"@,
        "object"@,
        "created_at"@,
        "model"@,
        "status"@,
        "output"@,
        "output_text"@,
        "usage"@,
    ]);
    if given_message(answer) is None {
        let empty = JsonView::Object(Map::<Seq<char>, JsonView>::empty());
        assert(responses::first_choice(answer).get("message"@) is None);
        assert(responses::answer_message(answer).get("content"@) == Some(
            JsonView::String(Seq::empty()),
        ));
    }
}

/// A message of the assistant in a Responses output: one part, with that text.
pub open spec fn is_said(item: JsonView, text: Seq<char>) -> bool {
    &&& item is Object
    &&& item->Object_0.dom() == set!["id"@, "type"@, "status"@, "role"@, "content"@]
    &&& says(item, "id"@, "msg_0"@)
    &&& says(item, "type"@, "message"@)
    &&& says(item, "status"@, "completed"@)
    &&& says(item, "role"@, "assistant"@)
    &&& item.get("content"@) matches Some(JsonView::Array(content)) && content.len() == 1
        && content[0] is Object && content[0]->Object_0.dom() == set![
        "type"@,
        "text"@,
        "annotations"@,
    ] && says(content[0], "type"@, "output_text"@) && says(content[0], "text"@, text)
        && content[0].get("annotations"@) == Some(JsonView::Array(Seq::<JsonView>::empty()))
}

/// The text and the calls of a message are the items of the output: the text first where there is
/// any, then every call in its order.
pub proof fn output_holds_text_and_calls(answer: JsonView, context: Option<ToolContextView>)
    ensures
        ({
            let sent = responses::responses_answer(answer, context);
            let text = match given_message(answer) {
                Some(message) => responses::message_text(message),
                None => Seq::empty(),
            };
            let calls: Seq<JsonView> = match given_message(answer) {
                Some(message) => match message.get("tool_calls"@) {
                    Some(JsonView::Array(calls)) => calls,
                    _ => Seq::empty(),
                },
                None => Seq::empty(),
            };
            let k: int = if text.len() > 0 {
                1
            } else {
                0
            };
            &&& sent.get("output"@) matches Some(JsonView::Array(output)) && {
                &&& output.len() == k + calls.len()
                &&& text.len() > 0 ==> is_said(output[0], text)
                &&& forall|i: int|
                    0 <= i < calls.len() ==> #[trigger] output[k + i]
                        == responses::responses_call_item(
                        calls[i],
                        called_by(calls[i], context),
                    )
            }
        }),
{
    answer_names();
    let sent = responses::responses_answer(answer, context);
    let message = responses::answer_message(answer);
    if given_message(answer) is None {
        assert(responses::first_choice(answer).get("message"@) is None);
        assert(message.get("content"@) == Some(JsonView::String(Seq::empty())));
        assert(message.get("tool_calls"@) is None);
    }
    let text = responses::message_text(message);
    let item = responses::output_message(text);
    assert(item->Object_0.dom() =~= set!["id"@, "type"@, "status"@, "role"@, "content"@]);
    assert(item.get("content"@)->0->Array_0[0]->Object_0.dom() =~= set![
        "type"@,
        "text"@,
        "annotations"@,
    ]);
}

/// The name that a call calls a function by.
pub open spec fn called(call: JsonView) -> Seq<char> {
    match call.get("function"@) {
        Some(function) => match function.get("name"@) {
            Some(JsonView::String(name)) => name,
            _ => Seq::empty(),
        },
        None => Seq::empty(),
    }
}

/// The tool that a call calls, where the request offered it.
pub open spec fn called_by(call: JsonView, context: Option<ToolContextView>) -> Option<
    ToolSpecView,
> {
    match context {
        Some(context) => tools::spec_of(context.specs, called(call)),
        None => None,
    }
}

/// The arguments of a call, read: text is read as JSON where it is JSON.
pub open spec fn read(given: Option<JsonView>) -> JsonView {
    match given {
        Some(JsonView::String(text)) => match json::parsed(encode_utf8(text)) {
            Ok(value) => value,
            Err(_) => JsonView::String(text),
        },
        Some(value) => value,
        None => JsonView::Object(Map::<Seq<char>, JsonView>::empty()),
    }
}

/// A call in an answer is an item of the tool that it calls, with the id of the call and the tool's
/// own name. A function, of a namespace or not, gets its arguments as they are; a custom tool gets
/// its input, and a tool search its query and limit. What was not offered is a function of the name
/// called.
pub proof fn calls_become_items(call: JsonView, tool_spec: Option<ToolSpecView>)
    ensures
        ({
            let item = responses::responses_call_item(call, tool_spec);
            let given = match call.get("function"@) {
                Some(function) => function.get("arguments"@),
                None => None,
            };
            let id = or_else(call.get("id"@), JsonView::String("call_0"@));
            let name = match tool_spec {
                Some(tool_spec) => tool_spec.name,
                None => called(call),
            };
            &&& item is Object
            &&& item.get("id"@) == Some(id)
            &&& item.get("call_id"@) == Some(id)
            &&& says(item, "name"@, name)
            &&& match tool_spec {
                Some(ToolSpecView { kind: ResponsesToolKind::Custom, .. }) => {
                    &&& says(item, "type"@, "custom_tool_call"@)
                    &&& item.get("input"@) == Some(
                        or_else(read(given).get("input"@), JsonView::String(Seq::empty())),
                    )
                    &&& item->Object_0.dom() == set!["type"@, "id"@, "call_id"@, "name"@, "input"@]
                },
                Some(ToolSpecView { kind: ResponsesToolKind::ToolSearch, .. }) => {
                    &&& says(item, "type"@, "tool_search_call"@)
                    &&& item.get("query"@) == read(given).get("query"@)
                    &&& item.get("limit"@) == read(given).get("limit"@)
                    &&& item->Object_0.dom().subset_of(
                        set!["type"@, "id"@, "call_id"@, "name"@, "query"@, "limit"@],
                    )
                },
                _ => {
                    let namespace = match tool_spec {
                        Some(tool_spec) => tool_spec.namespace,
                        None => None,
                    };
                    &&& says(item, "type"@, "function_call"@)
                    &&& item.get("arguments"@) == Some(
                        or_else(given, JsonView::String(Seq::empty())),
                    )
                    &&& item.get("namespace"@) == match namespace {
                        Some(namespace) => Some(JsonView::String(namespace)),
                        None => None,
                    }
                    &&& item->Object_0.dom().subset_of(
                        set!["type"@, "id"@, "call_id"@, "name"@, "arguments"@, "namespace"@],
                    )
                },
            }
        }),
{
    answer_names();
    let item = responses::responses_call_item(call, tool_spec);
    let given = match call.get("function"@) {
        Some(function) => function.get("arguments"@),
        None => None,
    };
    assert(responses::tool_arguments(given) == read(given));
    match tool_spec {
        Some(ToolSpecView { kind: ResponsesToolKind::Custom, .. }) => {
            assert(item->Object_0.dom() =~= set!["type"@, "id"@, "call_id"@, "name"@, "input"@]);
        },
        Some(ToolSpecView { kind: ResponsesToolKind::ToolSearch, .. }) => {
            assert(item.get("query"@) == read(given).get("query"@));
            assert(item.get("limit"@) == read(given).get("limit"@));
        },
        _ => {
            assert(says(item, "type"@, "function_call"@));
        },
    }
}

/// The text of a Responses answer is the one that it states. Where it states none it is that of its
/// output: the texts of the parts of type output text in the content lists of all items, in their
/// order, whatever the items are.
pub proof fn text_of_a_responses_answer(
    answer: JsonView,
    members: Map<Seq<char>, JsonView>,
    output: Seq<JsonView>,
    item: Map<Seq<char>, JsonView>,
    parts: Seq<JsonView>,
    part: JsonView,
    other: JsonView,
)
    requires
        !(JsonView::Object(members).get("output_text"@) matches Some(JsonView::String(_))),
        !(other.get("content"@) matches Some(JsonView::Array(_))),
    ensures
        answer.get("output_text"@) matches Some(JsonView::String(text)) ==> responses::answer_text(
            answer,
        ) == text,
        !(answer.get("output_text"@) matches Some(JsonView::String(_))) && !(answer.get("output"@)
            matches Some(JsonView::Array(_))) ==> responses::answer_text(answer).len() == 0,
        responses::answer_text(with_output(members, Seq::empty())).len() == 0,
        responses::answer_text(with_output(members, output.push(other))) == responses::answer_text(
            with_output(members, output),
        ),
        responses::answer_text(with_output(members, output.push(with_content(item, Seq::empty()))))
            == responses::answer_text(with_output(members, output)),
        responses::answer_text(
            with_output(members, output.push(with_content(item, parts.push(part)))),
        ) == responses::answer_text(with_output(members, output.push(with_content(item, parts))))
            + match (part.get("type"@), part.get("text"@)) {
            (Some(JsonView::String(kind)), Some(JsonView::String(text))) => if kind
                == "output_text"@ {
                text
            } else {
                Seq::empty()
            },
            _ => Seq::empty(),
        },
{
    answer_names();
    let none = with_content(item, Seq::empty());
    let some = with_content(item, parts);
    let more = with_content(item, parts.push(part));
    earlier_outputs(output, other, output.len());
    earlier_outputs(output, none, output.len());
    earlier_outputs(output, some, output.len());
    earlier_outputs(output, more, output.len());
    earlier_contents(parts, part, parts.len());
    let before = responses::output_text(output, output.len());
    assert(before + Seq::<char>::empty() =~= before);
    let said = responses::content_text(parts, parts.len());
    assert(none.get("content"@) == Some(JsonView::Array(Seq::<JsonView>::empty())));
    assert(some.get("content"@) == Some(JsonView::Array(parts)));
    assert(more.get("content"@) == Some(JsonView::Array(parts.push(part))));
    assert(before + (said + responses::output_part_text(part)) =~= (before + said)
        + responses::output_part_text(part));
    assert(with_output(members, Seq::empty()).get("output_text"@) == JsonView::Object(members).get(
        "output_text"@,
    ));
    assert(with_output(members, output).get("output_text"@) == JsonView::Object(members).get(
        "output_text"@,
    ));
    assert(forall|list: Seq<JsonView>| #[trigger]
        with_output(members, list).get("output"@) == Some(JsonView::Array(list)));
    assert(forall|list: Seq<JsonView>| #[trigger]
        with_output(members, list).get_str("output_text"@) is None);
    assert(responses::item_text(none) =~= Seq::<char>::empty());
    assert(output.push(other).last() == other);
    assert(responses::output_text(output.push(other), output.len() + 1) =~= before);
    assert(responses::output_text(output.push(none), output.len() + 1) =~= before);
}

/// An answer with that output.
pub open spec fn with_output(
    members: Map<Seq<char>, JsonView>,
    output: Seq<JsonView>,
) -> JsonView {
    JsonView::Object(members.insert("output"@, JsonView::Array(output)))
}

/// An item with that content.
pub open spec fn with_content(item: Map<Seq<char>, JsonView>, parts: Seq<JsonView>) -> JsonView {
    JsonView::Object(item.insert("content"@, JsonView::Array(parts)))
}

proof fn earlier_outputs(output: Seq<JsonView>, item: JsonView, n: nat)
    requires
        n <= output.len(),
    ensures
        responses::output_text(output.push(item), n) == responses::output_text(output, n),
    decreases n,
{
    if n > 0 {
        earlier_outputs(output, item, (n - 1) as nat);
        assert(output.push(item)[n - 1] == output[n - 1]);
    }
}

proof fn earlier_contents(parts: Seq<JsonView>, part: JsonView, n: nat)
    requires
        n <= parts.len(),
    ensures
        responses::content_text(parts.push(part), n) == responses::content_text(parts, n),
    decreases n,
{
    if n > 0 {
        earlier_contents(parts, part, (n - 1) as nat);
        assert(parts.push(part)[n - 1] == parts[n - 1]);
    }
}

/// The members of the Chat Completions answer for a Responses answer: it has the id, the time and
/// the model of the answer, and one choice, in which the assistant says the text of the answer and
/// stops.
pub proof fn responses_answer_as_chat(answer: JsonView)
    ensures
        ({
            let sent = responses::chat_answer(answer);
            &&& sent is Object
            &&& sent->Object_0.dom() == set![
                "id"@,
                "object"@,
                "created"@,
                "model"@,
                "choices"@,
                "usage"@,
            ]
            &&& sent.get("id"@) == Some(
                or_else(answer.get("id"@), JsonView::String("chatcmpl_proxy"@)),
            )
            &&& says(sent, "object"@, "chat.completion"@)
            &&& sent.get("created"@) == Some(or_else(answer.get("created_at"@), JsonView::Null))
            &&& sent.get("model"@) == Some(or_else(answer.get("model"@), JsonView::Null))
            &&& sent.get("usage"@) matches Some(usage) && usage_comes_from(
                usage,
                answer.get("usage"@),
            )
            &&& sent.get("choices"@) matches Some(JsonView::Array(choices)) && {
                let choice = choices[0];
                let message = choice.get("message"@)->0;
                &&& choices.len() == 1
                &&& choice is Object
                &&& choice->Object_0.dom() == set!["index"@, "message"@, "finish_reason"@]
                &&& choice.get("index"@) == Some(JsonView::Number(json::integer_number(0)))
                &&& says(choice, "finish_reason"@, "stop"@)
                &&& message is Object
                &&& message->Object_0.dom() == set!["role"@, "content"@]
                &&& says(message, "role"@, "assistant"@)
                &&& says(message, "content"@, responses::answer_text(answer))
            }
        }),
{
    answer_names();
    counts_are_renamed(answer.get("usage"@));
    let sent = responses::chat_answer(answer);
    assert(sent->Object_0.dom() =~= set![
        "id"@,
        "object"@,
        "created"@,
        "model"@,
        "choices"@,
        "usage"@,
    ]);
    let choice = responses::stop_choice(responses::answer_text(answer));
    assert(choice->Object_0.dom() =~= set!["index"@, "message"@, "finish_reason"@]);
    assert(choice.get("message"@)->0->Object_0.dom() =~= set!["role"@, "content"@]);
}

/// The content of one message item of one part is the text of the part.
pub proof fn one_part_is_the_content(
    members: Map<Seq<char>, JsonView>,
    item: JsonView,
    text: Seq<char>,
)
    requires
        !(JsonView::Object(members).get("output_text"@) matches Some(JsonView::String(_))),
        item.get("content"@) matches Some(JsonView::Array(parts)) && parts.len() == 1 && says(
            parts[0],
            "type"@,
            "output_text"@,
        ) && says(parts[0], "text"@, text),
    ensures
        responses::answer_text(with_output(members, seq![item])) == text,
{
    answer_names();
    let part = item.get("content"@)->0->Array_0[0];
    let inner = item->Object_0;
    let empty = Seq::<JsonView>::empty();
    assert(empty.push(part) =~= item.get("content"@)->0->Array_0);
    assert(inner.insert("content"@, JsonView::Array(empty.push(part))) =~= inner);
    assert(empty.push(item) =~= seq![item]);
    text_of_a_responses_answer(
        JsonView::Null,
        members,
        empty,
        inner,
        empty,
        part,
        JsonView::Null,
    );
    assert(with_content(inner, empty.push(part)) == item);
    assert(Seq::<char>::empty() + text =~= text);
}

/// The body of an answer: as it came where the protocols agree; else what it says in the client's
/// protocol, as JSON. What is no JSON cannot be converted.
pub proof fn bodies_are_converted(body: Seq<u8>, context: Option<ToolContextView>)
    ensures
        responses::client_body(body, ConversionMode::Direct, context) == Ok::<Seq<u8>, Seq<char>>(
            body,
        ),
        match json::parsed(body) {
            Ok(answer) => {
                &&& responses::client_body(body, ConversionMode::ChatToResponses, context) == Ok::<
                    Seq<u8>,
                    Seq<char>,
                >(encode_utf8(json::json_text(responses::chat_answer(answer))))
                &&& responses::client_body(body, ConversionMode::ResponsesToChat, context) == Ok::<
                    Seq<u8>,
                    Seq<char>,
                >(encode_utf8(json::json_text(responses::responses_answer(answer, context))))
            },
            Err(message) => {
                &&& responses::client_body(body, ConversionMode::ChatToResponses, context) == Err::<
                    Seq<u8>,
                    Seq<char>,
                >("invalid Responses response JSON: "@ + message)
                &&& responses::client_body(body, ConversionMode::ResponsesToChat, context) == Err::<
                    Seq<u8>,
                    Seq<char>,
                >("invalid Chat Completions response JSON: "@ + message)
            },
        },
{
}

} // verus!
