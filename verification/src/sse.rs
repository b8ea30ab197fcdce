//! Streamed answers: server-sent events are cut out of what arrives, and each is passed on,
//! converted or dropped.

use vstd::prelude::*;
use vstd::utf8::*;

use crate::config::ConversionMode;
use crate::json;
use crate::json::{integer, json_to_string, parse_json_text, Json, JsonMap, JsonView};
use crate::requests::BridgeContext;
use crate::responses;
use crate::text;
use crate::text::{chars_of, concat2, crlf_to_lf, same, strip_prefix};

verus! {

/// What taking an event off a buffer gives, and what it leaves: an event ends at a blank line.
pub open spec fn popped(buffer: Seq<char>) -> (Option<Seq<char>>, Seq<char>) {
    let at = text::blank_line(buffer, 0);
    if at < buffer.len() {
        (Some(text::trim_view(buffer.take((at + 2) as int))), buffer.skip((at + 2) as int))
    } else {
        (None, buffer)
    }
}

/// Takes the first event off the buffer.
pub fn pop_sse_event(buffer: &mut String) -> (event: Option<String>)
    ensures
        (text::opt_string_view(event), final(buffer)@) == popped(old(buffer)@),
{
    let chars = chars_of(buffer.as_str());
    let ghost s = buffer@;
    let mut i: usize = 0;
    while i < chars.len() && chars.len() - i > 1
        invariant
            s == buffer@,
            s == old(buffer)@,
            chars@ == s,
            i <= chars@.len(),
            text::blank_line(s, 0) == text::blank_line(s, i as nat),
        decreases chars@.len() - i,
    {
        if chars[i] == '\n' && chars[i + 1] == '\n' {
            let event = buffer.as_str().substring_char(0, i + 2).trim().to_string();
            let rest = buffer.as_str().substring_char(i + 2, chars.len()).to_string();
            assert(s.subrange(0, i + 2) =~= s.take(i + 2));
            assert(s.subrange(i + 2, s.len() as int) =~= s.skip(i + 2));
            *buffer = rest;
            return Some(event);
        }
        i = i + 1;
    }
    None
}

/// What a line says: the data behind `data:`, or nothing.
pub open spec fn line_data(line: Seq<char>) -> Seq<Seq<char>> {
    let trimmed = text::trim_end_view(line);
    if text::has_prefix(trimmed, "data:"@) {
        seq![text::trim_start_view(trimmed.skip("data:"@.len() as int))]
    } else {
        Seq::empty()
    }
}

/// The data of the lines of an event, from `i` on.
pub open spec fn data_lines(event: Seq<char>, i: nat) -> Seq<Seq<char>>
    decreases event.len() + 1 - i,
{
    if i >= event.len() {
        Seq::empty()
    } else {
        let end = text::line_end(event, i);
        proof {
            text::line_end_bound(event, i);
        }
        line_data(event.subrange(i as int, end as int)) + data_lines(event, end + 1)
    }
}

/// Lines, with a line feed between each two.
pub open spec fn joined(lines: Seq<Seq<char>>) -> Seq<char>
    decreases lines.len(),
{
    if lines.len() == 0 {
        Seq::empty()
    } else if lines.len() == 1 {
        lines[0]
    } else {
        joined(lines.drop_last()) + "\n"@ + lines.last()
    }
}

/// The data of an event: that of its lines, where any has data.
pub open spec fn payload(event: Seq<char>) -> Option<Seq<char>> {
    let lines = data_lines(event, 0);
    if lines.len() == 0 {
        None
    } else {
        Some(joined(lines))
    }
}

/// The data of an event.
pub fn sse_data_payload(event: &str) -> (data: Option<String>)
    ensures
        text::opt_string_view(data) == payload(event@),
{
    let chars = chars_of(event);
    let ghost s = event@;
    let mut data: Option<String> = None;
    let ghost mut lines: Seq<Seq<char>> = Seq::empty();
    let mut start: usize = 0;
    assert(lines + data_lines(s, 0) =~= data_lines(s, 0));
    while start < chars.len()
        invariant
            chars@ == s,
            s == event@,
            start <= chars@.len(),
            lines + data_lines(s, start as nat) == data_lines(s, 0),
            text::opt_string_view(data) == if lines.len() == 0 {
                None
            } else {
                Some(joined(lines))
            },
        decreases chars@.len() - start,
    {
        let mut end: usize = start;
        while end < chars.len() && chars[end] != '\n'
            invariant
                chars@ == s,
                start <= end <= chars@.len(),
                text::line_end(s, start as nat) == text::line_end(s, end as nat),
            decreases chars@.len() - end,
        {
            end = end + 1;
        }
        let line = event.substring_char(start, end).trim_end();
        let ghost found = line_data(s.subrange(start as int, end as int));
        let ghost rest = data_lines(s, (end + 1) as nat);
        assert((lines + found) + rest =~= lines + (found + rest));
        if let Some(piece) = strip_prefix(line, "data:") {
            let piece = piece.trim_start();
            assert(found =~= seq![piece@]);
            let ghost before = lines;
            proof {
                lines = lines.push(piece@);
                assert(lines =~= before + found);
                assert(lines.drop_last() =~= before);
            }
            data = match data {
                Some(so_far) => Some(concat2(concat2(so_far.as_str(), "\n").as_str(), piece)),
                None => Some(piece.to_string()),
            };
        } else {
            assert(lines + found =~= lines);
        }
        if end < chars.len() {
            start = end + 1;
        } else {
            assert(rest =~= Seq::empty());
            assert(data_lines(s, end as nat) =~= Seq::empty());
            start = end;
        }
    }
    assert(data_lines(s, start as nat) =~= Seq::empty());
    assert(lines + Seq::<Seq<char>>::empty() =~= lines);
    data
}

/// An event for the client.
pub ghost enum ClientEvent {
    /// One with a name and JSON data.
    Named { name: Seq<char>, data: JsonView },
    /// One with JSON data and no name.
    Unnamed { data: JsonView },
    /// The mark that closes a Chat Completions answer.
    Done,
}

/// The text of an event.
pub open spec fn event_text(event: ClientEvent) -> Seq<char> {
    match event {
        ClientEvent::Named { name, data } => "event: "@ + name + "\ndata: "@ + json::json_text(data)
            + "\n\n"@,
        ClientEvent::Unnamed { data } => "data: "@ + json::json_text(data) + "\n\n"@,
        ClientEvent::Done => "data: [DONE]\n\n"@,
    }
}

/// The texts of events, one behind the other.
pub open spec fn rendered(events: Seq<ClientEvent>) -> Seq<char>
    decreases events.len(),
{
    if events.len() == 0 {
        Seq::empty()
    } else {
        rendered(events.drop_last()) + event_text(events.last())
    }
}

/// The output for events: their texts, where there are any.
pub open spec fn output(events: Seq<ClientEvent>) -> Option<Seq<char>> {
    if events.len() == 0 {
        None
    } else {
        Some(rendered(events))
    }
}

/// What is told to the client: the output for events, and whether the end of the answer has been
/// told after them.
pub open spec fn told(events: (Seq<ClientEvent>, bool)) -> (Option<Seq<char>>, bool) {
    (output(events.0), events.1)
}

/// An event whose text has been written: its JSON data stands in one line, and its name is one that
/// the gateway gives.
pub open spec fn is_written(event: ClientEvent) -> bool {
    match event {
        ClientEvent::Named { name, data } => {
            &&& name == "response.completed"@ || name == "response.output_text.delta"@ || name
                == "response.function_call_arguments.delta"@
            &&& json::is_compact(data, json::json_text(data))
        },
        ClientEvent::Unnamed { data } => data is Object && json::is_compact(
            data,
            json::json_text(data),
        ),
        ClientEvent::Done => true,
    }
}

/// Events whose texts have been written.
pub open spec fn are_written(events: Seq<ClientEvent>) -> bool {
    forall|i: int| 0 <= i < events.len() ==> #[trigger] is_written(events[i])
}

/// A text holds an event that begins with a line. An event ends at a blank line.
pub open spec fn holds_event(text: Seq<char>, line: Seq<char>) -> bool
    decreases text.len(),
{
    let at = text::blank_line(text, 0);
    if at < text.len() {
        proof {
            text::blank_line_bound(text, 0);
        }
        text::has_prefix(text.take((at + 2) as int), line) || holds_event(
            text.skip((at + 2) as int),
            line,
        )
    } else {
        false
    }
}

/// An output holds an event that begins with a line.
pub open spec fn output_holds(output: Option<Seq<char>>, line: Seq<char>) -> bool {
    match output {
        Some(text) => holds_event(text, line),
        None => false,
    }
}

/// The first line of the event that ends a Responses answer.
pub open spec fn completed_line() -> Seq<char> {
    "event: "@ + "response.completed"@ + "\n"@
}

/// The line of the mark that closes a Chat Completions answer.
pub open spec fn done_line() -> Seq<char> {
    "data: [DONE]\n"@
}

/// The text of one event.
proof fn rendered_one(event: ClientEvent)
    ensures
        rendered(seq![event]) == event_text(event),
{
    reveal_with_fuel(rendered, 2);
    assert(seq![event].drop_last() =~= Seq::empty());
    assert(rendered(seq![event]) =~= event_text(event));
}

/// The texts of two lists of events stand one behind the other.
proof fn rendered_concat(first: Seq<ClientEvent>, second: Seq<ClientEvent>)
    ensures
        rendered(first + second) == rendered(first) + rendered(second),
    decreases second.len(),
{
    let both = first + second;
    if second.len() == 0 {
        assert(both =~= first);
        assert(rendered(first) + Seq::<char>::empty() =~= rendered(first));
    } else {
        assert(both.drop_last() =~= first + second.drop_last());
        rendered_concat(first, second.drop_last());
        assert((rendered(first) + rendered(second.drop_last())) + event_text(second.last())
            =~= rendered(first) + (rendered(second.drop_last()) + event_text(second.last())));
    }
}

/// Events have text.
proof fn rendered_has_text(events: Seq<ClientEvent>)
    requires
        events.len() > 0,
    ensures
        rendered(events).len() > 0,
{
    reveal_strlit("event: ");
    reveal_strlit("data: ");
    reveal_strlit("data: [DONE]\n\n");
    assert("event: "@.len() == 7 && "data: "@.len() == 6);
    assert("data: [DONE]\n\n"@.len() == 14);
}

/// A named event with JSON data.
pub fn sse_event(name: &str, data: Json) -> (event: String)
    ensures
        event@ == event_text(ClientEvent::Named { name: name@, data: data@ }),
        json::is_compact(data@, json::json_text(data@)),
{
    let mut event = concat2("event: ", name);
    event.append("\ndata: ");
    event.append(value_text(&data).as_str());
    event.append("\n\n");
    event
}

/// The JSON text of a value.
fn value_text(value: &Json) -> (text: String)
    ensures
        text@ == json::json_text(value@),
        json::is_compact(value@, text@),
{
    match json_to_string(value) {
        Ok(text) => text,
        Err(_) => String::new(),
    }
}

/// A piece of a streamed Chat Completions answer.
pub open spec fn chunk_event(
    id: Seq<char>,
    model: Seq<char>,
    delta: JsonView,
    finish_reason: JsonView,
    created: i64,
) -> ClientEvent {
    ClientEvent::Unnamed {
        data: JsonView::Object(
            map![
                "id"@ => JsonView::String(id),
                "object"@ => JsonView::String("chat.completion.chunk"@),
                "created"@ => JsonView::Number(json::integer_number(created)),
                "model"@ => JsonView::String(model),
                "choices"@ => JsonView::Array(
                    seq![
                        JsonView::Object(
                            map![
                                "index"@ => responses::zero_view(),
                                "delta"@ => delta,
                                "finish_reason"@ => finish_reason,
                            ],
                        ),
                    ],
                ),
            ],
        ),
    }
}

/// A piece of a streamed Chat Completions answer, made at the time `created`.
pub fn chat_chunk(id: &str, model: &str, delta: Json, finish_reason: Json, created: i64) -> (event:
    String)
    ensures
        event@ == event_text(chunk_event(id@, model@, delta@, finish_reason@, created)),
        is_written(chunk_event(id@, model@, delta@, finish_reason@, created)),
{
    let choice = Json::Object(
        JsonMap::new().with("index", integer(0)).with("delta", delta).with(
            "finish_reason",
            finish_reason,
        ),
    );
    let mut choices: Vec<Json> = Vec::new();
    choices.push(choice);
    assert(json::items_view(choices@) =~= seq![choice@]);
    let chunk = Json::Object(
        JsonMap::new().with("id", Json::text(id)).with(
            "object",
            Json::text("chat.completion.chunk"),
        ).with("created", integer(created)).with("model", Json::text(model)).with(
            "choices",
            Json::Array(choices),
        ),
    );
    let mut event = concat2("data: ", value_text(&chunk).as_str());
    event.append("\n\n");
    event
}

/// A billing summary is not passed on.
pub open spec fn is_billing_summary(value: JsonView) -> bool {
    value.get_str("object"@) == Some("billing.summary"@)
}

fn is_billing_value(value: &Json) -> (ignored: bool)
    ensures
        ignored == is_billing_summary(value@),
{
    match value {
        Json::Object(members) => match members.get_str("object") {
            Some(object) => same(object, "billing.summary"),
            None => false,
        },
        _ => false,
    }
}

/// Data that is not passed on.
pub open spec fn is_ignored(data: Seq<char>) -> bool {
    match json::parsed(encode_utf8(data)) {
        Ok(value) => is_billing_summary(value),
        Err(_) => false,
    }
}

/// Whether an event with this data is not passed on.
pub fn is_ignored_sse_payload(data: &str) -> (ignored: bool)
    ensures
        ignored == is_ignored(data@),
{
    match parse_json_text(data) {
        Some(value) => is_billing_value(&value),
        None => false,
    }
}

/// The event of a completed Responses answer.
pub open spec fn completed_event(response: Map<Seq<char>, JsonView>) -> ClientEvent {
    ClientEvent::Named {
        name: "response.completed"@,
        data: JsonView::Object(
            map![
                "type"@ => JsonView::String("response.completed"@),
                "response"@ => JsonView::Object(response),
            ],
        ),
    }
}

fn build_completed_event(response: JsonMap) -> (event: String)
    ensures
        event@ == event_text(completed_event(response@)),
        is_written(completed_event(response@)),
{
    sse_event(
        "response.completed",
        Json::Object(
            JsonMap::new().with("type", Json::text("response.completed")).with(
                "response",
                Json::Object(response),
            ),
        ),
    )
}

/// The members of a completed answer of that id.
pub open spec fn completed_response(id: JsonView) -> Map<Seq<char>, JsonView> {
    map![
        "id"@ => id,
        "object"@ => JsonView::String("response"@),
        "status"@ => JsonView::String("completed"@),
    ]
}

fn build_completed_response(id: Json) -> (response: JsonMap)
    ensures
        response@ == completed_response(id@),
{
    JsonMap::new().with("id", id).with("object", Json::text("response")).with(
        "status",
        Json::text("completed"),
    )
}

/// The events for the text of a delta: one where there is any.
pub open spec fn text_delta_events(delta: JsonView) -> Seq<ClientEvent> {
    match delta.get_str("content"@) {
        Some(content) => if content.len() > 0 {
            seq![
                ClientEvent::Named {
                    name: "response.output_text.delta"@,
                    data: JsonView::Object(
                        map![
                            "type"@ => JsonView::String("response.output_text.delta"@),
                            "item_id"@ => JsonView::String("msg_0"@),
                            "output_index"@ => responses::zero_view(),
                            "content_index"@ => responses::zero_view(),
                            "delta"@ => JsonView::String(content),
                        ],
                    ),
                },
            ]
        } else {
            Seq::empty()
        },
        None => Seq::empty(),
    }
}

/// The events for a call in a delta: one where it has arguments.
pub open spec fn call_delta_events(tool_call: JsonView) -> Seq<ClientEvent> {
    match responses::function_member(tool_call, "arguments"@) {
        Some(JsonView::String(arguments)) => seq![
            ClientEvent::Named {
                name: "response.function_call_arguments.delta"@,
                data: JsonView::Object(
                    map![
                        "type"@ => JsonView::String("response.function_call_arguments.delta"@),
                        "item_id"@ => responses::get_or(
                            tool_call,
                            "id"@,
                            JsonView::String("call_0"@),
                        ),
                        "output_index"@ => responses::get_or(
                            tool_call,
                            "index"@,
                            responses::zero_view(),
                        ),
                        "delta"@ => JsonView::String(arguments),
                    ],
                ),
            },
        ],
        _ => Seq::empty(),
    }
}

/// The events for the first `n` calls of a delta.
pub open spec fn calls_delta_events(calls: Seq<JsonView>, n: nat) -> Seq<ClientEvent>
    decreases n,
{
    if n == 0 {
        Seq::empty()
    } else {
        calls_delta_events(calls, (n - 1) as nat) + call_delta_events(calls[n - 1])
    }
}

/// The events for the pieces of a delta.
pub open spec fn delta_events(delta: JsonView) -> Seq<ClientEvent> {
    match delta.get("tool_calls"@) {
        Some(JsonView::Array(calls)) => text_delta_events(delta) + calls_delta_events(
            calls,
            calls.len(),
        ),
        _ => text_delta_events(delta),
    }
}

/// A choice is finished where it gives a reason.
pub open spec fn is_finished(choice: JsonView) -> bool {
    match choice.get("finish_reason"@) {
        Some(JsonView::Null) => false,
        Some(_) => true,
        None => false,
    }
}

/// The Responses events for a piece of a streamed Chat Completions answer, and whether the end of
/// the answer has been told after it.
pub open spec fn responses_events(value: JsonView, completed: bool) -> (Seq<ClientEvent>, bool) {
    match value.get("choices"@) {
        Some(JsonView::Array(choices)) => if choices.len() > 0 {
            let delta = responses::get_or(choices[0], "delta"@, JsonView::Object(Map::empty()));
            if is_finished(choices[0]) && !completed {
                let id = responses::get_or(value, "id"@, JsonView::String("resp_proxy"@));
                let response = completed_response(id).insert(
                    "model"@,
                    responses::get_or(value, "model"@, JsonView::Null),
                );
                (delta_events(delta).push(completed_event(response)), true)
            } else {
                (delta_events(delta), completed)
            }
        } else {
            (Seq::empty(), completed)
        },
        _ => (Seq::empty(), completed),
    }
}

fn append_text_delta(delta: &Json, out: &mut String)
    ensures
        final(out)@ == old(out)@ + rendered(text_delta_events(delta@)),
        are_written(text_delta_events(delta@)),
{
    let ghost before = out@;
    assert(before + Seq::<char>::empty() =~= before);
    if let Json::Object(members) = delta {
        if let Some(content) = members.get_str("content") {
            if !content.is_empty() {
                let data = Json::Object(
                    JsonMap::new().with("type", Json::text("response.output_text.delta")).with(
                        "item_id",
                        Json::text("msg_0"),
                    ).with("output_index", integer(0)).with("content_index", integer(0)).with(
                        "delta",
                        Json::text(content),
                    ),
                );
                proof {
                    let found = text_delta_events(delta@);
                    rendered_one(found[0]);
                    assert(found =~= seq![found[0]]);
                }
                out.append(sse_event("response.output_text.delta", data).as_str());
            }
        }
    }
}

fn append_call_delta(tool_call: &Json, out: &mut String)
    ensures
        final(out)@ == old(out)@ + rendered(call_delta_events(tool_call@)),
        are_written(call_delta_events(tool_call@)),
{
    let ghost before = out@;
    assert(before + Seq::<char>::empty() =~= before);
    if let Some(function) = tool_call.get("function") {
        if let Some(arguments) = function.get("arguments") {
            if let Json::String(arguments) = arguments {
                let id = match tool_call.get("id") {
                    Some(id) => id.clone(),
                    None => Json::text("call_0"),
                };
                let index = match tool_call.get("index") {
                    Some(index) => index.clone(),
                    None => integer(0),
                };
                let data = Json::Object(
                    JsonMap::new().with(
                        "type",
                        Json::text("response.function_call_arguments.delta"),
                    ).with("item_id", id).with("output_index", index).with(
                        "delta",
                        Json::text(arguments.as_str()),
                    ),
                );
                proof {
                    let found = call_delta_events(tool_call@);
                    rendered_one(found[0]);
                    assert(found =~= seq![found[0]]);
                }
                out.append(sse_event("response.function_call_arguments.delta", data).as_str());
            }
        }
    }
}

fn append_delta(delta: &Json, out: &mut String)
    ensures
        final(out)@ == old(out)@ + rendered(delta_events(delta@)),
        are_written(delta_events(delta@)),
{
    let ghost before = out@;
    append_text_delta(delta, out);
    if let Some(calls) = delta.get("tool_calls") {
        if let Json::Array(calls) = calls {
            let ghost so_far = out@;
            let ghost items = json::items_view(calls@);
            let mut i: usize = 0;
            assert(so_far + Seq::<char>::empty() =~= so_far);
            while i < calls.len()
                invariant
                    i <= calls@.len(),
                    items == json::items_view(calls@),
                    out@ == so_far + rendered(calls_delta_events(items, i as nat)),
                    are_written(calls_delta_events(items, i as nat)),
                decreases calls@.len() - i,
            {
                let ghost done = calls_delta_events(items, i as nat);
                let ghost found = call_delta_events(calls@[i as int]@);
                append_call_delta(&calls[i], out);
                proof {
                    rendered_concat(done, found);
                    assert((so_far + rendered(done)) + rendered(found) =~= so_far + (rendered(done)
                        + rendered(found)));
                }
                i = i + 1;
            }
            proof {
                let text = text_delta_events(delta@);
                let all = calls_delta_events(items, items.len());
                rendered_concat(text, all);
                assert((before + rendered(text)) + rendered(all) =~= before + (rendered(text)
                    + rendered(all)));
            }
        }
    }
}

/// The Responses events for a piece of a streamed Chat Completions answer.
pub fn chat_piece_to_responses_events(value: &Json, completed_sent: &mut bool) -> (events: Option<
    String,
>)
    ensures
        (text::opt_string_view(events), *final(completed_sent)) == told(
            responses_events(value@, *old(completed_sent)),
        ),
        are_written(responses_events(value@, *old(completed_sent)).0),
{
    let choices = match value.get("choices") {
        Some(choices) => match choices {
            Json::Array(choices) => choices,
            _ => {
                return None;
            },
        },
        None => {
            return None;
        },
    };
    if choices.len() == 0 {
        return None;
    }
    let choice = &choices[0];
    let mut out = String::new();
    let empty = Json::Object(JsonMap::new());
    let delta = match choice.get("delta") {
        Some(delta) => delta,
        None => &empty,
    };
    append_delta(delta, &mut out);
    let ghost pieces = delta_events(delta@);
    assert(out@ =~= rendered(pieces));
    proof {
        if pieces.len() > 0 {
            rendered_has_text(pieces);
        }
    }
    let finished = match choice.get("finish_reason") {
        Some(reason) => match reason {
            Json::Null => false,
            _ => true,
        },
        None => false,
    };
    if finished && !*completed_sent {
        *completed_sent = true;
        let id = match value.get("id") {
            Some(id) => id.clone(),
            None => Json::text("resp_proxy"),
        };
        let model = match value.get("model") {
            Some(model) => model.clone(),
            None => Json::Null,
        };
        let response = build_completed_response(id).with("model", model);
        proof {
            let all = pieces.push(completed_event(response@));
            assert(all.drop_last() =~= pieces);
            rendered_has_text(all);
        }
        out.append(build_completed_event(response).as_str());
    }
    if out.as_str().is_empty() {
        None
    } else {
        Some(out)
    }
}

/// The Responses events for the data of a Chat Completions event, and whether the end of the
/// answer has been told after it. The end is told once.
pub open spec fn chat_data_events(data: Seq<char>, completed: bool) -> (Seq<ClientEvent>, bool) {
    if data == "[DONE]"@ {
        if completed {
            (Seq::empty(), true)
        } else {
            (seq![completed_event(completed_response(JsonView::String("resp_proxy"@)))], true)
        }
    } else {
        match json::parsed(encode_utf8(data)) {
            Ok(value) => responses_events(value, completed),
            Err(_) => (Seq::empty(), completed),
        }
    }
}

/// The Responses events for the data of a Chat Completions event.
pub fn chat_sse_to_responses_event(data: &str, completed_sent: &mut bool) -> (events: Option<
    String,
>)
    ensures
        (text::opt_string_view(events), *final(completed_sent)) == told(
            chat_data_events(data@, *old(completed_sent)),
        ),
        output_holds(text::opt_string_view(events), completed_line()) <==> !*old(completed_sent)
            && *final(completed_sent),
{
    if same(data, "[DONE]") {
        if *completed_sent {
            return None;
        }
        *completed_sent = true;
        let event = build_completed_event(build_completed_response(Json::text("resp_proxy")));
        proof {
            rendered_one(completed_event(completed_response(JsonView::String("resp_proxy"@))));
            completed_is_told_in_text(data@, false);
        }
        return Some(event);
    }
    let events = match parse_json_text(data) {
        Some(value) => chat_piece_to_responses_events(&value, completed_sent),
        None => None,
    };
    proof {
        completed_is_told_in_text(data@, *old(completed_sent));
    }
    events
}

/// The string in a member, or an empty one.
pub open spec fn str_or_empty(value: JsonView, name: Seq<char>) -> Seq<char> {
    match value.get_str(name) {
        Some(text) => text,
        None => Seq::empty(),
    }
}

fn text_or_empty<'a>(value: &'a Json, name: &str) -> (text: &'a str)
    ensures
        text@ == str_or_empty(value@, name@),
{
    proof {
        text::empty_literal();
    }
    match value {
        Json::Object(members) => match members.get_str(name) {
            Some(text) => text,
            None => "",
        },
        _ => "",
    }
}

/// The delta of a call.
pub open spec fn call_delta(value: JsonView) -> JsonView {
    JsonView::Object(
        map![
            "tool_calls"@ => JsonView::Array(
                seq![
                    JsonView::Object(
                        map![
                            "index"@ => responses::get_or(
                                value,
                                "output_index"@,
                                responses::zero_view(),
                            ),
                            "id"@ => responses::get_or(
                                value,
                                "item_id"@,
                                JsonView::String("call_0"@),
                            ),
                            "type"@ => JsonView::String("function"@),
                            "function"@ => JsonView::Object(
                                map![
                                    "arguments"@ => JsonView::String(
                                        str_or_empty(value, "delta"@),
                                    ),
                                ],
                            ),
                        ],
                    ),
                ],
            ),
        ],
    )
}

fn build_call_delta(value: &Json) -> (delta: Json)
    ensures
        delta@ == call_delta(value@),
{
    let index = match value.get("output_index") {
        Some(index) => index.clone(),
        None => integer(0),
    };
    let id = match value.get("item_id") {
        Some(id) => id.clone(),
        None => Json::text("call_0"),
    };
    let function = JsonMap::new().with("arguments", Json::text(text_or_empty(value, "delta")));
    let call = Json::Object(
        JsonMap::new().with("index", index).with("id", id).with(
            "type",
            Json::text("function"),
        ).with("function", Json::Object(function)),
    );
    let mut calls: Vec<Json> = Vec::new();
    calls.push(call);
    assert(json::items_view(calls@) =~= seq![call@]);
    Json::Object(JsonMap::new().with("tool_calls", Json::Array(calls)))
}

/// A piece of a streamed Chat Completions answer as the gateway makes it.
pub open spec fn proxy_chunk(
    delta: JsonView,
    finish_reason: JsonView,
    created: i64,
) -> ClientEvent {
    chunk_event("chatcmpl_proxy"@, Seq::empty(), delta, finish_reason, created)
}

/// The types of event that end a Responses answer.
pub open spec fn is_end(kind: Seq<char>) -> bool {
    kind == "response.completed"@ || kind == "response.failed"@ || kind == "response.cancelled"@
        || kind == "response.incomplete"@
}

/// The Chat Completions events for an event of a streamed Responses answer, and whether the end of
/// the answer has been told after it.
pub open spec fn chat_events(value: JsonView, created: i64, completed: bool) -> (
    Seq<ClientEvent>,
    bool,
) {
    let kind = str_or_empty(value, "type"@);
    if kind == "response.output_text.delta"@ {
        let delta = JsonView::Object(
            map!["content"@ => JsonView::String(str_or_empty(value, "delta"@))],
        );
        (seq![proxy_chunk(delta, JsonView::Null, created)], completed)
    } else if kind == "response.function_call_arguments.delta"@ {
        (seq![proxy_chunk(call_delta(value), JsonView::Null, created)], completed)
    } else if is_end(kind) && !completed {
        let end = proxy_chunk(
            JsonView::Object(Map::empty()),
            JsonView::String("stop"@),
            created,
        );
        (seq![end, ClientEvent::Done], true)
    } else {
        (Seq::empty(), completed)
    }
}

/// The Chat Completions events for an event of a streamed Responses answer, at the time `created`.
pub fn responses_piece_to_chat_events(
    value: &Json,
    created: i64,
    completed_sent: &mut bool,
) -> (events: Option<String>)
    ensures
        (text::opt_string_view(events), *final(completed_sent)) == told(
            chat_events(value@, created, *old(completed_sent)),
        ),
        are_written(chat_events(value@, created, *old(completed_sent)).0),
{
    proof {
        text::empty_literal();
    }
    let kind = text_or_empty(value, "type");
    if same(kind, "response.output_text.delta") {
        let delta = Json::Object(
            JsonMap::new().with("content", Json::text(text_or_empty(value, "delta"))),
        );
        proof {
            rendered_one(proxy_chunk(delta@, JsonView::Null, created));
        }
        Some(chat_chunk("chatcmpl_proxy", "", delta, Json::Null, created))
    } else if same(kind, "response.function_call_arguments.delta") {
        proof {
            rendered_one(proxy_chunk(call_delta(value@), JsonView::Null, created));
        }
        Some(chat_chunk("chatcmpl_proxy", "", build_call_delta(value), Json::Null, created))
    } else if same(kind, "response.completed") || same(kind, "response.failed") || same(
        kind,
        "response.cancelled",
    ) || same(kind, "response.incomplete") {
        if *completed_sent {
            None
        } else {
            *completed_sent = true;
            let mut events = chat_chunk(
                "chatcmpl_proxy",
                "",
                Json::Object(JsonMap::new()),
                Json::text("stop"),
                created,
            );
            events.append("data: [DONE]\n\n");
            proof {
                let end = proxy_chunk(
                    JsonView::Object(Map::empty()),
                    JsonView::String("stop"@),
                    created,
                );
                rendered_one(end);
                assert(seq![end, ClientEvent::Done].drop_last() =~= seq![end]);
            }
            Some(events)
        }
    } else {
        None
    }
}

/// The Chat Completions events for the data of a Responses event, and whether the end of the
/// answer has been told after it. The end is told once.
pub open spec fn responses_data_events(data: Seq<char>, created: i64, completed: bool) -> (
    Seq<ClientEvent>,
    bool,
) {
    if data == "[DONE]"@ {
        if completed {
            (Seq::empty(), true)
        } else {
            (seq![ClientEvent::Done], true)
        }
    } else {
        match json::parsed(encode_utf8(data)) {
            Ok(value) => chat_events(value, created, completed),
            Err(_) => (Seq::empty(), completed),
        }
    }
}

/// The Chat Completions events for the data of a Responses event, at the time `created`.
pub fn responses_sse_to_chat_event(data: &str, created: i64, completed_sent: &mut bool) -> (events:
    Option<String>)
    ensures
        (text::opt_string_view(events), *final(completed_sent)) == told(
            responses_data_events(data@, created, *old(completed_sent)),
        ),
        output_holds(text::opt_string_view(events), done_line()) <==> !*old(completed_sent)
            && *final(completed_sent),
{
    if same(data, "[DONE]") {
        if *completed_sent {
            return None;
        }
        *completed_sent = true;
        proof {
            rendered_one(ClientEvent::Done);
            done_is_told_in_text(data@, created, false);
        }
        return Some("data: [DONE]\n\n".to_string());
    }
    let events = match parse_json_text(data) {
        Some(value) => responses_piece_to_chat_events(&value, created, completed_sent),
        None => None,
    };
    proof {
        done_is_told_in_text(data@, created, *old(completed_sent));
    }
    events
}

/// What an event of the supplier becomes for the client, and whether the end of the answer has
/// been told after it.
pub open spec fn client_events(
    event: Seq<char>,
    conversion: ConversionMode,
    created: i64,
    completed: bool,
) -> (Option<Seq<char>>, bool) {
    match payload(event) {
        Some(data) => if is_ignored(data) {
            (None, completed)
        } else {
            match conversion {
                ConversionMode::Direct => (Some(event + "\n\n"@), completed),
                ConversionMode::ChatToResponses => told(
                    responses_data_events(data, created, completed),
                ),
                ConversionMode::ResponsesToChat => told(chat_data_events(data, completed)),
            }
        },
        None => (None, completed),
    }
}

/// What an event of the supplier becomes for the client, at the time `created`.
pub fn transform_sse_event_at(
    event: &str,
    conversion: ConversionMode,
    created: i64,
    completed_sent: &mut bool,
) -> (events: Option<String>)
    ensures
        (text::opt_string_view(events), *final(completed_sent)) == client_events(
            event@,
            conversion,
            created,
            *old(completed_sent),
        ),
{
    let data = match sse_data_payload(event) {
        Some(data) => data,
        None => {
            return None;
        },
    };
    if is_ignored_sse_payload(data.as_str()) {
        return None;
    }
    match conversion {
        ConversionMode::Direct => Some(concat2(event, "\n\n")),
        ConversionMode::ChatToResponses => responses_sse_to_chat_event(
            data.as_str(),
            created,
            completed_sent,
        ),
        ConversionMode::ResponsesToChat => chat_sse_to_responses_event(
            data.as_str(),
            completed_sent,
        ),
    }
}

/// `chrono::Utc::now().timestamp()`: the time by the machine's clock, in seconds. Nothing is said
/// of the result.
#[verifier::external_body]
fn utc_timestamp() -> i64 {
    chrono::Utc::now().timestamp()
}

/// What an event of the supplier becomes for the client, at the present time. The context of the
/// request has no part in it.
pub fn transform_sse_event(
    event: &str,
    conversion: ConversionMode,
    _bridge_context: &BridgeContext,
    completed_sent: &mut bool,
) -> (events: Option<String>)
    ensures
        exists|created: i64|
            (text::opt_string_view(events), *final(completed_sent)) == #[trigger] client_events(
                event@,
                conversion,
                created,
                *old(completed_sent),
            ),
{
    let created: i64 = utc_timestamp();
    transform_sse_event_at(event, conversion, created, completed_sent)
}

/// A streamed answer on its way to the client.
pub struct SseTransform {
    /// What has arrived and is not yet an event.
    pub buffer: String,
    pub conversion: ConversionMode,
    pub bridge_context: BridgeContext,
    /// The end of the answer has been told.
    pub completed_sent: bool,
}

pub ghost struct SseView {
    pub buffer: Seq<char>,
    pub conversion: ConversionMode,
    pub completed: bool,
}

impl View for SseTransform {
    type V = SseView;

    open spec fn view(&self) -> SseView {
        SseView {
            buffer: self.buffer@,
            conversion: self.conversion,
            completed: self.completed_sent,
        }
    }
}

/// The first output for the events in the buffer, and what is left after it. Events without output
/// are dropped.
pub open spec fn next_output_view(state: SseView, created: i64) -> (Option<Seq<char>>, SseView)
    decreases state.buffer.len(),
{
    let (event, rest) = popped(state.buffer);
    match event {
        Some(event) => {
            let (output, completed) = client_events(
                event,
                state.conversion,
                created,
                state.completed,
            );
            let after = SseView { buffer: rest, conversion: state.conversion, completed };
            proof {
                text::blank_line_bound(state.buffer, 0);
            }
            if output is Some {
                (output, after)
            } else {
                next_output_view(after, created)
            }
        },
        None => (None, state),
    }
}

/// The last output, for what is in the buffer when the supplier has nothing more.
pub open spec fn last_output_view(state: SseView, created: i64) -> (Option<Seq<char>>, SseView) {
    if text::trim_view(state.buffer).len() == 0 {
        (None, state)
    } else {
        let (output, completed) = client_events(
            state.buffer,
            state.conversion,
            created,
            state.completed,
        );
        (output, SseView { buffer: Seq::empty(), conversion: state.conversion, completed })
    }
}

/// The text that `String::from_utf8_lossy` reads in bytes.
pub uninterp spec fn lossy_text(bytes: Seq<u8>) -> Seq<char>;

/// `String::from_utf8_lossy`: the text in the bytes, which is what they encode where they are
/// UTF-8. What stands in place of bytes that are not is left unsaid.
#[verifier::external_body]
fn from_utf8_lossy(bytes: &[u8]) -> (text: String)
    ensures
        text@ == lossy_text(bytes@),
        valid_utf8(bytes@) ==> text@ == decode_utf8(bytes@),
{
    String::from_utf8_lossy(bytes).into_owned()
}

impl SseTransform {
    /// An answer of which nothing has arrived.
    pub fn new(conversion: ConversionMode, bridge_context: BridgeContext) -> (state: SseTransform)
        ensures
            state@ == (SseView { buffer: Seq::empty(), conversion, completed: false }),
            state.bridge_context == bridge_context,
    {
        SseTransform { buffer: String::new(), conversion, bridge_context, completed_sent: false }
    }

    /// Takes in bytes of the supplier.
    pub fn feed(&mut self, bytes: &[u8])
        ensures
            final(self)@ == (SseView {
                buffer: old(self)@.buffer + text::unix_lines(lossy_text(bytes@), 0),
                ..old(self)@
            }),
            valid_utf8(bytes@) ==> final(self)@.buffer == old(self)@.buffer + text::unix_lines(
                decode_utf8(bytes@),
                0,
            ),
            final(self).bridge_context == old(self).bridge_context,
    {
        let chunk = crlf_to_lf(from_utf8_lossy(bytes).as_str());
        self.buffer.append(chunk.as_str());
    }

    /// The next output for what has arrived, at the time `created`.
    pub fn next_output_at(&mut self, created: i64) -> (output: Option<String>)
        ensures
            (text::opt_string_view(output), final(self)@) == next_output_view(old(self)@, created),
            final(self).bridge_context == old(self).bridge_context,
    {
        let ghost before = self@;
        loop
            invariant
                before == old(self)@,
                self.bridge_context == old(self).bridge_context,
                next_output_view(before, created) == next_output_view(self@, created),
            decreases self.buffer@.len(),
        {
            proof {
                text::blank_line_bound(self.buffer@, 0);
            }
            let event = match pop_sse_event(&mut self.buffer) {
                Some(event) => event,
                None => {
                    return None;
                },
            };
            let output = transform_sse_event_at(
                event.as_str(),
                self.conversion,
                created,
                &mut self.completed_sent,
            );
            if output.is_some() {
                return output;
            }
        }
    }

    /// The last output, when the supplier has nothing more, at the time `created`.
    pub fn last_output_at(&mut self, created: i64) -> (output: Option<String>)
        ensures
            (text::opt_string_view(output), final(self)@) == last_output_view(old(self)@, created),
            final(self).bridge_context == old(self).bridge_context,
    {
        if self.buffer.as_str().trim().is_empty() {
            return None;
        }
        let mut event = String::new();
        core::mem::swap(&mut event, &mut self.buffer);
        transform_sse_event_at(event.as_str(), self.conversion, created, &mut self.completed_sent)
    }

    /// The next output for what has arrived, at the present time.
    pub fn next_output(&mut self) -> (output: Option<String>)
        ensures
            exists|created: i64|
                (text::opt_string_view(output), final(self)@) == #[trigger] next_output_view(
                    old(self)@,
                    created,
                ),
            final(self).bridge_context == old(self).bridge_context,
    {
        let created: i64 = utc_timestamp();
        self.next_output_at(created)
    }

    /// The last output, when the supplier has nothing more, at the present time.
    pub fn last_output(&mut self) -> (output: Option<String>)
        ensures
            exists|created: i64|
                (text::opt_string_view(output), final(self)@) == #[trigger] last_output_view(
                    old(self)@,
                    created,
                ),
            final(self).bridge_context == old(self).bridge_context,
    {
        let created: i64 = utc_timestamp();
        self.last_output_at(created)
    }
}

/// An event that has arrived whole is the same whatever arrives behind it.
pub proof fn popped_is_final(buffer: Seq<char>, more: Seq<char>)
    requires
        popped(buffer).0 is Some,
    ensures
        popped(buffer + more) == (popped(buffer).0, popped(buffer).1 + more),
{
    let at = text::blank_line(buffer, 0);
    text::blank_line_bound(buffer, 0);
    text::blank_line_extends(buffer, more, 0);
    assert((buffer + more).take((at + 2) as int) =~= buffer.take((at + 2) as int));
    assert((buffer + more).skip((at + 2) as int) =~= buffer.skip((at + 2) as int) + more);
}

/// An answer on its way, of which more has arrived.
pub open spec fn with_more(state: SseView, more: Seq<char>) -> SseView {
    SseView { buffer: state.buffer + more, ..state }
}

/// What arrives later changes no output that there is already, and takes part in the next one as if
/// it had been there from the start.
pub proof fn later_pieces_change_no_output(state: SseView, more: Seq<char>, created: i64)
    ensures
        ({
            let (output, after) = next_output_view(state, created);
            next_output_view(with_more(state, more), created) == if output is Some {
                (output, with_more(after, more))
            } else {
                next_output_view(with_more(after, more), created)
            }
        }),
    decreases state.buffer.len(),
{
    let (event, rest) = popped(state.buffer);
    if let Some(event) = event {
        text::blank_line_bound(state.buffer, 0);
        popped_is_final(state.buffer, more);
        let (output, completed) = client_events(
            event,
            state.conversion,
            created,
            state.completed,
        );
        let after = SseView { buffer: rest, conversion: state.conversion, completed };
        if output is None {
            later_pieces_change_no_output(after, more, created);
        }
    }
}

/// Text that arrives in two pieces is taken in as in one, unless the cut falls between a carriage
/// return and its line feed.
pub proof fn pieces_are_taken_in_as_one(state: SseView, first: Seq<char>, second: Seq<char>)
    requires
        !(first.len() > 0 && second.len() > 0 && first.last() == '\r' && second[0] == '\n'),
    ensures
        with_more(
            with_more(state, text::unix_lines(first, 0)),
            text::unix_lines(second, 0),
        ) == with_more(state, text::unix_lines(first + second, 0)),
{
    text::unix_lines_in_pieces(first, second);
    let lines = text::unix_lines(first, 0);
    let more = text::unix_lines(second, 0);
    assert((state.buffer + lines) + more =~= state.buffer + (lines + more));
}

/// The end of a Responses answer.
pub open spec fn is_completed(event: ClientEvent) -> bool {
    match event {
        ClientEvent::Named { name, .. } => name == "response.completed"@,
        _ => false,
    }
}

/// The end of a Chat Completions answer.
pub open spec fn is_done(event: ClientEvent) -> bool {
    event is Done
}

/// One event is an end, and it is the last; or, where `ends` is not so, none is.
pub open spec fn ends_with_one(
    events: Seq<ClientEvent>,
    end: spec_fn(ClientEvent) -> bool,
    ends: bool,
) -> bool {
    &&& ends ==> events.len() > 0
    &&& forall|i: int|
        0 <= i < events.len() ==> (#[trigger] end(events[i]) <==> ends && i == events.len() - 1)
}

/// The data of a Chat Completions event that ends the answer: the closing mark, or a piece whose
/// choice is finished.
pub open spec fn ends_chat_answer(data: Seq<char>) -> bool {
    data == "[DONE]"@ || match json::parsed(encode_utf8(data)) {
        Ok(value) => match value.get("choices"@) {
            Some(JsonView::Array(choices)) => choices.len() > 0 && is_finished(choices[0]),
            _ => false,
        },
        Err(_) => false,
    }
}

/// The data of a Responses event that ends the answer: the closing mark, or an event of a type that
/// does.
pub open spec fn ends_responses_answer(data: Seq<char>) -> bool {
    data == "[DONE]"@ || match json::parsed(encode_utf8(data)) {
        Ok(value) => is_end(str_or_empty(value, "type"@)),
        Err(_) => false,
    }
}

proof fn kinds_of_event_differ()
    ensures
        "response.completed"@ != "response.output_text.delta"@,
        "response.completed"@ != "response.function_call_arguments.delta"@,
        forall|kind: Seq<char>| #[trigger]
            is_end(kind) ==> kind != "response.output_text.delta"@ && kind
                != "response.function_call_arguments.delta"@,
{
    reveal_strlit("response.completed");
    reveal_strlit("response.failed");
    reveal_strlit("response.cancelled");
    reveal_strlit("response.incomplete");
    reveal_strlit("response.output_text.delta");
    reveal_strlit("response.function_call_arguments.delta");
    assert("response.completed"@.len() == 18 && "response.failed"@.len() == 15);
    assert("response.cancelled"@.len() == 18 && "response.incomplete"@.len() == 19);
    assert("response.output_text.delta"@.len() == 26);
    assert("response.function_call_arguments.delta"@.len() == 38);
}

proof fn calls_end_nothing(calls: Seq<JsonView>, n: nat)
    requires
        n <= calls.len(),
    ensures
        forall|i: int|
            0 <= i < calls_delta_events(calls, n).len() ==> !is_completed(
                #[trigger] calls_delta_events(calls, n)[i],
            ),
    decreases n,
{
    kinds_of_event_differ();
    if n > 0 {
        let done = calls_delta_events(calls, (n - 1) as nat);
        let found = call_delta_events(calls[n - 1]);
        calls_end_nothing(calls, (n - 1) as nat);
        assert forall|i: int| 0 <= i < (done + found).len() implies !is_completed(
            #[trigger] (done + found)[i],
        ) by {
            if i < done.len() {
                assert(!is_completed(done[i]));
            }
        }
    }
}

proof fn delta_ends_nothing(delta: JsonView)
    ensures
        forall|i: int|
            0 <= i < delta_events(delta).len() ==> !is_completed(#[trigger] delta_events(delta)[i]),
{
    kinds_of_event_differ();
    if let Some(JsonView::Array(calls)) = delta.get("tool_calls"@) {
        calls_end_nothing(calls, calls.len());
    }
}

proof fn names_are_one_line()
    ensures
        forall|i: int|
            0 <= i < "response.completed"@.len() ==> "response.completed"@[i] != '\n',
        forall|i: int|
            0 <= i < "response.output_text.delta"@.len() ==> "response.output_text.delta"@[i]
                != '\n',
        forall|i: int|
            0 <= i < "response.function_call_arguments.delta"@.len()
                ==> "response.function_call_arguments.delta"@[i] != '\n',
{
    reveal_strlit("response.completed");
    reveal_strlit("response.output_text.delta");
    reveal_strlit("response.function_call_arguments.delta");
    reveal_with_fuel(text::is_free_of_line_feeds, 39);
    text::free_of_line_feeds("response.completed"@, 18);
    text::free_of_line_feeds("response.output_text.delta"@, 26);
    text::free_of_line_feeds("response.function_call_arguments.delta"@, 38);
}

/// The text of an event that has been written holds one blank line, at its end.
proof fn written_event_ends_at_blank_line(event: ClientEvent, rest: Seq<char>)
    requires
        is_written(event),
    ensures
        event_text(event).len() >= 2,
        text::blank_line(event_text(event) + rest, 0) == event_text(event).len() - 2,
{
    let text = event_text(event);
    let s = text + rest;
    reveal_strlit("event: ");
    reveal_strlit("data: ");
    reveal_strlit("\ndata: ");
    reveal_strlit("\n\n");
    reveal_strlit("data: [DONE]\n\n");
    match event {
        ClientEvent::Named { name, data } => {
            names_are_one_line();
            let json = json::json_text(data);
            let head = 7 + name.len();
            let at = head + 7 + json.len();
            assert(text.len() == at + 2);
            assert forall|k: int| 0 <= k < at implies #[trigger] s[k] != '\n' || s[k + 1]
                != '\n' by {
                if k < 7 {
                    assert(s[k] == "event: "@[k]);
                } else if k < head {
                    assert(s[k] == name[k - 7]);
                } else if k < head + 7 {
                    assert(s[k] == "\ndata: "@[k - head]);
                    if k == head {
                        assert(s[k + 1] == "\ndata: "@[1]);
                    }
                } else {
                    assert(s[k] == json[k - head - 7]);
                }
            }
            assert(s[at as int] == "\n\n"@[0]);
            assert(s[(at + 1) as int] == "\n\n"@[1]);
            text::blank_line_at(s, 0, at);
        },
        ClientEvent::Unnamed { data } => {
            let json = json::json_text(data);
            let at = 6 + json.len();
            assert(text.len() == at + 2);
            assert forall|k: int| 0 <= k < at implies #[trigger] s[k] != '\n' || s[k + 1]
                != '\n' by {
                if k < 6 {
                    assert(s[k] == "data: "@[k]);
                } else {
                    assert(s[k] == json[k - 6]);
                }
            }
            assert(s[at as int] == "\n\n"@[0]);
            assert(s[(at + 1) as int] == "\n\n"@[1]);
            text::blank_line_at(s, 0, at);
        },
        ClientEvent::Done => {
            assert(text.len() == 14);
            assert forall|k: int| 0 <= k < 12 implies #[trigger] s[k] != '\n' || s[k + 1]
                != '\n' by {
                assert(s[k] == text[k]);
            }
            assert(s[12] == text[12] && s[13] == text[13]);
            text::blank_line_at(s, 0, 12);
        },
    }
}

/// A written event begins with the line of a completed answer just where it is that event.
proof fn completed_line_is_told_apart(event: ClientEvent)
    requires
        is_written(event),
    ensures
        text::has_prefix(event_text(event), completed_line()) <==> is_completed(event),
{
    let text = event_text(event);
    let line = completed_line();
    reveal_strlit("event: ");
    reveal_strlit("data: ");
    reveal_strlit("\ndata: ");
    reveal_strlit("\n");
    reveal_strlit("data: [DONE]\n\n");
    reveal_strlit("response.completed");
    reveal_strlit("response.output_text.delta");
    reveal_strlit("response.function_call_arguments.delta");
    kinds_of_event_differ();
    assert(line.len() == 26);
    assert(line[0] == 'e' && line[16] == 'c');
    match event {
        ClientEvent::Named { name, data } => {
            if is_completed(event) {
                assert("\ndata: "@[0] == '\n');
                assert(text.take(26) =~= line);
            } else {
                assert(text[16] == name[9]);
                assert(name[9] != 'c');
                assert(text.take(26)[16] != line[16]);
            }
        },
        _ => {
            assert(text[0] == 'd');
            assert(text.len() >= 26 ==> text.take(26)[0] == 'd');
        },
    }
}

/// A written event begins with the line of the closing mark just where it is the mark.
proof fn done_line_is_told_apart(event: ClientEvent)
    requires
        is_written(event),
    ensures
        text::has_prefix(event_text(event), done_line()) <==> is_done(event),
{
    let text = event_text(event);
    let line = done_line();
    reveal_strlit("event: ");
    reveal_strlit("data: ");
    reveal_strlit("data: [DONE]\n\n");
    reveal_strlit("data: [DONE]\n");
    assert(line.len() == 13);
    assert(line[0] == 'd' && line[6] == '[');
    match event {
        ClientEvent::Named { .. } => {
            assert(text[0] == 'e');
            assert(text.len() >= 13 ==> text.take(13)[0] == 'e');
        },
        ClientEvent::Unnamed { data } => {
            assert(text[6] == json::json_text(data)[0]);
            assert(text.len() >= 13 ==> text.take(13)[6] == '{');
        },
        ClientEvent::Done => {
            assert(text.take(13) =~= line);
        },
    }
}

/// The text of written events holds an event that begins with a line just where one of them does.
proof fn text_holds_what_events_hold(
    events: Seq<ClientEvent>,
    line: Seq<char>,
    end: spec_fn(ClientEvent) -> bool,
)
    requires
        are_written(events),
        forall|i: int|
            0 <= i < events.len() ==> (text::has_prefix(event_text(#[trigger] events[i]), line)
                <==> end(events[i])),
    ensures
        holds_event(rendered(events), line) <==> exists|i: int|
            0 <= i < events.len() && #[trigger] end(events[i]),
    decreases events.len(),
{
    if events.len() > 0 {
        let first = events[0];
        let rest = events.skip(1);
        assert(events =~= seq![first] + rest);
        rendered_one(first);
        rendered_concat(seq![first], rest);
        let text = rendered(events);
        assert(is_written(events[0]));
        written_event_ends_at_blank_line(first, rendered(rest));
        let at = text::blank_line(text, 0);
        assert(text.take((at + 2) as int) =~= event_text(first));
        assert(text.skip((at + 2) as int) =~= rendered(rest));
        assert forall|i: int| 0 <= i < rest.len() implies is_written(#[trigger] rest[i]) && (
        text::has_prefix(event_text(rest[i]), line) <==> end(rest[i])) by {
            assert(rest[i] == events[i + 1]);
            assert(is_written(events[i + 1]));
        }
        text_holds_what_events_hold(rest, line, end);
        if exists|i: int| 0 <= i < rest.len() && #[trigger] end(rest[i]) {
            let i = choose|i: int| 0 <= i < rest.len() && #[trigger] end(rest[i]);
            assert(end(events[i + 1]));
        }
        if exists|i: int| 0 <= i < events.len() && #[trigger] end(events[i]) {
            let i = choose|i: int| 0 <= i < events.len() && #[trigger] end(events[i]);
            if i > 0 {
                assert(end(rest[i - 1]));
            }
        }
    }
}

/// What is told to the client holds the end where its events do.
proof fn output_tells_end(
    events: Seq<ClientEvent>,
    line: Seq<char>,
    end: spec_fn(ClientEvent) -> bool,
    ends: bool,
)
    requires
        are_written(events),
        ends_with_one(events, end, ends),
        forall|i: int|
            0 <= i < events.len() ==> (text::has_prefix(event_text(#[trigger] events[i]), line)
                <==> end(events[i])),
    ensures
        output_holds(output(events), line) <==> ends,
{
    if events.len() > 0 {
        text_holds_what_events_hold(events, line, end);
        if ends {
            assert(end(events[events.len() - 1]));
        }
    }
}

/// Written events for the data of a Chat Completions answer tell the end in their text.
proof fn completed_is_told_in_text(data: Seq<char>, completed: bool)
    requires
        are_written(chat_data_events(data, completed).0),
    ensures
        ({
            let (events, after) = chat_data_events(data, completed);
            output_holds(output(events), completed_line()) <==> !completed && after
        }),
{
    let (events, after) = chat_data_events(data, completed);
    let end = |event| is_completed(event);
    completed_is_told_once(data, completed);
    assert forall|i: int| 0 <= i < events.len() implies (text::has_prefix(
        event_text(#[trigger] events[i]),
        completed_line(),
    ) <==> end(events[i])) by {
        assert(is_written(events[i]));
        completed_line_is_told_apart(events[i]);
    }
    output_tells_end(events, completed_line(), end, !completed && after);
}

/// Written events for the data of a Responses answer tell the end in their text.
proof fn done_is_told_in_text(data: Seq<char>, created: i64, completed: bool)
    requires
        are_written(responses_data_events(data, created, completed).0),
    ensures
        ({
            let (events, after) = responses_data_events(data, created, completed);
            output_holds(output(events), done_line()) <==> !completed && after
        }),
{
    let (events, after) = responses_data_events(data, created, completed);
    let end = |event| is_done(event);
    done_is_told_once(data, created, completed);
    assert forall|i: int| 0 <= i < events.len() implies (text::has_prefix(
        event_text(#[trigger] events[i]),
        done_line(),
    ) <==> end(events[i])) by {
        assert(is_written(events[i]));
        done_line_is_told_apart(events[i]);
    }
    output_tells_end(events, done_line(), end, !completed && after);
}

/// The client of a converted Chat Completions answer is told of the end just when it was not told
/// before and the data ends the answer. Then the last event is the end and no other is; else none
/// is. When the end has been told it stays told.
pub proof fn completed_is_told_once(data: Seq<char>, completed: bool)
    ensures
        ({
            let (events, after) = chat_data_events(data, completed);
            &&& after <==> completed || ends_chat_answer(data)
            &&& ends_with_one(events, |event| is_completed(event), !completed && after)
        }),
{
    match json::parsed(encode_utf8(data)) {
        Ok(value) => match value.get("choices"@) {
            Some(JsonView::Array(choices)) => if choices.len() > 0 {
                delta_ends_nothing(
                    responses::get_or(choices[0], "delta"@, JsonView::Object(Map::empty())),
                );
            },
            _ => {},
        },
        Err(_) => {},
    }
}

/// The client of a converted Responses answer gets the closing mark just when it did not get it
/// before and the data ends the answer. Then the last event is the mark and no other is; else none
/// is. When it has been given it is not given again.
pub proof fn done_is_told_once(data: Seq<char>, created: i64, completed: bool)
    ensures
        ({
            let (events, after) = responses_data_events(data, created, completed);
            &&& after <==> completed || ends_responses_answer(data)
            &&& ends_with_one(events, |event| is_done(event), !completed && after)
        }),
{
    kinds_of_event_differ();
}

/// The events for the data of a Chat Completions answer, one after the other, and whether the end
/// has been told after them.
pub open spec fn chat_answer_events(datas: Seq<Seq<char>>, completed: bool) -> (
    Seq<ClientEvent>,
    bool,
)
    decreases datas.len(),
{
    if datas.len() == 0 {
        (Seq::empty(), completed)
    } else {
        let (events, before) = chat_answer_events(datas.drop_last(), completed);
        let (more, after) = chat_data_events(datas.last(), before);
        (events + more, after)
    }
}

/// The events for the data of a Responses answer, each with the time at which it came, one after
/// the other, and whether the end has been told after them.
pub open spec fn responses_answer_events(datas: Seq<(Seq<char>, i64)>, completed: bool) -> (
    Seq<ClientEvent>,
    bool,
)
    decreases datas.len(),
{
    if datas.len() == 0 {
        (Seq::empty(), completed)
    } else {
        let (events, before) = responses_answer_events(datas.drop_last(), completed);
        let (more, after) = responses_data_events(datas.last().0, datas.last().1, before);
        (events + more, after)
    }
}

/// At most one event is an end, and one is just where `ends` says so.
pub open spec fn holds_one(
    events: Seq<ClientEvent>,
    end: spec_fn(ClientEvent) -> bool,
    ends: bool,
) -> bool {
    &&& (exists|i: int| 0 <= i < events.len() && #[trigger] end(events[i])) <==> ends
    &&& forall|i: int, j: int|
        0 <= i < events.len() && 0 <= j < events.len() && #[trigger] end(events[i])
            && #[trigger] end(events[j]) ==> i == j
}

proof fn one_end_in_all(
    events: Seq<ClientEvent>,
    more: Seq<ClientEvent>,
    end: spec_fn(ClientEvent) -> bool,
    told_before: bool,
    told_now: bool,
)
    requires
        holds_one(events, end, told_before),
        ends_with_one(more, end, told_now),
        !(told_before && told_now),
    ensures
        holds_one(events + more, end, told_before || told_now),
{
    let all = events + more;
    let k = events.len();
    assert(forall|i: int| 0 <= i < k ==> all[i] == events[i]);
    assert(forall|i: int| k <= i < all.len() ==> all[i] == more[i - k]);
    assert forall|i: int| 0 <= i < all.len() && #[trigger] end(all[i]) implies (if i < k {
        told_before
    } else {
        told_now && i == all.len() - 1
    }) by {
        if i >= k {
            assert(end(more[i - k]));
        } else {
            assert(end(events[i]));
        }
    }
    assert forall|i: int, j: int|
        0 <= i < all.len() && 0 <= j < all.len() && #[trigger] end(all[i]) && #[trigger] end(
            all[j],
        ) implies i == j by {
        if i < k && j < k {
            assert(end(events[i]) && end(events[j]));
        }
    }
    if told_before {
        let i = choose|i: int| 0 <= i < events.len() && #[trigger] end(events[i]);
        assert(end(all[i]));
    }
    if told_now {
        assert(end(more[more.len() - 1]));
        assert(end(all[all.len() - 1]));
    }
}

/// A whole Chat Completions answer, in however many events, is ended at most once for the client:
/// one event is the end where some data ends the answer, and none where none does.
pub proof fn chat_answer_ends_once(datas: Seq<Seq<char>>)
    ensures
        ({
            let (events, after) = chat_answer_events(datas, false);
            &&& after <==> exists|i: int|
                0 <= i < datas.len() && #[trigger] ends_chat_answer(datas[i])
            &&& holds_one(events, |event| is_completed(event), after)
        }),
    decreases datas.len(),
{
    if datas.len() > 0 {
        let init = datas.drop_last();
        chat_answer_ends_once(init);
        let (events, before) = chat_answer_events(init, false);
        completed_is_told_once(datas.last(), before);
        let (more, after) = chat_data_events(datas.last(), before);
        one_end_in_all(events, more, |event| is_completed(event), before, !before && after);
        if before {
            let i = choose|i: int| 0 <= i < init.len() && #[trigger] ends_chat_answer(init[i]);
            assert(ends_chat_answer(datas[i]));
        }
        if ends_chat_answer(datas.last()) {
            assert(ends_chat_answer(datas[datas.len() - 1]));
        }
        assert forall|i: int| 0 <= i < datas.len() && #[trigger] ends_chat_answer(
            datas[i],
        ) implies after by {
            if i < init.len() {
                assert(ends_chat_answer(init[i]));
            }
        }
    }
}

/// A whole Responses answer, in however many events, is ended at most once for the client: it gets
/// one closing mark where some data ends the answer, and none where none does.
pub proof fn responses_answer_ends_once(datas: Seq<(Seq<char>, i64)>)
    ensures
        ({
            let (events, after) = responses_answer_events(datas, false);
            &&& after <==> exists|i: int|
                0 <= i < datas.len() && #[trigger] ends_responses_answer(datas[i].0)
            &&& holds_one(events, |event| is_done(event), after)
        }),
    decreases datas.len(),
{
    if datas.len() > 0 {
        let init = datas.drop_last();
        responses_answer_ends_once(init);
        let (events, before) = responses_answer_events(init, false);
        done_is_told_once(datas.last().0, datas.last().1, before);
        let (more, after) = responses_data_events(datas.last().0, datas.last().1, before);
        one_end_in_all(events, more, |event| is_done(event), before, !before && after);
        if before {
            let i = choose|i: int|
                0 <= i < init.len() && #[trigger] ends_responses_answer(init[i].0);
            assert(ends_responses_answer(datas[i].0));
        }
        if ends_responses_answer(datas.last().0) {
            assert(ends_responses_answer(datas[datas.len() - 1].0));
        }
        assert forall|i: int| 0 <= i < datas.len() && #[trigger] ends_responses_answer(
            datas[i].0,
        ) implies after by {
            if i < init.len() {
                assert(ends_responses_answer(init[i].0));
            }
        }
    }
}

/// The client hears of the end when it is told: where an event ends the answer, it gives output.
pub proof fn end_is_heard(event: Seq<char>, conversion: ConversionMode, created: i64)
    requires
        client_events(event, conversion, created, false).1,
    ensures
        client_events(event, conversion, created, false).0 is Some,
{
    if let Some(data) = payload(event) {
        completed_is_told_once(data, false);
        done_is_told_once(data, created, false);
    }
}

/// Without a conversion events go to the client as they came: all of them but those without data
/// and the billing summaries.
pub proof fn direct_events_are_kept(event: Seq<char>, created: i64, completed: bool)
    ensures
        client_events(event, ConversionMode::Direct, created, completed) == (
            match payload(event) {
                Some(data) => if is_ignored(data) {
                    None
                } else {
                    Some(event + "\n\n"@)
                },
                None => None,
            },
            completed,
        ),
{
}

} // verus!
