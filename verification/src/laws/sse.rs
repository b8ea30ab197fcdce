//! What holds of converted streams, read off what the supplier tells and what the client is told.

use vstd::prelude::*;
use vstd::utf8::*;

use crate::json;
use crate::json::JsonView;
use crate::laws::responses::{or_else, says};
use crate::sse;
use crate::sse::ClientEvent;
use crate::text;

verus! {

proof fn stream_names()
    ensures
        text::word_mark("choices"@) == (7nat, 'c', 'i', 's'),
        text::word_mark("delta"@) == (5nat, 'd', 'l', 'a'),
        text::word_mark("content"@) == (7nat, 'c', 't', 't'),
        text::word_mark("type"@) == (4nat, 't', 'p', 'e'),
        text::word_mark("item_id"@) == (7nat, 'i', 'm', 'd'),
        text::word_mark("output_index"@) == (12nat, 'o', '_', 'x'),
        text::word_mark("content_index"@) == (13nat, 'c', 't', 'x'),
        text::word_mark("tool_calls"@) == (10nat, 't', 'c', 's'),
        text::word_mark("function"@) == (8nat, 'f', 't', 'n'),
        text::word_mark("arguments"@) == (9nat, 'a', 'm', 's'),
        text::word_mark("id"@) == (2nat, 'i', 'd', 'd'),
        text::word_mark("index"@) == (5nat, 'i', 'd', 'x'),
        text::word_mark("finish_reason"@) == (13nat, 'f', '_', 'n'),
        text::word_mark("model"@) == (5nat, 'm', 'd', 'l'),
        text::word_mark("response"@) == (8nat, 'r', 'o', 'e'),
        text::word_mark("object"@) == (6nat, 'o', 'e', 't'),
        text::word_mark("status"@) == (6nat, 's', 't', 's'),
        text::word_mark("created"@) == (7nat, 'c', 'a', 'd'),
        text::word_mark("name"@) == (4nat, 'n', 'm', 'e'),
        text::word_mark("role"@) == (4nat, 'r', 'l', 'e'),
        text::word_mark("response.output_text.delta"@) == (26nat, 'r', 'u', 'a'),
        text::word_mark("response.function_call_arguments.delta"@) == (38nat, 'r', 'a', 'a'),
        text::word_mark("response.completed"@) == (18nat, 'r', 'c', 'd'),
        text::word_mark("response.failed"@) == (15nat, 'r', 'e', 'd'),
        text::word_mark("response.incomplete"@) == (19nat, 'r', 'i', 'e'),
{
    reveal_strlit("choices");
    reveal_strlit("delta");
    reveal_strlit("content");
    reveal_strlit("type");
    reveal_strlit("item_id");
    reveal_strlit("output_index");
    reveal_strlit("content_index");
    reveal_strlit("tool_calls");
    reveal_strlit("function");
    reveal_strlit("arguments");
    reveal_strlit("id");
    reveal_strlit("index");
    reveal_strlit("finish_reason");
    reveal_strlit("model");
    reveal_strlit("response");
    reveal_strlit("object");
    reveal_strlit("status");
    reveal_strlit("created");
    reveal_strlit("name");
    reveal_strlit("role");
    reveal_strlit("response.output_text.delta");
    reveal_strlit("response.function_call_arguments.delta");
    reveal_strlit("response.completed");
    reveal_strlit("response.failed");
    reveal_strlit("response.incomplete");
    assert("choices"@.len() == 7);
    assert("delta"@.len() == 5);
    assert("content"@.len() == 7);
    assert("type"@.len() == 4);
    assert("item_id"@.len() == 7);
    assert("output_index"@.len() == 12);
    assert("content_index"@.len() == 13);
    assert("tool_calls"@.len() == 10);
    assert("function"@.len() == 8);
    assert("arguments"@.len() == 9);
    assert("id"@.len() == 2);
    assert("index"@.len() == 5);
    assert("finish_reason"@.len() == 13);
    assert("model"@.len() == 5);
    assert("response"@.len() == 8);
    assert("object"@.len() == 6);
    assert("status"@.len() == 6);
    assert("created"@.len() == 7);
    assert("name"@.len() == 4);
    assert("role"@.len() == 4);
    assert("response.output_text.delta"@.len() == 26);
    assert("response.function_call_arguments.delta"@.len() == 38);
    assert("response.completed"@.len() == 18);
    assert("response.failed"@.len() == 15);
    assert("response.incomplete"@.len() == 19);
}

proof fn end_names()
    ensures
        text::word_mark("response.cancelled"@) == (18nat, 'r', 'c', 'd'),
{
    reveal_strlit("response.cancelled");
    assert("response.cancelled"@.len() == 18);
}

/// The number 0.
pub open spec fn zero() -> JsonView {
    JsonView::Number(json::integer_number(0))
}

/// The first choice of a piece of a Chat Completions answer.
pub open spec fn choice_of(piece: JsonView) -> Option<JsonView> {
    match piece.get("choices"@) {
        Some(JsonView::Array(choices)) => if choices.len() > 0 {
            Some(choices[0])
        } else {
            None
        },
        _ => None,
    }
}

/// What a piece adds to the answer.
pub open spec fn delta_of(piece: JsonView) -> Option<JsonView> {
    match choice_of(piece) {
        Some(choice) => choice.get("delta"@),
        None => None,
    }
}

/// The text that a piece adds to the answer.
pub open spec fn said_in_piece(piece: JsonView) -> Seq<char> {
    match delta_of(piece) {
        Some(delta) => match delta.get("content"@) {
            Some(JsonView::String(content)) => content,
            _ => Seq::empty(),
        },
        None => Seq::empty(),
    }
}

/// The event tells the client of that much more text.
pub open spec fn tells_text(event: ClientEvent, text: Seq<char>) -> bool {
    match event {
        ClientEvent::Named { name, data } => {
            &&& name == "response.output_text.delta"@
            &&& data is Object
            &&& data->Object_0.dom() == set![
                "type"@,
                "item_id"@,
                "output_index"@,
                "content_index"@,
                "delta"@,
            ]
            &&& says(data, "type"@, "response.output_text.delta"@)
            &&& says(data, "item_id"@, "msg_0"@)
            &&& data.get("output_index"@) == Some(zero())
            &&& data.get("content_index"@) == Some(zero())
            &&& says(data, "delta"@, text)
        },
        _ => false,
    }
}

/// The event tells the client of more of the arguments of a call.
pub open spec fn tells_arguments(event: ClientEvent, call: JsonView, arguments: Seq<char>) -> bool {
    match event {
        ClientEvent::Named { name, data } => {
            &&& name == "response.function_call_arguments.delta"@
            &&& data is Object
            &&& data->Object_0.dom() == set!["type"@, "item_id"@, "output_index"@, "delta"@]
            &&& says(data, "type"@, "response.function_call_arguments.delta"@)
            &&& data.get("item_id"@) == Some(
                or_else(call.get("id"@), JsonView::String("call_0"@)),
            )
            &&& data.get("output_index"@) == Some(or_else(call.get("index"@), zero()))
            &&& says(data, "delta"@, arguments)
        },
        _ => false,
    }
}

/// The event tells the client that the response of that id is complete.
pub open spec fn tells_completed(event: ClientEvent, id: JsonView, model: Option<JsonView>) -> bool {
    match event {
        ClientEvent::Named { name, data } => {
            &&& name == "response.completed"@
            &&& data is Object
            &&& data->Object_0.dom() == set!["type"@, "response"@]
            &&& says(data, "type"@, "response.completed"@)
            &&& data.get("response"@) matches Some(response) && {
                &&& response is Object
                &&& response.get("id"@) == Some(id)
                &&& says(response, "object"@, "response"@)
                &&& says(response, "status"@, "completed"@)
                &&& response.get("model"@) == model
                &&& response->Object_0.dom().subset_of(
                    set!["id"@, "object"@, "status"@, "model"@],
                )
            }
        },
        _ => false,
    }
}

/// The text that an event tells the client.
pub open spec fn text_in_event(event: ClientEvent) -> Seq<char> {
    match event {
        ClientEvent::Named { name, data } => if name == "response.output_text.delta"@ {
            match data.get("delta"@) {
                Some(JsonView::String(text)) => text,
                _ => Seq::empty(),
            }
        } else {
            Seq::empty()
        },
        _ => Seq::empty(),
    }
}

/// The text that events tell the client, one after the other.
pub open spec fn text_in_events(events: Seq<ClientEvent>) -> Seq<char>
    decreases events.len(),
{
    if events.len() == 0 {
        Seq::empty()
    } else {
        text_in_events(events.drop_last()) + text_in_event(events.last())
    }
}

proof fn text_of_one(event: ClientEvent)
    ensures
        text_in_events(seq![event]) == text_in_event(event),
{
    reveal_with_fuel(text_in_events, 2);
    assert(seq![event].drop_last() =~= Seq::<ClientEvent>::empty());
    assert(Seq::<char>::empty() + text_in_event(event) =~= text_in_event(event));
}

proof fn text_of_two(first: Seq<ClientEvent>, second: Seq<ClientEvent>)
    ensures
        text_in_events(first + second) == text_in_events(first) + text_in_events(second),
    decreases second.len(),
{
    if second.len() == 0 {
        assert(first + second =~= first);
        assert(text_in_events(first) + Seq::<char>::empty() =~= text_in_events(first));
    } else {
        text_of_two(first, second.drop_last());
        assert((first + second).drop_last() =~= first + second.drop_last());
        assert((first + second).last() == second.last());
        assert(text_in_events(first) + (text_in_events(second.drop_last()) + text_in_event(
            second.last(),
        )) =~= (text_in_events(first) + text_in_events(second.drop_last())) + text_in_event(
            second.last(),
        ));
    }
}

proof fn calls_tell_no_text(calls: Seq<JsonView>, n: nat)
    requires
        n <= calls.len(),
    ensures
        text_in_events(sse::calls_delta_events(calls, n)).len() == 0,
    decreases n,
{
    if n > 0 {
        calls_tell_no_text(calls, (n - 1) as nat);
        let more = sse::call_delta_events(calls[n - 1]);
        text_of_two(sse::calls_delta_events(calls, (n - 1) as nat), more);
        stream_names();
        if more.len() > 0 {
            assert(more =~= seq![more[0]]);
            text_of_one(more[0]);
        }
    }
}

/// Whatever else a piece of a Chat Completions answer holds, the client is told of all the text that
/// it adds, and of none but that. Text comes before what is told of calls.
pub proof fn text_is_told(piece: JsonView, completed: bool)
    ensures
        ({
            let events = sse::responses_events(piece, completed).0;
            &&& said_in_piece(piece).len() > 0 ==> events.len() > 0 && tells_text(
                events[0],
                said_in_piece(piece),
            )
            &&& text_in_events(events) == said_in_piece(piece)
        }),
{
    stream_names();
    let events = sse::responses_events(piece, completed).0;
    match choice_of(piece) {
        Some(choice) => {
            let empty = JsonView::Object(Map::empty());
            let delta = or_else(choice.get("delta"@), empty);
            let first = sse::text_delta_events(delta);
            assert(empty.get("content"@) is None);
            if first.len() > 0 {
                assert(first =~= seq![first[0]]);
                text_of_one(first[0]);
                assert(first[0]->Named_data->Object_0.dom() =~= set![
                    "type"@,
                    "item_id"@,
                    "output_index"@,
                    "content_index"@,
                    "delta"@,
                ]);
            }
            assert(text_in_events(first) =~= said_in_piece(piece));
            let told = sse::delta_events(delta);
            match delta.get("tool_calls"@) {
                Some(JsonView::Array(calls)) => {
                    calls_tell_no_text(calls, calls.len());
                    text_of_two(first, sse::calls_delta_events(calls, calls.len()));
                },
                _ => {},
            }
            assert(text_in_events(told) =~= said_in_piece(piece));
            if events.len() > told.len() {
                assert(events.drop_last() =~= told);
            }
        },
        None => {},
    }
}

/// The text that one piece of data of a streamed Chat Completions answer adds.
pub open spec fn said_in_data(data: Seq<char>) -> Seq<char> {
    if data == "[DONE]"@ {
        Seq::empty()
    } else {
        match json::parsed(encode_utf8(data)) {
            Ok(piece) => said_in_piece(piece),
            Err(_) => Seq::empty(),
        }
    }
}

/// The text of a whole streamed Chat Completions answer.
pub open spec fn said_in_datas(datas: Seq<Seq<char>>) -> Seq<char>
    decreases datas.len(),
{
    if datas.len() == 0 {
        Seq::empty()
    } else {
        said_in_datas(datas.drop_last()) + said_in_data(datas.last())
    }
}

/// The text that the client of a converted Chat Completions answer is told is that of the answer.
pub proof fn whole_text_is_told(datas: Seq<Seq<char>>, completed: bool)
    ensures
        text_in_events(sse::chat_answer_events(datas, completed).0) == said_in_datas(datas),
    decreases datas.len(),
{
    if datas.len() > 0 {
        let (events, before) = sse::chat_answer_events(datas.drop_last(), completed);
        let (more, after) = sse::chat_data_events(datas.last(), before);
        whole_text_is_told(datas.drop_last(), completed);
        text_of_two(events, more);
        stream_names();
        if datas.last() == "[DONE]"@ {
            if more.len() > 0 {
                assert(more =~= seq![more[0]]);
                text_of_one(more[0]);
            }
        } else {
            match json::parsed(encode_utf8(datas.last())) {
                Ok(piece) => text_is_told(piece, before),
                Err(_) => {},
            }
        }
        assert(text_in_events(more) =~= said_in_data(datas.last()));
    }
}

/// A piece with those calls and nothing that ends the answer.
pub open spec fn piece_with_calls(
    delta: Map<Seq<char>, JsonView>,
    calls: Seq<JsonView>,
) -> JsonView {
    JsonView::Object(
        map![
            "choices"@ => JsonView::Array(
                seq![
                    JsonView::Object(
                        map![
                            "delta"@ => JsonView::Object(
                                delta.insert("tool_calls"@, JsonView::Array(calls)),
                            ),
                        ],
                    ),
                ],
            ),
        ],
    )
}

/// For every call in a piece that has text as its arguments the client is told of them, in the order
/// of the calls; for another it is told nothing.
pub proof fn arguments_are_told(
    delta: Map<Seq<char>, JsonView>,
    calls: Seq<JsonView>,
    call: JsonView,
    completed: bool,
)
    ensures
        ({
            let events = sse::responses_events(piece_with_calls(delta, calls), completed).0;
            let more = sse::responses_events(piece_with_calls(delta, calls.push(call)), completed).0;
            let arguments = match call.get("function"@) {
                Some(function) => function.get("arguments"@),
                None => None,
            };
            match arguments {
                Some(JsonView::String(arguments)) => {
                    &&& more.len() == events.len() + 1
                    &&& more.drop_last() == events
                    &&& tells_arguments(more.last(), call, arguments)
                },
                _ => more == events,
            }
        }),
        sse::responses_events(piece_with_calls(delta, Seq::empty()), completed).0.len() == if (
        JsonView::Object(delta).get("content"@) matches Some(JsonView::String(content))
            && content.len() > 0) {
            1
        } else {
            0int
        },
{
    stream_names();
    let none = piece_with_calls(delta, Seq::empty());
    let some = piece_with_calls(delta, calls);
    let all = piece_with_calls(delta, calls.push(call));
    earlier_calls(calls, call, calls.len());
    let d0 = JsonView::Object(delta.insert("tool_calls"@, JsonView::Array(Seq::empty())));
    let d1 = JsonView::Object(delta.insert("tool_calls"@, JsonView::Array(calls)));
    let d2 = JsonView::Object(delta.insert("tool_calls"@, JsonView::Array(calls.push(call))));
    let more = sse::call_delta_events(call);
    assert(choice_of(none)->0.get("delta"@) == Some(d0));
    assert(choice_of(some)->0.get("delta"@) == Some(d1));
    assert(choice_of(all)->0.get("delta"@) == Some(d2));
    assert(d0.get("content"@) == JsonView::Object(delta).get("content"@));
    assert(d1.get("content"@) == JsonView::Object(delta).get("content"@));
    assert(d2.get("content"@) == JsonView::Object(delta).get("content"@));
    assert(d0.get("tool_calls"@) == Some(JsonView::Array(Seq::<JsonView>::empty())));
    assert(d1.get("tool_calls"@) == Some(JsonView::Array(calls)));
    assert(d2.get("tool_calls"@) == Some(JsonView::Array(calls.push(call))));
    assert(calls.push(call).last() == call);
    assert(sse::text_delta_events(d1) == sse::text_delta_events(d2));
    let events = sse::responses_events(some, completed).0;
    let longer = sse::responses_events(all, completed).0;
    assert(longer =~= events + more);
    if more.len() > 0 {
        assert(longer.drop_last() =~= events);
        assert(longer.last() == more[0]);
        assert(more[0]->Named_data->Object_0.dom() =~= set![
            "type"@,
            "item_id"@,
            "output_index"@,
            "delta"@,
        ]);
    } else {
        assert(longer =~= events);
    }
}

proof fn earlier_calls(calls: Seq<JsonView>, call: JsonView, n: nat)
    requires
        n <= calls.len(),
    ensures
        sse::calls_delta_events(calls.push(call), n) == sse::calls_delta_events(calls, n),
    decreases n,
{
    if n > 0 {
        earlier_calls(calls, call, (n - 1) as nat);
        assert(calls.push(call)[n - 1] == calls[n - 1]);
    }
}

/// Where a piece gives a reason why the answer is finished, and the end has not been told, the
/// client is told last that the response is complete. Else only what the piece adds is told. What
/// holds no choice is told nothing of.
pub proof fn finished_answers_are_completed(piece: JsonView, unfinished: JsonView)
    requires
        choice_of(piece) matches Some(choice) && (choice.get("finish_reason"@) matches Some(reason)
            && reason != JsonView::Null),
        choice_of(unfinished) matches Some(choice) && (choice.get("finish_reason"@) == Some(
            JsonView::Null,
        ) || choice.get("finish_reason"@) is None),
        delta_of(unfinished) == delta_of(piece),
    ensures
        ({
            let (events, after) = sse::responses_events(piece, false);
            &&& after
            &&& events.len() > 0
            &&& tells_completed(
                events.last(),
                or_else(piece.get("id"@), JsonView::String("resp_proxy"@)),
                Some(or_else(piece.get("model"@), JsonView::Null)),
            )
            &&& events.drop_last() == sse::responses_events(unfinished, false).0
        }),
        sse::responses_events(piece, true) == (sse::responses_events(unfinished, true).0, true),
        sse::responses_events(unfinished, true).0 == sse::responses_events(unfinished, false).0,
        sse::responses_events(unfinished, true).1,
        !sse::responses_events(unfinished, false).1,
{
    stream_names();
    let events = sse::responses_events(piece, false).0;
    let delta = or_else(delta_of(piece), JsonView::Object(Map::empty()));
    assert(events.drop_last() =~= sse::delta_events(delta));
    let data = events.last()->Named_data;
    assert(data->Object_0.dom() =~= set!["type"@, "response"@]);
}

/// The closing mark of a Chat Completions answer tells the client that the response is complete,
/// where it has not been told. Data that is no JSON, or that holds no choice, tells it nothing.
pub proof fn other_data_of_a_chat_answer(data: Seq<char>, completed: bool)
    ensures
        data == "[DONE]"@ ==> ({
            let (events, after) = sse::chat_data_events(data, completed);
            &&& after
            &&& completed ==> events.len() == 0
            &&& !completed ==> events.len() == 1 && tells_completed(
                events[0],
                JsonView::String("resp_proxy"@),
                None,
            )
        }),
        data != "[DONE]"@ && json::parsed(encode_utf8(data)) is Err ==> sse::chat_data_events(
            data,
            completed,
        ) == (Seq::<ClientEvent>::empty(), completed),
        data != "[DONE]"@ ==> (json::parsed(encode_utf8(data)) matches Ok(piece) ==> {
            &&& sse::chat_data_events(data, completed) == sse::responses_events(piece, completed)
            &&& choice_of(piece) is None ==> sse::chat_data_events(data, completed) == (
                Seq::<ClientEvent>::empty(),
                completed,
            )
        }),
{
    stream_names();
    if data == "[DONE]"@ && !completed {
        let events = sse::chat_data_events(data, completed).0;
        assert(events[0]->Named_data->Object_0.dom() =~= set!["type"@, "response"@]);
    }
}

/// The event is a piece of a Chat Completions answer with one choice.
pub open spec fn is_chunk(
    event: ClientEvent,
    delta: JsonView,
    finish_reason: JsonView,
    created: i64,
) -> bool {
    match event {
        ClientEvent::Unnamed { data } => {
            &&& data is Object
            &&& data->Object_0.dom() == set!["id"@, "object"@, "created"@, "model"@, "choices"@]
            &&& says(data, "id"@, "chatcmpl_proxy"@)
            &&& says(data, "object"@, "chat.completion.chunk"@)
            &&& data.get("created"@) == Some(JsonView::Number(json::integer_number(created)))
            &&& says(data, "model"@, Seq::empty())
            &&& data.get("choices"@) matches Some(JsonView::Array(choices)) && {
                &&& choices.len() == 1
                &&& choices[0] is Object
                &&& choices[0]->Object_0.dom() == set!["index"@, "delta"@, "finish_reason"@]
                &&& choices[0].get("index"@) == Some(zero())
                &&& choices[0].get("delta"@) == Some(delta)
                &&& choices[0].get("finish_reason"@) == Some(finish_reason)
            }
        },
        _ => false,
    }
}

/// The text of a member, or none.
pub open spec fn text_at(value: JsonView, name: Seq<char>) -> Seq<char> {
    match value.get(name) {
        Some(JsonView::String(text)) => text,
        _ => Seq::empty(),
    }
}

/// The delta names a call, by its id and place, and adds to its arguments.
pub open spec fn adds_arguments(delta: JsonView, event: JsonView) -> bool {
    &&& delta is Object
    &&& delta->Object_0.dom() == set!["tool_calls"@]
    &&& delta.get("tool_calls"@) matches Some(JsonView::Array(calls)) && {
        &&& calls.len() == 1
        &&& calls[0] is Object
        &&& calls[0]->Object_0.dom() == set!["index"@, "id"@, "type"@, "function"@]
        &&& calls[0].get("index"@) == Some(or_else(event.get("output_index"@), zero()))
        &&& calls[0].get("id"@) == Some(
            or_else(event.get("item_id"@), JsonView::String("call_0"@)),
        )
        &&& says(calls[0], "type"@, "function"@)
        &&& calls[0].get("function"@) matches Some(function) && function is Object
            && function->Object_0.dom() == set!["arguments"@] && says(
            function,
            "arguments"@,
            text_at(event, "delta"@),
        )
    }
}

proof fn chunk_holds_its_delta(delta: JsonView, finish_reason: JsonView, created: i64)
    ensures
        is_chunk(
            sse::proxy_chunk(delta, finish_reason, created),
            delta,
            finish_reason,
            created,
        ),
{
    stream_names();
    let data = sse::proxy_chunk(delta, finish_reason, created)->Unnamed_data;
    assert(data->Object_0.dom() =~= set!["id"@, "object"@, "created"@, "model"@, "choices"@]);
    let choice = data.get("choices"@)->0->Array_0[0];
    assert(choice->Object_0.dom() =~= set!["index"@, "delta"@, "finish_reason"@]);
}

/// What the client of a converted Responses answer is told, by the type of the event: more text,
/// more of the arguments of a call, or, once, that the answer is at its end. However an answer
/// ends, the client is told that it stopped, and then gets the closing mark.
pub proof fn responses_events_as_chat(event: JsonView, created: i64, completed: bool)
    ensures
        ({
            let (events, after) = sse::chat_events(event, created, completed);
            let kind = text_at(event, "type"@);
            let ends = kind == "response.completed"@ || kind == "response.failed"@ || kind
                == "response.cancelled"@ || kind == "response.incomplete"@;
            &&& kind == "response.output_text.delta"@ ==> {
                let delta = JsonView::Object(
                    map!["content"@ => JsonView::String(text_at(event, "delta"@))],
                );
                &&& after == completed
                &&& events.len() == 1
                &&& is_chunk(events[0], delta, JsonView::Null, created)
            }
            &&& kind == "response.function_call_arguments.delta"@ ==> {
                let delta = events[0]->Unnamed_data.get("choices"@)->0->Array_0[0].get("delta"@)->0;
                &&& after == completed
                &&& events.len() == 1
                &&& adds_arguments(delta, event)
                &&& is_chunk(events[0], delta, JsonView::Null, created)
            }
            &&& ends && !completed ==> {
                &&& after
                &&& events.len() == 2
                &&& is_chunk(
                    events[0],
                    JsonView::Object(Map::<Seq<char>, JsonView>::empty()),
                    JsonView::String("stop"@),
                    created,
                )
                &&& events[1] is Done
            }
            &&& ends && completed ==> events.len() == 0 && after
            &&& !ends && kind != "response.output_text.delta"@ && kind
                != "response.function_call_arguments.delta"@ ==> events.len() == 0 && after
                == completed
        }),
{
    stream_names();
    end_names();
    let text = JsonView::Object(map!["content"@ => JsonView::String(text_at(event, "delta"@))]);
    chunk_holds_its_delta(text, JsonView::Null, created);
    let call = sse::call_delta(event);
    chunk_holds_its_delta(call, JsonView::Null, created);
    assert(call->Object_0.dom() =~= set!["tool_calls"@]);
    let added = call.get("tool_calls"@)->0->Array_0[0];
    assert(added->Object_0.dom() =~= set!["index"@, "id"@, "type"@, "function"@]);
    assert(added.get("function"@)->0->Object_0.dom() =~= set!["arguments"@]);
    chunk_holds_its_delta(
        JsonView::Object(Map::<Seq<char>, JsonView>::empty()),
        JsonView::String("stop"@),
        created,
    );
}

/// The closing mark of a Responses stream closes the answer where nothing did. Data that is no JSON
/// tells the client nothing.
pub proof fn other_data_of_a_responses_answer(data: Seq<char>, created: i64, completed: bool)
    ensures
        data == "[DONE]"@ ==> sse::responses_data_events(data, created, completed) == (
            if completed {
                Seq::<ClientEvent>::empty()
            } else {
                seq![ClientEvent::Done]
            },
            true,
        ),
        data != "[DONE]"@ && json::parsed(encode_utf8(data)) is Err ==> sse::responses_data_events(
            data,
            created,
            completed,
        ) == (Seq::<ClientEvent>::empty(), completed),
        data != "[DONE]"@ ==> (json::parsed(encode_utf8(data)) matches Ok(event)
            ==> sse::responses_data_events(data, created, completed) == sse::chat_events(
            event,
            created,
            completed,
        )),
{
}

/// The text that an event adds to a Chat Completions answer.
pub open spec fn content_in_event(event: ClientEvent) -> Seq<char> {
    match event {
        ClientEvent::Unnamed { data } => said_in_piece(data),
        _ => Seq::empty(),
    }
}

/// The text that events add to a Chat Completions answer, one after the other.
pub open spec fn content_in_events(events: Seq<ClientEvent>) -> Seq<char>
    decreases events.len(),
{
    if events.len() == 0 {
        Seq::empty()
    } else {
        content_in_events(events.drop_last()) + content_in_event(events.last())
    }
}

proof fn content_of_one(event: ClientEvent)
    ensures
        content_in_events(seq![event]) == content_in_event(event),
{
    reveal_with_fuel(content_in_events, 2);
    assert(seq![event].drop_last() =~= Seq::<ClientEvent>::empty());
    assert(Seq::<char>::empty() + content_in_event(event) =~= content_in_event(event));
}

proof fn content_of_two(first: Seq<ClientEvent>, second: Seq<ClientEvent>)
    ensures
        content_in_events(first + second) == content_in_events(first) + content_in_events(second),
    decreases second.len(),
{
    if second.len() == 0 {
        assert(first + second =~= first);
        assert(content_in_events(first) + Seq::<char>::empty() =~= content_in_events(first));
    } else {
        content_of_two(first, second.drop_last());
        assert((first + second).drop_last() =~= first + second.drop_last());
        assert((first + second).last() == second.last());
        assert(content_in_events(first) + (content_in_events(second.drop_last())
            + content_in_event(second.last())) =~= (content_in_events(first) + content_in_events(
            second.drop_last(),
        )) + content_in_event(second.last()));
    }
}

/// The text that one piece of data of a streamed Responses answer adds.
pub open spec fn told_in_data(data: Seq<char>) -> Seq<char> {
    if data == "[DONE]"@ {
        Seq::empty()
    } else {
        match json::parsed(encode_utf8(data)) {
            Ok(event) => if text_at(event, "type"@) == "response.output_text.delta"@ {
                text_at(event, "delta"@)
            } else {
                Seq::empty()
            },
            Err(_) => Seq::empty(),
        }
    }
}

/// The text of a whole streamed Responses answer.
pub open spec fn told_in_datas(datas: Seq<(Seq<char>, i64)>) -> Seq<char>
    decreases datas.len(),
{
    if datas.len() == 0 {
        Seq::empty()
    } else {
        told_in_datas(datas.drop_last()) + told_in_data(datas.last().0)
    }
}

/// The content that the client of a converted Responses answer gets is the text of the answer.
pub proof fn whole_content_is_told(datas: Seq<(Seq<char>, i64)>, completed: bool)
    ensures
        content_in_events(sse::responses_answer_events(datas, completed).0) == told_in_datas(datas),
    decreases datas.len(),
{
    if datas.len() > 0 {
        let (data, created) = datas.last();
        let (events, before) = sse::responses_answer_events(datas.drop_last(), completed);
        let (more, after) = sse::responses_data_events(data, created, before);
        whole_content_is_told(datas.drop_last(), completed);
        content_of_two(events, more);
        stream_names();
        if more.len() == 0 {
        } else if more.len() == 1 {
            assert(more =~= seq![more[0]]);
            content_of_one(more[0]);
        } else {
            assert(more.drop_last() =~= seq![more[0]]);
            content_of_one(more[0]);
        }
        if data != "[DONE]"@ {
            match json::parsed(encode_utf8(data)) {
                Ok(event) => {
                    responses_events_as_chat(event, created, before);
                },
                Err(_) => {},
            }
        }
        assert(content_in_events(more) =~= told_in_data(data));
    }
}

} // verus!
