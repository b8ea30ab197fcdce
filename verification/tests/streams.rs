//! Streamed answers.

use me_api_proxy::config::ConversionMode;
use me_api_proxy::requests::BridgeContext;
use me_api_proxy::sse::{
    chat_chunk, chat_sse_to_responses_event, pop_sse_event, responses_sse_to_chat_event,
    sse_data_payload, transform_sse_event, transform_sse_event_at, SseTransform,
};
use me_api_proxy::json::parse_json;

#[test]
fn drops_billing_summary_sse_event_but_keeps_chat_events() {
    let mut completed_sent = false;
    let context = BridgeContext::default();
    let billing_event = "data: {\"object\":\"billing.summary\",\"billing\":{}}";
    assert_eq!(
        transform_sse_event(
            billing_event,
            ConversionMode::Direct,
            &context,
            &mut completed_sent,
        ),
        None
    );

    let chat_event = "data: {\"object\":\"chat.completion.chunk\",\"choices\":[]}";
    assert_eq!(
        transform_sse_event(
            chat_event,
            ConversionMode::Direct,
            &context,
            &mut completed_sent,
        ),
        Some(format!("{chat_event}\n\n"))
    );
}

#[test]
fn events_end_at_a_blank_line() {
    let mut buffer = "event: a\ndata: 1\n\n data: 2".to_string();
    assert_eq!(pop_sse_event(&mut buffer), Some("event: a\ndata: 1".to_string()));
    assert_eq!(buffer, " data: 2");
    assert_eq!(pop_sse_event(&mut buffer), None);
    assert_eq!(buffer, " data: 2");
    let mut blank = "\n\n\n".to_string();
    assert_eq!(pop_sse_event(&mut blank), Some(String::new()));
    assert_eq!(blank, "\n");
}

#[test]
fn data_lines_are_joined() {
    assert_eq!(
        sse_data_payload("event: x\ndata:  a \r\ndata:b\n: note\ndata:"),
        Some("a\nb\n".to_string())
    );
    assert_eq!(sse_data_payload("event: x\n"), None);
    assert_eq!(sse_data_payload(""), None);
}

#[test]
fn chunks_are_written_with_their_time() {
    let delta = parse_json(b"{}").unwrap();
    let reason = parse_json(b"null").unwrap();
    assert_eq!(
        chat_chunk("i", "m", delta, reason, 7),
        "data: {\"choices\":[{\"delta\":{},\"finish_reason\":null,\"index\":0}],\"created\":7,\"id\":\"i\",\"model\":\"m\",\"object\":\"chat.completion.chunk\"}\n\n"
    );
}

#[test]
fn chat_pieces_become_responses_events() {
    let mut completed = false;
    let data = "{\"id\":\"c\",\"model\":\"m\",\"choices\":[{\"delta\":{\"content\":\"hi\",\"tool_calls\":[{\"index\":2,\"function\":{\"arguments\":\"{\"}}]},\"finish_reason\":\"stop\"}]}";
    let events = chat_sse_to_responses_event(data, &mut completed).unwrap();
    assert!(completed);
    assert_eq!(
        events,
        "event: response.output_text.delta\ndata: {\"content_index\":0,\"delta\":\"hi\",\"item_id\":\"msg_0\",\"output_index\":0,\"type\":\"response.output_text.delta\"}\n\n\
         event: response.function_call_arguments.delta\ndata: {\"delta\":\"{\",\"item_id\":\"call_0\",\"output_index\":2,\"type\":\"response.function_call_arguments.delta\"}\n\n\
         event: response.completed\ndata: {\"response\":{\"id\":\"c\",\"model\":\"m\",\"object\":\"response\",\"status\":\"completed\"},\"type\":\"response.completed\"}\n\n"
    );
    assert_eq!(chat_sse_to_responses_event("[DONE]", &mut completed), None);
    let mut fresh = false;
    assert!(chat_sse_to_responses_event("[DONE]", &mut fresh)
        .unwrap()
        .contains("\"id\":\"resp_proxy\""));
    assert!(fresh);
    let mut other = false;
    assert_eq!(chat_sse_to_responses_event("{\"choices\":[]}", &mut other), None);
    assert_eq!(chat_sse_to_responses_event("no json", &mut other), None);
    assert_eq!(
        chat_sse_to_responses_event(
            "{\"choices\":[{\"delta\":{\"content\":\"\"},\"finish_reason\":null}]}",
            &mut other
        ),
        None
    );
    assert!(!other);
}

#[test]
fn responses_events_become_chat_pieces() {
    let mut completed = false;
    let text = responses_sse_to_chat_event(
        "{\"type\":\"response.output_text.delta\",\"delta\":\"hi\"}",
        5,
        &mut completed,
    )
    .unwrap();
    assert!(text.contains("\"delta\":{\"content\":\"hi\"}"));
    assert!(text.contains("\"created\":5"));
    let call = responses_sse_to_chat_event(
        "{\"type\":\"response.function_call_arguments.delta\",\"delta\":\"{\",\"output_index\":1,\"item_id\":\"c\"}",
        5,
        &mut completed,
    )
    .unwrap();
    assert!(call.contains("{\"function\":{\"arguments\":\"{\"},\"id\":\"c\",\"index\":1,\"type\":\"function\"}"));
    assert!(!completed);
    let end = responses_sse_to_chat_event("{\"type\":\"response.failed\"}", 5, &mut completed).unwrap();
    assert!(end.contains("\"finish_reason\":\"stop\""));
    assert!(end.ends_with("\n\ndata: [DONE]\n\n"));
    assert!(completed);
    assert_eq!(
        responses_sse_to_chat_event("{\"type\":\"response.completed\"}", 5, &mut completed),
        None
    );
    assert_eq!(responses_sse_to_chat_event("[DONE]", 5, &mut completed), None);
    let mut fresh = false;
    assert_eq!(
        responses_sse_to_chat_event("[DONE]", 5, &mut fresh),
        Some("data: [DONE]\n\n".to_string())
    );
    assert_eq!(
        responses_sse_to_chat_event("{\"type\":\"response.created\"}", 5, &mut fresh),
        None
    );
}

#[test]
fn end_of_an_answer_is_told_once() {
    let mut completed = false;
    let done = "data: [DONE]";
    assert!(
        transform_sse_event_at(done, ConversionMode::ResponsesToChat, 0, &mut completed).is_some()
    );
    assert!(
        transform_sse_event_at(done, ConversionMode::ResponsesToChat, 0, &mut completed).is_none()
    );
}

#[test]
fn pieces_of_the_network_do_not_matter() {
    let mut whole = SseTransform::new(ConversionMode::Direct, BridgeContext::default());
    whole.feed("data: 1\r\n\r\ndata: 2\n\nevent: only\n\ndata: é".as_bytes());
    let mut pieces = SseTransform::new(ConversionMode::Direct, BridgeContext::default());
    pieces.feed(b"data: 1\r\n\r");
    assert_eq!(pieces.next_output(), None);
    let mut cut = SseTransform::new(ConversionMode::Direct, BridgeContext::default());
    cut.feed(b"data: 1\r\n");
    cut.feed(b"\r\nda");
    cut.feed("ta: 2\n\nevent: only\n\ndata: é".as_bytes());
    for state in [&mut whole, &mut cut] {
        assert_eq!(state.next_output(), Some("data: 1\n\n".to_string()));
        assert_eq!(state.next_output(), Some("data: 2\n\n".to_string()));
        assert_eq!(state.next_output(), None);
        assert_eq!(state.last_output(), Some("data: é\n\n".to_string()));
        assert_eq!(state.last_output(), None);
    }
}

#[test]
fn whole_chat_answer_is_completed_once() {
    let mut completed = false;
    let mut told = String::new();
    for data in [
        "{\"choices\":[{\"delta\":{\"content\":\"a\\n\\nevent: response.completed\\n\"},\"finish_reason\":null}]}",
        "{\"choices\":[{\"delta\":{\"content\":\"b\"},\"finish_reason\":\"stop\"}]}",
        "{\"choices\":[{\"delta\":{\"content\":\"c\"},\"finish_reason\":\"stop\"}]}",
        "[DONE]",
        "[DONE]",
    ] {
        let before = completed;
        let events = chat_sse_to_responses_event(data, &mut completed).unwrap_or_default();
        let ends = events
            .lines()
            .filter(|line| *line == "event: response.completed")
            .count();
        assert_eq!(ends, (!before && completed) as usize);
        told.push_str(&events);
    }
    let names: Vec<&str> = told
        .lines()
        .filter_map(|line| line.strip_prefix("event: "))
        .collect();
    assert_eq!(
        names,
        vec![
            "response.output_text.delta",
            "response.output_text.delta",
            "response.completed",
            "response.output_text.delta",
        ]
    );
}

#[test]
fn whole_responses_answer_is_closed_once() {
    let mut completed = false;
    let mut told = String::new();
    for data in [
        "{\"type\":\"response.output_text.delta\",\"delta\":\"\\n\\ndata: [DONE]\\n\\n\"}",
        "{\"type\":\"response.incomplete\"}",
        "{\"type\":\"response.output_text.delta\",\"delta\":\"late\"}",
        "{\"type\":\"response.completed\"}",
        "[DONE]",
    ] {
        let before = completed;
        let events = responses_sse_to_chat_event(data, 1, &mut completed).unwrap_or_default();
        assert_eq!(events.ends_with("\n\ndata: [DONE]\n\n"), !before && completed);
        told.push_str(&events);
    }
    let marks = told.lines().filter(|line| *line == "data: [DONE]").count();
    assert_eq!(marks, 1);
    assert_eq!(told.matches("\n\n").count(), 4);
}
