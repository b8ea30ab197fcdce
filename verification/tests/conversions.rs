//! Requests and answers, converted between the two protocols.

use me_api_proxy::config::{
    effective_override_model, upstream_plan, AccessKeyConfig, BaseUrlConfig, ConversionMode,
    OpenAiEndpoint, ProtocolMode, TestProtocol, UpstreamPlan,
};
use me_api_proxy::json::{json_to_string, parse_json};
use me_api_proxy::models::{
    build_override_models_response, parse_model_ids, test_request_body,
};
use me_api_proxy::requests::{
    chat_request_to_responses, is_stream_request, override_model_in_body, responses_request_to_chat,
    transform_request_body, BridgeContext,
};
use me_api_proxy::responses::{
    chat_response_to_responses, responses_response_to_chat, transform_response_body,
};
use me_api_proxy::tools::{
    build_responses_tool_context, chat_tool_name_for_response_tool, unique_chat_tool_name,
    ResponsesToolContext, ResponsesToolKind,
};
use serde_json::Value;

fn value(bytes: &[u8]) -> Value {
    serde_json::from_slice(bytes).unwrap()
}

fn access_key_with_override(model: &str) -> AccessKeyConfig {
    AccessKeyConfig {
        id: 1,
        name: "客户端 A".to_string(),
        access_key: "me-1234567890abcdef1234567890abcdef1234567890abcdef1234567890abcd".to_string(),
        proxy_id: 1,
        image_proxy_id: None,
        override_model: model.to_string(),
        created_at: 0,
        updated_at: 0,
    }
}

fn supplier_with_override(model: &str) -> BaseUrlConfig {
    BaseUrlConfig {
        id: 1,
        pool_id: 1,
        name: "供应商 A".to_string(),
        base_url: "https://api.example.com/v1".to_string(),
        protocol_mode: ProtocolMode::Both,
        override_model: model.to_string(),
        sort_order: 0,
        api_keys: Vec::new(),
        image_keys: Vec::new(),
    }
}

#[test]
fn protocol_mode_selects_upstream_endpoint() {
    assert_eq!(
        upstream_plan(OpenAiEndpoint::Chat, &ProtocolMode::Both),
        UpstreamPlan {
            upstream_endpoint: OpenAiEndpoint::Chat,
            conversion: ConversionMode::Direct
        }
    );
    assert_eq!(
        upstream_plan(OpenAiEndpoint::Responses, &ProtocolMode::Chat),
        UpstreamPlan {
            upstream_endpoint: OpenAiEndpoint::Chat,
            conversion: ConversionMode::ResponsesToChat
        }
    );
    assert_eq!(
        upstream_plan(OpenAiEndpoint::Chat, &ProtocolMode::Responses),
        UpstreamPlan {
            upstream_endpoint: OpenAiEndpoint::Responses,
            conversion: ConversionMode::ChatToResponses
        }
    );
}

#[test]
fn converts_chat_request_to_responses_request() {
    let body = br#"{
            "model":"gpt-test",
            "messages":[{"role":"user","content":"hi"}],
            "max_tokens":128,
            "stream":true
        }"#;

    let converted = value(&chat_request_to_responses(body).unwrap());

    assert_eq!(converted["model"], "gpt-test");
    assert_eq!(converted["input"][0]["role"], "user");
    assert_eq!(converted["max_output_tokens"], 128);
    assert_eq!(converted["stream"], true);
}

#[test]
fn converts_responses_request_to_chat_request() {
    let body = br#"{
            "model":"gpt-test",
            "instructions":"be brief",
            "input":"hello",
            "max_output_tokens":64
        }"#;

    let converted_request = responses_request_to_chat(body).unwrap();
    let converted = value(&converted_request.body);

    assert_eq!(converted["model"], "gpt-test");
    assert_eq!(converted["messages"][0]["role"], "system");
    assert_eq!(converted["messages"][1]["role"], "user");
    assert_eq!(converted["messages"][1]["content"], "hello");
    assert_eq!(converted["max_tokens"], 64);
}

#[test]
fn converts_responses_custom_tool_to_chat_function_tool() {
    let body = br#"{
            "model":"gpt-test",
            "input":"hello",
            "tools":[{"type":"custom","name":"run_shell","description":"Run shell"}]
        }"#;

    let converted_request = responses_request_to_chat(body).unwrap();
    let converted = value(&converted_request.body);

    assert_eq!(converted["tools"][0]["type"], "function");
    assert_eq!(converted["tools"][0]["function"]["name"], "run_shell");
    assert_eq!(
        converted["tools"][0]["function"]["parameters"]["required"][0],
        "input"
    );
}

#[test]
fn converts_chat_response_to_responses_response() {
    let body = br#"{
            "id":"chatcmpl_1",
            "created":123,
            "model":"gpt-test",
            "choices":[{"message":{"role":"assistant","content":"hello"}}],
            "usage":{"prompt_tokens":2,"completion_tokens":3,"total_tokens":5}
        }"#;

    let converted = value(&chat_response_to_responses(body, None).unwrap());

    assert_eq!(converted["object"], "response");
    assert_eq!(converted["output_text"], "hello");
    assert_eq!(converted["usage"]["input_tokens"], 2);
}

#[test]
fn converts_chat_tool_call_back_to_custom_tool_call() {
    let body = br#"{
            "id":"chatcmpl_1",
            "created":123,
            "model":"gpt-test",
            "choices":[{
                "message":{
                    "role":"assistant",
                    "content":"",
                    "tool_calls":[{
                        "id":"call_1",
                        "type":"function",
                        "function":{
                            "name":"run_shell",
                            "arguments":"{\"input\":\"ls\"}"
                        }
                    }]
                }
            }]
        }"#;
    let tools = parse_json(
        br#"[{"type":"custom","name":"run_shell","description":"Run shell"}]"#,
    )
    .unwrap();
    let context = build_responses_tool_context(Some(&tools));

    let converted = value(&chat_response_to_responses(body, Some(&context)).unwrap());

    assert_eq!(converted["output"][0]["type"], "custom_tool_call");
    assert_eq!(converted["output"][0]["name"], "run_shell");
    assert_eq!(converted["output"][0]["input"], "ls");
}

#[test]
fn converts_responses_response_to_chat_response() {
    let body = br#"{
            "id":"resp_1",
            "created_at":123,
            "model":"gpt-test",
            "output_text":"hello",
            "usage":{"input_tokens":2,"output_tokens":3,"total_tokens":5}
        }"#;

    let converted = value(&responses_response_to_chat(body).unwrap());

    assert_eq!(converted["object"], "chat.completion");
    assert_eq!(converted["choices"][0]["message"]["content"], "hello");
    assert_eq!(converted["usage"]["prompt_tokens"], 2);
}

#[test]
fn access_key_override_model_takes_priority_over_supplier_model() {
    let access_key = access_key_with_override("gpt-5.4");
    let supplier = supplier_with_override("gpt-5.5");

    assert_eq!(
        effective_override_model(&access_key, &supplier),
        Some("gpt-5.4")
    );
}

#[test]
fn supplier_override_model_applies_when_access_key_model_is_empty() {
    let access_key = access_key_with_override("");
    let supplier = supplier_with_override("gpt-5.5");
    let body = br#"{"model":"gpt-original","messages":[]}"#;

    let model = effective_override_model(&access_key, &supplier).unwrap();
    let converted = value(&override_model_in_body(body, model).unwrap());

    assert_eq!(model, "gpt-5.5");
    assert_eq!(converted["model"], "gpt-5.5");
}

#[test]
fn override_models_response_uses_effective_access_key_model() {
    let access_key = access_key_with_override("gpt-5.4");
    let supplier = supplier_with_override("gpt-5.5");
    let model = effective_override_model(&access_key, &supplier).unwrap();
    let body = build_override_models_response(model);
    let list = value(body.as_bytes());

    assert_eq!(list["data"][0]["id"], "gpt-5.4");
    assert_eq!(
        body,
        "{\"data\":[{\"created\":0,\"id\":\"gpt-5.4\",\"object\":\"model\",\"owned_by\":\"proxy\"}],\"object\":\"list\"}"
    );
    assert_eq!(parse_model_ids(body.as_bytes()).unwrap(), vec!["gpt-5.4".to_string()]);
}

#[test]
fn blank_override_models_stand_for_none() {
    let access_key = access_key_with_override("  ");
    let supplier = supplier_with_override("\t");
    assert_eq!(effective_override_model(&access_key, &supplier), None);
    let trimmed = supplier_with_override(" gpt-5.5 ");
    assert_eq!(effective_override_model(&access_key, &trimmed), Some("gpt-5.5"));
}

#[test]
fn names_of_protocols_lead_back() {
    for mode in [ProtocolMode::Chat, ProtocolMode::Responses, ProtocolMode::Both] {
        assert_eq!(ProtocolMode::from_str(mode.as_str()), Ok(mode));
    }
    for protocol in [TestProtocol::Chat, TestProtocol::Responses] {
        assert_eq!(TestProtocol::from_saved(protocol.as_str()), Some(protocol));
        assert_eq!(
            OpenAiEndpoint::from_path(protocol.endpoint().path()),
            Some(protocol.endpoint())
        );
    }
    assert_eq!(
        ProtocolMode::from_str("Chat"),
        Err("protocol_mode must be chat, responses, or both".to_string())
    );
    assert_eq!(
        TestProtocol::from_str("both"),
        Err("protocol must be chat or responses".to_string())
    );
    assert_eq!(TestProtocol::from_saved(""), None);
    assert_eq!(OpenAiEndpoint::from_path("/v1/models"), None);
}

#[test]
fn converted_body_is_exact() {
    let body = br#"{"messages":[],"max_completion_tokens":7,"max_tokens":9,"stop":"x","n":2}"#;
    let converted = chat_request_to_responses(body).unwrap();
    assert_eq!(
        String::from_utf8(converted).unwrap(),
        "{\"input\":[],\"max_output_tokens\":7,\"stop\":\"x\"}"
    );
}

#[test]
fn requests_that_cannot_be_converted_are_refused() {
    assert_eq!(
        chat_request_to_responses(b"[]"),
        Err("Chat Completions request must be a JSON object".to_string())
    );
    assert_eq!(
        chat_request_to_responses(b"{}"),
        Err("Chat Completions request is missing messages".to_string())
    );
    assert!(chat_request_to_responses(b"{")
        .unwrap_err()
        .starts_with("invalid Chat Completions request JSON: EOF"));
    assert_eq!(
        responses_request_to_chat(b"1").err(),
        Some("Responses request must be a JSON object".to_string())
    );
    assert_eq!(
        responses_request_to_chat(b"{}").err(),
        Some("Responses request is missing input".to_string())
    );
    assert!(responses_request_to_chat(b"x")
        .err()
        .unwrap()
        .starts_with("invalid Responses request JSON: "));
    assert!(override_model_in_body(b"x", "m")
        .unwrap_err()
        .starts_with("invalid request JSON: "));
    assert!(chat_response_to_responses(b"x", None)
        .unwrap_err()
        .starts_with("invalid Chat Completions response JSON: "));
    assert!(responses_response_to_chat(b"x")
        .unwrap_err()
        .starts_with("invalid Responses response JSON: "));
}

#[test]
fn direct_bodies_are_unchanged() {
    let body = b"not json at all";
    let request = transform_request_body(body, ConversionMode::Direct).unwrap();
    assert_eq!(request.body, body.to_vec());
    assert!(request.bridge_context.responses_tool_context.is_none());
    let context = BridgeContext::default();
    assert_eq!(
        transform_response_body(body, ConversionMode::Direct, &context),
        Ok(body.to_vec())
    );
}

#[test]
fn stream_is_asked_for_by_true_alone() {
    assert!(is_stream_request(br#"{"stream":true}"#));
    assert!(!is_stream_request(br#"{"stream":false}"#));
    assert!(!is_stream_request(br#"{"stream":"true"}"#));
    assert!(!is_stream_request(b"{}"));
    assert!(!is_stream_request(b"oops"));
}

#[test]
fn tools_of_one_name_get_names_of_their_own() {
    let tools = parse_json(
        br#"[
            {"type":"function","name":"run","strict":true},
            {"type":"custom","name":"run"},
            {"type":"namespace","name":"ns","tools":[
                {"name":"run"},{"name":"run"},{"description":"nameless"},7]},
            {"type":"tool_search"},
            {"type":"function"},
            {"type":"unknown","name":"x"},
            "text"
        ]"#,
    )
    .unwrap();
    let context = build_responses_tool_context(Some(&tools));
    let names: Vec<&str> = context
        .chat_name_to_spec
        .iter()
        .map(|entry| entry.0.as_str())
        .collect();
    assert_eq!(names, vec!["run", "run_2", "ns.run", "ns.run_2", "tool_search"]);
    assert_eq!(context.chat_tools.len(), 5);
    assert_eq!(
        context.spec_for("run_2").map(|found| found.kind),
        Some(ResponsesToolKind::Custom)
    );
    assert!(context.spec_for("ns").is_none());
    assert_eq!(chat_tool_name_for_response_tool(&context, "run", None), "run");
    assert_eq!(
        chat_tool_name_for_response_tool(&context, "run", Some("ns")),
        "ns.run_2"
    );
    assert_eq!(
        chat_tool_name_for_response_tool(&context, "walk", Some("ns")),
        "ns.walk"
    );
    assert_eq!(chat_tool_name_for_response_tool(&context, "walk", None), "walk");
    assert_eq!(
        json_to_string(&context.chat_tools[0]),
        Ok("{\"name\":\"run\",\"strict\":true,\"type\":\"function\"}".to_string())
    );
}

#[test]
fn input_items_become_messages() {
    let body = br#"{
        "input":[
            {"type":"message","role":"developer","content":[{"type":"input_text","text":"be kind"}]},
            {"role":"user","content":[{"type":"input_image","image_url":"http://x/y.png"},"z"]},
            {"type":"function_call","name":"f","call_id":"c1","arguments":{"a":1}},
            {"type":"custom_tool_call","name":"g","id":"c2","input":"ls"},
            {"type":"tool_search_call","query":"q"},
            {"type":"function_call_output","call_id":"c1","output":{"ok":true}},
            {"type":"reasoning"},
            5
        ],
        "tool_choice":{"type":"namespace","name":"ns","tool":"t"}
    }"#;
    let converted = value(&responses_request_to_chat(body).unwrap().body);
    let messages = converted["messages"].as_array().unwrap();
    assert_eq!(messages.len(), 6);
    assert_eq!(messages[0]["role"], "system");
    assert_eq!(messages[0]["content"][0]["type"], "text");
    assert_eq!(messages[0]["content"][0]["text"], "be kind");
    assert_eq!(messages[1]["content"][0]["image_url"]["url"], "http://x/y.png");
    assert_eq!(messages[1]["content"][1], "z");
    let calls = messages[2]["tool_calls"].as_array().unwrap();
    assert_eq!(messages[2]["role"], "assistant");
    assert_eq!(calls.len(), 3);
    assert_eq!(calls[0]["function"]["arguments"], "{\"a\":1}");
    assert_eq!(calls[1]["id"], "c2");
    assert_eq!(calls[1]["function"]["arguments"], "{\"input\":\"ls\"}");
    assert_eq!(calls[2]["id"], "call_0");
    assert_eq!(calls[2]["function"]["name"], "tool_search");
    assert_eq!(calls[2]["function"]["arguments"], "{\"query\":\"q\"}");
    assert_eq!(messages[3]["role"], "tool");
    assert_eq!(messages[3]["content"], "{\"ok\":true}");
    assert_eq!(messages[4]["role"], "user");
    assert_eq!(messages[4]["content"]["type"], "reasoning");
    assert_eq!(messages[5]["content"], 5);
    assert_eq!(converted["tool_choice"]["function"]["name"], "ns.t");
}

#[test]
fn calls_come_back_as_they_were_sent() {
    let request = br#"{
        "input":[{"type":"function_call","namespace":"ns","name":"f","call_id":"c1","arguments":"{}"}],
        "tools":[{"type":"namespace","name":"ns","tools":[{"name":"f"}]},{"type":"tool_search"}]
    }"#;
    let converted = transform_request_body(request, ConversionMode::ResponsesToChat).unwrap();
    let sent = value(&converted.body);
    let call = &sent["messages"][0]["tool_calls"][0];
    assert_eq!(call["function"]["name"], "ns.f");
    let answer = format!(
        "{{\"choices\":[{{\"message\":{{\"content\":\"a\",\"tool_calls\":[{call},{{\"function\":{{\"name\":\"tool_search\",\"arguments\":\"{{\\\"query\\\":1}}\"}}}}]}}}}]}}"
    );
    let back = value(
        &transform_response_body(
            answer.as_bytes(),
            ConversionMode::ResponsesToChat,
            &converted.bridge_context,
        )
        .unwrap(),
    );
    assert_eq!(back["id"], "resp_proxy");
    assert_eq!(back["output"][0]["content"][0]["text"], "a");
    assert_eq!(back["output"][1]["type"], "function_call");
    assert_eq!(back["output"][1]["name"], "f");
    assert_eq!(back["output"][1]["namespace"], "ns");
    assert_eq!(back["output"][1]["call_id"], "c1");
    assert_eq!(back["output"][1]["arguments"], "{}");
    assert_eq!(back["output"][2]["type"], "tool_search_call");
    assert_eq!(back["output"][2]["query"], 1);
    assert_eq!(back["usage"], Value::Null);
}

#[test]
fn text_and_counts_survive_both_ways() {
    let chat = br#"{"choices":[{"message":{"content":[{"text":"he"},"llo",3]}}],"usage":{"prompt_tokens":2}}"#;
    let there = chat_response_to_responses(chat, None).unwrap();
    let back = value(&responses_response_to_chat(&there).unwrap());
    assert_eq!(back["choices"][0]["message"]["content"], "hello");
    assert_eq!(back["usage"]["prompt_tokens"], 2);
    assert_eq!(back["usage"]["completion_tokens"], 0);
    assert_eq!(back["id"], "resp_proxy");

    let responses = br#"{"output":[{"content":[{"type":"output_text","text":"a"},{"type":"refusal","text":"b"}]},{"content":[{"type":"output_text","text":"c"}]}]}"#;
    let chat = value(&responses_response_to_chat(responses).unwrap());
    assert_eq!(chat["choices"][0]["message"]["content"], "ac");
    assert_eq!(chat["id"], "chatcmpl_proxy");
}

#[test]
fn model_ids_are_listed_once() {
    let body = br#"{"data":[{"id":"b"},{"id":"a"},{"id":"b"},{"name":"x"},3]}"#;
    assert_eq!(
        parse_model_ids(body),
        Ok(vec!["b".to_string(), "a".to_string()])
    );
    assert_eq!(
        parse_model_ids(b"{}"),
        Err("models response missing data".to_string())
    );
    assert!(parse_model_ids(b"<html>")
        .unwrap_err()
        .starts_with("invalid models response JSON: "));
}

#[test]
fn test_requests_say_hi() {
    assert_eq!(
        String::from_utf8(test_request_body(TestProtocol::Chat, "m").unwrap()).unwrap(),
        "{\"messages\":[{\"content\":\"hi\",\"role\":\"user\"}],\"model\":\"m\"}"
    );
    assert_eq!(
        String::from_utf8(test_request_body(TestProtocol::Responses, "m").unwrap()).unwrap(),
        "{\"input\":\"hi\",\"model\":\"m\"}"
    );
}

#[test]
fn json_values_are_read_and_written() {
    let text = "{\"a\":[null,true,-1,1.5,\"\\u00e9\"],\"b\":{}}";
    let json = parse_json(text.as_bytes()).unwrap();
    assert_eq!(
        json_to_string(&json),
        Ok("{\"a\":[null,true,-1,1.5,\"é\"],\"b\":{}}".to_string())
    );
    assert_eq!(json_to_string(&json.clone()), json_to_string(&json));
}

#[test]
fn name_of_a_tool_is_given_out_once() {
    let mut context = ResponsesToolContext::default();
    let mut name = |base: &str| unique_chat_tool_name(&mut context, base.to_string());
    assert_eq!(name("run"), "run");
    assert_eq!(name("run"), "run_2");
    assert_eq!(name("run_3"), "run_3");
    assert_eq!(name("run"), "run_4");
    assert_eq!(name("run_2"), "run_2_2");
    assert_eq!(
        context.seen_chat_names,
        vec!["run", "run_2", "run_3", "run_4", "run_2_2"]
    );
    assert!(context.chat_tools.is_empty());
    assert!(context.chat_name_to_spec.is_empty());
}
