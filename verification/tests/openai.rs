//! The Chat Completions API.

use harness::codec::parse;
use harness::error::ModelError;
use harness::json::Json;
use harness::message::{Content, Message, Role};
use harness::model::{Request, StopReason, StreamEvent, ToolChoice, ToolSpec, Usage};
use harness::openai::client::OpenAi;
use harness::openai::convert::{
    function_to_wire, message_to_wire, parse_arguments, parse_call, parse_response,
    parse_stop_reason, parse_usage, read_arguments, to_body, ChunkAssembler,
};
use harness::openai::sse::decode;

fn json(text: &str) -> Json {
    parse(text).unwrap()
}

fn feed(assembler: &mut ChunkAssembler, text: &str) -> Vec<StreamEvent> {
    let chunk = json(text);
    assert!(ChunkAssembler::accepts(&chunk));
    assembler.handle(&chunk).unwrap()
}

#[test]
fn builds_wire_messages_with_tool_results_split_out() {
    let req = Request {
        system: Some("be brief".into()),
        messages: vec![
            Message::user("hi"),
            Message {
                role: Role::Assistant,
                content: vec![
                    Content::Text { text: "checking".into() },
                    Content::ToolUse { id: "t1".into(), name: "f".into(), input: json(r#"{"a": 1}"#) },
                ],
            },
            Message {
                role: Role::User,
                content: vec![Content::ToolResult {
                    tool_use_id: "t1".into(),
                    content: "42".into(),
                    is_error: true,
                }],
            },
        ],
        tools: vec![ToolSpec {
            name: "f".into(),
            description: "d".into(),
            input_schema: json(r#"{"type": "object"}"#),
        }],
        tool_choice: Some(ToolChoice::Any),
        max_tokens: 100,
        temperature: None,
        top_p: None,
        stop_sequences: vec![],
    };
    let body = to_body(&req, "test-model", false);
    let messages = body.at("messages").as_array().unwrap();

    assert_eq!(messages[0].at("role"), &Json::text("system"));
    assert_eq!(messages[1].at("role"), &Json::text("user"));
    assert_eq!(messages[2].at("role"), &Json::text("assistant"));
    assert_eq!(messages[2].at("content"), &Json::text("checking"));
    let call = messages[2].at("tool_calls").head().unwrap();
    assert_eq!(call.at("function").at("name"), &Json::text("f"));
    assert_eq!(call.at("function").at("arguments"), &Json::text("{\"a\":1}"));
    // Tool results become separate role:"tool" messages.
    assert_eq!(messages[3].at("role"), &Json::text("tool"));
    assert_eq!(messages[3].at("tool_call_id"), &Json::text("t1"));
    assert!(messages[3].at("content").as_str().unwrap().starts_with("ERROR:"));
    assert_eq!(body.at("tool_choice"), &Json::text("required"));
    let tool = body.at("tools").head().unwrap();
    assert_eq!(tool.at("function").at("name"), &Json::text("f"));
    assert_eq!(body.at("max_tokens"), &Json::integer(100));
}

#[test]
fn assembles_streamed_chunks_into_response() {
    let mut assembler = ChunkAssembler::default();
    let chunks = vec![
        r#"{"choices": [{"delta": {"content": "Let me "}}]}"#,
        r#"{"choices": [{"delta": {"content": "look."}}]}"#,
        r#"{"choices": [{"delta": {"tool_calls": [
            {"index": 0, "id": "call_9", "function": {"name": "f", "arguments": ""}}
        ]}}]}"#,
        r#"{"choices": [{"delta": {"tool_calls": [
            {"index": 0, "function": {"arguments": "{\"a\""}}
        ]}}]}"#,
        r#"{"choices": [{"delta": {"tool_calls": [
            {"index": 0, "function": {"arguments": ":1}"}}
        ]}}]}"#,
        r#"{"choices": [{"delta": {}, "finish_reason": "tool_calls"}]}"#,
        r#"{"choices": [], "usage": {"prompt_tokens": 11, "completion_tokens": 7}}"#,
    ];

    let mut text = String::new();
    let mut saw_start = false;
    for chunk in chunks {
        for ev in feed(&mut assembler, chunk) {
            match ev {
                StreamEvent::TextDelta(t) => text.push_str(&t),
                StreamEvent::ToolUseStart { id, name } => {
                    saw_start = true;
                    assert_eq!(id, "call_9");
                    assert_eq!(name, "f");
                }
                _ => {}
            }
        }
    }
    assert_eq!(text, "Let me look.");
    assert!(saw_start);

    let StreamEvent::Completed(resp) = assembler.finish().unwrap() else {
        panic!("finish must yield Completed");
    };
    assert!(assembler.finish().is_none(), "finish is idempotent");
    assert_eq!(resp.stop_reason, StopReason::ToolUse);
    assert_eq!(resp.usage.input_tokens, 11);
    assert_eq!(resp.usage.output_tokens, 7);
    assert_eq!(resp.message.text(), "Let me look.");
    match &resp.message.content[1] {
        Content::ToolUse { id, name, input } => {
            assert_eq!(id, "call_9");
            assert_eq!(name, "f");
            assert_eq!(input.at("a"), &Json::integer(1));
        }
        other => panic!("expected tool use, got {other:?}"),
    }
}

#[test]
fn parses_non_streaming_response() {
    let value = json(
        r#"{
        "choices": [{
            "message": {
                "content": "hello",
                "tool_calls": [
                    {"id": "c1", "function": {"name": "f", "arguments": "{}"}}
                ]
            },
            "finish_reason": "tool_calls"
        }],
        "usage": {"prompt_tokens": 3, "completion_tokens": 2}
    }"#,
    );
    let resp = parse_response(&value).unwrap();
    assert_eq!(resp.message.text(), "hello");
    assert_eq!(resp.stop_reason, StopReason::ToolUse);
    assert_eq!(resp.message.tool_uses().len(), 1);
    assert_eq!(resp.usage, Usage { input_tokens: 3, output_tokens: 2 });
}

#[test]
fn streamed_chunks_give_the_whole_answer() {
    let value = json(
        r#"{"choices": [{"message": {"content": "hello", "tool_calls": [
            {"id": "a", "function": {"name": "f", "arguments": "{\"x\": [1]}"}},
            {"id": "b", "function": {"name": "gg", "arguments": ""}}]},
            "finish_reason": "length"}], "usage": {"prompt_tokens": 1}}"#,
    );
    let whole = parse_response(&value).unwrap();
    let mut assembler = ChunkAssembler::default();
    feed(&mut assembler, r#"{"choices": [{"delta": {"content": "hel"}}], "usage": null}"#);
    feed(&mut assembler, r#"{"choices": [{"delta": {"content": "lo", "tool_calls": [
        {"index": 1, "id": "b", "function": {"name": "g"}},
        {"index": 0, "id": "a", "function": {"name": "f", "arguments": "{\"x\""}}]}}]}"#);
    feed(&mut assembler, r#"{"choices": [{"delta": {"tool_calls": [
        {"index": 0, "function": {"arguments": ": [1]}"}},
        {"index": 1, "function": {"name": "g"}}]}, "finish_reason": "length"}]}"#);
    feed(&mut assembler, r#"{"choices": [], "usage": {"prompt_tokens": 1}}"#);
    assert_eq!(assembler.finish(), Some(StreamEvent::Completed(whole)));
}

#[test]
fn odd_chunks_are_taken_as_they_come() {
    let mut assembler = ChunkAssembler::default();
    assert!(feed(&mut assembler, "{}").is_empty());
    // A call without an id gets one when its name comes.
    assert_eq!(
        feed(&mut assembler, r#"{"choices": [{"delta": {"tool_calls": [{"index": 1, "function": {"name": "f", "arguments": "[3]"}}]}}]}"#),
        vec![
            StreamEvent::ToolUseStart { id: "call_1".into(), name: "f".into() },
            StreamEvent::InputJsonDelta("[3]".into())
        ]
    );
    feed(&mut assembler, r#"{"choices": [{"delta": {"tool_calls": [{"index": 1, "function": {"arguments": ""}}]}}]}"#);
    let Some(StreamEvent::Completed(resp)) = assembler.finish() else {
        panic!("finish must yield Completed");
    };
    assert_eq!(
        resp.message.content,
        vec![
            Content::ToolUse { id: "call_0".into(), name: String::new(), input: Json::object() },
            Content::ToolUse { id: "call_1".into(), name: "f".into(), input: json("[3]") },
        ]
    );
    assert_eq!(resp.stop_reason, StopReason::EndTurn);
    let far = format!(
        r#"{{"choices": [{{"delta": {{"tool_calls": [{{"index": {}}}]}}}}]}}"#,
        u64::MAX
    );
    assert!(!ChunkAssembler::accepts(&json(&far)));
}

#[test]
fn broken_arguments_fail_the_stream_as_they_fail_the_answer() {
    let chunk = r#"{"choices": [{"delta": {"content": "x", "tool_calls": [
        {"index": 0, "id": "a", "function": {"name": "f", "arguments": "{}"}},
        {"index": 1, "id": "b", "function": {"name": "g", "arguments": "{bad"}}]}}]}"#;
    let whole = parse_response(&json(
        r#"{"choices": [{"message": {"content": "x", "tool_calls": [
            {"id": "a", "function": {"name": "f", "arguments": "{}"}},
            {"id": "b", "function": {"name": "g", "arguments": "{bad"}}]}}]}"#,
    ))
    .unwrap_err();
    let mut assembler = ChunkAssembler::default();
    feed(&mut assembler, chunk);
    match (assembler.end().unwrap().unwrap_err(), whole) {
        (ModelError::Deserialize(words), ModelError::Deserialize(other)) => {
            assert!(words.starts_with("unparseable tool arguments: key must be a string"), "{words}");
            assert_eq!(words, other);
        }
        other => panic!("expected deserialize errors, got {other:?}"),
    }
    assert!(assembler.end().is_none());
    assert!(assembler.finish().is_none());
    let mut assembler = ChunkAssembler::default();
    feed(&mut assembler, chunk);
    assert!(assembler.finish().is_none(), "there is nothing to complete");
    assert!(assembler.end().is_none());
}

#[test]
fn ids_are_those_given_or_made_of_the_index() {
    // No id, an empty one, and one that comes after the name.
    let value = json(
        r#"{"choices": [{"message": {"tool_calls": [
            {"function": {"name": "f", "arguments": "{}"}},
            {"id": "", "function": {"name": "g", "arguments": "{}"}},
            {"id": "late", "function": {"name": "h", "arguments": "{}"}}]}}]}"#,
    );
    let mut assembler = ChunkAssembler::default();
    let mut started = vec![];
    for chunk in [
        r#"{"choices": [{"delta": {"tool_calls": [
            {"index": 0, "function": {"name": ""}},
            {"index": 1, "id": "", "function": {"name": "g"}},
            {"index": 2, "function": {"name": "h", "arguments": "{"}}]}}]}"#,
        r#"{"choices": [{"delta": {"tool_calls": [
            {"index": 0, "function": {"name": "f", "arguments": "{}"}},
            {"index": 1, "function": {"arguments": "{}"}},
            {"index": 2, "id": "late", "function": {"name": "", "arguments": "}"}}]}}]}"#,
    ] {
        started.extend(
            feed(&mut assembler, chunk)
                .into_iter()
                .filter(|event| matches!(event, StreamEvent::ToolUseStart { .. })),
        );
    }
    let start = |id: &str, name: &str| StreamEvent::ToolUseStart { id: id.into(), name: name.into() };
    assert_eq!(started, vec![start("", "g"), start("call_2", "h"), start("call_0", "f")]);
    let whole = parse_response(&value).unwrap();
    assert_eq!(
        whole.message.content[1],
        Content::ToolUse { id: String::new(), name: "g".into(), input: Json::object() }
    );
    assert_eq!(assembler.finish(), Some(StreamEvent::Completed(whole)));
}

#[test]
fn a_later_empty_id_changes_nothing() {
    let mut assembler = ChunkAssembler::default();
    let mut events = vec![];
    for chunk in [
        r#"{"choices": [{"delta": {"tool_calls": [
            {"index": 0, "id": "a", "function": {"name": "f"}},
            {"index": 1, "function": {"name": "g"}},
            {"index": 2, "id": "c"}]}}]}"#,
        r#"{"choices": [{"delta": {"tool_calls": [
            {"index": 0, "id": ""},
            {"index": 1, "id": ""},
            {"index": 2, "id": "", "function": {"name": "h"}}]}}]}"#,
    ] {
        events.extend(feed(&mut assembler, chunk));
    }
    let start = |id: &str, name: &str| StreamEvent::ToolUseStart { id: id.into(), name: name.into() };
    assert_eq!(events, vec![start("a", "f"), start("call_1", "g"), start("c", "h")]);
    let Some(StreamEvent::Completed(resp)) = assembler.finish() else {
        panic!("finish must yield Completed");
    };
    let call = |id: &str, name: &str| Content::ToolUse {
        id: id.into(),
        name: name.into(),
        input: Json::object(),
    };
    assert_eq!(
        resp.message.content,
        vec![call("a", "f"), call("call_1", "g"), call("c", "h")]
    );
}

#[test]
fn streams_hand_on_what_comes_in_order() {
    let mut assembler = ChunkAssembler::default();
    assert_eq!(
        feed(&mut assembler, r#"{"choices": [{"delta": {"content": "a", "tool_calls": [
            {"index": 0, "id": "x", "function": {"name": "f", "arguments": "1"}},
            {"index": 0, "id": "y", "function": {"name": "g", "arguments": "2"}}]}}]}"#),
        vec![
            StreamEvent::TextDelta("a".into()),
            StreamEvent::ToolUseStart { id: "x".into(), name: "f".into() },
            StreamEvent::InputJsonDelta("1".into()),
            StreamEvent::InputJsonDelta("2".into()),
        ]
    );
    assert!(feed(&mut assembler, r#"{"choices": [{"delta": {"content": "", "tool_calls": [
        {"index": 0, "function": {"arguments": ""}}]}}]}"#).is_empty());
    let Some(StreamEvent::Completed(resp)) = assembler.finish() else {
        panic!("finish must yield Completed");
    };
    assert_eq!(
        resp.message.content[1],
        Content::ToolUse { id: "y".into(), name: "fg".into(), input: json("12") }
    );
}

#[test]
fn bodies_hold_all_options() {
    let mut req = Request::default();
    assert_eq!(
        to_body(&req, "m", true),
        json(r#"{"model": "m", "messages": [], "stream": true, "stream_options": {"include_usage": true}}"#)
    );
    req.temperature = Some(json("0.25"));
    req.top_p = Some(json("1"));
    req.stop_sequences = vec!["a".into(), "b".into()];
    req.tool_choice = Some(ToolChoice::Tool("f".into()));
    assert_eq!(
        to_body(&req, "m", false),
        json(
            r#"{"model": "m", "messages": [], "stream": false, "temperature": 0.25, "top_p": 1,
                "stop": ["a", "b"], "tool_choice": {"type": "function", "function": {"name": "f"}}}"#
        )
    );
    req.tool_choice = Some(ToolChoice::Auto);
    assert_eq!(to_body(&req, "m", false).at("tool_choice"), &Json::text("auto"));
}

#[test]
fn messages_are_split_as_the_dialect_wants() {
    let wires = message_to_wire(&Message {
        role: Role::User,
        content: vec![
            Content::Text { text: "a".into() },
            Content::ToolResult { tool_use_id: "t".into(), content: "ok".into(), is_error: false },
            Content::Thinking { thinking: "no".into() },
            Content::Text { text: "b".into() },
        ],
    });
    assert_eq!(
        wires,
        vec![
            json(r#"{"role": "tool", "tool_call_id": "t", "content": "ok"}"#),
            json(r#"{"role": "user", "content": "ab"}"#),
        ]
    );
    assert_eq!(
        message_to_wire(&Message { role: Role::Assistant, content: vec![] }),
        vec![json(r#"{"role": "assistant", "content": null}"#)]
    );
    assert!(message_to_wire(&Message { role: Role::User, content: vec![] }).is_empty());
}

#[test]
fn finish_reasons_have_their_names() {
    assert_eq!(parse_stop_reason(None), StopReason::EndTurn);
    assert_eq!(parse_stop_reason(Some("stop")), StopReason::EndTurn);
    assert_eq!(parse_stop_reason(Some("tool_calls")), StopReason::ToolUse);
    assert_eq!(parse_stop_reason(Some("length")), StopReason::MaxTokens);
    assert_eq!(parse_stop_reason(Some("content_filter")), StopReason::Other("content_filter".into()));
    assert_eq!(
        parse_usage(&json(r#"{"prompt_tokens": 5}"#)),
        Usage { input_tokens: 5, output_tokens: 0 }
    );
}

#[test]
fn broken_responses_are_errors() {
    match parse_response(&json(r#"{"choices": []}"#)).unwrap_err() {
        ModelError::Deserialize(words) => assert_eq!(words, "response has no choices"),
        other => panic!("expected a deserialize error, got {other:?}"),
    }
    let value = json(
        r#"{"choices": [{"message": {"tool_calls": [
            {"function": {"name": "f", "arguments": " "}},
            {"function": {"name": "f", "arguments": "{"}}]}}]}"#,
    );
    match parse_response(&value).unwrap_err() {
        ModelError::Deserialize(words) => {
            assert!(words.starts_with("unparseable tool arguments: EOF"), "{words}")
        }
        other => panic!("expected a deserialize error, got {other:?}"),
    }
    assert_eq!(parse_arguments("\n").unwrap(), Json::object());
    assert_eq!(parse_arguments("[2]").unwrap(), json("[2]"));
    let resp = parse_response(&json(
        r#"{"choices": [{"message": {"content": "", "tool_calls": [{"function": {}}]}}]}"#,
    ))
    .unwrap();
    assert_eq!(
        resp.message.content,
        vec![Content::ToolUse { id: "call_0".into(), name: String::new(), input: Json::object() }]
    );
}

#[test]
fn data_is_decoded_up_to_the_closing_mark() {
    assert!(decode("  \n").is_none());
    assert!(decode(" [DONE] ").is_none());
    assert_eq!(decode(" [1] ").unwrap().unwrap(), json("[1]"));
    match decode("[DONE").unwrap().unwrap_err() {
        ModelError::Stream(words) => assert!(words.starts_with("bad SSE payload: "), "{words}"),
        other => panic!("expected a stream error, got {other:?}"),
    }
}

#[test]
fn client_trims_its_base_url() {
    let client = OpenAi::new("gpt".into(), Some("k".into()), None);
    let call = client.request(&Request::default(), false);
    assert_eq!(call.url, "https://api.openai.com/v1/chat/completions");
    assert_eq!(call.headers, vec![("authorization".to_string(), "Bearer k".to_string())]);
    assert_eq!(client.model_id(), "gpt");
    let client = client
        .with_base_url("http://localhost:11434/v1//".into())
        .with_api_key("ollama".into());
    let call = client.clone().request(&Request::default(), false);
    assert_eq!(call.url, "http://localhost:11434/v1/chat/completions");
    assert_eq!(call.headers[0].1, "Bearer ollama");
    // A base URL of the environment is taken as it is.
    let client = OpenAi::new("gpt".into(), None, Some("http://h/".into()));
    assert_eq!(client.request(&Request::default(), false).url, "http://h//chat/completions");
}

#[test]
fn calls_go_over_the_wire_and_back() {
    let wire = function_to_wire("i", "n", "{}");
    assert_eq!(
        wire,
        json(r#"{"id": "i", "type": "function", "function": {"name": "n", "arguments": "{}"}}"#)
    );
    assert_eq!(
        parse_call(&wire, 3, json("[1]")),
        Content::ToolUse { id: "i".into(), name: "n".into(), input: json("[1]") }
    );
    assert_eq!(
        parse_call(&json("{}"), 12, Json::Null),
        Content::ToolUse { id: "call_12".into(), name: String::new(), input: Json::Null }
    );
    assert_eq!(read_arguments(Ok(json("2"))).unwrap(), json("2"));
    match read_arguments(Err("odd".into())).unwrap_err() {
        ModelError::Deserialize(words) => assert_eq!(words, "unparseable tool arguments: odd"),
        other => panic!("expected a deserialize error, got {other:?}"),
    }
}
