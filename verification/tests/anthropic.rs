//! The Messages API.

use harness::anthropic::client::Anthropic;
use harness::anthropic::convert::{
    message_to_wire, parse_content_block, parse_response, parse_stop_reason, parse_usage, to_body,
};
use harness::anthropic::sse::{decode, Assembler};
use harness::codec::{parse, render};
use harness::error::ModelError;
use harness::json::Json;
use harness::message::{Content, Message, Role};
use harness::model::{
    Request, Response, StopReason, StreamEvent, ToolChoice, ToolSpec, Usage,
};

fn json(text: &str) -> Json {
    parse(text).unwrap()
}

fn feed(assembler: &mut Assembler, text: &str) -> Result<Vec<StreamEvent>, ModelError> {
    let event = json(text);
    assert!(assembler.accepts(&event));
    assembler.handle(event)
}

#[test]
fn assembles_text_and_tool_use_from_event_sequence() {
    let mut assembler = Assembler::default();
    let events = vec![
        r#"{"type": "message_start", "message": {"usage": {"input_tokens": 25}}}"#,
        r#"{"type": "content_block_start", "index": 0, "content_block": {"type": "text", "text": ""}}"#,
        r#"{"type": "content_block_delta", "index": 0, "delta": {"type": "text_delta", "text": "I'll check"}}"#,
        r#"{"type": "content_block_delta", "index": 0, "delta": {"type": "text_delta", "text": " the weather."}}"#,
        r#"{"type": "content_block_stop", "index": 0}"#,
        r#"{"type": "content_block_start", "index": 1, "content_block": {"type": "tool_use", "id": "tu_1", "name": "get_weather", "input": {}}}"#,
        r#"{"type": "content_block_delta", "index": 1, "delta": {"type": "input_json_delta", "partial_json": "{\"city\":"}}"#,
        r#"{"type": "content_block_delta", "index": 1, "delta": {"type": "input_json_delta", "partial_json": "\"Tokyo\"}"}}"#,
        r#"{"type": "content_block_stop", "index": 1}"#,
        r#"{"type": "message_delta", "delta": {"stop_reason": "tool_use"}, "usage": {"output_tokens": 12}}"#,
        r#"{"type": "message_stop"}"#,
    ];

    let mut text = String::new();
    let mut completed = None;
    for ev in events {
        for out in feed(&mut assembler, ev).unwrap() {
            match out {
                StreamEvent::TextDelta(t) => text.push_str(&t),
                StreamEvent::Completed(r) => completed = Some(r),
                _ => {}
            }
        }
    }

    assert_eq!(text, "I'll check the weather.");
    let resp: Response = completed.expect("message_stop must yield Completed");
    assert_eq!(resp.stop_reason, StopReason::ToolUse);
    assert_eq!(resp.usage.input_tokens, 25);
    assert_eq!(resp.usage.output_tokens, 12);
    assert_eq!(resp.message.content.len(), 2);
    match &resp.message.content[1] {
        Content::ToolUse { id, name, input } => {
            assert_eq!(id, "tu_1");
            assert_eq!(name, "get_weather");
            assert_eq!(input.at("city"), &Json::text("Tokyo"));
        }
        other => panic!("expected tool use, got {other:?}"),
    }
    assert_eq!(resp.message.text(), text);
}

#[test]
fn error_event_fails_the_stream() {
    let mut assembler = Assembler::default();
    let err = feed(
        &mut assembler,
        r#"{"type": "error", "error": {"type": "overloaded_error"}}"#,
    )
    .unwrap_err();
    assert!(matches!(err, ModelError::Api { .. }));
    match err {
        ModelError::Api { status, message } => {
            assert_eq!(status, 0);
            assert_eq!(message, r#"{"type":"overloaded_error"}"#);
        }
        other => panic!("expected an api error, got {other:?}"),
    }
}

#[test]
fn streamed_answer_is_the_whole_answer() {
    let value = json(
        r#"{"content": [
            {"type": "thinking", "thinking": "hm, yes"},
            {"type": "text", "text": "hello"},
            {"type": "tool_use", "id": "t", "name": "f", "input": {"a": [1, null]}}
        ], "stop_reason": "max_tokens", "usage": {"input_tokens": 3, "output_tokens": 4}}"#,
    );
    let whole = parse_response(&value).unwrap();
    let mut assembler = Assembler::default();
    let mut completed = None;
    for ev in [
        r#"{"type": "message_start", "message": {"usage": {"input_tokens": 3}}}"#,
        r#"{"type": "content_block_start", "index": 0, "content_block": {"type": "thinking", "thinking": ""}}"#,
        r#"{"type": "content_block_delta", "index": 0, "delta": {"type": "thinking_delta", "thinking": "hm, "}}"#,
        r#"{"type": "content_block_delta", "index": 0, "delta": {"type": "thinking_delta", "thinking": "yes"}}"#,
        r#"{"type": "content_block_stop", "index": 0}"#,
        r#"{"type": "content_block_start", "index": 1, "content_block": {"type": "text", "text": ""}}"#,
        r#"{"type": "ping"}"#,
        r#"{"type": "content_block_delta", "index": 1, "delta": {"type": "text_delta", "text": "hello"}}"#,
        r#"{"type": "content_block_stop", "index": 1}"#,
        r#"{"type": "content_block_start", "index": 2, "content_block": {"type": "tool_use", "id": "t", "name": "f", "input": {}}}"#,
        r#"{"type": "content_block_delta", "index": 2, "delta": {"type": "input_json_delta", "partial_json": "{\"a\": [1,"}}"#,
        r#"{"type": "content_block_delta", "index": 2, "delta": {"type": "input_json_delta", "partial_json": " null]}"}}"#,
        r#"{"type": "content_block_stop", "index": 2}"#,
        r#"{"type": "message_delta", "delta": {"stop_reason": "max_tokens"}, "usage": {"output_tokens": 4}}"#,
        r#"{"type": "message_stop"}"#,
    ] {
        for out in feed(&mut assembler, ev).unwrap() {
            if let StreamEvent::Completed(r) = out {
                completed = Some(r);
            }
        }
    }
    assert_eq!(completed.unwrap(), whole);
}

#[test]
fn odd_events_are_taken_as_they_come() {
    let mut assembler = Assembler::default();
    // A block may stand far out.
    let out = feed(
        &mut assembler,
        r#"{"type": "content_block_start", "index": 2, "content_block": {"type": "tool_use", "id": "t", "name": "f"}}"#,
    )
    .unwrap();
    assert_eq!(
        out,
        vec![StreamEvent::ToolUseStart { id: "t".into(), name: "f".into() }]
    );
    // Text for a block that is not text is handed on and not kept.
    let out = feed(
        &mut assembler,
        r#"{"type": "content_block_delta", "index": 2, "delta": {"type": "text_delta", "text": "x"}}"#,
    )
    .unwrap();
    assert_eq!(out, vec![StreamEvent::TextDelta("x".into())]);
    // No input at all is an empty object.
    assert_eq!(
        feed(&mut assembler, r#"{"type": "content_block_delta", "index": 2, "delta": {"type": "input_json_delta", "partial_json": " "}}"#).unwrap(),
        vec![StreamEvent::InputJsonDelta(" ".into())]
    );
    assert!(feed(&mut assembler, r#"{"type": "content_block_stop", "index": 2}"#).unwrap().is_empty());
    // An unknown block is skipped.
    assert!(feed(
        &mut assembler,
        r#"{"type": "content_block_start", "index": 0, "content_block": {"type": "novel"}}"#
    )
    .unwrap()
    .is_empty());
    let out = feed(&mut assembler, r#"{"type": "message_stop"}"#).unwrap();
    match &out[..] {
        [StreamEvent::Completed(resp)] => {
            assert_eq!(
                resp.message.content,
                vec![Content::ToolUse { id: "t".into(), name: "f".into(), input: Json::object() }]
            );
            assert_eq!(resp.stop_reason, StopReason::EndTurn);
        }
        other => panic!("expected a completed response, got {other:?}"),
    }
    // The blocks are gone with the response.
    match &feed(&mut assembler, r#"{"type": "message_stop"}"#).unwrap()[..] {
        [StreamEvent::Completed(resp)] => assert!(resp.message.content.is_empty()),
        other => panic!("expected a completed response, got {other:?}"),
    }
}

fn complete(events: &[&str]) -> Response {
    let mut assembler = Assembler::default();
    for event in events {
        feed(&mut assembler, event).unwrap();
    }
    match &feed(&mut assembler, r#"{"type": "message_stop"}"#).unwrap()[..] {
        [StreamEvent::Completed(response)] => response.clone(),
        other => panic!("expected a completed response, got {other:?}"),
    }
}

#[test]
fn unknown_blocks_are_skipped_in_streams_too() {
    let streamed = complete(&[
        r#"{"type": "content_block_start", "index": 0, "content_block": {"type": "redacted_thinking"}}"#,
        r#"{"type": "content_block_start", "index": 1, "content_block": {"type": "text", "text": ""}}"#,
        r#"{"type": "content_block_delta", "index": 1, "delta": {"type": "text_delta", "text": "hi"}}"#,
    ]);
    assert_eq!(streamed.message.content, vec![Content::Text { text: "hi".into() }]);
    let whole = parse_response(&json(
        r#"{"content": [{"type": "redacted_thinking"}, {"type": "text", "text": "hi"}]}"#,
    ))
    .unwrap();
    assert_eq!(streamed, whole);
}

#[test]
fn streams_in_any_order_give_the_whole_answer() {
    let whole = parse_response(&json(
        r#"{"content": [
            {"type": "text", "text": "one two"},
            {"type": "novel", "text": "?"},
            {"type": "tool_use", "id": "t", "name": "f", "input": {"a": 1}},
            {"type": "thinking", "thinking": "so"},
            {"type": "tool_use", "id": "u", "name": "g", "input": {"b": 2}}
        ], "stop_reason": "end_turn", "usage": {"input_tokens": 5, "output_tokens": 9}}"#,
    ))
    .unwrap();
    let streamed = complete(&[
        r#"{"type": "ping"}"#,
        r#"{"type": "message_start", "message": {"usage": {"input_tokens": 5, "output_tokens": 1}}}"#,
        r#"{"type": "content_block_start", "index": 4, "content_block": {"type": "tool_use", "id": "u", "name": "g", "input": {"b": 2}}}"#,
        r#"{"type": "content_block_start", "index": 2, "content_block": {"type": "tool_use", "id": "t", "name": "f", "input": {}}}"#,
        r#"{"type": "content_block_delta", "index": 2, "delta": {"type": "input_json_delta", "partial_json": "{\"a\""}}"#,
        r#"{"type": "content_block_start", "index": 0, "content_block": {"type": "text", "text": "one"}}"#,
        r#"{"type": "message_delta", "delta": {"stop_reason": "tool_use"}, "usage": {"output_tokens": 6}}"#,
        r#"{"type": "content_block_start", "index": 1, "content_block": {"type": "novel"}}"#,
        r#"{"type": "content_block_delta", "index": 1, "delta": {"type": "text_delta", "text": "!"}}"#,
        r#"{"type": "content_block_delta", "index": 0, "delta": {"type": "citations_delta"}}"#,
        r#"{"type": "content_block_start", "index": 3, "content_block": {"type": "thinking", "thinking": "s"}}"#,
        r#"{"type": "content_block_delta", "index": 0, "delta": {"type": "text_delta", "text": " two"}}"#,
        r#"{"type": "content_block_delta", "index": 2, "delta": {"type": "input_json_delta", "partial_json": ": 1}"}}"#,
        r#"{"type": "content_block_delta", "index": 3, "delta": {"type": "thinking_delta", "thinking": "o"}}"#,
        r#"{"type": "content_block_stop", "index": 2}"#,
        r#"{"type": "content_block_stop", "index": 0}"#,
        r#"{"type": "surprise"}"#,
        r#"{"type": "message_delta", "delta": {"stop_reason": "end_turn"}, "usage": {"output_tokens": 2}}"#,
    ]);
    assert_eq!(streamed, whole);
}

#[test]
fn text_below_an_opened_block_is_kept() {
    let streamed = complete(&[
        // Too early: nothing has been opened.
        r#"{"type": "content_block_delta", "index": 0, "delta": {"type": "text_delta", "text": "?"}}"#,
        r#"{"type": "content_block_start", "index": 3, "content_block": {"type": "text", "text": "c"}}"#,
        r#"{"type": "content_block_delta", "index": 0, "delta": {"type": "text_delta", "text": "a"}}"#,
        r#"{"type": "content_block_delta", "index": 1, "delta": {"type": "text_delta", "text": ""}}"#,
        r#"{"type": "content_block_delta", "index": 0, "delta": {"type": "text_delta", "text": "b"}}"#,
        r#"{"type": "content_block_delta", "index": 2, "delta": {"type": "thinking_delta", "thinking": "no"}}"#,
        r#"{"type": "content_block_delta", "index": 4, "delta": {"type": "text_delta", "text": "?"}}"#,
    ]);
    assert_eq!(
        streamed.message.content,
        vec![Content::Text { text: "ab".into() }, Content::Text { text: "c".into() }]
    );
    // A block opened there later takes its place.
    let streamed = complete(&[
        r#"{"type": "content_block_start", "index": 1, "content_block": {"type": "text", "text": "b"}}"#,
        r#"{"type": "content_block_delta", "index": 0, "delta": {"type": "text_delta", "text": "x"}}"#,
        r#"{"type": "content_block_start", "index": 0, "content_block": {"type": "text", "text": "a"}}"#,
    ]);
    assert_eq!(streamed.message.text(), "ab");
}

#[test]
fn reopened_blocks_start_afresh() {
    let streamed = complete(&[
        r#"{"type": "content_block_start", "index": 0, "content_block": {"type": "text", "text": "a"}}"#,
        r#"{"type": "content_block_delta", "index": 0, "delta": {"type": "text_delta", "text": "b"}}"#,
        r#"{"type": "content_block_start", "index": 0, "content_block": {"type": "novel"}}"#,
        r#"{"type": "content_block_delta", "index": 0, "delta": {"type": "text_delta", "text": "c"}}"#,
    ]);
    assert_eq!(streamed.message.text(), "abc");
    let streamed = complete(&[
        r#"{"type": "content_block_start", "index": 0, "content_block": {"type": "text", "text": "a"}}"#,
        r#"{"type": "content_block_start", "index": 0, "content_block": {"type": "text", "text": "x"}}"#,
        r#"{"type": "content_block_delta", "index": 0, "delta": {"type": "text_delta", "text": "y"}}"#,
    ]);
    assert_eq!(streamed.message.text(), "xy");
}

#[test]
fn broken_tool_input_fails_the_stream() {
    let mut assembler = Assembler::default();
    feed(
        &mut assembler,
        r#"{"type": "content_block_start", "index": 0, "content_block": {"type": "tool_use", "id": "t", "name": "f", "input": {}}}"#,
    )
    .unwrap();
    feed(
        &mut assembler,
        r#"{"type": "content_block_delta", "index": 0, "delta": {"type": "input_json_delta", "partial_json": "{nope"}}"#,
    )
    .unwrap();
    match feed(&mut assembler, r#"{"type": "content_block_stop", "index": 0}"#).unwrap_err() {
        ModelError::Stream(words) => {
            assert!(words.starts_with("unparseable tool input JSON: key must be a string"), "{words}")
        }
        other => panic!("expected a stream error, got {other:?}"),
    }
    // The broken input is forgotten.
    assert!(feed(&mut assembler, r#"{"type": "content_block_stop", "index": 0}"#).unwrap().is_empty());
}

#[test]
fn overflowing_counts_and_the_last_index_are_not_accepted() {
    let mut assembler = Assembler::default();
    let most = format!(
        r#"{{"type": "message_delta", "delta": {{}}, "usage": {{"output_tokens": {}}}}}"#,
        u64::MAX
    );
    feed(&mut assembler, &most).unwrap();
    assert!(!assembler.accepts(&json(&most)));
    assert!(assembler.accepts(&json(
        r#"{"type": "message_delta", "usage": {"output_tokens": 0}}"#
    )));
    let last = format!(
        r#"{{"type": "content_block_start", "index": {}, "content_block": {{"type": "text"}}}}"#,
        u64::MAX
    );
    assert!(!assembler.accepts(&json(&last)));
}

#[test]
fn bodies_hold_what_the_request_holds() {
    let mut req = Request::default();
    req.messages = vec![
        Message::user("hi"),
        Message {
            role: Role::Assistant,
            content: vec![
                Content::Thinking { thinking: "secret".into() },
                Content::Text { text: "ok".into() },
                Content::ToolUse { id: "t".into(), name: "f".into(), input: json(r#"{"a":1}"#) },
            ],
        },
        Message {
            role: Role::User,
            content: vec![Content::ToolResult {
                tool_use_id: "t".into(),
                content: "42".into(),
                is_error: true,
            }],
        },
    ];
    let body = to_body(&req, "m", 8192, false);
    assert_eq!(
        body,
        json(
            r#"{"model": "m", "max_tokens": 8192, "stream": false, "messages": [
                {"role": "user", "content": [{"type": "text", "text": "hi"}]},
                {"role": "assistant", "content": [
                    {"type": "text", "text": "ok"},
                    {"type": "tool_use", "id": "t", "name": "f", "input": {"a": 1}}]},
                {"role": "user", "content": [
                    {"type": "tool_result", "tool_use_id": "t", "content": "42", "is_error": true}]}
            ]}"#
        )
    );
    assert!(!render(&body).contains("secret"));

    req.system = Some("be brief".into());
    req.temperature = Some(json("0.5"));
    req.max_tokens = 7;
    req.messages.truncate(0);
    req.tools = vec![ToolSpec {
        name: "f".into(),
        description: "d".into(),
        input_schema: json(r#"{"type": "object"}"#),
    }];
    assert_eq!(
        to_body(&req, "m", 8192, true),
        json(
            r#"{"model": "m", "max_tokens": 7, "stream": true, "messages": [], "system": "be brief",
                "temperature": 0.5,
                "tools": [{"name": "f", "description": "d", "input_schema": {"type": "object"}}]}"#
        )
    );
}

#[test]
fn bodies_hold_the_tool_choice() {
    let mut req = Request::default();
    let choice = |req: &Request| to_body(req, "m", 1, false).at("tool_choice").clone();
    assert_eq!(choice(&req), Json::Null);
    req.tool_choice = Some(ToolChoice::Auto);
    assert_eq!(choice(&req), json(r#"{"type": "auto"}"#));
    req.tool_choice = Some(ToolChoice::Any);
    assert_eq!(choice(&req), json(r#"{"type": "any"}"#));
    req.tool_choice = Some(ToolChoice::Tool("f".into()));
    assert_eq!(
        to_body(&req, "m", 1, false),
        json(
            r#"{"model": "m", "max_tokens": 1, "stream": false, "messages": [],
                "tool_choice": {"type": "tool", "name": "f"}}"#
        )
    );
}

#[test]
fn sent_blocks_come_back() {
    let blocks = [
        Content::Text { text: "x".into() },
        Content::ToolUse { id: "i".into(), name: "n".into(), input: json("[1]") },
    ];
    for block in blocks {
        let wire = message_to_wire(&Message { role: Role::User, content: vec![block.clone()] });
        let first = wire.at("content").head().unwrap();
        assert_eq!(parse_content_block(first), Some(block));
    }
}

#[test]
fn stop_reasons_have_their_names() {
    assert_eq!(parse_stop_reason(None), StopReason::EndTurn);
    assert_eq!(parse_stop_reason(Some("end_turn")), StopReason::EndTurn);
    assert_eq!(parse_stop_reason(Some("tool_use")), StopReason::ToolUse);
    assert_eq!(parse_stop_reason(Some("max_tokens")), StopReason::MaxTokens);
    assert_eq!(parse_stop_reason(Some("stop_sequence")), StopReason::StopSequence);
    assert_eq!(parse_stop_reason(Some("refusal")), StopReason::Other("refusal".into()));
}

#[test]
fn responses_without_content_are_errors() {
    match parse_response(&json("{}")).unwrap_err() {
        ModelError::Deserialize(words) => assert_eq!(words, "response missing content array"),
        other => panic!("expected a deserialize error, got {other:?}"),
    }
    let resp = parse_response(&json(r#"{"content": [{"type": "novel"}, {"type": "text"}]}"#)).unwrap();
    assert_eq!(resp.message.content, vec![Content::Text { text: String::new() }]);
    assert_eq!(resp.usage, Usage::default());
    assert_eq!(
        parse_usage(&json(r#"{"input_tokens": -1, "output_tokens": 2.5}"#)),
        Usage { input_tokens: 0, output_tokens: 0 }
    );
}

#[test]
fn sse_data_is_decoded() {
    assert!(decode("").is_none());
    assert_eq!(decode(r#"{"a": 1}"#).unwrap().unwrap(), json(r#"{"a":1}"#));
    match decode("[DONE]").unwrap().unwrap_err() {
        ModelError::Stream(words) => assert!(words.starts_with("bad SSE payload: expected value"), "{words}"),
        other => panic!("expected a stream error, got {other:?}"),
    }
}

#[test]
fn client_sends_key_and_version() {
    let client = Anthropic::new("m".into(), None, None).with_api_key("k".into());
    let call = client.request(&Request::default(), true);
    assert_eq!(call.url, "https://api.anthropic.com/v1/messages");
    assert_eq!(
        call.headers,
        vec![
            ("x-api-key".to_string(), "k".to_string()),
            ("anthropic-version".to_string(), "2023-06-01".to_string())
        ]
    );
    assert_eq!(call.body.at("max_tokens").as_u64(), Some(8192));
    assert_eq!(client.model(), "m");
    let client = Anthropic::new("m".into(), Some("e".into()), Some("http://a/".into()));
    assert_eq!(client.request(&Request::default(), false).url, "http://a//v1/messages");
    let client = client.with_base_url("http://b".into());
    assert_eq!(client.clone().request(&Request::default(), false).url, "http://b/v1/messages");
    assert_eq!(client.request(&Request::default(), false).headers[0].1, "e");
}

#[test]
fn blocks_are_closed_with_their_input() {
    let mut assembler = Assembler::default();
    let start = r#"{"type": "content_block_start", "index": 0, "content_block": {"type": "tool_use", "id": "t", "name": "f", "input": {}}}"#;
    feed(&mut assembler, start).unwrap();
    // Another block has nothing to close.
    assert!(assembler.close_block(1, Err("bad".into())).is_none());
    assert!(assembler.close_block(0, Ok(json("[7]"))).is_none());
    match &feed(&mut assembler, r#"{"type": "message_stop"}"#).unwrap()[..] {
        [StreamEvent::Completed(resp)] => assert_eq!(
            resp.message.content,
            vec![Content::ToolUse { id: "t".into(), name: "f".into(), input: json("[7]") }]
        ),
        other => panic!("expected a completed response, got {other:?}"),
    }
    feed(&mut assembler, start).unwrap();
    match assembler.close_block(0, Err("bad".into())) {
        Some(ModelError::Stream(words)) => assert_eq!(words, "unparseable tool input JSON: bad"),
        other => panic!("expected a stream error, got {other:?}"),
    }
}
