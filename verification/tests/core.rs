//! JSON, text, messages, errors, tools and structured output.

use harness::codec::{parse, parse_bytes, render, render_pretty};
use harness::error::{ModelError, ToolError};
use harness::history::{decode_history, decode_message, encode_history, encode_message};
use harness::http::{check_status, read_payload, success};
use harness::json::Json;
use harness::message::{Content, Message, Role};
use harness::model::{
    generate_step, Request, Response, StopReason, StreamEvent, ToolChoice, ToolSpec, Usage,
};
use harness::structured::{Structured, StructuredStep, STRUCTURED_OUTPUT_TOOL};
use harness::text::{decimal, join, trim, trim_end};
use harness::tool::{IntoToolOutput, ToolContext, ToolOutput};

fn json(text: &str) -> Json {
    parse(text).unwrap()
}

fn use_response(id: &str, name: &str, input: Json) -> Response {
    Response {
        message: Message {
            role: Role::Assistant,
            content: vec![Content::ToolUse { id: id.into(), name: name.into(), input }],
        },
        stop_reason: StopReason::ToolUse,
        usage: Usage::default(),
    }
}

#[test]
fn documents_round_trip() {
    for text in [
        "null",
        "true",
        "[]",
        "{}",
        "\"a \\\"quoted\\\" \\u00e9 text\"",
        "[18446744073709551615,-9223372036854775808,0]",
        "{\"a\":{\"b\":[1,{\"c\":null}]},\"d\":\"e\"}",
    ] {
        let doc = json(text);
        assert_eq!(parse(&render(&doc)).unwrap(), doc);
        assert_eq!(parse_bytes(render_pretty(&doc).as_bytes()).unwrap(), doc);
    }
    assert_eq!(render(&json(" { \"b\" : 1 , \"a\" : [ ] } ")), "{\"a\":[],\"b\":1}");
    assert_eq!(render_pretty(&json("{\"a\":[1]}")), "{\n  \"a\": [\n    1\n  ]\n}");
    assert_eq!(parse("{").unwrap_err(), "EOF while parsing an object at line 1 column 1");
    assert_eq!(parse_bytes(b"[1").unwrap_err(), "EOF while parsing a list at line 1 column 2");
}

#[test]
fn nesting_is_read_up_to_its_limit() {
    let deep = |n: usize| format!("{}{}", "[".repeat(n), "]".repeat(n));
    assert!(parse(&deep(127)).is_ok());
    assert!(parse(&deep(128)).is_err());
}

#[test]
fn documents_are_looked_up_like_maps() {
    let doc = Json::object().with("a", Json::integer(1)).with("a", Json::text("x"));
    assert_eq!(doc.at("a"), &Json::text("x"));
    assert_eq!(doc.at("b"), &Json::Null);
    assert!(doc.get("b").is_none());
    assert!(doc.is_object());
    assert_eq!(render(&doc), "{\"a\":\"x\"}");
    assert_eq!(Json::Null.with("a", Json::Null), Json::Null);
    assert_eq!(Json::text("s").at("a"), &Json::Null);
    assert_eq!(json("[3,4]").head().unwrap().as_u64(), Some(3));
    assert!(json("[]").head().is_none());
    assert_eq!(json("-1").as_u64(), None);
    assert_eq!(json("1.5").as_u64(), None);
    assert_eq!(json("1.5").count(), 0);
    assert_eq!(Json::integer(u64::MAX).as_u64(), Some(u64::MAX));
    assert_eq!(json("true").as_bool(), Some(true));
    assert_eq!(json("1").as_bool(), None);
    assert_eq!(json("7").text_or_empty(), "");
    assert_eq!(json("[1,2]").as_array().unwrap().len(), 2);
}

#[test]
fn documents_are_equal_whatever_the_order_of_entries() {
    let a = Json::object().with("x", Json::integer(1)).with("y", Json::integer(2));
    let b = Json::object().with("y", Json::integer(2)).with("x", Json::integer(1));
    assert_eq!(a, b);
    assert_ne!(a, b.with("z", Json::Null));
    assert_ne!(json("1"), json("1.0"));
    let copy = json("[1.5,{\"k\":-3}]").clone();
    assert_eq!(copy, json("[1.5,{\"k\":-3}]"));
}

#[test]
fn white_space_is_trimmed_as_std_does() {
    for n in 0..=0x10ffffu32 {
        if let Some(c) = char::from_u32(n) {
            let s = format!("{c}a{c}b{c}");
            assert_eq!(trim(&s), s.trim());
        }
    }
    assert_eq!(trim(" \t\n"), "");
    assert_eq!(trim_end("a//b///", '/'), "a//b");
    assert_eq!(trim_end("//", '/'), "");
    assert_eq!(join(&vec!["a".to_string(), String::new(), "b".to_string()], ", "), "a, , b");
    assert_eq!(join(&vec![], ", "), "");
    for n in [0, 7, 10, 4096, u64::MAX] {
        assert_eq!(decimal(n), n.to_string());
    }
}

#[test]
fn messages_give_their_text_and_their_calls() {
    let message = Message {
        role: Role::Assistant,
        content: vec![
            Content::Text { text: "a".into() },
            Content::ToolUse { id: "1".into(), name: "f".into(), input: Json::Null },
            Content::Thinking { thinking: "t".into() },
            Content::Text { text: "b".into() },
            Content::ToolUse { id: "2".into(), name: "g".into(), input: Json::object() },
        ],
    };
    assert_eq!(message.text(), "ab");
    let uses = message.tool_uses();
    assert_eq!(uses.len(), 2);
    assert_eq!((uses[1].0, uses[1].1), ("2", "g"));
    assert_eq!(Message::user("x").role, Role::User);
    assert_eq!(Message::assistant("x").text(), "x");
}

#[test]
fn histories_come_back_from_json() {
    let messages = vec![
        Message::user("hello"),
        Message {
            role: Role::Assistant,
            content: vec![
                Content::Thinking { thinking: "hm".into() },
                Content::ToolUse { id: "t".into(), name: "f".into(), input: json("{\"a\":[1,2]}") },
            ],
        },
        Message {
            role: Role::User,
            content: vec![Content::ToolResult {
                tool_use_id: "t".into(),
                content: "ok".into(),
                is_error: false,
            }],
        },
    ];
    assert_eq!(decode_history(&encode_history(&messages, 3)).unwrap(), messages);
    assert_eq!(decode_history(&encode_history(&messages, 1)).unwrap(), messages[..1].to_vec());
    assert_eq!(
        encode_message(&messages[0]),
        json(r#"{"role": "user", "content": [{"type": "text", "text": "hello"}]}"#)
    );
    assert!(decode_message(&json(r#"{"role": "system", "content": []}"#)).is_none());
    assert!(decode_message(&json(r#"{"role": "user"}"#)).is_none());
    assert!(decode_message(&json(r#"{"role": "user", "content": [{"type": "tool_use", "id": "i", "name": "n"}]}"#)).is_none());
    assert!(decode_history(&json("{}")).is_none());
    assert!(decode_history(&json("[1]")).is_none());
}

#[test]
fn retryable_errors_may_go_away() {
    let api = |status| ModelError::Api { status, message: "m".into() };
    assert!(ModelError::Http("x".into()).is_retryable());
    assert!(ModelError::Stream("x".into()).is_retryable());
    assert!(!ModelError::Deserialize("x".into()).is_retryable());
    for status in [408, 429, 500, 503, 999] {
        assert!(api(status).is_retryable());
    }
    for status in [0, 400, 401, 404, 409, 428, 430, 499] {
        assert!(!api(status).is_retryable());
    }
    assert_eq!(ModelError::Http("x".into()).words(), "http error: x");
    assert_eq!(api(404).words(), "api error (status 404): m");
    assert_eq!(ModelError::Stream("x".into()).words(), "stream error: x");
    assert_eq!(
        ModelError::Deserialize("x".into()).words(),
        "failed to deserialize model output: x"
    );
    assert_eq!(ToolError::InvalidInput("x".into()).words(), "invalid tool input: x");
    assert_eq!(ToolError::Execution("x".into()).words(), "x");
}

#[test]
fn io_failures_become_tool_failures() {
    let error = std::io::Error::new(std::io::ErrorKind::Other, "disk on fire");
    let error: ToolError = error.into();
    assert!(matches!(error, ToolError::Execution(_)));
    assert_eq!(error.words(), "disk on fire");
}

#[test]
fn usage_adds_up() {
    let mut usage = Usage { input_tokens: 1, output_tokens: 2 };
    let more = Usage { input_tokens: 10, output_tokens: 20 };
    assert!(usage.can_add(more));
    usage.add(more);
    assert_eq!(usage, Usage { input_tokens: 11, output_tokens: 22 });
    assert!(!usage.can_add(Usage { input_tokens: u64::MAX, output_tokens: 0 }));
    assert!(!usage.can_add(Usage { input_tokens: 0, output_tokens: u64::MAX }));
}

#[test]
fn tool_outputs_are_made_of_many_things() {
    assert_eq!(
        "x".into_tool_output(),
        ToolOutput { content: "x".into(), is_error: false }
    );
    assert_eq!(String::from("y").into_tool_output(), ToolOutput::text("y".into()));
    assert_eq!(().into_tool_output(), ToolOutput::text("ok".into()));
    assert_eq!(json("{\"a\": 1}").into_tool_output(), ToolOutput::text("{\"a\":1}".into()));
    let error = ToolOutput::error("no".into());
    assert!(error.is_error);
    assert_eq!(error.clone().into_tool_output(), error);
    let ctx = ToolContext { cwd: std::path::PathBuf::from("/tmp") };
    assert_eq!(ctx.clone().cwd, ctx.cwd);
    assert_eq!(ctx.cwd.to_str(), Some("/tmp"));
}

#[test]
fn draining_gives_the_first_settling_item() {
    let completed = || use_response("a", "f", Json::Null);
    assert!(generate_step(Some(Ok(StreamEvent::TextDelta("x".into())))).is_none());
    assert!(generate_step(Some(Ok(StreamEvent::ThinkingDelta("x".into())))).is_none());
    assert_eq!(
        generate_step(Some(Ok(StreamEvent::Completed(completed())))).unwrap().unwrap(),
        completed()
    );
    match generate_step(Some(Err(ModelError::Http("down".into())))).unwrap().unwrap_err() {
        ModelError::Http(words) => assert_eq!(words, "down"),
        other => panic!("expected an http error, got {other:?}"),
    }
    match generate_step(None).unwrap().unwrap_err() {
        ModelError::Stream(words) => assert_eq!(words, "stream ended without a Completed event"),
        other => panic!("expected a stream error, got {other:?}"),
    }
}

#[test]
fn generate_as_deserializes_and_repairs() {
    // The value is there where `total_cents` is a number.
    let validate = |input: &Json| match (input.at("customer").as_str(), input.at("total_cents").as_u64()) {
        (Some(customer), Some(total)) => Ok((customer.to_string(), total)),
        _ => Err("invalid type: string \"12\", expected u64"),
    };
    // First response: schema-invalid (total_cents is a string). Second: valid.
    let bad = use_response(
        "s1",
        STRUCTURED_OUTPUT_TOOL,
        json(r#"{"customer": "ACME", "total_cents": "12"}"#),
    );
    let good = use_response(
        "s2",
        STRUCTURED_OUTPUT_TOOL,
        json(r#"{"customer": "ACME", "total_cents": 1200}"#),
    );
    let req = Request {
        messages: vec![Message::user("bill ACME $12")],
        ..Default::default()
    };
    let mut seen: Vec<Request> = Vec::new();
    let (mut call, first) = Structured::begin(req, json(r#"{"type": "object"}"#));
    seen.push(first);
    let mut script = vec![good, bad];
    let invoice = loop {
        let StructuredStep::Validate(input) = call.on_response(script.pop().unwrap()) else {
            panic!("expected an output to validate");
        };
        match validate(&input) {
            Ok(value) => break value,
            Err(e) => {
                assert!(call.is_validating());
                match call.on_invalid(e) {
                    StructuredStep::Generate(request) => seen.push(request),
                    other => panic!("expected a repair, got {other:?}"),
                }
            }
        }
    };
    assert_eq!(invoice, ("ACME".to_string(), 1200));

    // The repair round-trip carried the validation error back to the model.
    assert_eq!(seen.len(), 2);
    let repair_req = &seen[1];
    assert_eq!(repair_req.messages.len(), 3);
    let last = repair_req.messages.last().unwrap();
    match &last.content[0] {
        Content::ToolResult { tool_use_id, content, is_error } => {
            assert!(*is_error);
            assert_eq!(tool_use_id, "s1");
            assert!(content.contains("schema validation"));
            assert_eq!(
                content,
                "Output failed schema validation: invalid type: string \"12\", expected u64. \
                 Call emit_structured_output again with corrected arguments."
            );
        }
        other => panic!("expected repair tool result, got {other:?}"),
    }
    // The synthetic tool was forced since the request had no other tools.
    assert!(seen[0].tool_choice.is_some());
    assert_eq!(
        seen[0].tool_choice,
        Some(ToolChoice::Tool("emit_structured_output".into()))
    );
    assert_eq!(seen[0].tools.len(), 1);
}

#[test]
fn structured_output_is_not_forced_beside_other_tools() {
    let tool = ToolSpec { name: "f".into(), description: "d".into(), input_schema: Json::Null };
    let req = Request { tools: vec![tool.clone()], ..Default::default() };
    let (mut call, first) = Structured::begin(req, Json::object());
    assert_eq!(first.tool_choice, None);
    assert_eq!(first.tools.len(), 2);
    assert_eq!(first.tools[0], tool);
    assert_eq!(first.tools[1].name, STRUCTURED_OUTPUT_TOOL);
    // A reply without the output is sent back twice, and then it is over.
    for turn in 1..=2 {
        match call.on_response(use_response("x", "f", Json::Null)) {
            StructuredStep::Generate(request) => {
                assert_eq!(request.messages.len(), 2 * turn);
                assert_eq!(
                    request.messages.last().unwrap().text(),
                    "You must provide the final answer by calling the emit_structured_output tool."
                );
            }
            other => panic!("expected a repair, got {other:?}"),
        }
        assert!(!call.is_validating());
    }
    match call.on_response(use_response("x", "f", Json::Null)) {
        StructuredStep::Fail(ModelError::Deserialize(words)) => {
            assert_eq!(words, "model never produced structured output")
        }
        other => panic!("expected a failure, got {other:?}"),
    }
}

#[test]
fn invalid_output_is_repaired_at_most_twice() {
    let (mut call, _) = Structured::begin(Request::default(), Json::object());
    for _ in 0..2 {
        call.on_response(use_response("s", STRUCTURED_OUTPUT_TOOL, Json::Null));
        assert!(matches!(call.on_invalid("bad"), StructuredStep::Generate(_)));
    }
    call.on_response(use_response("s", STRUCTURED_OUTPUT_TOOL, Json::Null));
    match call.on_invalid("bad") {
        StructuredStep::Fail(ModelError::Deserialize(words)) => assert_eq!(
            words,
            "structured output failed validation after 2 repairs: bad"
        ),
        other => panic!("expected a failure, got {other:?}"),
    }
}

#[test]
fn statuses_outside_two_hundred_are_errors() {
    assert!(success(200) && success(299));
    assert!(!success(199) && !success(300));
    assert!(check_status(204, String::new()).is_ok());
    match check_status(529, "overloaded".into()).unwrap_err() {
        ModelError::Api { status, message } => {
            assert_eq!((status, message.as_str()), (529, "overloaded"))
        }
        other => panic!("expected an api error, got {other:?}"),
    }
}

#[test]
fn payloads_are_read_or_refused() {
    assert_eq!(read_payload(Ok(json("1"))).unwrap(), json("1"));
    match read_payload(Err("odd".into())).unwrap_err() {
        ModelError::Stream(words) => assert_eq!(words, "bad SSE payload: odd"),
        other => panic!("expected a stream error, got {other:?}"),
    }
}
