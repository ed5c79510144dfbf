//! The agent: runs, batches, sessions, compaction, delegation.

use std::collections::VecDeque;
use std::path::PathBuf;
use std::time::Duration;

use harness::agent::batch::{route, tool_output};
use harness::agent::call::{CallStep, ModelCall};
use harness::agent::checkpoint::{
    read_checkpoint, read_document, write_checkpoint, FileCheckpointer, FileFailure,
    MemoryCheckpointer,
};
use harness::agent::compaction::{
    ask_for_summary, estimate_tokens, summary_message, Compaction, Plan,
};
use harness::agent::delegate::AgentTool;
use harness::agent::event::{
    consumer_dropped, AgentError, AgentEvent, CheckpointError, Decision, RunResult, ToolCall,
};
use harness::agent::middleware::ToolNext;
use harness::agent::run::{Command, Input, Reaction, Run};
use harness::agent::settings::{Agent, AgentBuilder, RetryPolicy, ToolEntry};
use harness::agent::wait::{wait_step, WaitStep};
use harness::codec::parse;
use harness::error::{ModelError, ToolError};
use harness::json::Json;
use harness::message::{Content, Message, Role};
use harness::model::{Request, Response, StopReason, StreamEvent, ToolSpec, Usage};
use harness::tool::ToolOutput;

fn json(text: &str) -> Json {
    parse(text).unwrap()
}

fn tool_use_response(calls: &[(&str, &str, Json)]) -> Response {
    Response {
        message: Message {
            role: Role::Assistant,
            content: calls
                .iter()
                .map(|(id, name, input)| Content::ToolUse {
                    id: id.to_string(),
                    name: name.to_string(),
                    input: input.clone(),
                })
                .collect(),
        },
        stop_reason: StopReason::ToolUse,
        usage: Usage { input_tokens: 10, output_tokens: 5 },
    }
}

fn text_response(text: &str) -> Response {
    Response {
        message: Message::assistant(text),
        stop_reason: StopReason::EndTurn,
        usage: Usage { input_tokens: 20, output_tokens: 7 },
    }
}

fn entry(name: &str, needs_approval: bool) -> ToolEntry {
    ToolEntry {
        advertised: ToolSpec {
            name: name.into(),
            description: format!("about {name}"),
            input_schema: Json::object(),
        },
        needs_approval,
    }
}

fn builder() -> AgentBuilder {
    Agent::builder().model()
}

type Item = Result<StreamEvent, ModelError>;

/// The world around a run: a scripted model, tools, a human, a store.
struct World<'a> {
    streams: VecDeque<Vec<Item>>,
    requests: Vec<Request>,
    tool: Box<dyn FnMut(&ToolCall) -> Result<ToolOutput, ToolError> + 'a>,
    decide: Box<dyn FnMut(&AgentEvent) -> Option<Decision> + 'a>,
    prepare: Box<dyn FnMut(Request) -> Request + 'a>,
    store: MemoryCheckpointer,
    saves: usize,
    slept: Vec<Duration>,
    concurrent: Vec<Vec<String>>,
    /// Whether the last call to start is the first to finish.
    backwards: bool,
}

impl<'a> World<'a> {
    fn new(script: Vec<Response>) -> World<'a> {
        World::streaming(
            script
                .into_iter()
                .map(|resp| {
                    let mut events: Vec<Item> = Vec::new();
                    let text = resp.message.text();
                    if !text.is_empty() {
                        events.push(Ok(StreamEvent::TextDelta(text)));
                    }
                    events.push(Ok(StreamEvent::Completed(resp)));
                    events
                })
                .collect(),
        )
    }

    fn streaming(streams: Vec<Vec<Item>>) -> World<'a> {
        World {
            streams: streams.into(),
            requests: Vec::new(),
            tool: Box::new(|call| match call.name.as_str() {
                "echo" => Ok(ToolOutput::text(format!(
                    "echo: {}",
                    call.input.at("text").text_or_empty()
                ))),
                "gated_echo" => Ok(ToolOutput::text(format!(
                    "ran: {}",
                    call.input.at("text").text_or_empty()
                ))),
                _ => Err(ToolError::Execution("broken".into())),
            }),
            decide: Box::new(|_| None),
            prepare: Box::new(|req| req),
            store: MemoryCheckpointer::new(),
            saves: 0,
            slept: Vec::new(),
            concurrent: Vec::new(),
            backwards: false,
        }
    }

    fn drive(
        &mut self,
        agent: &Agent,
        start: (Run, Reaction),
    ) -> (Vec<AgentEvent>, Result<(), AgentError>) {
        let (mut run, mut reaction) = start;
        let mut events: Vec<AgentEvent> = Vec::new();
        let mut stream: VecDeque<Item> = VecDeque::new();
        let mut running: VecDeque<(usize, ToolOutput)> = VecDeque::new();
        loop {
            events.extend(reaction.events);
            let input = match reaction.command {
                Command::Load(session) => Input::Loaded(Ok(self.store.load(&session))),
                Command::Save { session, messages } => {
                    self.saves += 1;
                    self.store.save(&session, &messages);
                    Input::Saved(Ok(()))
                }
                Command::Prepare(request) => Input::Prepared((self.prepare)(request)),
                Command::Stream(request) => {
                    self.requests.push(request);
                    stream = self.streams.pop_front().expect("script exhausted").into();
                    Input::Pulled(stream.pop_front())
                }
                Command::Pull => Input::Pulled(stream.pop_front()),
                Command::Sleep(delay) => {
                    self.slept.push(delay);
                    Input::Slept
                }
                Command::RunTools(calls) => {
                    self.concurrent.push(calls.iter().map(|(_, c)| c.id.clone()).collect());
                    for (index, call) in calls {
                        running.push_back((index, self.run_tool(agent, &call)));
                    }
                    self.finished(&mut running)
                }
                Command::AwaitOutput => self.finished(&mut running),
                Command::AwaitDecision => {
                    Input::Decided((self.decide)(events.last().expect("a request")))
                }
                Command::RunTool(call) => Input::ToolRan(self.run_tool(agent, &call)),
                Command::Finish(outcome) => return (events, outcome),
            };
            assert!(run.accepts(&input));
            reaction = run.step(input);
        }
    }

    fn finished(&self, running: &mut VecDeque<(usize, ToolOutput)>) -> Input {
        let (index, output) = if self.backwards {
            running.pop_back().expect("a running call")
        } else {
            running.pop_front().expect("a running call")
        };
        Input::ToolFinished { index, output }
    }

    fn run_tool(&mut self, agent: &Agent, call: &ToolCall) -> ToolOutput {
        match route(&agent.tools, call) {
            Ok(_) => tool_output((self.tool)(call)),
            Err(output) => output,
        }
    }
}

fn done(events: &[AgentEvent]) -> RunResult {
    match events.last() {
        Some(AgentEvent::Done(result)) => result.clone(),
        other => panic!("expected the run to be done, got {other:?}"),
    }
}

#[test]
fn runs_tool_loop_to_completion() {
    let mut world = World::new(vec![
        tool_use_response(&[("t1", "echo", json(r#"{"text": "hi"}"#))]),
        text_response("all done"),
    ]);
    let agent = builder().system("test agent".into()).tool(entry("echo", false)).build();

    let (events, outcome) = world.drive(&agent, agent.run(vec![], "please echo hi"));
    assert!(outcome.is_ok());
    let result = done(&events);

    assert_eq!(result.final_text, "all done");
    assert_eq!(result.turns, 2);
    assert_eq!(result.usage.input_tokens, 30);
    assert_eq!(result.usage.output_tokens, 12);
    // user, assistant(tool_use), user(tool_result), assistant(text)
    assert_eq!(result.messages.len(), 4);
    match &result.messages[2].content[0] {
        Content::ToolResult { content, is_error, .. } => {
            assert_eq!(content, "echo: hi");
            assert!(!is_error);
        }
        other => panic!("expected tool result, got {other:?}"),
    }
    assert_eq!(world.requests[0].system.as_deref(), Some("test agent"));
    assert_eq!(world.requests[0].tools.len(), 1);
    assert_eq!(world.requests[1].messages.len(), 3);
    assert!(matches!(&events[0], AgentEvent::ToolCallStarted { id, .. } if id == "t1"));
    assert!(matches!(&events[1], AgentEvent::ToolCallFinished { id, .. } if id == "t1"));
    assert!(matches!(&events[2], AgentEvent::TextDelta(t) if t == "all done"));
}

#[test]
fn approval_denial_is_reported_to_the_model() {
    let mut world = World::new(vec![
        tool_use_response(&[("t1", "destroy", json("{}"))]),
        text_response("understood"),
    ]);
    let mut saw_approval = false;
    world.tool = Box::new(|_| panic!("a denied call must not run"));
    world.decide = Box::new(|event| match event {
        AgentEvent::AwaitingApproval(req) => {
            assert_eq!(req.name, "destroy");
            saw_approval = true;
            Some(Decision::Deny(Some("too dangerous".into())))
        }
        other => panic!("expected a request, got {other:?}"),
    });
    let agent = builder().tool(entry("destroy", true)).build();
    let (events, _) = world.drive(&agent, agent.run(vec![], "destroy everything"));
    assert_eq!(done(&events).final_text, "understood");
    drop(world);
    assert!(saw_approval, "approval request never surfaced");
    let mut denied_output = None;
    for event in &events {
        if let AgentEvent::ToolCallFinished { output, .. } = event {
            denied_output = Some(output);
        }
    }
    let output = denied_output.expect("tool call never finished");
    assert!(output.is_error);
    assert_eq!(output.content, "too dangerous");
}

#[test]
fn unknown_tool_becomes_error_result() {
    let mut world = World::new(vec![
        tool_use_response(&[("t1", "nonexistent", json("{}"))]),
        text_response("recovered"),
    ]);
    let agent = builder().tool(entry("echo", false)).build();
    let (events, _) = world.drive(&agent, agent.run(vec![], "go"));
    let result = done(&events);
    match &result.messages[2].content[0] {
        Content::ToolResult { content, is_error, .. } => {
            assert!(is_error);
            assert!(content.contains("unknown tool"));
            assert_eq!(content, "unknown tool: nonexistent");
        }
        other => panic!("expected tool result, got {other:?}"),
    }
    assert_eq!(result.final_text, "recovered");
}

#[test]
fn run_session_persists_and_reloads_history() {
    let agent = builder().checkpointer().build();
    let mut world = World::new(vec![text_response("first answer"), text_response("second answer")]);

    let (events, _) = world.drive(&agent, agent.run_session("s1", "first question"));
    assert_eq!(done(&events).messages.len(), 2);
    // Once before the call and once after it.
    assert_eq!(world.saves, 2);

    // A new run of the same store continues the session.
    let (events, _) = world.drive(&agent, agent.run_session("s1", "second question"));
    let r2 = done(&events);
    assert_eq!(r2.messages.len(), 4, "history reloaded from checkpoint");
    assert_eq!(r2.messages[0].text(), "first question");
    assert_eq!(r2.messages[3].text(), "second answer");

    let stored = world.store.load("s1").unwrap();
    assert_eq!(stored.len(), 4);
    assert!(world.store.load("s2").is_none());
}

#[test]
fn file_checkpointer_round_trips_and_survives_hostile_ids() {
    let cp = FileCheckpointer::new(PathBuf::from("/var/sessions"));
    let messages = vec![
        Message::user("hello"),
        Message {
            role: Role::Assistant,
            content: vec![Content::ToolUse {
                id: "t1".into(),
                name: "bash".into(),
                input: json(r#"{"command": "ls"}"#),
            }],
        },
    ];
    // What is stored is kept by path, as a disk does.
    let mut disk: std::collections::HashMap<PathBuf, String> = Default::default();
    let read = |disk: &std::collections::HashMap<PathBuf, String>, session: &str| {
        FileCheckpointer::load(match disk.get(&cp.path(session)) {
            Some(data) => Ok(data.clone().into_bytes()),
            None => Err(FileFailure::NotFound),
        })
    };
    let plan = cp.save("weird/../id with spaces", &messages);
    assert_eq!(plan.dir, PathBuf::from("/var/sessions"));
    disk.insert(plan.temp.clone(), plan.data);
    assert!(read(&disk, "weird/../id with spaces").unwrap().is_none());
    let data = disk.remove(&plan.temp).unwrap();
    disk.insert(plan.path, data);
    let loaded = read(&disk, "weird/../id with spaces").unwrap().unwrap();
    assert_eq!(loaded, messages);
    assert!(read(&disk, "missing").unwrap().is_none());
    disk.remove(&cp.path("weird/../id with spaces"));
    assert!(FileCheckpointer::delete(Ok(())).is_ok());
    assert!(FileCheckpointer::delete(Err(FileFailure::NotFound)).is_ok());
    assert!(read(&disk, "weird/../id with spaces").unwrap().is_none());
    assert_eq!(
        cp.path("weird/../id with spaces"),
        PathBuf::from("/var/sessions/weird%00002f%00002e%00002e%00002fid%000020with%000020spaces.json")
    );
    assert_eq!(
        cp.temp_path("weird/../id with spaces"),
        PathBuf::from("/var/sessions/weird%00002f%00002e%00002e%00002fid%000020with%000020spaces.json.tmp")
    );
    assert_ne!(cp.path("missing"), cp.path("weird/../id with spaces"));
    assert_eq!(cp.dir(), &PathBuf::from("/var/sessions"));
}

#[test]
fn checkpoint_names_are_plain() {
    let cp = FileCheckpointer::new(PathBuf::from("d"));
    for session in ["", ".", "..", "/", "a.json", "a.json.tmp", "é", "A-z_9", "c:\\x"] {
        let path = cp.path(session);
        assert_eq!(path.parent(), Some(PathBuf::from("d").as_path()), "{session}");
        let temp = cp.temp_path(session);
        assert_eq!(temp.parent(), Some(PathBuf::from("d").as_path()), "{session}");
        assert!(temp.to_str().unwrap().ends_with(".json.tmp"));
        assert_ne!(path, temp);
    }
    assert_eq!(cp.path("A-z_9"), PathBuf::from("d/A-z_9.json"));
    assert_eq!(cp.path(""), PathBuf::from("d/.json"));
    assert_eq!(cp.temp_path(""), PathBuf::from("d/.json.json.tmp"));
    assert_eq!(cp.path("é"), PathBuf::from("d/%0000e9.json"));
    assert_eq!(cp.path("\u{10ffff}%"), PathBuf::from("d/%10ffff%000025.json"));
    assert_eq!(cp.temp_path("a.b"), PathBuf::from("d/a%00002eb.json.tmp"));
}

#[test]
fn sessions_have_their_own_files() {
    let cp = FileCheckpointer::new(PathBuf::from("d"));
    let sessions = [
        "", "_", "a_b", "a/b", "a b", "a.b", "a%b", "a%00002fb", "%00002f", "/", "//", "é", "e",
    ];
    for (i, a) in sessions.iter().enumerate() {
        for b in &sessions[i + 1..] {
            assert_ne!(cp.path(a), cp.path(b), "{a} and {b}");
            assert_ne!(cp.temp_path(a), cp.path(b));
            assert_ne!(cp.temp_path(b), cp.path(a));
        }
    }
}

#[test]
fn broken_checkpoints_are_errors() {
    match read_checkpoint(b"[{").unwrap_err() {
        CheckpointError::Serde(words) => assert!(words.starts_with("EOF while parsing"), "{words}"),
        other => panic!("expected a serialization error, got {other:?}"),
    }
    let error = read_checkpoint(b"{}").unwrap_err();
    assert!(matches!(error, CheckpointError::Serde(_)));
    assert!(error.words().starts_with("checkpoint serialization: "));
    assert_eq!(CheckpointError::Io("x".into()).words(), "checkpoint io: x");
    assert_eq!(read_checkpoint(b"[]").unwrap(), vec![]);
    let denied = || FileFailure::Other("denied".into());
    assert_eq!(
        FileCheckpointer::load(Err(denied())).unwrap_err(),
        CheckpointError::Io("denied".into())
    );
    assert_eq!(
        FileCheckpointer::delete(Err(denied())).unwrap_err(),
        CheckpointError::Io("denied".into())
    );
    assert!(matches!(
        FileCheckpointer::load(Ok(b"{".to_vec())),
        Err(CheckpointError::Serde(_))
    ));
}

#[test]
fn checkpoints_hold_deep_inputs_up_to_the_limit() {
    let history = |n: usize| {
        let mut input = Json::Null;
        for _ in 0..n {
            input = Json::array(vec![input]);
        }
        vec![Message {
            role: Role::Assistant,
            content: vec![Content::ToolUse { id: "t".into(), name: "f".into(), input }],
        }]
    };
    let deep = history(123);
    assert_eq!(read_checkpoint(write_checkpoint(&deep).as_bytes()).unwrap(), deep);
    let text = write_checkpoint(&history(124));
    assert!(matches!(read_checkpoint(text.as_bytes()), Err(CheckpointError::Serde(_))));
}

#[test]
fn copies_say_the_same() {
    let result = RunResult {
        messages: vec![Message::user("x")],
        final_text: "t".into(),
        usage: Usage::default(),
        turns: 1,
    };
    let events = vec![
        AgentEvent::TextDelta("a".into()),
        AgentEvent::ThinkingDelta("b".into()),
        AgentEvent::ToolCallStarted { id: "i".into(), name: "n".into(), input: json("[1]") },
        AgentEvent::ToolCallFinished {
            id: "i".into(),
            name: "n".into(),
            output: ToolOutput::error("e".into()),
        },
        AgentEvent::Done(result),
    ];
    for event in &events {
        assert_eq!(&event.clone(), event);
    }
    for decision in [
        Decision::Approve,
        Decision::Edit(json("{}")),
        Decision::Deny(None),
        Decision::Deny(Some("no".into())),
    ] {
        assert_eq!(decision.clone(), decision);
    }
}

#[test]
fn memory_checkpointer_keeps_sessions_apart() {
    let mut cp = MemoryCheckpointer::default();
    cp.save("a", &vec![Message::user("1")]);
    cp.save("b", &vec![Message::user("2")]);
    cp.save("a", &vec![Message::user("3"), Message::user("4")]);
    assert_eq!(cp.load("a").unwrap().len(), 2);
    assert_eq!(cp.load("b").unwrap()[0].text(), "2");
    cp.delete("a");
    assert!(cp.load("a").is_none());
    assert!(cp.load("b").is_some());
}

#[test]
fn run_session_without_checkpointer_fails_with_config_error() {
    let agent = builder().build();
    let (events, outcome) = World::new(vec![]).drive(&agent, agent.run_session("s", "hi"));
    assert!(events.is_empty());
    let err = outcome.unwrap_err();
    assert!(matches!(err, AgentError::Config(_)));
    assert_eq!(err.words(), "configuration error: run_session requires a checkpointer");
}

#[test]
fn storage_failures_end_the_run() {
    let agent = builder().checkpointer().build();
    let (mut run, reaction) = agent.run_session("s", "hi");
    assert!(matches!(&reaction.command, Command::Load(session) if session == "s"));
    let input = Input::Loaded(Err(CheckpointError::Io("gone".into())));
    assert!(run.accepts(&input));
    assert!(!run.accepts(&Input::Slept));
    match run.step(input).command {
        Command::Finish(Err(AgentError::Checkpoint(error))) => assert_eq!(error.words(), "checkpoint io: gone"),
        other => panic!("expected the run to fail, got {other:?}"),
    }
    let (mut run, _) = agent.run_session("s", "hi");
    let reaction = run.step(Input::Loaded(Ok(None)));
    assert!(matches!(&reaction.command, Command::Save { messages, .. } if messages.len() == 1));
    let reaction = run.step(Input::Saved(Err(CheckpointError::Io("full".into()))));
    assert!(matches!(reaction.command, Command::Finish(Err(AgentError::Checkpoint(_)))));
    assert!(!run.accepts(&Input::Saved(Ok(()))));
}

#[test]
fn every_append_is_saved_before_the_run_proceeds() {
    let agent = builder().checkpointer().tool(entry("echo", false)).build();
    let (mut run, _) = agent.run_session("s", "hi");
    assert!(matches!(run.step(Input::Loaded(Ok(None))).command, Command::Save { .. }));
    assert!(matches!(run.step(Input::Saved(Ok(()))).command, Command::Prepare(_)));
    assert!(matches!(run.step(Input::Prepared(Request::default())).command, Command::Stream(_)));
    let reply = tool_use_response(&[("t", "echo", Json::object())]);
    let reaction = run.step(Input::Pulled(Some(Ok(StreamEvent::Completed(reply)))));
    assert!(matches!(&reaction.command, Command::Save { messages, .. } if messages.len() == 2));
    let reaction = run.step(Input::Saved(Ok(())));
    assert!(matches!(&reaction.command, Command::RunTools(calls) if calls.len() == 1));
    let output = ToolOutput::text("x".into());
    let reaction = run.step(Input::ToolFinished { index: 0, output });
    assert!(matches!(&reaction.command, Command::Save { messages, .. } if messages.len() == 3));
    assert!(matches!(run.step(Input::Saved(Ok(()))).command, Command::Prepare(_)));
}

#[test]
fn history_alternates_and_rounds_come_in_order() {
    let agent = builder().tool(entry("free", false)).tool(entry("held", true)).build();
    let calls = [
        ("h1", "held", Json::object()),
        ("f1", "free", Json::object()),
        ("h2", "held", Json::object()),
        ("f2", "free", Json::object()),
    ];
    let reply = tool_use_response(&calls);
    let last = text_response("all done");
    let given = vec![Message::user("before"), Message::assistant("yes")];
    let (mut run, _) = agent.run(given.clone(), "go");
    run.step(Input::Prepared(Request::default()));
    let output = |text: &str| ToolOutput::text(text.into());
    let mut events = vec![];
    for input in [
        Input::Pulled(Some(Ok(StreamEvent::Completed(reply.clone())))),
        Input::ToolFinished { index: 3, output: output("f2") },
        Input::ToolFinished { index: 1, output: output("f1") },
        Input::Decided(Some(Decision::Deny(None))),
        Input::Decided(Some(Decision::Approve)),
        Input::ToolRan(output("h2")),
    ] {
        assert!(run.accepts(&input));
        events.extend(run.step(input).events);
    }
    let said: Vec<String> = events
        .iter()
        .map(|event| match event {
            AgentEvent::ToolCallStarted { id, .. } => format!("start {id}"),
            AgentEvent::ToolCallFinished { id, .. } => format!("finish {id}"),
            AgentEvent::AwaitingApproval(request) => format!("ask {}", request.id),
            other => panic!("unexpected event {other:?}"),
        })
        .collect();
    assert_eq!(
        said,
        [
            "start h1", "start f1", "start h2", "start f2", "finish f2", "finish f1", "ask h1",
            "finish h1", "ask h2", "finish h2",
        ]
    );
    run.step(Input::Prepared(Request::default()));
    let reaction = run.step(Input::Pulled(Some(Ok(StreamEvent::Completed(last.clone())))));
    let result = |id: &str, content: &str, is_error: bool| Content::ToolResult {
        tool_use_id: id.into(),
        content: content.into(),
        is_error,
    };
    let answer = Message {
        role: Role::User,
        content: vec![
            result("h1", "denied by user", true),
            result("f1", "f1", false),
            result("h2", "h2", false),
            result("f2", "f2", false),
        ],
    };
    let mut expected = given;
    expected.extend([Message::user("go"), reply.message, answer, last.message]);
    assert_eq!(done(&reaction.events).messages, expected);
}

fn summarize_with(compaction: &mut Compaction, request: Request, calls: &mut u32, text: &str) -> Request {
    match compaction.plan(request) {
        Plan::Send(request) => request,
        Plan::Summarize { request, ask, split } => {
            *calls += 1;
            assert_eq!(ask.messages.len(), 1);
            assert!(ask.system.unwrap().starts_with("You compress agent conversation history."));
            compaction.on_summary(request, split, Ok(text_response(text)))
        }
    }
}

#[test]
fn compaction_summarizes_old_history_and_caches() {
    // Enough long history to blow a tiny budget.
    let mut history: Vec<Message> = Vec::new();
    for i in 0..20 {
        history.push(Message::user(&format!("question {i}: {}", "x".repeat(400))));
        history.push(Message::assistant(&format!("answer {i}: {}", "y".repeat(400))));
    }
    let summarizer_calls = std::cell::Cell::new(0);
    // Budget low enough that the long history triggers compaction,
    // high enough that the compacted suffix keeps fitting on the next
    // run, so the cached summary is reused.
    let mut compaction = Compaction::new(2000).keep_recent(4);
    let mut world = World::new(vec![text_response("done 1"), text_response("done 2")]);
    world.prepare = Box::new(|req| {
        let mut calls = summarizer_calls.get();
        let req = summarize_with(&mut compaction, req, &mut calls, "SUMMARY OF OLD WORK");
        summarizer_calls.set(calls);
        req
    });
    let agent = builder().build();

    let (events, _) = world.drive(&agent, agent.run(history, "next task"));
    let r1 = done(&events);
    assert_eq!(summarizer_calls.get(), 1);
    // Second run over the grown history: same split point, cached summary.
    let (events, _) = world.drive(&agent, agent.run(r1.messages, "another task"));
    assert_eq!(done(&events).messages.len(), 44);
    for request in &world.requests {
        assert_eq!(
            request.messages[0].text(),
            "[Summary of earlier conversation]\nSUMMARY OF OLD WORK"
        );
    }
    assert_eq!(summarizer_calls.get(), 1, "summary should be cached for an unchanged split point");
}

#[test]
fn compaction_rewrites_request_but_not_canonical_history() {
    let mut history = Vec::new();
    for i in 0..30 {
        history.push(Message::user(&format!("q{i} {}", "x".repeat(300))));
        history.push(Message::assistant(&format!("a{i} {}", "y".repeat(300))));
    }
    let original_len = history.len();
    let mut calls = 0;
    let mut compaction = Compaction::new(300).keep_recent(4);
    let mut world = World::new(vec![text_response("ok")]);
    world.prepare = Box::new(|req| summarize_with(&mut compaction, req, &mut calls, "condensed"));
    let agent = builder().build();
    let (events, _) = world.drive(&agent, agent.run(history, "go"));
    let result = done(&events);
    let first = world.requests[0].messages.first().unwrap().text();
    assert!(
        first.starts_with("[Summary of earlier conversation]"),
        "compacted request must start with the summary, got: {first:.60}"
    );
    // The cut lands on the user's last message but one that leaves four.
    assert_eq!(world.requests[0].messages.len(), 6);
    // Canonical history is untouched: all originals + new user + assistant.
    assert_eq!(result.messages.len(), original_len + 2);
}

#[test]
fn compaction_never_parts_a_call_from_its_result() {
    let call = |id: &str| Message {
        role: Role::Assistant,
        content: vec![Content::ToolUse { id: id.into(), name: "f".into(), input: Json::object() }],
    };
    let result = |id: &str| Message {
        role: Role::User,
        content: vec![Content::ToolResult { tool_use_id: id.into(), content: "r".into(), is_error: false }],
    };
    let messages = vec![
        Message::user("a"),
        call("1"),
        result("1"),
        Message::user("b"),
        call("2"),
        result("2"),
        call("3"),
        result("3"),
    ];
    let compaction = Compaction::new(0).keep_recent(1);
    assert_eq!(compaction.split_point(&messages), Some(3));
    assert_eq!(Compaction::new(0).keep_recent(5).split_point(&messages), Some(3));
    assert_eq!(Compaction::new(0).keep_recent(6).split_point(&messages), None);
    assert_eq!(Compaction::new(0).keep_recent(0).split_point(&messages), Some(3));
    assert_eq!(Compaction::new(0).split_point(&messages), None);
    // A result beside text is a result too.
    let mut beside = result("2");
    beside.content.insert(0, Content::Text { text: "and".into() });
    let mixed = vec![Message::user("a"), Message::user("b"), call("2"), beside, Message::user("c")];
    assert_eq!(Compaction::new(0).keep_recent(2).split_point(&mixed), Some(1));
    assert_eq!(Compaction::new(0).keep_recent(1).split_point(&mixed), Some(4));
    // A history that cannot be cut goes out as it is.
    let request = Request { messages: messages[..3].to_vec(), ..Default::default() };
    match Compaction::new(0).keep_recent(0).plan(request.clone()) {
        Plan::Send(sent) => assert_eq!(sent, request),
        other => panic!("expected the request itself, got {other:?}"),
    }
}

#[test]
fn failed_summaries_send_the_request_as_it_was() {
    let messages: Vec<Message> = (0..4).map(|i| Message::user(&format!("m{i}"))).collect();
    let request = Request { messages, ..Default::default() };
    let mut compaction = Compaction::new(1).keep_recent(1);
    match compaction.plan(request.clone()) {
        Plan::Summarize { request: same, ask, split } => {
            assert_eq!(split, 3);
            assert!(ask.messages[0].text().contains("\"text\": \"m2\""));
            assert!(!ask.messages[0].text().contains("m3"));
            let sent = compaction.on_summary(same, split, Err(ModelError::Http("down".into())));
            assert_eq!(sent, request);
        }
        other => panic!("expected a summary, got {other:?}"),
    }
    // Nothing was cached.
    assert!(matches!(compaction.plan(request), Plan::Summarize { .. }));
}

#[test]
fn tokens_are_a_quarter_of_the_bytes() {
    let messages = vec![Message::user("hello"), Message::user("hellö")];
    // {"content":[{"text":"hello","type":"text"}],"role":"user"} is 58 bytes long.
    assert_eq!(estimate_tokens(&messages, 0), 14 + 14);
    assert_eq!(estimate_tokens(&messages, 1), 14);
    assert_eq!(estimate_tokens(&messages, 2), 0);
    assert_eq!(summary_message("x").text(), "[Summary of earlier conversation]\nx");
}

#[test]
fn independent_tool_calls_run_concurrently() {
    let mut world = World::new(vec![
        tool_use_response(&[
            ("t1", "slow_op", json(r#"{"millis": 150}"#)),
            ("t2", "slow_op", json(r#"{"millis": 150}"#)),
        ]),
        text_response("done"),
    ]);
    world.backwards = true;
    world.tool = Box::new(|call| Ok(ToolOutput::text(format!("slept {}", call.input.at("millis").count()))));
    let agent = builder().tool(entry("slow_op", false)).build();
    let (events, _) = world.drive(&agent, agent.run(vec![], "go"));
    let result = done(&events);
    assert_eq!(result.final_text, "done");
    // Both calls start at once, and are reported as they finish.
    assert_eq!(world.concurrent, vec![vec!["t1".to_string(), "t2".to_string()]]);
    let finished: Vec<&str> = events
        .iter()
        .filter_map(|e| match e {
            AgentEvent::ToolCallFinished { id, .. } => Some(id.as_str()),
            _ => None,
        })
        .collect();
    assert_eq!(finished, vec!["t2", "t1"]);
    // Results arrive in the model's original order regardless of completion.
    match &result.messages[2].content[..] {
        [Content::ToolResult { tool_use_id: a, .. }, Content::ToolResult { tool_use_id: b, .. }] => {
            assert_eq!((a.as_str(), b.as_str()), ("t1", "t2"));
        }
        other => panic!("expected two tool results, got {other:?}"),
    }
}

#[test]
fn approval_edit_replaces_tool_input() {
    let mut world = World::new(vec![
        tool_use_response(&[("t1", "gated_echo", json(r#"{"text": "rm -rf /"}"#))]),
        text_response("finished"),
    ]);
    world.decide = Box::new(|event| match event {
        AgentEvent::AwaitingApproval(req) => {
            assert_eq!(req.input.at("text"), &Json::text("rm -rf /"));
            Some(Decision::Edit(json(r#"{"text": "ls"}"#)))
        }
        other => panic!("expected a request, got {other:?}"),
    });
    let agent = builder().tool(entry("gated_echo", true)).build();
    let (events, _) = world.drive(&agent, agent.run(vec![], "go"));
    let mut output = None;
    for event in events {
        if let AgentEvent::ToolCallFinished { output: o, .. } = event {
            output = Some(o);
        }
    }
    let output = output.unwrap();
    assert!(!output.is_error);
    assert_eq!(output.content, "ran: ls", "edited input should be used");
}

#[test]
fn held_calls_wait_for_the_others_and_go_one_by_one() {
    let mut world = World::new(vec![
        tool_use_response(&[
            ("g1", "gated_echo", json(r#"{"text": "1"}"#)),
            ("e1", "echo", json(r#"{"text": "2"}"#)),
            ("g2", "gated_echo", json(r#"{"text": "3"}"#)),
        ]),
        text_response("fine"),
    ]);
    let mut answers = vec![Decision::Deny(None), Decision::Approve];
    world.decide = Box::new(move |_| answers.pop());
    let agent = builder().tools(vec![entry("echo", false), entry("gated_echo", true)]).build();
    let (events, _) = world.drive(&agent, agent.run(vec![], "go"));
    let log: Vec<String> = events
        .iter()
        .map(|e| match e {
            AgentEvent::ToolCallStarted { id, .. } => format!("start {id}"),
            AgentEvent::ToolCallFinished { id, output, .. } => format!("{id}: {}", output.content),
            AgentEvent::AwaitingApproval(req) => format!("ask {}", req.id),
            AgentEvent::TextDelta(t) => t.clone(),
            AgentEvent::ThinkingDelta(t) => t.clone(),
            AgentEvent::Done(_) => "done".to_string(),
        })
        .collect();
    assert_eq!(
        log,
        vec![
            "start g1", "start e1", "start g2", "e1: echo: 2", "ask g1", "g1: ran: 1", "ask g2",
            "g2: denied by user", "fine", "done"
        ]
    );
    assert_eq!(world.concurrent, vec![vec!["e1".to_string()]]);
}

#[test]
fn undecided_calls_abandon_the_run() {
    let mut world = World::new(vec![tool_use_response(&[("g", "gated_echo", Json::object())])]);
    let agent = builder().tool(entry("gated_echo", true)).build();
    let (_, outcome) = world.drive(&agent, agent.run(vec![], "go"));
    let error = outcome.unwrap_err();
    assert_eq!(
        error.words(),
        "run was abandoned: approval requested but the run was dropped"
    );
    assert_eq!(consumer_dropped().words(), "run was abandoned: event consumer dropped");
}

#[test]
fn tool_failures_are_data_for_the_model() {
    let mut world = World::new(vec![
        tool_use_response(&[("t", "flaky", Json::object())]),
        text_response("noted"),
    ]);
    let agent = builder().tool(entry("flaky", false)).build();
    let (events, outcome) = world.drive(&agent, agent.run(vec![], "go"));
    assert!(outcome.is_ok());
    assert_eq!(
        done(&events).messages[2].content[0],
        Content::ToolResult { tool_use_id: "t".into(), content: "broken".into(), is_error: true }
    );
}

#[test]
fn sub_agent_runs_as_a_tool() {
    // Researcher: answers directly.
    let researcher = builder().system("you research things".into()).build();
    let delegate = AgentTool {
        name: "researcher".into(),
        description: "Delegate research questions to this agent.".into(),
    };
    let advertised = delegate.advertised();
    assert_eq!(advertised.name, "researcher");
    assert_eq!(
        advertised.input_schema.at("required"),
        &json(r#"["task"]"#)
    );
    assert_eq!(
        advertised.input_schema.at("properties").at("task").at("type"),
        &Json::text("string")
    );

    // Lead delegates to the researcher, then answers.
    let mut world = World::new(vec![
        tool_use_response(&[(
            "d1",
            "researcher",
            json(r#"{"task": "what is the current Rust version?"}"#),
        )]),
        text_response("According to research: Rust 1.94"),
    ]);
    world.tool = Box::new(|call| {
        let task = AgentTool::task(&call.input)?;
        let mut inner = World::new(vec![text_response("Rust 1.94 is current")]);
        let (events, outcome) = inner.drive(&researcher, researcher.run(Vec::new(), &task));
        assert_eq!(inner.requests[0].messages[0].text(), "what is the current Rust version?");
        AgentTool::answer(outcome.map(|()| done(&events)))
    });
    let lead = builder()
        .tool(ToolEntry { advertised, needs_approval: false })
        .build();
    let (events, _) = world.drive(&lead, lead.run(vec![], "find the rust version"));
    let result = done(&events);
    assert_eq!(result.final_text, "According to research: Rust 1.94");
    match &result.messages[2].content[0] {
        Content::ToolResult { content, is_error, .. } => {
            assert!(!is_error);
            assert_eq!(content, "Rust 1.94 is current");
        }
        other => panic!("expected sub-agent result, got {other:?}"),
    }
}

#[test]
fn delegation_reports_its_failures() {
    match AgentTool::task(&json(r#"{"task": 1}"#)).unwrap_err() {
        ToolError::InvalidInput(words) => assert_eq!(words, "missing required field: task"),
        other => panic!("expected an input error, got {other:?}"),
    }
    let error = AgentTool::answer(Err(AgentError::MaxTurns(3))).unwrap_err();
    assert_eq!(error.words(), "sub-agent failed: run exceeded max_turns (3)");
}

#[test]
fn runs_stop_at_their_cap() {
    let again = || tool_use_response(&[("t", "echo", Json::object())]);
    let mut world = World::new(vec![again(), again(), again()]);
    let agent = builder().tool(entry("echo", false)).max_turns(2).build();
    let (_, outcome) = world.drive(&agent, agent.run(vec![], "go"));
    assert!(matches!(outcome, Err(AgentError::MaxTurns(2))));
    assert_eq!(world.requests.len(), 2);
    let agent = builder().max_turns(0).build();
    let (_, outcome) = World::new(vec![]).drive(&agent, agent.run(vec![], "go"));
    assert!(matches!(outcome, Err(AgentError::MaxTurns(0))));
}

#[test]
fn resumed_runs_add_no_message() {
    let mut world = World::new(vec![text_response("ok")]);
    let agent = builder().max_tokens(9).temperature(json("0.5")).build();
    let (events, _) = world.drive(&agent, agent.resume(vec![Message::user("before")]));
    assert_eq!(done(&events).messages.len(), 2);
    assert_eq!(world.requests[0].messages, vec![Message::user("before")]);
    assert_eq!(world.requests[0].max_tokens, 9);
    assert_eq!(world.requests[0].temperature, Some(json("0.5")));
}

#[test]
fn replies_that_ask_for_no_tool_after_all_go_on() {
    let mut world = World::new(vec![tool_use_response(&[]), text_response("ok")]);
    let agent = builder().build();
    let (events, _) = world.drive(&agent, agent.run(vec![], "go"));
    let result = done(&events);
    assert_eq!(result.messages.len(), 4);
    assert_eq!(result.messages[2], Message { role: Role::User, content: vec![] });
}

#[test]
fn transient_failures_are_retried_while_nothing_was_emitted() {
    let busy = || -> Vec<Item> {
        vec![
            Ok(StreamEvent::ToolUseStart { id: "a".into(), name: "b".into() }),
            Err(ModelError::Api { status: 429, message: "busy".into() }),
        ]
    };
    let agent = builder().build();
    let mut world = World::streaming(vec![
        busy(),
        vec![],
        vec![Ok(StreamEvent::Completed(text_response("ok")))],
    ]);
    let (events, outcome) = world.drive(&agent, agent.run(vec![], "go"));
    assert!(outcome.is_ok());
    assert_eq!(done(&events).turns, 1);
    assert_eq!(world.slept, vec![Duration::from_millis(500), Duration::from_millis(1000)]);
    assert_eq!(world.requests.len(), 3);

    // The third attempt is the last.
    let mut world = World::streaming(vec![busy(), busy(), busy()]);
    let (_, outcome) = world.drive(&agent, agent.run(vec![], "go"));
    assert!(matches!(outcome, Err(AgentError::Model(ModelError::Api { status: 429, .. }))));
    assert_eq!(world.requests.len(), 3);

    // Once something was emitted, a failure is final.
    let mut world = World::streaming(vec![vec![
        Ok(StreamEvent::ThinkingDelta("hm".into())),
        Err(ModelError::Http("reset".into())),
    ]]);
    let (events, outcome) = world.drive(&agent, agent.run(vec![], "go"));
    assert_eq!(events, vec![AgentEvent::ThinkingDelta("hm".into())]);
    assert_eq!(outcome.unwrap_err().words(), "http error: reset");
    assert!(world.slept.is_empty());

    // What will not go away is not retried.
    let mut world = World::streaming(vec![vec![Err(ModelError::Deserialize("bad".into()))]]);
    let (_, outcome) = world.drive(&agent, agent.run(vec![], "go"));
    assert!(matches!(outcome, Err(AgentError::Model(ModelError::Deserialize(_)))));

    // A stream that just ends says so.
    let agent = builder().retry(RetryPolicy { max_attempts: 1, base_delay: Duration::ZERO }).build();
    let mut world = World::streaming(vec![vec![]]);
    let (_, outcome) = world.drive(&agent, agent.run(vec![], "go"));
    assert_eq!(outcome.unwrap_err().words(), "stream error: stream ended without completion");
}

#[test]
fn delays_double_and_stay_within_bounds() {
    let policy = RetryPolicy { max_attempts: u32::MAX, base_delay: Duration::from_millis(3) };
    assert_eq!(policy.delay(1), Some(Duration::from_millis(3)));
    assert_eq!(policy.delay(2), Some(Duration::from_millis(6)));
    assert_eq!(policy.delay(32), Some(Duration::from_millis(3 * 2147483648)));
    assert_eq!(policy.delay(33), Some(Duration::from_millis(3 * 4294967295)));
    assert_eq!(policy.delay(4000), policy.delay(33));
    let policy = RetryPolicy { max_attempts: 3, base_delay: Duration::MAX };
    assert_eq!(policy.delay(1), Some(Duration::MAX));
    assert_eq!(policy.delay(2), None);
    let usual = RetryPolicy::default();
    assert_eq!((usual.max_attempts, usual.base_delay), (3, Duration::from_millis(500)));
    let mut call = ModelCall::begin();
    let failure = || Some(Err(ModelError::Http("x".into())));
    assert!(call.can_take(&policy, &failure()));
    assert!(matches!(call.on_pull(&policy, failure()), CallStep::Retry(d) if d == Duration::MAX));
    assert!(!call.can_take(&policy, &failure()));
    assert!(call.can_take(&policy, &Some(Err(ModelError::Deserialize("x".into())))));
}

#[test]
fn waiting_denies_and_returns() {
    let request = || {
        harness::agent::event::ApprovalRequest { id: "i".into(), name: "n".into(), input: Json::Null }
    };
    match wait_step(Some(Ok(AgentEvent::AwaitingApproval(request())))) {
        WaitStep::Decide(Decision::Deny(Some(reason))) => {
            assert_eq!(reason, "no interactive approver attached; call denied")
        }
        other => panic!("expected a denial, got {other:?}"),
    }
    assert!(matches!(wait_step(Some(Ok(AgentEvent::TextDelta("x".into())))), WaitStep::Next));
    let result = RunResult {
        messages: vec![],
        final_text: "t".into(),
        usage: Usage::default(),
        turns: 1,
    };
    match wait_step(Some(Ok(AgentEvent::Done(result.clone())))) {
        WaitStep::Return(Ok(r)) => assert_eq!(r, result),
        other => panic!("expected the result, got {other:?}"),
    }
    match wait_step(Some(Err(AgentError::MaxTurns(1)))) {
        WaitStep::Return(Err(e)) => assert_eq!(e.words(), "run exceeded max_turns (1)"),
        other => panic!("expected the failure, got {other:?}"),
    }
    match wait_step(None) {
        WaitStep::Return(Err(e)) => assert_eq!(
            e.words(),
            "run was abandoned: event stream ended without a Done event"
        ),
        other => panic!("expected the failure, got {other:?}"),
    }
}

#[test]
fn middleware_is_passed_in_order() {
    let mut passed = Vec::new();
    let mut next = ToolNext::new(3);
    while let Some((index, rest)) = next.run() {
        passed.push(index);
        next = rest;
    }
    assert_eq!(passed, vec![0, 1, 2]);
    assert!(ToolNext::new(0).run().is_none());
}

#[test]
fn overflowing_usage_is_not_accepted() {
    let agent = builder().tool(entry("echo", false)).build();
    let (mut run, _) = agent.run(vec![], "go");
    run.step(Input::Prepared(Request::default()));
    let mut reply = tool_use_response(&[]);
    reply.usage = Usage { input_tokens: u64::MAX, output_tokens: 0 };
    let input = |r: &Response| Input::Pulled(Some(Ok(StreamEvent::Completed(r.clone()))));
    assert!(run.accepts(&input(&reply)));
    run.step(input(&reply));
    run.step(Input::Prepared(Request::default()));
    assert!(!run.accepts(&input(&reply)));
    reply.usage = Usage::default();
    assert!(run.accepts(&input(&reply)));
}

#[test]
fn builders_are_complete_with_a_model() {
    assert!(!Agent::builder().is_complete());
    assert!(builder().is_complete());
    let agent = builder().build();
    assert_eq!((agent.max_turns, agent.max_tokens), (50, 0));
    // The first tool of a name is the one that is called.
    let agent = builder().tool(entry("a", false)).tool(entry("a", true)).tool(entry("b", true)).build();
    let call = |name: &str| ToolCall { id: "i".into(), name: name.into(), input: Json::Null };
    assert_eq!(route(&agent.tools, &call("a")), Ok(0));
    assert_eq!(route(&agent.tools, &call("b")), Ok(2));
    assert!(route(&agent.tools, &call("c")).unwrap_err().is_error);
    assert!(!harness::agent::settings::needs_approval(&agent.tools, "a"));
    let error: AgentError = ModelError::Http("x".into()).into();
    assert!(matches!(error, AgentError::Model(_)));
    let error: AgentError = CheckpointError::Io("x".into()).into();
    assert!(matches!(error, AgentError::Checkpoint(_)));
}

#[test]
fn plans_follow_from_the_counts() {
    let messages: Vec<Message> = (0..4).map(|i| Message::user(&format!("m{i}"))).collect();
    let request = || Request { messages: messages.clone(), ..Default::default() };
    let mut compaction = Compaction::new(10).keep_recent(2);
    assert!(matches!(compaction.plan_for(request(), 10, 0), Plan::Send(r) if r == request()));
    let Plan::Summarize { request: same, split, .. } = compaction.plan_for(request(), 11, 0) else {
        panic!("expected a summary");
    };
    assert_eq!(split, 2);
    compaction.on_summary(same, split, Ok(text_response("S")));
    // The cached summary serves for as long as it keeps within the budget.
    match compaction.plan_for(request(), 11, 10) {
        Plan::Send(sent) => {
            assert_eq!(sent.messages[0], summary_message("S"));
            assert_eq!(sent.messages[1..], messages[2..]);
        }
        other => panic!("expected the cached summary, got {other:?}"),
    }
    assert!(matches!(compaction.plan_for(request(), 11, 11), Plan::Summarize { .. }));
    // A summary that covers more than may be cut does not serve.
    let compaction = compaction.keep_recent(3);
    assert!(matches!(
        compaction.plan_for(request(), 11, 0),
        Plan::Summarize { split: 1, .. }
    ));
    assert_eq!(ask_for_summary("T").messages, vec![Message::user("T")]);
}

#[test]
fn documents_are_read_as_histories() {
    assert_eq!(read_document(Ok(json("[]"))).unwrap(), vec![]);
    assert_eq!(
        read_document(Err("odd".into())).unwrap_err(),
        CheckpointError::Serde("odd".into())
    );
    assert_eq!(
        read_document(Ok(json("[[]]"))).unwrap_err(),
        CheckpointError::Serde("not a message history".into())
    );
}
