//! A run of an agent, as a machine.
//!
//! [`Run::step`] takes what came of the last command and gives back a
//! [`Reaction`]: events to emit, in their order, and the next command. All that
//! waits (the model, the tools, the store, a human) is on the other side of
//! that exchange.

use core::time::Duration;

use vstd::prelude::*;

use super::batch::{
    announced, decide, decided, ToolBatch, ToolBatchView, Verdict, VerdictView,
};
use super::call::{CallStep, CallStepView, ModelCall};
use super::event::{
    AgentError, AgentErrorView, AgentEvent, AgentEventView, CheckpointError, CheckpointErrorView,
    Decision, DecisionView, RunResult, RunResultView, ToolCall, ToolCallView,
};
use super::settings::{duration_nanos, Agent, AgentView};
use crate::duplicate::{copy_all, copy_option, lemma_pushed};
use crate::error::ModelError;
use crate::message::{text_of, uses_of, Message, MessageView, Role, UseView};
use crate::model::{
    pull_view, Pull, Request, RequestView, Response, ResponseView, StopReason, StreamEvent, Usage,
};
use crate::tool::{ToolOutput, ToolOutputView};

verus! {

/// What to do next.
#[derive(Debug)]
pub enum Command {
    /// Load the history of this session.
    Load(String),
    /// Store the history of this session.
    Save { session: String, messages: Vec<Message> },
    /// Pass the request through the middleware.
    Prepare(Request),
    /// Start a stream of the model for this request, and pull from it.
    Stream(Request),
    /// Pull from the stream.
    Pull,
    /// Wait so long.
    Sleep(Duration),
    /// Run these calls concurrently, each known by its place, and wait for one.
    RunTools(Vec<(usize, ToolCall)>),
    /// Wait for one of the calls that run.
    AwaitOutput,
    /// Wait for a human decision.
    AwaitDecision,
    /// Run this call.
    RunTool(ToolCall),
    /// The run is over.
    Finish(Result<(), AgentError>),
}

/// What a command says; a wait is given in nanoseconds.
#[verifier::ext_equal]
pub enum CommandView {
    Load(Seq<char>),
    Save { session: Seq<char>, messages: Seq<MessageView> },
    Prepare(RequestView),
    Stream(RequestView),
    Pull,
    Sleep(nat),
    RunTools(Seq<(usize, ToolCallView)>),
    AwaitOutput,
    AwaitDecision,
    RunTool(ToolCallView),
    Finish(Result<(), AgentErrorView>),
}

impl View for Command {
    type V = CommandView;

    open spec fn view(&self) -> CommandView {
        match *self {
            Command::Load(session) => CommandView::Load(session@),
            Command::Save { session, messages } => CommandView::Save {
                session: session@,
                messages: messages.deep_view(),
            },
            Command::Prepare(request) => CommandView::Prepare(request@),
            Command::Stream(request) => CommandView::Stream(request@),
            Command::Pull => CommandView::Pull,
            Command::Sleep(delay) => CommandView::Sleep(duration_nanos(delay)),
            Command::RunTools(calls) => CommandView::RunTools(calls.deep_view()),
            Command::AwaitOutput => CommandView::AwaitOutput,
            Command::AwaitDecision => CommandView::AwaitDecision,
            Command::RunTool(call) => CommandView::RunTool(call@),
            Command::Finish(Ok(())) => CommandView::Finish(Ok(())),
            Command::Finish(Err(error)) => CommandView::Finish(Err(error@)),
        }
    }
}

/// Events to emit, in their order, and then the next command.
#[derive(Debug)]
pub struct Reaction {
    pub events: Vec<AgentEvent>,
    pub command: Command,
}

/// What a reaction says.
#[verifier::ext_equal]
pub struct ReactionView {
    pub events: Seq<AgentEventView>,
    pub command: CommandView,
}

impl View for Reaction {
    type V = ReactionView;

    open spec fn view(&self) -> ReactionView {
        ReactionView { events: self.events.deep_view(), command: self.command@ }
    }
}

/// What came of a command.
#[derive(Debug)]
pub enum Input {
    /// The history of the session, where there is one.
    Loaded(Result<Option<Vec<Message>>, CheckpointError>),
    Saved(Result<(), CheckpointError>),
    /// The request as the middleware left it.
    Prepared(Request),
    /// What the stream gave.
    Pulled(Option<Result<StreamEvent, ModelError>>),
    Slept,
    /// The output of the call in this place.
    ToolFinished { index: usize, output: ToolOutput },
    /// The decision, and nothing where nobody is there to make it.
    Decided(Option<Decision>),
    /// The output of the approved call.
    ToolRan(ToolOutput),
}

/// What an input says.
#[verifier::ext_equal]
pub enum InputView {
    Loaded(Result<Option<Seq<MessageView>>, CheckpointErrorView>),
    Saved(Result<(), CheckpointErrorView>),
    Prepared(RequestView),
    Pulled(Pull),
    Slept,
    ToolFinished { index: int, output: ToolOutputView },
    Decided(Option<DecisionView>),
    ToolRan(ToolOutputView),
}

impl View for Input {
    type V = InputView;

    open spec fn view(&self) -> InputView {
        match *self {
            Input::Loaded(Ok(history)) => InputView::Loaded(Ok(history.deep_view())),
            Input::Loaded(Err(error)) => InputView::Loaded(Err(error@)),
            Input::Saved(Ok(())) => InputView::Saved(Ok(())),
            Input::Saved(Err(error)) => InputView::Saved(Err(error@)),
            Input::Prepared(request) => InputView::Prepared(request@),
            Input::Pulled(pull) => InputView::Pulled(pull_view(pull)),
            Input::Slept => InputView::Slept,
            Input::ToolFinished { index, output } => InputView::ToolFinished {
                index: index as int,
                output: output@,
            },
            Input::Decided(decision) => InputView::Decided(decision.deep_view()),
            Input::ToolRan(output) => InputView::ToolRan(output@),
        }
    }
}

/// What is due once the history has been stored.
#[derive(Debug, Clone, Copy, PartialEq, Eq, Structural)]
pub enum Next {
    /// The next turn.
    Turn,
    /// What follows from the model's reply, which asks for tools or does not.
    Reply { tool_use: bool },
}

/// Where a run stands.
#[verifier::ext_equal]
pub enum PhaseView {
    /// The history is being loaded, and then the user says this.
    Loading { input: Seq<char> },
    Saving(Next),
    Preparing,
    Calling { request: RequestView, call: ModelCall },
    Sleeping { request: RequestView, call: ModelCall },
    /// Calls run concurrently.
    Running(ToolBatchView),
    /// A call waits for a decision.
    Deciding { batch: ToolBatchView, index: int },
    /// An approved call runs.
    Gated { batch: ToolBatchView, index: int },
    Ended,
}

/// A run.
#[verifier::ext_equal]
pub struct RunView {
    pub agent: AgentView,
    pub session: Option<Seq<char>>,
    pub messages: Seq<MessageView>,
    pub usage: Usage,
    pub turn: u32,
    pub phase: PhaseView,
}

/// A tool use as a call.
pub open spec fn call_of(used: UseView) -> ToolCallView {
    ToolCallView { id: used.0, name: used.1, input: used.2 }
}

/// The tool calls that a message asks for.
pub open spec fn calls_in(message: MessageView) -> Seq<ToolCallView> {
    uses_of(message.content).map_values(|u: UseView| call_of(u))
}

/// The tool results as a message.
pub open spec fn results_message(batch: ToolBatchView) -> MessageView {
    MessageView { role: Role::User, content: batch.results() }
}

/// A batch in which call `index` is held for approval and all calls without a
/// gate are done.
pub open spec fn holds(batch: ToolBatchView, index: int) -> bool {
    &&& batch.valid()
    &&& batch.is_open(true, index)
    &&& batch.open_from(false, 0) is None
}

impl RunView {
    /// A run at its very start.
    pub open spec fn fresh(
        agent: AgentView,
        session: Option<Seq<char>>,
        messages: Seq<MessageView>,
        phase: PhaseView,
    ) -> RunView {
        RunView { agent, session, messages, usage: Usage::zero(), turn: 0, phase }
    }

    /// What holds of a run at all times.
    pub open spec fn wf(self) -> bool {
        &&& self.turn <= self.agent.max_turns
        &&& match self.phase {
            PhaseView::Loading { .. } => self.session is Some,
            PhaseView::Saving(Next::Turn) => self.session is Some,
            PhaseView::Saving(Next::Reply { .. }) => self.session is Some && self.messages.len()
                > 0,
            PhaseView::Calling { call, .. } => call.attempt > 0,
            PhaseView::Sleeping { call, .. } => call.attempt > 0,
            PhaseView::Running(batch) => batch.valid() && batch.open_from(false, 0) is Some,
            PhaseView::Deciding { batch, index } => holds(batch, index),
            PhaseView::Gated { batch, index } => holds(batch, index),
            PhaseView::Preparing => true,
            PhaseView::Ended => true,
        }
    }

    /// Whether the run waits for such an input, and it stays within what the
    /// machine can count.
    pub open spec fn awaits(self, input: InputView) -> bool {
        match (self.phase, input) {
            (PhaseView::Loading { .. }, InputView::Loaded(_)) => true,
            (PhaseView::Saving(_), InputView::Saved(_)) => true,
            (PhaseView::Preparing, InputView::Prepared(_)) => true,
            (PhaseView::Calling { call, .. }, InputView::Pulled(pull)) => {
                &&& call.accepts(self.agent.retry, pull)
                &&& call.stepped(self.agent.retry, pull).1 matches CallStepView::Completed(response)
                    ==> self.usage.fits(response.usage)
            },
            (PhaseView::Sleeping { .. }, InputView::Slept) => true,
            (PhaseView::Running(batch), InputView::ToolFinished { index, .. }) => batch.is_open(
                false,
                index,
            ),
            (PhaseView::Deciding { .. }, InputView::Decided(_)) => true,
            (PhaseView::Gated { .. }, InputView::ToolRan(_)) => true,
            _ => false,
        }
    }

    /// The run is over.
    pub open spec fn ended(
        self,
        events: Seq<AgentEventView>,
        outcome: Result<(), AgentErrorView>,
    ) -> (RunView, ReactionView) {
        (
            RunView { phase: PhaseView::Ended, ..self },
            ReactionView { events, command: CommandView::Finish(outcome) },
        )
    }

    /// What the model is asked, before middleware.
    pub open spec fn request(self) -> RequestView {
        RequestView {
            system: self.agent.system,
            messages: self.messages,
            tools: self.agent.specs(),
            max_tokens: self.agent.max_tokens,
            temperature: self.agent.temperature,
            ..RequestView::blank()
        }
    }

    /// The next model call, if the cap allows one more.
    pub open spec fn next_turn(self, events: Seq<AgentEventView>) -> (RunView, ReactionView) {
        if self.turn >= self.agent.max_turns {
            self.ended(events, Err(AgentErrorView::MaxTurns(self.agent.max_turns)))
        } else {
            (
                RunView { turn: (self.turn + 1) as u32, phase: PhaseView::Preparing, ..self },
                ReactionView { events, command: CommandView::Prepare(self.request()) },
            )
        }
    }

    /// The history is stored first.
    pub open spec fn saving(self, next: Next, events: Seq<AgentEventView>) -> (
        RunView,
        ReactionView,
    ) {
        (
            RunView { phase: PhaseView::Saving(next), ..self },
            ReactionView {
                events,
                command: CommandView::Save { session: self.session->0, messages: self.messages },
            },
        )
    }

    /// The history has grown: it is stored where there is a session, and then
    /// comes the next turn.
    pub open spec fn grown(self, events: Seq<AgentEventView>) -> (RunView, ReactionView) {
        if self.session is Some {
            self.saving(Next::Turn, events)
        } else {
            self.next_turn(events)
        }
    }

    /// On with a batch: wait for the calls that run, then take the held calls
    /// one by one, then hand the results to the model.
    pub open spec fn proceeded(self, batch: ToolBatchView, events: Seq<AgentEventView>) -> (
        RunView,
        ReactionView,
    ) {
        if batch.open_from(false, 0) is Some {
            (
                RunView { phase: PhaseView::Running(batch), ..self },
                ReactionView { events, command: CommandView::AwaitOutput },
            )
        } else {
            match batch.open_from(true, 0) {
                Some(index) => (
                    RunView { phase: PhaseView::Deciding { batch, index }, ..self },
                    ReactionView {
                        events: events.push(AgentEventView::AwaitingApproval(batch.calls[index])),
                        command: CommandView::AwaitDecision,
                    },
                ),
                None => (RunView {
                    messages: self.messages.push(results_message(batch)),
                    ..self
                }).grown(events),
            }
        }
    }

    /// The batch of tool calls that the last message asks for.
    pub open spec fn batch(self) -> ToolBatchView {
        ToolBatchView::fresh(self.agent.tools, calls_in(self.messages.last()))
    }

    /// The tool calls of the last message are announced and started.
    pub open spec fn tools_started(self) -> (RunView, ReactionView) {
        let batch = self.batch();
        if batch.open_from(false, 0) is Some {
            (
                RunView { phase: PhaseView::Running(batch), ..self },
                ReactionView {
                    events: announced(batch.calls),
                    command: CommandView::RunTools(batch.concurrent_from(0)),
                },
            )
        } else {
            self.proceeded(batch, announced(batch.calls))
        }
    }

    /// The result of a run that ends here.
    pub open spec fn result(self) -> RunResultView {
        RunResultView {
            messages: self.messages,
            final_text: text_of(self.messages.last().content),
            usage: self.usage,
            turns: self.turn,
        }
    }

    /// What follows from the model's reply, which is the last message.
    pub open spec fn replied(self, tool_use: bool) -> (RunView, ReactionView) {
        if tool_use {
            self.tools_started()
        } else {
            self.ended(seq![AgentEventView::Done(self.result())], Ok(()))
        }
    }

    /// The model has replied.
    pub open spec fn completed(self, response: ResponseView) -> (RunView, ReactionView) {
        let tool_use = response.stop_reason is ToolUse;
        let run = RunView {
            usage: self.usage.plus(response.usage),
            messages: self.messages.push(response.message),
            ..self
        };
        if self.session is Some {
            run.saving(Next::Reply { tool_use }, Seq::empty())
        } else {
            run.replied(tool_use)
        }
    }

    /// With this command and no events.
    pub open spec fn with(self, phase: PhaseView, command: CommandView) -> (
        RunView,
        ReactionView,
    ) {
        (RunView { phase, ..self }, ReactionView { events: Seq::empty(), command })
    }

    /// After a pull from the model's stream.
    pub open spec fn pulled(self, request: RequestView, call: ModelCall, pull: Pull) -> (
        RunView,
        ReactionView,
    ) {
        let (call, step) = call.stepped(self.agent.retry, pull);
        match step {
            CallStepView::Pull => self.with(
                PhaseView::Calling { request, call },
                CommandView::Pull,
            ),
            CallStepView::Forward(event) => (
                RunView { phase: PhaseView::Calling { request, call }, ..self },
                ReactionView { events: seq![event], command: CommandView::Pull },
            ),
            CallStepView::Completed(response) => self.completed(response),
            CallStepView::Failed(error) => self.ended(
                Seq::empty(),
                Err(AgentErrorView::Model(error)),
            ),
            CallStepView::Retry(delay) => self.with(
                PhaseView::Sleeping { request, call },
                CommandView::Sleep(delay),
            ),
        }
    }

    /// After the decision on a held call.
    pub open spec fn settled(
        self,
        batch: ToolBatchView,
        index: int,
        decision: Option<DecisionView>,
    ) -> (RunView, ReactionView) {
        match decided(batch.calls[index], decision) {
            VerdictView::Run(call) => self.with(
                PhaseView::Gated { batch, index },
                CommandView::RunTool(call),
            ),
            VerdictView::Denied(output) => self.proceeded(
                batch.finished(index, output),
                seq![batch.report(index, output)],
            ),
            VerdictView::Abandoned => self.ended(
                Seq::empty(),
                Err(
                    AgentErrorView::Abandoned("approval requested but the run was dropped"@),
                ),
            ),
        }
    }

    /// What an input makes of a run that awaits it.
    pub open spec fn reacted(self, input: InputView) -> (RunView, ReactionView) {
        match (self.phase, input) {
            (PhaseView::Loading { input }, InputView::Loaded(Ok(history))) => (RunView {
                messages: (match history {
                    Some(history) => history,
                    None => Seq::empty(),
                }).push(MessageView::user(input)),
                ..self
            }).grown(Seq::empty()),
            (PhaseView::Loading { .. }, InputView::Loaded(Err(error))) => self.ended(
                Seq::empty(),
                Err(AgentErrorView::Checkpoint(error)),
            ),
            (PhaseView::Saving(Next::Turn), InputView::Saved(Ok(()))) => self.next_turn(
                Seq::empty(),
            ),
            (PhaseView::Saving(Next::Reply { tool_use }), InputView::Saved(Ok(()))) => self.replied(
                tool_use,
            ),
            (PhaseView::Saving(_), InputView::Saved(Err(error))) => self.ended(
                Seq::empty(),
                Err(AgentErrorView::Checkpoint(error)),
            ),
            (PhaseView::Preparing, InputView::Prepared(request)) => self.with(
                PhaseView::Calling { request, call: ModelCall::begun() },
                CommandView::Stream(request),
            ),
            (PhaseView::Calling { request, call }, InputView::Pulled(pull)) => self.pulled(
                request,
                call,
                pull,
            ),
            (PhaseView::Sleeping { request, call }, InputView::Slept) => self.with(
                PhaseView::Calling { request, call },
                CommandView::Stream(request),
            ),
            (
                PhaseView::Running(batch),
                InputView::ToolFinished { index, output },
            ) => self.proceeded(batch.finished(index, output), seq![batch.report(index, output)]),
            (PhaseView::Deciding { batch, index }, InputView::Decided(decision)) => self.settled(
                batch,
                index,
                decision,
            ),
            (PhaseView::Gated { batch, index }, InputView::ToolRan(output)) => self.proceeded(
                batch.finished(index, output),
                seq![batch.report(index, output)],
            ),
            _ => self.with(self.phase, CommandView::Pull),
        }
    }
}

enum Phase {
    Loading { input: String },
    Saving(Next),
    Preparing,
    Calling { request: Request, call: ModelCall },
    Sleeping { request: Request, call: ModelCall },
    Running(ToolBatch),
    Deciding { batch: ToolBatch, index: usize },
    Gated { batch: ToolBatch, index: usize },
    Ended,
}

impl View for Phase {
    type V = PhaseView;

    closed spec fn view(&self) -> PhaseView {
        match *self {
            Phase::Loading { input } => PhaseView::Loading { input: input@ },
            Phase::Saving(next) => PhaseView::Saving(next),
            Phase::Preparing => PhaseView::Preparing,
            Phase::Calling { request, call } => PhaseView::Calling { request: request@, call },
            Phase::Sleeping { request, call } => PhaseView::Sleeping { request: request@, call },
            Phase::Running(batch) => PhaseView::Running(batch@),
            Phase::Deciding { batch, index } => PhaseView::Deciding {
                batch: batch@,
                index: index as int,
            },
            Phase::Gated { batch, index } => PhaseView::Gated {
                batch: batch@,
                index: index as int,
            },
            Phase::Ended => PhaseView::Ended,
        }
    }
}

/// A run of an agent.
pub struct Run {
    agent: Agent,
    session: Option<String>,
    messages: Vec<Message>,
    usage: Usage,
    turn: u32,
    phase: Phase,
}

impl View for Run {
    type V = RunView;

    closed spec fn view(&self) -> RunView {
        RunView {
            agent: self.agent@,
            session: self.session.deep_view(),
            messages: self.messages.deep_view(),
            usage: self.usage,
            turn: self.turn,
            phase: self.phase@,
        }
    }
}

fn calls_from(message: &Message) -> (r: Vec<ToolCall>)
    ensures
        r.deep_view() == calls_in(message@),
{
    let uses = message.tool_uses();
    let ghost calls = calls_in(message@);
    let mut out: Vec<ToolCall> = Vec::new();
    let mut i: usize = 0;
    while i < uses.len()
        invariant
            i <= uses@.len(),
            calls == uses.deep_view().map_values(|u: UseView| call_of(u)),
            out.deep_view() == calls.take(i as int),
        decreases uses@.len() - i,
    {
        let (id, name, input) = uses[i];
        let call = ToolCall { id: id.to_owned(), name: name.to_owned(), input: input.clone() };
        let ghost before = out;
        out.push(call);
        proof {
            lemma_pushed(before, out, call);
        }
        i = i + 1;
        assert(out.deep_view() == calls.take(i as int));
    }
    assert(calls.take(i as int) == calls);
    out
}

fn one(event: AgentEvent) -> (r: Vec<AgentEvent>)
    ensures
        r.deep_view() == seq![event@],
{
    let mut out: Vec<AgentEvent> = Vec::new();
    out.push(event);
    assert(out.deep_view() == seq![event@]);
    out
}

fn quiet() -> (r: Vec<AgentEvent>)
    ensures
        r.deep_view() == Seq::<AgentEventView>::empty(),
{
    let out: Vec<AgentEvent> = Vec::new();
    assert(out.deep_view() == Seq::<AgentEventView>::empty());
    out
}

impl Run {
    fn end(&mut self, events: Vec<AgentEvent>, outcome: Result<(), AgentError>) -> (r: Reaction)
        requires
            old(self)@.turn <= old(self)@.agent.max_turns,
        ensures
            (final(self)@, r@) == old(self)@.ended(
                events.deep_view(),
                match outcome {
                    Ok(()) => Ok::<(), AgentErrorView>(()),
                    Err(error) => Err::<(), AgentErrorView>(error@),
                },
            ),
            final(self)@.wf(),
    {
        self.phase = Phase::Ended;
        Reaction { events, command: Command::Finish(outcome) }
    }

    fn ask(&self) -> (r: Request)
        ensures
            r@ == self@.request(),
    {
        let mut request = Request::default();
        request.system = copy_option(&self.agent.system);
        request.messages = copy_all(&self.messages);
        request.tools = self.agent.specs();
        request.max_tokens = self.agent.max_tokens;
        request.temperature = copy_option(&self.agent.temperature);
        request
    }

    fn take_turn(&mut self, events: Vec<AgentEvent>) -> (r: Reaction)
        requires
            old(self)@.turn <= old(self)@.agent.max_turns,
        ensures
            (final(self)@, r@) == old(self)@.next_turn(events.deep_view()),
            final(self)@.wf(),
    {
        if self.turn >= self.agent.max_turns {
            let max_turns: u32 = self.agent.max_turns;
            return self.end(events, Err(AgentError::MaxTurns(max_turns)));
        }
        let request = self.ask();
        self.turn = self.turn + 1;
        self.phase = Phase::Preparing;
        Reaction { events, command: Command::Prepare(request) }
    }

    fn save(&mut self, session: String, next: Next, events: Vec<AgentEvent>) -> (r: Reaction)
        requires
            old(self)@.turn <= old(self)@.agent.max_turns,
            old(self)@.session == Some(session@),
            next is Reply ==> old(self)@.messages.len() > 0,
        ensures
            (final(self)@, r@) == old(self)@.saving(next, events.deep_view()),
            final(self)@.wf(),
    {
        self.phase = Phase::Saving(next);
        Reaction { events, command: Command::Save { session, messages: copy_all(&self.messages) } }
    }

    fn grow(&mut self, events: Vec<AgentEvent>) -> (r: Reaction)
        requires
            old(self)@.turn <= old(self)@.agent.max_turns,
        ensures
            (final(self)@, r@) == old(self)@.grown(events.deep_view()),
            final(self)@.wf(),
    {
        match copy_option(&self.session) {
            Some(session) => self.save(session, Next::Turn, events),
            None => self.take_turn(events),
        }
    }

    fn proceed(&mut self, batch: ToolBatch, events: Vec<AgentEvent>) -> (r: Reaction)
        requires
            old(self)@.turn <= old(self)@.agent.max_turns,
            batch@.valid(),
        ensures
            (final(self)@, r@) == old(self)@.proceeded(batch@, events.deep_view()),
            final(self)@.wf(),
    {
        if batch.first_open(false).is_some() {
            self.phase = Phase::Running(batch);
            return Reaction { events, command: Command::AwaitOutput };
        }
        match batch.first_open(true) {
            Some(index) => {
                let mut events = events;
                let event = batch.approval(index);
                let ghost before = events;
                events.push(event);
                proof {
                    lemma_pushed(before, events, event);
                }
                self.phase = Phase::Deciding { batch, index };
                Reaction { events, command: Command::AwaitDecision }
            },
            None => {
                let message = Message { role: Role::User, content: batch.results() };
                let ghost before = self.messages;
                self.messages.push(message);
                proof {
                    lemma_pushed(before, self.messages, message);
                }
                self.grow(events)
            },
        }
    }

    fn start_tools(&mut self, message: &Message) -> (r: Reaction)
        requires
            old(self)@.turn <= old(self)@.agent.max_turns,
            old(self)@.messages.len() > 0,
            message@ == old(self)@.messages.last(),
        ensures
            (final(self)@, r@) == old(self)@.tools_started(),
            final(self)@.wf(),
    {
        let batch = ToolBatch::new(&self.agent.tools, calls_from(message));
        let events = batch.announce();
        if batch.first_open(false).is_some() {
            let calls = batch.concurrent();
            self.phase = Phase::Running(batch);
            Reaction { events, command: Command::RunTools(calls) }
        } else {
            self.proceed(batch, events)
        }
    }

    fn reply(&mut self, tool_use: bool) -> (r: Reaction)
        requires
            old(self)@.turn <= old(self)@.agent.max_turns,
            old(self)@.messages.len() > 0,
        ensures
            (final(self)@, r@) == old(self)@.replied(tool_use),
            final(self)@.wf(),
    {
        let message = self.messages[self.messages.len() - 1].clone();
        if tool_use {
            self.start_tools(&message)
        } else {
            let result = RunResult {
                messages: copy_all(&self.messages),
                final_text: message.text(),
                usage: self.usage,
                turns: self.turn,
            };
            self.end(one(AgentEvent::Done(result)), Ok(()))
        }
    }

    fn complete(&mut self, response: Response) -> (r: Reaction)
        requires
            old(self)@.turn <= old(self)@.agent.max_turns,
            old(self)@.usage.fits(response.usage),
        ensures
            (final(self)@, r@) == old(self)@.completed(response@),
            final(self)@.wf(),
    {
        let tool_use = match response.stop_reason {
            StopReason::ToolUse => true,
            _ => false,
        };
        self.usage.add(response.usage);
        let message = response.message;
        let ghost before = self.messages;
        self.messages.push(message);
        proof {
            lemma_pushed(before, self.messages, message);
        }
        match copy_option(&self.session) {
            Some(session) => self.save(session, Next::Reply { tool_use }, quiet()),
            None => self.reply(tool_use),
        }
    }

    fn pull(
        &mut self,
        request: Request,
        call: ModelCall,
        pull: Option<Result<StreamEvent, ModelError>>,
    ) -> (r: Reaction)
        requires
            old(self)@.turn <= old(self)@.agent.max_turns,
            call.attempt > 0,
            call.accepts(old(self)@.agent.retry, pull_view(pull)),
            call.stepped(old(self)@.agent.retry, pull_view(pull)).1 matches CallStepView::Completed(
                response,
            ) ==> old(self)@.usage.fits(response.usage),
        ensures
            (final(self)@, r@) == old(self)@.pulled(request@, call, pull_view(pull)),
            final(self)@.wf(),
    {
        let mut call = call;
        match call.on_pull(&self.agent.retry, pull) {
            CallStep::Pull => {
                self.phase = Phase::Calling { request, call };
                Reaction { events: quiet(), command: Command::Pull }
            },
            CallStep::Forward(event) => {
                self.phase = Phase::Calling { request, call };
                Reaction { events: one(event), command: Command::Pull }
            },
            CallStep::Completed(response) => self.complete(response),
            CallStep::Failed(error) => self.end(quiet(), Err(AgentError::Model(error))),
            CallStep::Retry(delay) => {
                self.phase = Phase::Sleeping { request, call };
                Reaction { events: quiet(), command: Command::Sleep(delay) }
            },
        }
    }

    fn settle(&mut self, batch: ToolBatch, index: usize, decision: Option<Decision>) -> (r: Reaction)
        requires
            old(self)@.turn <= old(self)@.agent.max_turns,
            holds(batch@, index as int),
        ensures
            (final(self)@, r@) == old(self)@.settled(batch@, index as int, decision.deep_view()),
            final(self)@.wf(),
    {
        match decide(batch.call(index), decision) {
            Verdict::Run(call) => {
                self.phase = Phase::Gated { batch, index };
                Reaction { events: quiet(), command: Command::RunTool(call) }
            },
            Verdict::Denied(output) => {
                let mut batch = batch;
                let event = batch.finish(index, output);
                self.proceed(batch, one(event))
            },
            Verdict::Abandoned => self.end(
                quiet(),
                Err(
                    AgentError::Abandoned(
                        "approval requested but the run was dropped".to_owned(),
                    ),
                ),
            ),
        }
    }

    /// What an input makes of a run that awaits it.
    pub fn step(&mut self, input: Input) -> (r: Reaction)
        requires
            old(self)@.wf(),
            old(self)@.awaits(input@),
        ensures
            (final(self)@, r@) == old(self)@.reacted(input@),
            final(self)@.wf(),
    {
        let mut phase = Phase::Ended;
        std::mem::swap(&mut phase, &mut self.phase);
        match (phase, input) {
            (Phase::Loading { input }, Input::Loaded(Ok(history))) => {
                let mut messages = match history {
                    Some(history) => history,
                    None => Vec::new(),
                };
                let ghost before = messages;
                let message = Message::user(input.as_str());
                messages.push(message);
                proof {
                    lemma_pushed(before, messages, message);
                }
                self.messages = messages;
                self.grow(quiet())
            },
            (Phase::Loading { .. }, Input::Loaded(Err(error))) => self.end(
                quiet(),
                Err(AgentError::Checkpoint(error)),
            ),
            (Phase::Saving(Next::Turn), Input::Saved(Ok(()))) => self.take_turn(quiet()),
            (Phase::Saving(Next::Reply { tool_use }), Input::Saved(Ok(()))) => self.reply(tool_use),
            (Phase::Saving(_), Input::Saved(Err(error))) => self.end(
                quiet(),
                Err(AgentError::Checkpoint(error)),
            ),
            (Phase::Preparing, Input::Prepared(request)) => {
                let command = Command::Stream(request.clone());
                self.phase = Phase::Calling { request, call: ModelCall::begin() };
                Reaction { events: quiet(), command }
            },
            (Phase::Calling { request, call }, Input::Pulled(pull)) => self.pull(
                request,
                call,
                pull,
            ),
            (Phase::Sleeping { request, call }, Input::Slept) => {
                let command = Command::Stream(request.clone());
                self.phase = Phase::Calling { request, call };
                Reaction { events: quiet(), command }
            },
            (Phase::Running(batch), Input::ToolFinished { index, output }) => {
                let mut batch = batch;
                let event = batch.finish(index, output);
                self.proceed(batch, one(event))
            },
            (Phase::Deciding { batch, index }, Input::Decided(decision)) => self.settle(
                batch,
                index,
                decision,
            ),
            (Phase::Gated { batch, index }, Input::ToolRan(output)) => {
                let mut batch = batch;
                let event = batch.finish(index, output);
                self.proceed(batch, one(event))
            },
            _ => Reaction { events: quiet(), command: Command::Pull },
        }
    }

    /// Whether [`Run::step`] can take an input now.
    pub fn accepts(&self, input: &Input) -> (r: bool)
        requires
            self@.wf(),
        ensures
            r == self@.awaits(input@),
    {
        match (&self.phase, input) {
            (Phase::Loading { .. }, Input::Loaded(_)) => true,
            (Phase::Saving(_), Input::Saved(_)) => true,
            (Phase::Preparing, Input::Prepared(_)) => true,
            (Phase::Calling { call, .. }, Input::Pulled(pull)) => {
                if !call.can_take(&self.agent.retry, pull) {
                    return false;
                }
                match pull {
                    Some(Ok(StreamEvent::Completed(response))) => self.usage.can_add(
                        response.usage,
                    ),
                    _ => true,
                }
            },
            (Phase::Sleeping { .. }, Input::Slept) => true,
            (Phase::Running(batch), Input::ToolFinished { index, .. }) => batch.awaits_output(
                *index,
            ),
            (Phase::Deciding { .. }, Input::Decided(_)) => true,
            (Phase::Gated { .. }, Input::ToolRan(_)) => true,
            _ => false,
        }
    }
}

/// A run that goes on from these messages, without a session.
pub open spec fn resumed(agent: AgentView, messages: Seq<MessageView>) -> (RunView, ReactionView) {
    RunView::fresh(agent, None, messages, PhaseView::Preparing).next_turn(Seq::empty())
}

/// A run that goes on from this history with what the user says now.
pub open spec fn begun(agent: AgentView, history: Seq<MessageView>, input: Seq<char>) -> (
    RunView,
    ReactionView,
) {
    resumed(agent, history.push(MessageView::user(input)))
}

/// A run of a durable session.
pub open spec fn session_begun(agent: AgentView, session: Seq<char>, input: Seq<char>) -> (
    RunView,
    ReactionView,
) {
    let run = RunView::fresh(agent, Some(session), Seq::empty(), PhaseView::Loading { input });
    if agent.has_checkpointer {
        run.with(run.phase, CommandView::Load(session))
    } else {
        run.ended(
            Seq::empty(),
            Err(AgentErrorView::Config("run_session requires a checkpointer"@)),
        )
    }
}

impl Agent {
    /// Start a run: `history` is the prior conversation (empty for a fresh
    /// one), `input` the new user message.
    pub fn run(&self, history: Vec<Message>, input: &str) -> (r: (Run, Reaction))
        ensures
            (r.0@, r.1@) == resumed(
                self@,
                history.deep_view().push(MessageView::user(input@)),
            ),
            (r.0@, r.1@) == begun(self@, history.deep_view(), input@),
            r.0@.wf(),
    {
        let mut messages = history;
        let ghost before = messages;
        let message = Message::user(input);
        messages.push(message);
        proof {
            lemma_pushed(before, messages, message);
        }
        self.resume(messages)
    }

    /// Continue from a raw message history (e.g. one restored from a
    /// checkpoint) without appending a new user message.
    pub fn resume(&self, messages: Vec<Message>) -> (r: (Run, Reaction))
        ensures
            (r.0@, r.1@) == resumed(self@, messages.deep_view()),
            r.0@.wf(),
    {
        let mut run = Run {
            agent: self.clone(),
            session: None,
            messages,
            usage: Usage::default(),
            turn: 0,
            phase: Phase::Preparing,
        };
        let reaction = run.take_turn(quiet());
        (run, reaction)
    }

    /// Run against a durable session: history is loaded from the store under
    /// `session`, and every append (assistant message, tool results) is
    /// persisted before the run proceeds: a crash loses at most the model call
    /// in flight.
    ///
    /// Requires a checkpointer; the run fails with [`AgentError::Config`]
    /// otherwise.
    pub fn run_session(&self, session: &str, input: &str) -> (r: (Run, Reaction))
        ensures
            (r.0@, r.1@) == session_begun(self@, session@, input@),
            r.0@.wf(),
    {
        let mut run = Run {
            agent: self.clone(),
            session: Some(session.to_owned()),
            messages: Vec::new(),
            usage: Usage::default(),
            turn: 0,
            phase: Phase::Loading { input: input.to_owned() },
        };
        assert(run.messages.deep_view() == Seq::<MessageView>::empty());
        let reaction = if self.has_checkpointer {
            Reaction { events: quiet(), command: Command::Load(session.to_owned()) }
        } else {
            run.end(
                quiet(),
                Err(AgentError::Config("run_session requires a checkpointer".to_owned())),
            )
        };
        (run, reaction)
    }
}

}
