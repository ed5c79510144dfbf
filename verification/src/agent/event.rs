//! What a run reports, what it can be told, and how it can end.

use vstd::prelude::*;

use crate::duplicate::{copy_all, copy_option, Duplicate};
use crate::error::{ModelError, ModelErrorView};
use crate::json::{Json, JsonView};
use crate::message::{Message, MessageView};
use crate::model::Usage;
use crate::text::{concat, concat3, decimal, decimal_text};
use crate::tool::{ToolOutput, ToolOutputView};

verus! {

/// A tool invocation.
#[derive(Debug, PartialEq)]
pub struct ToolCall {
    pub id: String,
    pub name: String,
    pub input: Json,
}

/// What a tool invocation says.
#[verifier::ext_equal]
pub struct ToolCallView {
    pub id: Seq<char>,
    pub name: Seq<char>,
    pub input: JsonView,
}

impl View for ToolCall {
    type V = ToolCallView;

    open spec fn view(&self) -> ToolCallView {
        ToolCallView { id: self.id@, name: self.name@, input: self.input@ }
    }
}

impl DeepView for ToolCall {
    type V = ToolCallView;

    open spec fn deep_view(&self) -> ToolCallView {
        self@
    }
}

impl Clone for ToolCall {
    fn clone(&self) -> (r: ToolCall)
        ensures
            r@ == self@,
    {
        ToolCall { id: self.id.clone(), name: self.name.clone(), input: self.input.clone() }
    }
}

impl Duplicate for ToolCall {
    fn duplicate(&self) -> (r: ToolCall) {
        self.clone()
    }
}

/// A tool call held for human approval.
#[derive(Debug, PartialEq)]
pub struct ApprovalRequest {
    pub id: String,
    pub name: String,
    pub input: Json,
}

impl View for ApprovalRequest {
    type V = ToolCallView;

    open spec fn view(&self) -> ToolCallView {
        ToolCallView { id: self.id@, name: self.name@, input: self.input@ }
    }
}

impl Clone for ApprovalRequest {
    fn clone(&self) -> (r: ApprovalRequest)
        ensures
            r@ == self@,
    {
        ApprovalRequest {
            id: self.id.clone(),
            name: self.name.clone(),
            input: self.input.clone(),
        }
    }
}

/// Human verdict on an [`ApprovalRequest`].
#[derive(Debug, PartialEq)]
pub enum Decision {
    Approve,
    /// Approve the call with this input in place of the model's.
    Edit(Json),
    /// Deny with an optional reason the model will see as the tool result.
    Deny(Option<String>),
}

/// What a verdict says.
#[verifier::ext_equal]
pub enum DecisionView {
    Approve,
    Edit(JsonView),
    Deny(Option<Seq<char>>),
}

impl View for Decision {
    type V = DecisionView;

    open spec fn view(&self) -> DecisionView {
        match *self {
            Decision::Approve => DecisionView::Approve,
            Decision::Edit(input) => DecisionView::Edit(input@),
            Decision::Deny(reason) => DecisionView::Deny(reason.deep_view()),
        }
    }
}

impl DeepView for Decision {
    type V = DecisionView;

    open spec fn deep_view(&self) -> DecisionView {
        self@
    }
}

impl Clone for Decision {
    fn clone(&self) -> (r: Decision)
        ensures
            r@ == self@,
    {
        match self {
            Decision::Approve => Decision::Approve,
            Decision::Edit(input) => Decision::Edit(input.clone()),
            Decision::Deny(reason) => Decision::Deny(copy_option(reason)),
        }
    }
}

/// Final state of a successful run. `messages` is the complete history
/// (input included): pass it back into the next `run` call for multi-turn
/// sessions, or serialize it to persist the conversation.
#[derive(Debug, PartialEq)]
pub struct RunResult {
    pub messages: Vec<Message>,
    /// Text of the final assistant message.
    pub final_text: String,
    /// Token usage summed over every model call in the run.
    pub usage: Usage,
    /// Number of model calls the run took.
    pub turns: u32,
}

/// What a result says.
#[verifier::ext_equal]
pub struct RunResultView {
    pub messages: Seq<MessageView>,
    pub final_text: Seq<char>,
    pub usage: Usage,
    pub turns: u32,
}

impl View for RunResult {
    type V = RunResultView;

    open spec fn view(&self) -> RunResultView {
        RunResultView {
            messages: self.messages.deep_view(),
            final_text: self.final_text@,
            usage: self.usage,
            turns: self.turns,
        }
    }
}

impl Clone for RunResult {
    fn clone(&self) -> (r: RunResult)
        ensures
            r@ == self@,
    {
        RunResult {
            messages: copy_all(&self.messages),
            final_text: self.final_text.clone(),
            usage: self.usage,
            turns: self.turns,
        }
    }
}

/// Everything observable about a run, as one typed stream. UI code matches on
/// this enum; there are no string event names to subscribe to.
#[derive(Debug, PartialEq)]
pub enum AgentEvent {
    /// Incremental assistant text.
    TextDelta(String),
    /// Incremental extended-thinking text.
    ThinkingDelta(String),
    /// A tool call is about to execute (input fully assembled).
    ToolCallStarted { id: String, name: String, input: Json },
    /// A tool call finished; `output.is_error` distinguishes failure.
    ToolCallFinished { id: String, name: String, output: ToolOutput },
    /// The run is paused waiting for a human decision on a tool call.
    AwaitingApproval(ApprovalRequest),
    /// Terminal event: the run finished successfully.
    Done(RunResult),
}

/// What an event says.
#[verifier::ext_equal]
pub enum AgentEventView {
    TextDelta(Seq<char>),
    ThinkingDelta(Seq<char>),
    ToolCallStarted(ToolCallView),
    ToolCallFinished { id: Seq<char>, name: Seq<char>, output: ToolOutputView },
    AwaitingApproval(ToolCallView),
    Done(RunResultView),
}

impl View for AgentEvent {
    type V = AgentEventView;

    open spec fn view(&self) -> AgentEventView {
        match *self {
            AgentEvent::TextDelta(text) => AgentEventView::TextDelta(text@),
            AgentEvent::ThinkingDelta(text) => AgentEventView::ThinkingDelta(text@),
            AgentEvent::ToolCallStarted { id, name, input } => AgentEventView::ToolCallStarted(
                ToolCallView { id: id@, name: name@, input: input@ },
            ),
            AgentEvent::ToolCallFinished { id, name, output } => AgentEventView::ToolCallFinished {
                id: id@,
                name: name@,
                output: output@,
            },
            AgentEvent::AwaitingApproval(request) => AgentEventView::AwaitingApproval(request@),
            AgentEvent::Done(result) => AgentEventView::Done(result@),
        }
    }
}

impl DeepView for AgentEvent {
    type V = AgentEventView;

    open spec fn deep_view(&self) -> AgentEventView {
        self@
    }
}

impl Clone for AgentEvent {
    fn clone(&self) -> (r: AgentEvent)
        ensures
            r@ == self@,
    {
        match self {
            AgentEvent::TextDelta(text) => AgentEvent::TextDelta(text.clone()),
            AgentEvent::ThinkingDelta(text) => AgentEvent::ThinkingDelta(text.clone()),
            AgentEvent::ToolCallStarted { id, name, input } => AgentEvent::ToolCallStarted {
                id: id.clone(),
                name: name.clone(),
                input: input.clone(),
            },
            AgentEvent::ToolCallFinished { id, name, output } => AgentEvent::ToolCallFinished {
                id: id.clone(),
                name: name.clone(),
                output: output.clone(),
            },
            AgentEvent::AwaitingApproval(request) => AgentEvent::AwaitingApproval(request.clone()),
            AgentEvent::Done(result) => AgentEvent::Done(result.clone()),
        }
    }
}

/// A failure to store a conversation or to read it back.
#[derive(Debug, PartialEq)]
pub enum CheckpointError {
    Io(String),
    Serde(String),
}

/// What such a failure says.
#[verifier::ext_equal]
pub enum CheckpointErrorView {
    Io(Seq<char>),
    Serde(Seq<char>),
}

impl View for CheckpointError {
    type V = CheckpointErrorView;

    open spec fn view(&self) -> CheckpointErrorView {
        match *self {
            CheckpointError::Io(words) => CheckpointErrorView::Io(words@),
            CheckpointError::Serde(words) => CheckpointErrorView::Serde(words@),
        }
    }
}

impl DeepView for CheckpointError {
    type V = CheckpointErrorView;

    open spec fn deep_view(&self) -> CheckpointErrorView {
        self@
    }
}

impl CheckpointErrorView {
    /// The error in words.
    pub open spec fn words(self) -> Seq<char> {
        match self {
            CheckpointErrorView::Io(words) => "checkpoint io: "@ + words,
            CheckpointErrorView::Serde(words) => "checkpoint serialization: "@ + words,
        }
    }
}

impl CheckpointError {
    /// The error in words.
    pub fn words(&self) -> (r: String)
        ensures
            r@ == self@.words(),
    {
        match self {
            CheckpointError::Io(words) => concat("checkpoint io: ", words.as_str()),
            CheckpointError::Serde(words) => concat("checkpoint serialization: ", words.as_str()),
        }
    }
}

/// How a run can fail.
#[derive(Debug)]
pub enum AgentError {
    Model(ModelError),
    /// The model kept calling tools up to the cap on model calls.
    MaxTurns(u32),
    /// Nobody is there to take the events or to decide.
    Abandoned(String),
    /// The agent lacks something that the run needs.
    Config(String),
    Checkpoint(CheckpointError),
}

/// What a failed run says.
#[verifier::ext_equal]
pub enum AgentErrorView {
    Model(ModelErrorView),
    MaxTurns(u32),
    Abandoned(Seq<char>),
    Config(Seq<char>),
    Checkpoint(CheckpointErrorView),
}

impl View for AgentError {
    type V = AgentErrorView;

    open spec fn view(&self) -> AgentErrorView {
        match *self {
            AgentError::Model(error) => AgentErrorView::Model(error@),
            AgentError::MaxTurns(turns) => AgentErrorView::MaxTurns(turns),
            AgentError::Abandoned(words) => AgentErrorView::Abandoned(words@),
            AgentError::Config(words) => AgentErrorView::Config(words@),
            AgentError::Checkpoint(error) => AgentErrorView::Checkpoint(error@),
        }
    }
}

impl DeepView for AgentError {
    type V = AgentErrorView;

    open spec fn deep_view(&self) -> AgentErrorView {
        self@
    }
}

impl AgentErrorView {
    /// The error in words.
    pub open spec fn words(self) -> Seq<char> {
        match self {
            AgentErrorView::Model(error) => error.words(),
            AgentErrorView::MaxTurns(turns) => "run exceeded max_turns ("@ + decimal_text(
                turns as nat,
            ) + ")"@,
            AgentErrorView::Abandoned(words) => "run was abandoned: "@ + words,
            AgentErrorView::Config(words) => "configuration error: "@ + words,
            AgentErrorView::Checkpoint(error) => error.words(),
        }
    }
}

impl AgentError {
    /// The error in words.
    pub fn words(&self) -> (r: String)
        ensures
            r@ == self@.words(),
    {
        match self {
            AgentError::Model(error) => error.words(),
            AgentError::MaxTurns(turns) => concat3(
                "run exceeded max_turns (",
                decimal(*turns as u64).as_str(),
                ")",
            ),
            AgentError::Abandoned(words) => concat("run was abandoned: ", words.as_str()),
            AgentError::Config(words) => concat("configuration error: ", words.as_str()),
            AgentError::Checkpoint(error) => error.words(),
        }
    }
}

/// The end of a run whose events nobody takes any more.
pub open spec fn dropped() -> AgentErrorView {
    AgentErrorView::Abandoned("event consumer dropped"@)
}

/// The end of a run whose events nobody takes any more.
pub fn consumer_dropped() -> (r: AgentError)
    ensures
        r@ == dropped(),
{
    AgentError::Abandoned("event consumer dropped".to_owned())
}

impl vstd::std_specs::convert::FromSpecImpl<ModelError> for AgentError {
    open spec fn obeys_from_spec() -> bool {
        true
    }

    open spec fn from_spec(error: ModelError) -> AgentError {
        AgentError::Model(error)
    }
}

impl From<ModelError> for AgentError {
    fn from(error: ModelError) -> (r: AgentError) {
        AgentError::Model(error)
    }
}

impl vstd::std_specs::convert::FromSpecImpl<CheckpointError> for AgentError {
    open spec fn obeys_from_spec() -> bool {
        true
    }

    open spec fn from_spec(error: CheckpointError) -> AgentError {
        AgentError::Checkpoint(error)
    }
}

impl From<CheckpointError> for AgentError {
    fn from(error: CheckpointError) -> (r: AgentError) {
        AgentError::Checkpoint(error)
    }
}

/// The words of a failed run say what kind of failure it is, and then what went
/// wrong.
pub proof fn law_failures_say_what_went_wrong(words: Seq<char>, cap: u32, error: ModelErrorView)
    ensures
        AgentErrorView::Model(error).words() == error.words(),
        AgentErrorView::MaxTurns(cap).words() == "run exceeded max_turns ("@ + decimal_text(
            cap as nat,
        ) + ")"@,
        AgentErrorView::Abandoned(words).words() == "run was abandoned: "@ + words,
        AgentErrorView::Config(words).words() == "configuration error: "@ + words,
        AgentErrorView::Checkpoint(CheckpointErrorView::Io(words)).words() == "checkpoint io: "@
            + words,
        AgentErrorView::Checkpoint(CheckpointErrorView::Serde(words)).words()
            == "checkpoint serialization: "@ + words,
        dropped() == AgentErrorView::Abandoned("event consumer dropped"@),
{
}

}
