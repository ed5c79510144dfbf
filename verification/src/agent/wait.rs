//! Driving a run to completion without a human.

use vstd::prelude::*;

use super::event::{
    AgentError, AgentErrorView, AgentEvent, AgentEventView, Decision, DecisionView, RunResult,
    RunResultView,
};

verus! {

/// What to do after one receive from a run's events.
#[derive(Debug)]
pub enum WaitStep {
    /// Receive again.
    Next,
    /// Answer the pending request, and receive again.
    Decide(Decision),
    /// The wait is over.
    Return(Result<RunResult, AgentError>),
}

/// What such a step says.
#[verifier::ext_equal]
pub enum WaitStepView {
    Next,
    Decide(DecisionView),
    Return(Result<RunResultView, AgentErrorView>),
}

impl View for WaitStep {
    type V = WaitStepView;

    open spec fn view(&self) -> WaitStepView {
        match *self {
            WaitStep::Next => WaitStepView::Next,
            WaitStep::Decide(decision) => WaitStepView::Decide(decision@),
            WaitStep::Return(Ok(result)) => WaitStepView::Return(Ok(result@)),
            WaitStep::Return(Err(error)) => WaitStepView::Return(Err(error@)),
        }
    }
}

/// What was received from a run: an event, the failure of the run, or nothing
/// more.
pub type Received = Option<Result<AgentEventView, AgentErrorView>>;

/// What was received, by what it says.
pub open spec fn received(event: Option<Result<AgentEvent, AgentError>>) -> Received {
    match event {
        None => None,
        Some(Ok(event)) => Some(Ok(event@)),
        Some(Err(error)) => Some(Err(error@)),
    }
}

/// Requests for approval are denied, the end of the run is returned, and all
/// else is passed over.
pub open spec fn waited(event: Received) -> WaitStepView {
    match event {
        Some(Ok(AgentEventView::AwaitingApproval(_))) => WaitStepView::Decide(
            DecisionView::Deny(Some("no interactive approver attached; call denied"@)),
        ),
        Some(Ok(AgentEventView::Done(result))) => WaitStepView::Return(Ok(result)),
        Some(Ok(_)) => WaitStepView::Next,
        Some(Err(error)) => WaitStepView::Return(Err(error)),
        None => WaitStepView::Return(
            Err(AgentErrorView::Abandoned("event stream ended without a Done event"@)),
        ),
    }
}

/// One step of driving a run to completion, discarding intermediate events.
/// Approval requests are auto-denied.
pub fn wait_step(event: Option<Result<AgentEvent, AgentError>>) -> (r: WaitStep)
    ensures
        r@ == waited(received(event)),
{
    match event {
        Some(Ok(AgentEvent::AwaitingApproval(_))) => WaitStep::Decide(
            Decision::Deny(Some("no interactive approver attached; call denied".to_owned())),
        ),
        Some(Ok(AgentEvent::Done(result))) => WaitStep::Return(Ok(result)),
        Some(Ok(_)) => WaitStep::Next,
        Some(Err(error)) => WaitStep::Return(Err(error)),
        None => WaitStep::Return(
            Err(AgentError::Abandoned("event stream ended without a Done event".to_owned())),
        ),
    }
}

/// Nothing is ever approved while nobody is attached.
pub proof fn law_nothing_is_approved_unattended(event: Received)
    ensures
        waited(event) matches WaitStepView::Decide(decision) ==> decision is Deny,
        event matches Some(Ok(AgentEventView::AwaitingApproval(_))) ==> waited(event) is Decide,
        waited(event) is Decide <==> (event matches Some(Ok(told)) && told is AwaitingApproval),
        waited(event) is Decide ==> waited(event) == WaitStepView::Decide(
            DecisionView::Deny(Some("no interactive approver attached; call denied"@)),
        ),
{
}

/// A wait ends with the result of the run or with its failure, as they are, and
/// with nothing before; a run that just stops is abandoned.
pub proof fn law_waits_return_what_the_run_ends_in(
    event: AgentEventView,
    result: RunResultView,
    error: AgentErrorView,
)
    ensures
        waited(Some(Ok(AgentEventView::Done(result)))) == WaitStepView::Return(Ok(result)),
        waited(Some(Err(error))) == WaitStepView::Return(Err(error)),
        event !is Done && event !is AwaitingApproval ==> waited(Some(Ok(event))) is Next,
        waited(None) == WaitStepView::Return(
            Err(AgentErrorView::Abandoned("event stream ended without a Done event"@)),
        ),
{
}

}
