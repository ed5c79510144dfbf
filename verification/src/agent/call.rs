//! One model call: stream deltas out as events, retry with backoff while the
//! failure is transient and nothing has been emitted yet.

use core::time::Duration;

use vstd::prelude::*;

use super::event::{AgentEvent, AgentEventView};
use super::settings::{duration_nanos, max_nanos, RetryPolicy, RetryPolicyView};
use crate::error::{ModelError, ModelErrorView};
use crate::model::{pull_view, Pull, Response, ResponseView, StreamEvent, StreamEventView};

verus! {

/// How far a model call is: which attempt it makes, and whether that attempt
/// has emitted anything.
#[derive(Debug, Clone, Copy, PartialEq, Eq, Structural)]
pub struct ModelCall {
    pub attempt: u32,
    pub emitted: bool,
}

/// What to do next in a model call.
#[derive(Debug)]
pub enum CallStep {
    /// Pull again.
    Pull,
    /// Emit this, and pull again.
    Forward(AgentEvent),
    /// The call is over.
    Completed(Response),
    /// The call failed for good.
    Failed(ModelError),
    /// Wait so long, and make the next attempt.
    Retry(Duration),
}

/// What such a step says; a wait is given in nanoseconds.
#[verifier::ext_equal]
pub enum CallStepView {
    Pull,
    Forward(AgentEventView),
    Completed(ResponseView),
    Failed(ModelErrorView),
    Retry(nat),
}

impl View for CallStep {
    type V = CallStepView;

    open spec fn view(&self) -> CallStepView {
        match *self {
            CallStep::Pull => CallStepView::Pull,
            CallStep::Forward(event) => CallStepView::Forward(event@),
            CallStep::Completed(response) => CallStepView::Completed(response@),
            CallStep::Failed(error) => CallStepView::Failed(error@),
            CallStep::Retry(delay) => CallStepView::Retry(duration_nanos(delay)),
        }
    }
}

/// A stream that ended before its response was complete.
pub open spec fn cut_short() -> ModelErrorView {
    ModelErrorView::Stream("stream ended without completion"@)
}

impl ModelCall {
    /// The first attempt.
    pub open spec fn begun() -> ModelCall {
        ModelCall { attempt: 1, emitted: false }
    }

    /// Whether a failure is worth another attempt.
    pub open spec fn retries(self, policy: RetryPolicyView, error: ModelErrorView) -> bool {
        !self.emitted && error.is_retryable() && self.attempt < policy.max_attempts
    }

    /// After a failure.
    pub open spec fn failed(self, policy: RetryPolicyView, error: ModelErrorView) -> (
        ModelCall,
        CallStepView,
    ) {
        if self.retries(policy, error) {
            (
                ModelCall { attempt: (self.attempt + 1) as u32, emitted: false },
                CallStepView::Retry(policy.delay(self.attempt)),
            )
        } else {
            (self, CallStepView::Failed(error))
        }
    }

    /// After a pull. Tool input deltas are not forwarded; the complete call is
    /// surfaced once assembled.
    pub open spec fn stepped(self, policy: RetryPolicyView, pull: Pull) -> (
        ModelCall,
        CallStepView,
    ) {
        match pull {
            Some(Ok(StreamEventView::TextDelta(text))) => (
                ModelCall { emitted: true, ..self },
                CallStepView::Forward(AgentEventView::TextDelta(text)),
            ),
            Some(Ok(StreamEventView::ThinkingDelta(text))) => (
                ModelCall { emitted: true, ..self },
                CallStepView::Forward(AgentEventView::ThinkingDelta(text)),
            ),
            Some(Ok(StreamEventView::Completed(response))) => (
                self,
                CallStepView::Completed(response),
            ),
            Some(Ok(_)) => (self, CallStepView::Pull),
            Some(Err(error)) => self.failed(policy, error),
            None => self.failed(policy, cut_short()),
        }
    }

    /// Whether a pull asks for no wait longer than the longest there is.
    pub open spec fn accepts(self, policy: RetryPolicyView, pull: Pull) -> bool {
        self.stepped(policy, pull).1 matches CallStepView::Retry(delay) ==> delay <= max_nanos()
    }

    /// The first attempt.
    pub fn begin() -> (r: ModelCall)
        ensures
            r == ModelCall::begun(),
    {
        ModelCall { attempt: 1, emitted: false }
    }

    fn should_retry(&self, policy: &RetryPolicy, error: &ModelError) -> (r: bool)
        ensures
            r == self.retries(policy@, error@),
    {
        !self.emitted && error.is_retryable() && self.attempt < policy.max_attempts
    }

    fn fail(&mut self, policy: &RetryPolicy, error: ModelError) -> (r: CallStep)
        requires
            old(self).attempt > 0,
            old(self).retries(policy@, error@) ==> policy@.delay(old(self).attempt) <= max_nanos(),
        ensures
            (*final(self), r@) == old(self).failed(policy@, error@),
    {
        if self.should_retry(policy, &error) {
            if let Some(delay) = policy.delay(self.attempt) {
                self.attempt = self.attempt + 1;
                return CallStep::Retry(delay);
            }
        }
        CallStep::Failed(error)
    }

    /// After a pull.
    pub fn on_pull(
        &mut self,
        policy: &RetryPolicy,
        pull: Option<Result<StreamEvent, ModelError>>,
    ) -> (r: CallStep)
        requires
            old(self).attempt > 0,
            old(self).accepts(policy@, pull_view(pull)),
        ensures
            (*final(self), r@) == old(self).stepped(policy@, pull_view(pull)),
    {
        match pull {
            Some(Ok(StreamEvent::TextDelta(text))) => {
                self.emitted = true;
                CallStep::Forward(AgentEvent::TextDelta(text))
            },
            Some(Ok(StreamEvent::ThinkingDelta(text))) => {
                self.emitted = true;
                CallStep::Forward(AgentEvent::ThinkingDelta(text))
            },
            Some(Ok(StreamEvent::Completed(response))) => CallStep::Completed(response),
            Some(Ok(_)) => CallStep::Pull,
            Some(Err(error)) => self.fail(policy, error),
            None => self.fail(
                policy,
                ModelError::Stream("stream ended without completion".to_owned()),
            ),
        }
    }

    /// Whether [`ModelCall::on_pull`] can take a pull.
    pub fn can_take(
        &self,
        policy: &RetryPolicy,
        pull: &Option<Result<StreamEvent, ModelError>>,
    ) -> (r: bool)
        requires
            self.attempt > 0,
        ensures
            r == self.accepts(policy@, pull_view(*pull)),
    {
        match pull {
            Some(Ok(_)) => true,
            Some(Err(error)) => !self.should_retry(policy, error) || policy.delay(
                self.attempt,
            ).is_some(),
            None => self.emitted || self.attempt >= policy.max_attempts || policy.delay(
                self.attempt,
            ).is_some(),
        }
    }
}

/// A call is retried only while it has emitted nothing, and only on a failure
/// that may go away; the number of attempts stays within the policy.
pub proof fn law_retry_only_before_output(call: ModelCall, policy: RetryPolicyView, pull: Pull)
    requires
        call.stepped(policy, pull).1 is Retry,
    ensures
        !call.emitted,
        pull is None || (pull matches Some(Err(error)) && error.is_retryable()),
        call.stepped(policy, pull).0.attempt == call.attempt + 1,
        call.stepped(policy, pull).0.attempt <= policy.max_attempts,
        !call.stepped(policy, pull).0.emitted,
        call.stepped(policy, pull).1 == CallStepView::Retry(policy.delay(call.attempt)),
{
}

/// Once anything has been emitted, an attempt is the last: it completes or
/// fails, and whatever it emits in between is passed on as it came.
pub proof fn law_no_retry_after_output(call: ModelCall, policy: RetryPolicyView, pull: Pull)
    requires
        call.emitted,
    ensures
        call.stepped(policy, pull).1 !is Retry,
        call.stepped(policy, pull).0 == call,
{
}

/// A failure that may go away is retried as long as attempts are left and
/// nothing has been emitted; any other is final, and is handed on as it is.
pub proof fn law_transient_failures_are_retried(
    call: ModelCall,
    policy: RetryPolicyView,
    error: ModelErrorView,
)
    requires
        0 < call.attempt < u32::MAX,
    ensures
        ({
            let (next, step) = call.stepped(policy, Some(Err(error)));
            let again = !call.emitted && error.is_retryable() && call.attempt
                < policy.max_attempts;
            &&& again <==> step is Retry
            &&& !again <==> step == CallStepView::Failed(error)
            &&& again ==> next == (ModelCall {
                attempt: (call.attempt + 1) as u32,
                emitted: false,
            })
        }),
{
}

/// A call is over with the model's response as it is, whatever was emitted, and
/// text and thinking are passed on unchanged and remembered as emitted.
pub proof fn law_calls_hand_on_what_comes(
    call: ModelCall,
    policy: RetryPolicyView,
    response: ResponseView,
    text: Seq<char>,
)
    ensures
        call.stepped(policy, Some(Ok(StreamEventView::Completed(response)))).1
            == CallStepView::Completed(response),
        call.stepped(policy, Some(Ok(StreamEventView::TextDelta(text)))) == (
            ModelCall { attempt: call.attempt, emitted: true },
            CallStepView::Forward(AgentEventView::TextDelta(text)),
        ),
        call.stepped(policy, Some(Ok(StreamEventView::ThinkingDelta(text)))) == (
            ModelCall { attempt: call.attempt, emitted: true },
            CallStepView::Forward(AgentEventView::ThinkingDelta(text)),
        ),
        call.stepped(policy, Some(Ok(StreamEventView::InputJsonDelta(text)))) == (
            call,
            CallStepView::Pull,
        ),
        ModelCall::begun().attempt == 1,
        !ModelCall::begun().emitted,
{
}

/// A wait is asked for only where it can be waited.
pub proof fn law_pulls_are_taken_unless_the_wait_is_too_long(
    call: ModelCall,
    policy: RetryPolicyView,
    pull: Pull,
)
    requires
        policy.delay(call.attempt) <= max_nanos(),
    ensures
        call.accepts(policy, pull),
{
}

}
