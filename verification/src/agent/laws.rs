//! What holds of whole runs.

use vstd::prelude::*;

use super::batch::{
    announced, decided, law_calls_without_a_gate_all_run_at_once,
    law_gated_calls_do_not_run_at_once, law_open_from, ToolBatchView, VerdictView,
};
use super::call::CallStepView;
use super::event::{
    AgentErrorView, AgentEventView, CheckpointErrorView, DecisionView, ToolCallView,
};
use super::run::{
    calls_in, resumed, session_begun, CommandView, InputView, Next, PhaseView, ReactionView,
    RunView,
};
use super::settings::{is_gated, AgentView};
use crate::error::ModelErrorView;
use crate::message::{text_of, uses_of, ContentView, MessageView};
use crate::model::{RequestView, ResponseView, StreamEventView};
use crate::tool::ToolOutputView;

verus! {

/// A run so far: where it stands, its last reaction, all it has emitted, what of
/// that came since the model's stream was last started, the model's responses,
/// how many model calls it has asked for, and the history that has last been
/// stored.
pub struct Log {
    pub run: RunView,
    pub reaction: ReactionView,
    pub events: Seq<AgentEventView>,
    pub shown: Seq<AgentEventView>,
    pub responses: Seq<ResponseView>,
    pub calls: nat,
    pub stored: Option<Seq<MessageView>>,
}

/// The response that an input brings.
pub open spec fn response_in(run: RunView, input: InputView) -> Option<ResponseView> {
    match (run.phase, input) {
        (
            PhaseView::Calling { .. },
            InputView::Pulled(Some(Ok(StreamEventView::Completed(response)))),
        ) => Some(response),
        _ => None,
    }
}

impl Log {
    /// The log of a run that has just started.
    pub open spec fn begun(start: (RunView, ReactionView)) -> Log {
        Log {
            run: start.0,
            reaction: start.1,
            events: start.1.events,
            shown: start.1.events,
            responses: Seq::empty(),
            calls: if start.1.command is Prepare {
                1
            } else {
                0
            },
            stored: None,
        }
    }

    /// The log after one more input.
    pub open spec fn after(self, input: InputView) -> Log {
        let (run, reaction) = self.run.reacted(input);
        Log {
            run,
            reaction,
            events: self.events + reaction.events,
            shown: if reaction.command is Stream {
                Seq::empty()
            } else {
                self.shown + reaction.events
            },
            responses: match response_in(self.run, input) {
                Some(response) => self.responses.push(response),
                None => self.responses,
            },
            calls: if reaction.command is Prepare {
                self.calls + 1
            } else {
                self.calls
            },
            stored: if self.run.phase is Saving && (input matches InputView::Saved(outcome) && outcome is Ok) {
                Some(self.run.messages)
            } else {
                self.stored
            },
        }
    }
}

/// The log of a run that started so and took these inputs.
pub open spec fn logged(start: (RunView, ReactionView), inputs: Seq<InputView>) -> Log
    decreases inputs.len(),
{
    if inputs.len() == 0 {
        Log::begun(start)
    } else {
        logged(start, inputs.drop_last()).after(inputs.last())
    }
}

/// Whether each of the inputs came when the run waited for it.
pub open spec fn awaited(start: (RunView, ReactionView), inputs: Seq<InputView>) -> bool
    decreases inputs.len(),
{
    inputs.len() > 0 ==> {
        &&& awaited(start, inputs.drop_last())
        &&& logged(start, inputs.drop_last()).run.awaits(inputs.last())
    }
}

/// Whether a run starts so: from a history, or from a session.
pub open spec fn starts(start: (RunView, ReactionView)) -> bool {
    ||| exists|agent: AgentView, messages: Seq<MessageView>|
        start == #[trigger] resumed(agent, messages)
    ||| exists|agent: AgentView, session: Seq<char>, input: Seq<char>|
        start == #[trigger] session_begun(agent, session, input)
}

/// The input tokens of some responses, added up.
pub open spec fn input_total(responses: Seq<ResponseView>) -> int
    decreases responses.len(),
{
    if responses.len() == 0 {
        0
    } else {
        input_total(responses.drop_last()) + responses.last().usage.input_tokens
    }
}

/// The output tokens of some responses, added up.
pub open spec fn output_total(responses: Seq<ResponseView>) -> int
    decreases responses.len(),
{
    if responses.len() == 0 {
        0
    } else {
        output_total(responses.drop_last()) + responses.last().usage.output_tokens
    }
}

/// How many attempts a model call may take.
pub open spec fn attempts_allowed(agent: AgentView) -> u32 {
    if agent.retry.max_attempts < 1 {
        1
    } else {
        agent.retry.max_attempts
    }
}

/// The model is due to be called, or is being called.
pub open spec fn in_call(phase: PhaseView) -> bool {
    phase is Preparing || phase is Calling || phase is Sleeping
}

/// Tools run, or wait to.
pub open spec fn in_batch(phase: PhaseView) -> bool {
    phase is Running || phase is Deciding || phase is Gated
}

/// None of the events says that the run is done.
pub open spec fn not_done(events: Seq<AgentEventView>) -> bool {
    forall|i: int| 0 <= i < events.len() ==> #[trigger] events[i] !is Done
}

/// What holds of a log at all times.
pub open spec fn kept(log: Log) -> bool {
    let run = log.run;
    &&& run.wf()
    &&& log.calls == run.turn
    &&& run.usage.input_tokens == input_total(log.responses)
    &&& run.usage.output_tokens == output_total(log.responses)
    &&& in_call(run.phase) ==> log.responses.len() + 1 == run.turn
    &&& in_batch(run.phase) || run.phase is Saving || run.phase is Loading ==> log.responses.len()
        == run.turn
    &&& run.phase matches PhaseView::Calling { call, .. } ==> call.attempt <= attempts_allowed(
        run.agent,
    )
    &&& run.phase matches PhaseView::Sleeping { call, .. } ==> call.attempt <= attempts_allowed(
        run.agent,
    )
    &&& run.session is Some && (in_call(run.phase) || in_batch(run.phase)) ==> log.stored == Some(
        run.messages,
    )
    &&& run.phase is Loading ==> log.stored is None
    &&& run.phase is Saving ==> log.stored is None || log.stored == Some(run.messages.drop_last())
    &&& run.phase matches PhaseView::Saving(Next::Reply { .. }) ==> log.responses.len() > 0
        && run.messages.last() == log.responses.last().message
    &&& log.reaction.command == CommandView::Finish(Ok(())) ==> {
        &&& log.reaction.events == seq![AgentEventView::Done(run.result())]
        &&& log.responses.len() == run.turn > 0
        &&& run.messages.last() == log.responses.last().message
        &&& run.session is Some ==> log.stored == Some(run.messages)
    }
    &&& run.phase is Ended <==> log.reaction.command is Finish
    &&& run.phase matches PhaseView::Calling { call, .. } ==> (!call.emitted ==> log.shown.len()
        == 0)
    &&& run.phase is Sleeping ==> log.shown.len() == 0
    &&& run.phase !is Ended ==> not_done(log.events)
    &&& log.events.len() > 0 ==> not_done(log.events.drop_last())
}

proof fn lemma_begun(start: (RunView, ReactionView))
    requires
        starts(start),
    ensures
        kept(Log::begun(start)),
{
}

proof fn lemma_proceeded(run: RunView, batch: ToolBatchView, events: Seq<AgentEventView>)
    requires
        run.turn <= run.agent.max_turns,
        batch.valid(),
        not_done(events),
    ensures
        ({
            let (next, reaction) = run.proceeded(batch, events);
            &&& next.wf()
            &&& not_done(reaction.events)
            &&& next.agent == run.agent
            &&& next.session == run.session
            &&& next.usage == run.usage
            &&& reaction.command != CommandView::Finish(Ok(()))
            &&& next.phase is Ended <==> reaction.command is Finish
            &&& reaction.command is Prepare <==> next.phase is Preparing
            &&& next.turn == run.turn + (if reaction.command is Prepare {
                1int
            } else {
                0int
            })
            &&& ({
                ||| in_batch(next.phase) && next.messages == run.messages
                ||| !in_batch(next.phase) && next.messages.drop_last() == run.messages
                    && next.messages.len() > 0
            })
            &&& next.phase is Saving ==> next.phase == PhaseView::Saving(Next::Turn)
            &&& next.phase is Saving <==> (!in_batch(next.phase) && run.session is Some)
            &&& in_call(next.phase) ==> next.phase is Preparing
            &&& next.phase !is Loading
        }),
{
    law_open_from(batch, false, 0);
    law_open_from(batch, true, 0);
    if batch.open_from(false, 0) is None && batch.open_from(true, 0) is None {
        let grown = run.messages.push(super::run::results_message(batch));
        assert(grown.drop_last() == run.messages);
    }
}

proof fn lemma_after(log: Log, input: InputView)
    requires
        kept(log),
        log.run.awaits(input),
    ensures
        kept(log.after(input)),
{
    let run = log.run;
    let next = log.after(input);
    match (run.phase, input) {
        (PhaseView::Calling { request, call }, InputView::Pulled(pull)) => {
            let (_, step) = call.stepped(run.agent.retry, pull);
            if let CallStepView::Completed(response) = step {
                assert(response_in(run, input) == Some(response));
                assert(log.responses.push(response).drop_last() == log.responses);
                let replied = RunView {
                    usage: run.usage.plus(response.usage),
                    messages: run.messages.push(response.message),
                    ..run
                };
                assert(replied.messages.drop_last() == run.messages);
                lemma_proceeded(replied, replied.batch(), announced(replied.batch().calls));
            } else {
                assert(response_in(run, input) is None);
            }
        },
        (PhaseView::Saving(Next::Reply { tool_use }), InputView::Saved(Ok(()))) => {
            lemma_proceeded(run, run.batch(), announced(run.batch().calls));
        },
        (PhaseView::Running(batch), InputView::ToolFinished { index, output }) => {
            lemma_proceeded(run, batch.finished(index, output), seq![batch.report(index, output)]);
        },
        (PhaseView::Deciding { batch, index }, InputView::Decided(decision)) => {
            if let VerdictView::Denied(output) = decided(batch.calls[index], decision) {
                lemma_proceeded(
                    run,
                    batch.finished(index, output),
                    seq![batch.report(index, output)],
                );
            }
        },
        (PhaseView::Gated { batch, index }, InputView::ToolRan(output)) => {
            lemma_proceeded(run, batch.finished(index, output), seq![batch.report(index, output)]);
        },
        _ => {},
    }
}

/// What [`kept`] says holds of every run, at every moment.
pub proof fn law_kept(start: (RunView, ReactionView), inputs: Seq<InputView>)
    requires
        starts(start),
        awaited(start, inputs),
    ensures
        kept(logged(start, inputs)),
    decreases inputs.len(),
{
    if inputs.len() == 0 {
        lemma_begun(start);
    } else {
        law_kept(start, inputs.drop_last());
        lemma_after(logged(start, inputs.drop_last()), inputs.last());
    }
}

/// A run makes at most as many model calls as the cap allows, each in no more
/// attempts than the retry policy allows.
pub proof fn law_calls_stay_within_the_caps(start: (RunView, ReactionView), inputs: Seq<InputView>)
    requires
        starts(start),
        awaited(start, inputs),
    ensures
        ({
            let log = logged(start, inputs);
            &&& log.calls <= log.run.agent.max_turns
            &&& log.run.phase matches PhaseView::Calling { call, .. } ==> call.attempt
                <= attempts_allowed(log.run.agent)
        }),
{
    law_kept(start, inputs);
}

/// A run that succeeds reports the whole history, the text of the last
/// response, the usage of all responses added up and the number of model calls.
pub proof fn law_done_reports_the_run(start: (RunView, ReactionView), inputs: Seq<InputView>)
    requires
        starts(start),
        awaited(start, inputs),
        logged(start, inputs).reaction.command == CommandView::Finish(Ok(())),
    ensures
        ({
            let log = logged(start, inputs);
            log.events.last() matches AgentEventView::Done(result) && {
                &&& result.messages == log.run.messages
                &&& result.final_text == text_of(log.responses.last().message.content)
                &&& result.messages.last() == log.responses.last().message
                &&& result.usage.input_tokens == input_total(log.responses)
                &&& result.usage.output_tokens == output_total(log.responses)
                &&& result.turns == log.responses.len() == log.calls
            }
        }),
{
    law_kept(start, inputs);
    let log = logged(start, inputs);
    if inputs.len() > 0 {
        let before = logged(start, inputs.drop_last());
        assert(log.events == before.events + log.reaction.events);
    }
    assert(log.events.last() == log.reaction.events.last());
}

/// The consumer never sees output twice: an attempt that is retried has shown
/// nothing.
pub proof fn law_retried_attempts_have_shown_nothing(
    start: (RunView, ReactionView),
    inputs: Seq<InputView>,
)
    requires
        starts(start),
        awaited(start, inputs),
        logged(start, inputs).run.phase is Sleeping,
    ensures
        logged(start, inputs).shown.len() == 0,
{
    law_kept(start, inputs);
}

/// Nothing follows the event that says that the run is done, and it comes only
/// once the run is over.
pub proof fn law_done_comes_last(start: (RunView, ReactionView), inputs: Seq<InputView>, i: int)
    requires
        starts(start),
        awaited(start, inputs),
        0 <= i < logged(start, inputs).events.len(),
        logged(start, inputs).events[i] is Done,
    ensures
        i == logged(start, inputs).events.len() - 1,
        logged(start, inputs).run.phase is Ended,
{
    law_kept(start, inputs);
    let events = logged(start, inputs).events;
    if i < events.len() - 1 {
        assert(events.drop_last()[i] == events[i]);
    }
}

/// Tool errors are data: no output of a tool makes the run fail, save that the
/// turns may have run out.
pub proof fn law_tool_outputs_do_not_fail_the_run(run: RunView, input: InputView)
    requires
        run.wf(),
        run.awaits(input),
        input is ToolFinished || input is ToolRan,
    ensures
        run.reacted(input).1.command matches CommandView::Finish(outcome) ==> outcome == Err::<
            (),
            AgentErrorView,
        >(AgentErrorView::MaxTurns(run.agent.max_turns)),
{
}

/// The loop goes on for as long as the model asks for tools, and ends in success
/// once it stops asking: at once, or once the reply has been stored.
pub proof fn law_run_ends_when_the_model_stops_asking(run: RunView, response: ResponseView)
    requires
        run.turn <= run.agent.max_turns,
    ensures
        run.session is None ==> (run.completed(response).1.command == CommandView::Finish(Ok(()))
            <==> response.stop_reason !is ToolUse),
        run.session is Some ==> {
            let saving = run.completed(response).0;
            &&& saving.phase is Saving
            &&& saving.reacted(InputView::Saved(Ok(()))).1.command == CommandView::Finish(Ok(()))
                <==> response.stop_reason !is ToolUse
        },
{
    let replied = RunView {
        usage: run.usage.plus(response.usage),
        messages: run.messages.push(response.message),
        ..run
    };
    lemma_proceeded(replied, replied.batch(), announced(replied.batch().calls));
    let saving = RunView {
        phase: PhaseView::Saving(Next::Reply { tool_use: response.stop_reason is ToolUse }),
        ..replied
    };
    lemma_proceeded(saving, saving.batch(), announced(saving.batch().calls));
}

/// Every output is reported as it comes, before anything else.
pub proof fn law_outputs_are_reported_as_they_come(
    run: RunView,
    batch: ToolBatchView,
    index: int,
    output: ToolOutputView,
)
    requires
        run.phase == PhaseView::Running(batch),
        run.awaits(InputView::ToolFinished { index, output }),
    ensures
        ({
            let events = run.reacted(InputView::ToolFinished { index, output }).1.events;
            events.len() > 0 && events[0] == batch.report(index, output)
        }),
{
}

/// A session goes on from the history that was stored, with what the user says
/// now behind it; a session without one starts afresh.
pub proof fn law_sessions_go_on_from_what_was_stored(
    run: RunView,
    input: Seq<char>,
    history: Seq<MessageView>,
)
    requires
        run.phase == (PhaseView::Loading { input }),
        run.session is Some,
    ensures
        run.reacted(InputView::Loaded(Ok(Some(history)))).0.messages == history.push(
            MessageView::user(input),
        ),
        run.reacted(InputView::Loaded(Ok(None))).0.messages == seq![MessageView::user(input)],
{
    assert(Seq::<MessageView>::empty().push(MessageView::user(input)) == seq![
        MessageView::user(input),
    ]);
}

/// In a durable session, the run goes on to the model, to the tools or to its
/// successful end only once the whole history has been stored. What is not
/// stored at any moment is at most the last message.
pub proof fn law_session_is_stored_before_the_run_goes_on(
    start: (RunView, ReactionView),
    inputs: Seq<InputView>,
)
    requires
        starts(start),
        awaited(start, inputs),
        logged(start, inputs).run.session is Some,
    ensures
        ({
            let log = logged(start, inputs);
            let command = log.reaction.command;
            &&& !(command is Load || command is Save || (command matches CommandView::Finish(
                outcome,
            ) && outcome is Err)) ==> log.stored == Some(log.run.messages)
            &&& command is Save ==> {
                &&& command == CommandView::Save {
                    session: log.run.session->0,
                    messages: log.run.messages,
                }
                &&& log.stored is None || log.stored == Some(log.run.messages.drop_last())
            }
        }),
{
    law_kept(start, inputs);
    lemma_commands(start, inputs);
}

/// Commands and phases go together.
proof fn lemma_commands(start: (RunView, ReactionView), inputs: Seq<InputView>)
    requires
        starts(start),
        awaited(start, inputs),
    ensures
        ({
            let log = logged(start, inputs);
            let command = log.reaction.command;
            &&& log.run.phase is Loading <==> command is Load
            &&& log.run.phase is Saving <==> command is Save
            &&& log.run.phase is Ended <==> command is Finish
            &&& command is Save ==> log.run.session is Some && command == CommandView::Save {
                session: log.run.session->0,
                messages: log.run.messages,
            }
        }),
    decreases inputs.len(),
{
    law_kept(start, inputs);
    if inputs.len() > 0 {
        let init = inputs.drop_last();
        law_kept(start, init);
        lemma_commands(start, init);
        let run = logged(start, init).run;
        lemma_batch_commands(run);
    }
}

proof fn lemma_batch_commands(run: RunView)
    ensures
        forall|batch: ToolBatchView, events: Seq<AgentEventView>|
            ({
                let (next, reaction) = #[trigger] run.proceeded(batch, events);
                let command = reaction.command;
                &&& next.phase !is Loading && command !is Load
                &&& next.phase is Saving <==> command is Save
                &&& next.phase is Ended <==> command is Finish
                &&& command is Save ==> next.session is Some && command == CommandView::Save {
                    session: next.session->0,
                    messages: next.messages,
                }
            }),
{
}

/// The history is append-only: a run that goes on from a history keeps all of
/// it, in its place.
pub proof fn law_history_only_grows(
    agent: AgentView,
    messages: Seq<MessageView>,
    inputs: Seq<InputView>,
)
    requires
        awaited(resumed(agent, messages), inputs),
    ensures
        messages.is_prefix_of(logged(resumed(agent, messages), inputs).run.messages),
    decreases inputs.len(),
{
    let start = resumed(agent, messages);
    assert(starts(start));
    if inputs.len() > 0 {
        let init = inputs.drop_last();
        law_history_only_grows(agent, messages, init);
        law_kept(start, init);
        lemma_no_loading(agent, messages, init);
        law_step_appends(logged(start, init).run, inputs.last());
    }
}

proof fn lemma_no_loading(agent: AgentView, messages: Seq<MessageView>, inputs: Seq<InputView>)
    requires
        awaited(resumed(agent, messages), inputs),
    ensures
        logged(resumed(agent, messages), inputs).run.session is None,
        logged(resumed(agent, messages), inputs).run.phase !is Loading,
    decreases inputs.len(),
{
    let start = resumed(agent, messages);
    assert(starts(start));
    law_kept(start, inputs);
    if inputs.len() > 0 {
        lemma_no_loading(agent, messages, inputs.drop_last());
        lemma_batch_commands(logged(start, inputs.drop_last()).run);
    }
}

/// One step leaves the history alone or appends to it: the model's reply, the
/// tool results, or both where there is no session and no tool to wait for.
pub proof fn law_step_appends(run: RunView, input: InputView)
    requires
        run.wf(),
        run.awaits(input),
        run.phase !is Loading,
    ensures
        ({
            let after = run.reacted(input).0.messages;
            ||| after == run.messages
            ||| after.len() == run.messages.len() + 1 && after.drop_last() == run.messages
            ||| after.len() == run.messages.len() + 2 && after.drop_last().drop_last()
                == run.messages
        }),
        run.messages.is_prefix_of(run.reacted(input).0.messages),
{
    match (run.phase, input) {
        (PhaseView::Calling { request, call }, InputView::Pulled(pull)) => {
            if let CallStepView::Completed(response) = call.stepped(run.agent.retry, pull).1 {
                let replied = RunView {
                    usage: run.usage.plus(response.usage),
                    messages: run.messages.push(response.message),
                    ..run
                };
                assert(replied.messages.drop_last() == run.messages);
                lemma_proceeded(replied, replied.batch(), announced(replied.batch().calls));
            }
        },
        (PhaseView::Saving(Next::Reply { tool_use }), InputView::Saved(Ok(()))) => {
            lemma_proceeded(run, run.batch(), announced(run.batch().calls));
        },
        (PhaseView::Running(batch), InputView::ToolFinished { index, output }) => {
            lemma_proceeded(run, batch.finished(index, output), seq![batch.report(index, output)]);
        },
        (PhaseView::Deciding { batch, index }, InputView::Decided(decision)) => {
            if let VerdictView::Denied(output) = decided(batch.calls[index], decision) {
                lemma_proceeded(
                    run,
                    batch.finished(index, output),
                    seq![batch.report(index, output)],
                );
            }
        },
        (PhaseView::Gated { batch, index }, InputView::ToolRan(output)) => {
            lemma_proceeded(run, batch.finished(index, output), seq![batch.report(index, output)]);
        },
        _ => {},
    }
    let after = run.reacted(input).0.messages;
    if after.len() == run.messages.len() + 2 {
        assert(after.take(run.messages.len() as int) == after.drop_last().drop_last());
    } else if after.len() == run.messages.len() + 1 {
        assert(after.take(run.messages.len() as int) == after.drop_last());
    }
}

/// Middleware rewrites the request, never the history: whatever it makes of the
/// request, the history and all else of the run stay as they are.
pub proof fn law_middleware_leaves_the_history_alone(run: RunView, request: RequestView)
    requires
        run.phase is Preparing,
    ensures
        run.reacted(InputView::Prepared(request)).0.messages == run.messages,
        run.reacted(InputView::Prepared(request)).1.command == CommandView::Stream(request),
{
}

/// A held call runs only on a decision that lets it run, and as the decision
/// has it.
pub proof fn law_held_calls_run_only_when_decided(run: RunView, input: InputView)
    requires
        run.wf(),
        run.awaits(input),
        run.reacted(input).1.command is RunTool,
    ensures
        run.phase matches PhaseView::Deciding { batch, index } && (input matches InputView::Decided(
            Some(decision),
        ) && {
            &&& batch.gated[index]
            &&& run.reacted(input).1.command == CommandView::RunTool(
                match decision {
                    DecisionView::Edit(edited) => ToolCallView {
                        input: edited,
                        ..batch.calls[index]
                    },
                    _ => batch.calls[index],
                },
            )
            &&& decision !is Deny
        }),
{
    lemma_no_run_tool(run);
}

proof fn lemma_no_run_tool(run: RunView)
    ensures
        forall|batch: ToolBatchView, events: Seq<AgentEventView>|
            (#[trigger] run.proceeded(batch, events)).1.command !is RunTool,
        forall|usage, messages, batch: ToolBatchView, events: Seq<AgentEventView>|
            (#[trigger] (RunView { usage, messages, ..run }).proceeded(
                batch,
                events,
            )).1.command !is RunTool,
{
}

/// The calls that start at once are calls of the model's last message, and none
/// of them is to a tool that wants approval.
pub proof fn law_calls_that_start_at_once_need_no_approval(run: RunView, n: int)
    requires
        calls_in(run.messages.last()).len() <= usize::MAX,
        run.tools_started().1.command matches CommandView::RunTools(calls) && 0 <= n < calls.len(),
    ensures
        run.tools_started().1.command matches CommandView::RunTools(calls) && {
            &&& calls[n].0 < calls_in(run.messages.last()).len()
            &&& calls[n].1 == calls_in(run.messages.last())[calls[n].0 as int]
            &&& !is_gated(run.agent.tools, calls[n].1.name)
        },
{
    lemma_run_tools_here(run);
    law_gated_calls_do_not_run_at_once(run.batch(), 0, n);
}

proof fn lemma_run_tools_here(run: RunView)
    requires
        run.tools_started().1.command is RunTools,
    ensures
        run.tools_started().1.command == CommandView::RunTools(run.batch().concurrent_from(0)),
{
}

/// The tools are announced before any of them runs: the reply's calls, in their
/// order, open the events of the batch.
pub proof fn law_calls_are_announced_first(run: RunView)
    ensures
        announced(calls_in(run.messages.last())).is_prefix_of(run.tools_started().1.events),
{
    let calls = announced(run.batch().calls);
    let events = run.tools_started().1.events;
    assert(events.take(calls.len() as int) == calls);
}

/// A run that is over takes nothing more.
pub proof fn law_the_end_is_the_end(run: RunView, input: InputView)
    requires
        run.phase is Ended,
    ensures
        !run.awaits(input),
{
}

/// A run that runs out of turns says so, with the cap.
pub proof fn law_out_of_turns(run: RunView, events: Seq<AgentEventView>)
    requires
        run.turn == run.agent.max_turns,
    ensures
        run.next_turn(events).1.command == CommandView::Finish(
            Err::<(), AgentErrorView>(AgentErrorView::MaxTurns(run.agent.max_turns)),
        ),
{
}

/// Whether a model call is asked for with all that the agent has: its prompt,
/// each of its tools in its place, its limits, and the whole history.
pub open spec fn asks_with_all(request: RequestView, agent: AgentView, messages: Seq<
    MessageView,
>) -> bool {
    &&& request.system == agent.system
    &&& request.messages == messages
    &&& request.tools.len() == agent.tools.len()
    &&& forall|i: int|
        0 <= i < agent.tools.len() ==> #[trigger] request.tools[i] == agent.tools[i].advertised
    &&& request.max_tokens == agent.max_tokens
    &&& request.temperature == agent.temperature
    &&& request.tool_choice is None
    &&& request.top_p is None
    &&& request.stop_sequences.len() == 0
}

proof fn lemma_turn_asks(run: RunView, events: Seq<AgentEventView>)
    ensures
        run.next_turn(events).1.command matches CommandView::Prepare(request) ==> asks_with_all(
            request,
            run.agent,
            run.messages,
        ),
        run.next_turn(events).0.agent == run.agent,
        run.next_turn(events).0.messages == run.messages,
{
}

proof fn lemma_proceeding_asks(run: RunView, batch: ToolBatchView, events: Seq<AgentEventView>)
    ensures
        ({
            let (next, reaction) = run.proceeded(batch, events);
            &&& reaction.command matches CommandView::Prepare(request) ==> asks_with_all(
                request,
                run.agent,
                next.messages,
            )
            &&& next.agent == run.agent
        }),
{
    let grown = RunView {
        messages: run.messages.push(super::run::results_message(batch)),
        ..run
    };
    lemma_turn_asks(grown, events);
}

proof fn lemma_step_asks(run: RunView, input: InputView)
    requires
        run.awaits(input),
    ensures
        ({
            let (next, reaction) = run.reacted(input);
            &&& reaction.command matches CommandView::Prepare(request) ==> asks_with_all(
                request,
                run.agent,
                next.messages,
            )
            &&& next.agent == run.agent
        }),
{
    match (run.phase, input) {
        (PhaseView::Loading { input }, InputView::Loaded(Ok(history))) => {
            let grown = RunView {
                messages: (match history {
                    Some(history) => history,
                    None => Seq::empty(),
                }).push(MessageView::user(input)),
                ..run
            };
            lemma_turn_asks(grown, Seq::empty());
        },
        (PhaseView::Saving(Next::Turn), InputView::Saved(Ok(()))) => {
            lemma_turn_asks(run, Seq::empty());
        },
        (PhaseView::Saving(Next::Reply { tool_use }), InputView::Saved(Ok(()))) => {
            lemma_proceeding_asks(run, run.batch(), announced(run.batch().calls));
        },
        (PhaseView::Calling { request, call }, InputView::Pulled(pull)) => {
            if let CallStepView::Completed(response) = call.stepped(run.agent.retry, pull).1 {
                let replied = RunView {
                    usage: run.usage.plus(response.usage),
                    messages: run.messages.push(response.message),
                    ..run
                };
                lemma_proceeding_asks(replied, replied.batch(), announced(replied.batch().calls));
            }
        },
        (PhaseView::Running(batch), InputView::ToolFinished { index, output }) => {
            lemma_proceeding_asks(
                run,
                batch.finished(index, output),
                seq![batch.report(index, output)],
            );
        },
        (PhaseView::Deciding { batch, index }, InputView::Decided(decision)) => {
            if let VerdictView::Denied(output) = decided(batch.calls[index], decision) {
                lemma_proceeding_asks(
                    run,
                    batch.finished(index, output),
                    seq![batch.report(index, output)],
                );
            }
        },
        (PhaseView::Gated { batch, index }, InputView::ToolRan(output)) => {
            lemma_proceeding_asks(
                run,
                batch.finished(index, output),
                seq![batch.report(index, output)],
            );
        },
        _ => {},
    }
}

/// On every turn the model is asked with the whole history, the system prompt,
/// every tool in its place and the limits of the agent, which stays the same
/// throughout the run.
pub proof fn law_every_turn_asks_with_all(start: (RunView, ReactionView), inputs: Seq<InputView>)
    requires
        starts(start),
        awaited(start, inputs),
    ensures
        ({
            let log = logged(start, inputs);
            &&& log.run.agent == start.0.agent
            &&& log.reaction.command matches CommandView::Prepare(request) ==> asks_with_all(
                request,
                start.0.agent,
                log.run.messages,
            )
        }),
    decreases inputs.len(),
{
    if inputs.len() > 0 {
        let init = inputs.drop_last();
        law_every_turn_asks_with_all(start, init);
        lemma_step_asks(logged(start, init).run, inputs.last());
    }
}

/// The request that middleware last made.
pub open spec fn last_prepared(inputs: Seq<InputView>) -> Option<RequestView>
    decreases inputs.len(),
{
    if inputs.len() == 0 {
        None
    } else {
        match inputs.last() {
            InputView::Prepared(request) => Some(request),
            _ => last_prepared(inputs.drop_last()),
        }
    }
}

/// Every stream is started for the request as middleware last made it, the
/// retried ones too.
pub proof fn law_streams_are_for_the_prepared_request(
    start: (RunView, ReactionView),
    inputs: Seq<InputView>,
)
    requires
        starts(start),
        awaited(start, inputs),
    ensures
        ({
            let log = logged(start, inputs);
            &&& log.reaction.command matches CommandView::Stream(request) ==> last_prepared(inputs)
                == Some(request)
            &&& log.run.phase matches PhaseView::Calling { request, .. } ==> last_prepared(inputs)
                == Some(request)
            &&& log.run.phase matches PhaseView::Sleeping { request, .. } ==> last_prepared(inputs)
                == Some(request)
        }),
    decreases inputs.len(),
{
    if inputs.len() > 0 {
        let init = inputs.drop_last();
        law_streams_are_for_the_prepared_request(start, init);
        let run = logged(start, init).run;
        lemma_no_stream(run);
        if let PhaseView::Calling { request, call } = run.phase {
            if let InputView::Pulled(pull) = inputs.last() {
                if let CallStepView::Completed(response) = call.stepped(run.agent.retry, pull).1 {
                    lemma_no_stream(
                        RunView {
                            usage: run.usage.plus(response.usage),
                            messages: run.messages.push(response.message),
                            ..run
                        },
                    );
                }
            }
        }
    }
}

proof fn lemma_no_stream(run: RunView)
    ensures
        forall|batch: ToolBatchView, events: Seq<AgentEventView>|
            ({
                let (next, reaction) = #[trigger] run.proceeded(batch, events);
                &&& reaction.command !is Stream
                &&& next.phase !is Calling && next.phase !is Sleeping
            }),
{
}

/// While the model streams, its text and its thinking are passed on as they
/// come, at once and with nothing else; other pieces are not passed on.
pub proof fn law_deltas_are_passed_on_as_they_come(run: RunView, event: StreamEventView)
    requires
        run.phase is Calling,
        event !is Completed,
    ensures
        ({
            let (next, reaction) = run.reacted(InputView::Pulled(Some(Ok(event))));
            &&& reaction.events == (match event {
                StreamEventView::TextDelta(text) => seq![AgentEventView::TextDelta(text)],
                StreamEventView::ThinkingDelta(text) => seq![AgentEventView::ThinkingDelta(text)],
                _ => Seq::empty(),
            })
            &&& reaction.command is Pull
            &&& next.phase is Calling
            &&& next.messages == run.messages
        }),
{
}

/// A failed model call ends the run with that very failure, unless it is made
/// once more: then the run waits, and nothing else happens.
pub proof fn law_failed_calls_end_the_run_or_are_retried(run: RunView, error: ModelErrorView)
    requires
        run.wf(),
        run.phase is Calling,
    ensures
        ({
            let (next, reaction) = run.reacted(InputView::Pulled(Some(Err(error))));
            let call = run.phase->Calling_call;
            let again = !call.emitted && error.is_retryable() && call.attempt
                < run.agent.retry.max_attempts;
            &&& reaction.events.len() == 0
            &&& next.messages == run.messages
            &&& again ==> next.phase is Sleeping && reaction.command == CommandView::Sleep(
                run.agent.retry.delay(call.attempt),
            )
            &&& !again ==> next.phase is Ended && reaction.command == CommandView::Finish(
                Err::<(), AgentErrorView>(AgentErrorView::Model(error)),
            )
        }),
{
}

/// A stream that ends without a response is such a failure, which may go away.
pub proof fn law_streams_cut_short_are_retried_or_fail(run: RunView)
    requires
        run.wf(),
        run.phase is Calling,
    ensures
        ({
            let (next, reaction) = run.reacted(InputView::Pulled(None));
            let call = run.phase->Calling_call;
            let again = !call.emitted && call.attempt < run.agent.retry.max_attempts;
            &&& reaction.events.len() == 0
            &&& again ==> next.phase is Sleeping && reaction.command is Sleep
            &&& !again ==> reaction.command == CommandView::Finish(
                Err::<(), AgentErrorView>(
                    AgentErrorView::Model(
                        ModelErrorView::Stream("stream ended without completion"@),
                    ),
                ),
            )
        }),
{
}

/// All that a reply asks for is run or asked about: the calls without a gate
/// start at once, every one of them; where there is none, the first held call is
/// put to a human, and where there is none either, the results go on.
pub proof fn law_replies_have_all_their_calls_started(run: RunView, i: int)
    requires
        0 <= i < calls_in(run.messages.last()).len() <= usize::MAX,
    ensures
        ({
            let calls = calls_in(run.messages.last());
            let (next, reaction) = run.tools_started();
            &&& !is_gated(run.agent.tools, calls[i].name) ==> (reaction.command matches
                CommandView::RunTools(list) && list.contains((i as usize, calls[i])))
            &&& (forall|k: int|
                0 <= k < calls.len() ==> is_gated(run.agent.tools, (#[trigger] calls[k]).name))
                ==> reaction.command is AwaitDecision && reaction.events.last()
                == AgentEventView::AwaitingApproval(calls[0])
        }),
{
    let batch = run.batch();
    let calls = calls_in(run.messages.last());
    law_open_from(batch, false, 0);
    law_open_from(batch, true, 0);
    law_calls_without_a_gate_all_run_at_once(batch, i);
    if !is_gated(run.agent.tools, calls[i].name) {
        assert(batch.is_open(false, i));
    }
    if forall|k: int|
        0 <= k < calls.len() ==> is_gated(run.agent.tools, (#[trigger] calls[k]).name) {
        assert(batch.is_open(true, 0));
        assert forall|k: int| 0 <= k implies !#[trigger] batch.is_open(false, k) by {
            if k < calls.len() {
                assert(is_gated(run.agent.tools, calls[k].name));
            }
        }
    }
}

/// The calls of a reply are its tool uses, in their order, as the model wrote
/// them.
pub proof fn law_calls_are_the_tool_uses(message: MessageView, i: int)
    requires
        0 <= i < uses_of(message.content).len(),
    ensures
        calls_in(message).len() == uses_of(message.content).len(),
        calls_in(message)[i].id == uses_of(message.content)[i].0,
        calls_in(message)[i].name == uses_of(message.content)[i].1,
        calls_in(message)[i].input == uses_of(message.content)[i].2,
{
}

/// The results go back as a message of the user with one result for each call,
/// in the order of the calls and with what came of it.
pub proof fn law_results_go_back_in_one_message(batch: ToolBatchView)
    requires
        batch.valid(),
    ensures
        ({
            let message = super::run::results_message(batch);
            &&& message.role is User
            &&& message.content.len() == batch.calls.len()
            &&& forall|i: int|
                0 <= i < batch.calls.len() && batch.outputs[i] is Some
                    ==> #[trigger] message.content[i] == (ContentView::ToolResult {
                    tool_use_id: batch.calls[i].id,
                    content: batch.outputs[i]->0.content,
                    is_error: batch.outputs[i]->0.is_error,
                })
        }),
{
}

/// A run fails for its turns only when it has made all the model calls that the
/// cap allows, and says the cap.
pub proof fn law_turns_run_out_only_at_the_cap(
    start: (RunView, ReactionView),
    inputs: Seq<InputView>,
    cap: u32,
)
    requires
        starts(start),
        awaited(start, inputs),
        logged(start, inputs).reaction.command == CommandView::Finish(
            Err::<(), AgentErrorView>(AgentErrorView::MaxTurns(cap)),
        ),
    ensures
        cap == start.0.agent.max_turns,
        logged(start, inputs).calls == cap,
{
    law_kept(start, inputs);
    law_every_turn_asks_with_all(start, inputs);
    if inputs.len() > 0 {
        let init = inputs.drop_last();
        law_kept(start, init);
        law_every_turn_asks_with_all(start, init);
        lemma_out_of_turns(logged(start, init).run, inputs.last(), cap);
    }
}

proof fn lemma_out_of_turns(run: RunView, input: InputView, cap: u32)
    requires
        run.wf(),
        run.awaits(input),
        run.reacted(input).1.command == CommandView::Finish(
            Err::<(), AgentErrorView>(AgentErrorView::MaxTurns(cap)),
        ),
    ensures
        cap == run.agent.max_turns,
        run.reacted(input).0.turn == cap,
{
}

/// A session needs a store: without one the run fails at once, and says so; with
/// one the history of the session is loaded first.
pub proof fn law_sessions_need_a_store(agent: AgentView, session: Seq<char>, input: Seq<char>)
    ensures
        ({
            let (run, reaction) = session_begun(agent, session, input);
            &&& agent.has_checkpointer ==> reaction.command == CommandView::Load(session)
                && run.phase is Loading
            &&& !agent.has_checkpointer ==> reaction.command == CommandView::Finish(
                Err::<(), AgentErrorView>(
                    AgentErrorView::Config("run_session requires a checkpointer"@),
                ),
            )
            &&& run.session == Some(session)
        }),
{
}

/// A store that fails ends the run with its failure.
pub proof fn law_store_failures_end_the_run(run: RunView, error: CheckpointErrorView)
    ensures
        run.phase is Loading ==> run.reacted(InputView::Loaded(Err(error))).1.command
            == CommandView::Finish(Err::<(), AgentErrorView>(AgentErrorView::Checkpoint(error))),
        run.phase is Saving ==> run.reacted(InputView::Saved(Err(error))).1.command
            == CommandView::Finish(Err::<(), AgentErrorView>(AgentErrorView::Checkpoint(error))),
{
}

/// A held call that nobody decides on ends the run as abandoned.
pub proof fn law_undecided_calls_abandon_the_run(run: RunView)
    requires
        run.phase is Deciding,
    ensures
        run.reacted(InputView::Decided(None)).1.command == CommandView::Finish(
            Err::<(), AgentErrorView>(
                AgentErrorView::Abandoned("approval requested but the run was dropped"@),
            ),
        ),
{
}

/// A run asks the model at once, with the history it was given and what the user
/// says now as the last message; a run that may make no model call fails at once.
pub proof fn law_runs_start_with_the_history_and_the_input(
    agent: AgentView,
    history: Seq<MessageView>,
    input: Seq<char>,
)
    ensures
        ({
            let (run, reaction) = super::run::begun(agent, history, input);
            &&& run.agent == agent
            &&& run.session is None
            &&& run.messages.len() == history.len() + 1
            &&& run.messages.take(history.len() as int) == history
            &&& run.messages.last().role is User
            &&& run.messages.last().content == seq![ContentView::Text { text: input }]
            &&& reaction.events.len() == 0
            &&& agent.max_turns > 0 ==> (reaction.command matches CommandView::Prepare(request)
                && asks_with_all(request, agent, run.messages))
            &&& agent.max_turns == 0 ==> reaction.command == CommandView::Finish(
                Err::<(), AgentErrorView>(AgentErrorView::MaxTurns(0)),
            )
        }),
        resumed(agent, history).0.messages == history,
        resumed(agent, history).0.session is None,
{
    let run = super::run::begun(agent, history, input).0;
    assert(run.messages.take(history.len() as int) == history);
}

/// How often the model was asked since the last request was made up.
pub open spec fn streams(start: (RunView, ReactionView), inputs: Seq<InputView>) -> int
    decreases inputs.len(),
{
    if inputs.len() == 0 {
        0
    } else {
        let command = logged(start, inputs).reaction.command;
        if command is Prepare {
            0
        } else if command is Stream {
            streams(start, inputs.drop_last()) + 1
        } else {
            streams(start, inputs.drop_last())
        }
    }
}

/// The model is asked at most as often for one request as the retry policy
/// allows, however long the waits in between are, and it is asked again after a
/// wait for the same request.
pub proof fn law_requests_are_sent_no_more_often_than_allowed(
    start: (RunView, ReactionView),
    inputs: Seq<InputView>,
)
    requires
        starts(start),
        awaited(start, inputs),
    ensures
        ({
            let log = logged(start, inputs);
            let asked = streams(start, inputs);
            &&& 0 <= asked <= attempts_allowed(log.run.agent)
            &&& log.run.phase is Preparing || log.run.phase is Loading ==> asked == 0
            &&& log.run.phase matches PhaseView::Calling { call, .. } ==> asked == call.attempt
            &&& log.run.phase matches PhaseView::Sleeping { call, .. } ==> asked + 1
                == call.attempt
        }),
    decreases inputs.len(),
{
    law_kept(start, inputs);
    if inputs.len() > 0 {
        let init = inputs.drop_last();
        let input = inputs.last();
        law_kept(start, init);
        law_requests_are_sent_no_more_often_than_allowed(start, init);
        let run = logged(start, init).run;
        match (run.phase, input) {
            (PhaseView::Calling { request, call }, InputView::Pulled(pull)) => {
                let (_, step) = call.stepped(run.agent.retry, pull);
                if let CallStepView::Completed(response) = step {
                    let replied = RunView {
                        usage: run.usage.plus(response.usage),
                        messages: run.messages.push(response.message),
                        ..run
                    };
                    lemma_proceeded(replied, replied.batch(), announced(replied.batch().calls));
                }
            },
            (PhaseView::Saving(Next::Reply { tool_use }), InputView::Saved(Ok(()))) => {
                lemma_proceeded(run, run.batch(), announced(run.batch().calls));
            },
            (PhaseView::Running(batch), InputView::ToolFinished { index, output }) => {
                lemma_proceeded(
                    run,
                    batch.finished(index, output),
                    seq![batch.report(index, output)],
                );
            },
            (PhaseView::Deciding { batch, index }, InputView::Decided(decision)) => {
                if let VerdictView::Denied(output) = decided(batch.calls[index], decision) {
                    lemma_proceeded(
                        run,
                        batch.finished(index, output),
                        seq![batch.report(index, output)],
                    );
                }
            },
            (PhaseView::Gated { batch, index }, InputView::ToolRan(output)) => {
                lemma_proceeded(
                    run,
                    batch.finished(index, output),
                    seq![batch.report(index, output)],
                );
            },
            _ => {},
        }
    }
}

}
