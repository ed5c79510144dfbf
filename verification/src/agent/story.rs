//! What a run leaves behind: the conversation, and the events of each round of
//! tool calls.

use vstd::prelude::*;

use super::batch::{
    announced, decided, law_calls_without_a_gate_all_run_at_once, law_open_from, ToolBatchView,
    VerdictView,
};
use super::call::CallStepView;
use super::event::{
    AgentErrorView, AgentEventView, CheckpointErrorView, DecisionView, ToolCallView,
};
use super::laws::{
    awaited, in_batch, in_call, kept, law_kept, logged, response_in, starts, Log,
};
use super::run::{
    calls_in, results_message, resumed, session_begun, CommandView, InputView, Next, PhaseView,
    ReactionView, RunView,
};
use super::settings::{max_nanos, AgentView, ToolEntryView};
use crate::error::ModelErrorView;
use crate::message::MessageView;
use crate::model::{RequestView, ResponseView, StreamEventView};
use crate::tool::ToolOutputView;

verus! {

/// A round of tool calls: the batch as it stands, its calls without a gate in
/// the order in which they finished, and the stretch of the run's events that it
/// takes up.
pub struct Round {
    pub batch: ToolBatchView,
    pub order: Seq<int>,
    pub from: nat,
    pub until: nat,
}

/// The rounds of a run: the history it went on from, the rounds that are over,
/// and the one that is not.
pub struct Story {
    pub given: Seq<MessageView>,
    pub rounds: Seq<Round>,
    pub current: Option<Round>,
}

/// The reply whose tool calls an input starts.
pub open spec fn asked_in(run: RunView, input: InputView) -> Option<MessageView> {
    match (run.phase, input) {
        (PhaseView::Saving(Next::Reply { tool_use }), InputView::Saved(Ok(()))) if tool_use => Some(
            run.messages.last(),
        ),
        (
            PhaseView::Calling { .. },
            InputView::Pulled(Some(Ok(StreamEventView::Completed(response)))),
        ) if run.session is None && response.stop_reason is ToolUse => Some(response.message),
        _ => None,
    }
}

/// The output that an input brings, and the place of its call.
pub open spec fn output_in(run: RunView, input: InputView) -> Option<(int, ToolOutputView)> {
    match (run.phase, input) {
        (PhaseView::Running(_), InputView::ToolFinished { index, output }) => Some((index, output)),
        (PhaseView::Deciding { batch, index }, InputView::Decided(decision)) => match decided(
            batch.calls[index],
            decision,
        ) {
            VerdictView::Denied(output) => Some((index, output)),
            _ => None,
        },
        (PhaseView::Gated { index, .. }, InputView::ToolRan(output)) => Some((index, output)),
        _ => None,
    }
}

/// Whether every call has its output.
pub open spec fn is_done(batch: ToolBatchView) -> bool {
    forall|i: int| 0 <= i < batch.calls.len() ==> #[trigger] batch.outputs[i] is Some
}

impl Round {
    /// The round after an input, which has taken the run's events so far.
    pub open spec fn after(self, run: RunView, input: InputView, until: nat) -> Round {
        match output_in(run, input) {
            Some((index, output)) => Round {
                batch: self.batch.finished(index, output),
                order: if self.batch.gated[index] {
                    self.order
                } else {
                    self.order.push(index)
                },
                until,
                ..self
            },
            None => Round { until, ..self },
        }
    }
}

impl Story {
    /// The story of a run that has just started.
    pub open spec fn begun(start: (RunView, ReactionView)) -> Story {
        Story { given: start.0.messages, rounds: Seq::empty(), current: None }
    }

    /// The round that an input is about.
    pub open spec fn round_at(self, log: Log, input: InputView) -> Option<Round> {
        match asked_in(log.run, input) {
            Some(message) => Some(
                Round {
                    batch: ToolBatchView::fresh(log.run.agent.tools, calls_in(message)),
                    order: Seq::empty(),
                    from: log.events.len(),
                    until: log.events.len(),
                },
            ),
            None => self.current,
        }
    }

    /// The story after one more input.
    pub open spec fn after(self, log: Log, input: InputView) -> Story {
        let given = match (log.run.phase, input) {
            (PhaseView::Loading { input }, InputView::Loaded(Ok(history))) => (match history {
                Some(history) => history,
                None => Seq::empty(),
            }).push(MessageView::user(input)),
            _ => self.given,
        };
        match self.round_at(log, input) {
            None => Story { given, ..self },
            Some(round) => {
                let round = round.after(log.run, input, log.after(input).events.len());
                if is_done(round.batch) {
                    Story { given, rounds: self.rounds.push(round), current: None }
                } else {
                    Story { given, rounds: self.rounds, current: Some(round) }
                }
            },
        }
    }
}

/// The story of a run that started so and took these inputs.
pub open spec fn told(start: (RunView, ReactionView), inputs: Seq<InputView>) -> Story
    decreases inputs.len(),
{
    if inputs.len() == 0 {
        Story::begun(start)
    } else {
        let init = inputs.drop_last();
        told(start, init).after(logged(start, init), inputs.last())
    }
}

/// The messages of some responses.
pub open spec fn replies(responses: Seq<ResponseView>) -> Seq<MessageView> {
    responses.map_values(|r: ResponseView| r.message)
}

/// The messages with the results of some rounds.
pub open spec fn answers(rounds: Seq<Round>) -> Seq<MessageView> {
    rounds.map_values(|r: Round| results_message(r.batch))
}

/// A history, and then by turns a reply and the answer to it, as far as there
/// are any.
pub open spec fn conversation(
    given: Seq<MessageView>,
    replies: Seq<MessageView>,
    answers: Seq<MessageView>,
) -> Seq<MessageView>
    decreases replies.len(),
{
    if replies.len() == 0 {
        given
    } else {
        let n = replies.len() - 1;
        let before = conversation(given, replies.drop_last(), answers.take(n)).push(replies.last());
        if answers.len() > n {
            before.push(answers[n])
        } else {
            before
        }
    }
}

/// The finishes of some calls of a batch, in this order.
pub open spec fn reports(batch: ToolBatchView, order: Seq<int>) -> Seq<AgentEventView> {
    order.map_values(|i: int| batch.report(i, batch.outputs[i]->0))
}

/// For each held call before place `n`, in order, the request for approval and
/// the finish.
pub open spec fn held_events(batch: ToolBatchView, n: int) -> Seq<AgentEventView>
    decreases n,
{
    if n <= 0 {
        Seq::empty()
    } else if batch.gated[n - 1] {
        held_events(batch, n - 1) + seq![
            AgentEventView::AwaitingApproval(batch.calls[n - 1]),
            batch.report(n - 1, batch.outputs[n - 1]->0),
        ]
    } else {
        held_events(batch, n - 1)
    }
}

/// The events of a batch whose held calls before place `n` are done: all starts
/// in the order of the calls, the finishes of the calls without a gate, and the
/// held calls one by one.
pub open spec fn batch_events(batch: ToolBatchView, order: Seq<int>, n: int) -> Seq<
    AgentEventView,
> {
    announced(batch.calls) + reports(batch, order) + held_events(batch, n)
}

/// Whether the order names each call without a gate that has its output, once.
pub open spec fn orders(batch: ToolBatchView, order: Seq<int>) -> bool {
    &&& order.no_duplicates()
    &&& forall|i: int|
        #![trigger order.contains(i)]
        order.contains(i) <==> 0 <= i < batch.calls.len() && !batch.gated[i]
            && batch.outputs[i] is Some
}

/// Whether a batch has come so far, with these events: the held calls before
/// place `n` are done, and no other.
pub open spec fn under_way(
    batch: ToolBatchView,
    order: Seq<int>,
    events: Seq<AgentEventView>,
    n: int,
) -> bool {
    &&& batch.valid()
    &&& 0 <= n <= batch.calls.len()
    &&& orders(batch, order)
    &&& forall|i: int|
        0 <= i < batch.calls.len() && #[trigger] batch.gated[i] ==> (batch.outputs[i] is Some <==> i
            < n)
    &&& events == batch_events(batch, order, n)
}

/// Whether a batch is of the calls of a reply, with the gates of their tools.
pub open spec fn is_of(
    batch: ToolBatchView,
    tools: Seq<ToolEntryView>,
    reply: MessageView,
) -> bool {
    &&& batch.calls == ToolBatchView::fresh(tools, calls_in(reply)).calls
    &&& batch.gated == ToolBatchView::fresh(tools, calls_in(reply)).gated
}

/// Whether a round answered a reply: every call has its output, and its events
/// stand in the run's events in this order.
pub open spec fn answered(
    round: Round,
    tools: Seq<ToolEntryView>,
    reply: MessageView,
    events: Seq<AgentEventView>,
) -> bool {
    let batch = round.batch;
    &&& batch.valid()
    &&& is_of(batch, tools, reply)
    &&& is_done(batch)
    &&& orders(batch, round.order)
    &&& round.from <= round.until <= events.len()
    &&& events.subrange(round.from as int, round.until as int) == batch_events(
        batch,
        round.order,
        batch.calls.len() as int,
    )
}

/// Whether a round has come as far as the run's phase says.
pub open spec fn stands(round: Round, phase: PhaseView, events: Seq<AgentEventView>) -> bool {
    &&& round.from <= round.until == events.len()
    &&& ({
        let shown = events.skip(round.from as int);
        match phase {
            PhaseView::Running(batch) => batch == round.batch && under_way(
                batch,
                round.order,
                shown,
                0,
            ),
            PhaseView::Deciding { batch, index } => {
                &&& batch == round.batch
                &&& shown.len() > 0
                &&& shown.last() == AgentEventView::AwaitingApproval(batch.calls[index])
                &&& under_way(batch, round.order, shown.drop_last(), index)
            },
            PhaseView::Gated { batch, index } => {
                &&& batch == round.batch
                &&& shown.len() > 0
                &&& shown.last() == AgentEventView::AwaitingApproval(batch.calls[index])
                &&& under_way(batch, round.order, shown.drop_last(), index)
            },
            _ => false,
        }
    })
}

/// What holds of a story at all times.
pub open spec fn fits(log: Log, story: Story) -> bool {
    let run = log.run;
    let count = log.responses.len() as int;
    let over = story.rounds.len() as int;
    &&& run.messages == conversation(story.given, replies(log.responses), answers(story.rounds))
    &&& over <= count <= over + 1
    &&& forall|k: int|
        0 <= k < over ==> answered(
            #[trigger] story.rounds[k],
            run.agent.tools,
            log.responses[k].message,
            log.events,
        )
    &&& run.phase is Loading ==> count == 0
    &&& in_call(run.phase) || run.phase == PhaseView::Saving(Next::Turn) ==> count == over
    &&& run.phase matches PhaseView::Saving(Next::Reply { .. }) ==> count == over + 1
    &&& log.reaction.command == CommandView::Finish(Ok(())) ==> count == over + 1
    &&& !in_batch(run.phase) && !(run.phase is Ended) ==> story.current is None
    &&& in_batch(run.phase) ==> {
        &&& count == over + 1
        &&& story.current is Some
        &&& is_of(story.current->0.batch, run.agent.tools, log.responses.last().message)
        &&& stands(story.current->0, run.phase, log.events)
    }
}

/// One reply more.
proof fn lemma_reply(
    given: Seq<MessageView>,
    replies: Seq<MessageView>,
    answers: Seq<MessageView>,
    reply: MessageView,
)
    requires
        replies.len() == answers.len(),
    ensures
        conversation(given, replies.push(reply), answers) == conversation(
            given,
            replies,
            answers,
        ).push(reply),
{
    assert(replies.push(reply).drop_last() == replies);
    assert(answers.take(replies.len() as int) == answers);
}

/// One answer more.
proof fn lemma_answer(
    given: Seq<MessageView>,
    replies: Seq<MessageView>,
    answers: Seq<MessageView>,
    answer: MessageView,
)
    requires
        replies.len() == answers.len() + 1,
    ensures
        conversation(given, replies, answers.push(answer)) == conversation(
            given,
            replies,
            answers,
        ).push(answer),
{
    let n = replies.len() - 1;
    assert(answers.push(answer).take(n) == answers);
    assert(answers.take(n) == answers);
}

/// Where the held calls have the same outputs, their events are the same.
proof fn lemma_held_kept(a: ToolBatchView, b: ToolBatchView, n: int)
    requires
        a.calls == b.calls,
        a.gated == b.gated,
        forall|i: int| 0 <= i < n && #[trigger] a.gated[i] ==> a.outputs[i] == b.outputs[i],
    ensures
        held_events(a, n) == held_events(b, n),
    decreases n,
{
    if n > 0 {
        lemma_held_kept(a, b, n - 1);
        assert(a.gated[n - 1] == b.gated[n - 1]);
    }
}

/// Where no call from `m` up to `n` is held, there is nothing to add.
proof fn lemma_held_none(batch: ToolBatchView, m: int, n: int)
    requires
        0 <= m <= n,
        forall|i: int| m <= i < n ==> !#[trigger] batch.gated[i],
    ensures
        held_events(batch, m) == held_events(batch, n),
    decreases n,
{
    if m < n {
        lemma_held_none(batch, m, n - 1);
        assert(!batch.gated[n - 1]);
    }
}

/// On with a batch: it waits, or holds the next call, or is done.
proof fn lemma_on(
    run: RunView,
    batch: ToolBatchView,
    order: Seq<int>,
    shown: Seq<AgentEventView>,
    n: int,
    events: Seq<AgentEventView>,
)
    requires
        under_way(batch, order, shown, n),
        n > 0 ==> batch.open_from(false, 0) is None,
    ensures
        ({
            let (next, reaction) = run.proceeded(batch, events);
            let message = results_message(batch);
            if batch.open_from(false, 0) is Some {
                &&& !is_done(batch)
                &&& n == 0
                &&& next == (RunView { phase: PhaseView::Running(batch), ..run })
                &&& reaction.events == events
            } else if batch.open_from(true, 0) is Some {
                let index = batch.open_from(true, 0)->0;
                &&& !is_done(batch)
                &&& next == (RunView { phase: PhaseView::Deciding { batch, index }, ..run })
                &&& reaction.events == events.push(
                    AgentEventView::AwaitingApproval(batch.calls[index]),
                )
                &&& under_way(batch, order, shown, index)
            } else {
                &&& is_done(batch)
                &&& !in_batch(next.phase)
                &&& next.phase is Preparing || next.phase == PhaseView::Saving(Next::Turn)
                    || next.phase is Ended
                &&& next.messages == run.messages.push(message)
                &&& next.agent == run.agent
                &&& reaction.events == events
                &&& reaction.command != CommandView::Finish(Ok(()))
                &&& shown == batch_events(batch, order, batch.calls.len() as int)
            }
        }),
{
    law_open_from(batch, false, 0);
    law_open_from(batch, true, 0);
    let len = batch.calls.len() as int;
    if batch.open_from(false, 0) is Some {
        let i = batch.open_from(false, 0)->0;
        assert(batch.outputs[i] is None);
    } else if batch.open_from(true, 0) is Some {
        let index = batch.open_from(true, 0)->0;
        assert(batch.is_open(true, index));
        assert(batch.gated[index]);
        assert forall|i: int| n <= i < index implies !#[trigger] batch.gated[i] by {
            assert(!batch.is_open(true, i));
        }
        assert forall|i: int| 0 <= i < len && #[trigger] batch.gated[i] implies (
        batch.outputs[i] is Some <==> i < index) by {
            if i < index {
                assert(!batch.is_open(true, i));
            }
        }
        lemma_held_none(batch, n, index);
    } else {
        assert forall|i: int| 0 <= i < len implies #[trigger] batch.outputs[i] is Some by {
            assert(!batch.is_open(true, i));
            assert(!batch.is_open(false, i));
        }
        assert forall|i: int| n <= i < len implies !#[trigger] batch.gated[i] by {
            assert(batch.outputs[i] is Some);
        }
        lemma_held_none(batch, n, len);
    }
}

/// A batch of which nothing has run has only been announced.
proof fn lemma_fresh(tools: Seq<ToolEntryView>, calls: Seq<ToolCallView>)
    ensures
        under_way(ToolBatchView::fresh(tools, calls), Seq::empty(), announced(calls), 0),
{
    let batch = ToolBatchView::fresh(tools, calls);
    assert(announced(calls) == batch_events(batch, Seq::empty(), 0));
}

/// One finish of a call without a gate more.
proof fn lemma_reported(
    batch: ToolBatchView,
    order: Seq<int>,
    shown: Seq<AgentEventView>,
    index: int,
    output: ToolOutputView,
)
    requires
        under_way(batch, order, shown, 0),
        batch.is_open(false, index),
    ensures
        under_way(
            batch.finished(index, output),
            order.push(index),
            shown.push(batch.report(index, output)),
            0,
        ),
{
    let after = batch.finished(index, output);
    let more = order.push(index);
    assert(!order.contains(index));
    assert forall|i: int|
        #![trigger more.contains(i)]
        more.contains(i) <==> 0 <= i < after.calls.len() && !after.gated[i]
            && after.outputs[i] is Some by {
        if i == index {
            assert(more[order.len() as int] == i);
        } else {
            if order.contains(i) {
                let k = choose|k: int| 0 <= k < order.len() && order[k] == i;
                assert(more[k] == i);
            }
            if more.contains(i) {
                let k = choose|k: int| 0 <= k < more.len() && more[k] == i;
                assert(order[k] == i);
            }
        }
    }
    assert(more.no_duplicates()) by {
        assert forall|a: int, b: int| 0 <= a < more.len() && 0 <= b < more.len() && a != b implies more[
            a] != more[b] by {
            if a == order.len() {
                assert(order.contains(order[b]));
            } else if b == order.len() {
                assert(order.contains(order[a]));
            }
        }
    }
    assert(reports(after, more) == reports(batch, order).push(batch.report(index, output))) by {
        assert forall|k: int| 0 <= k < order.len() implies after.outputs[#[trigger] order[k]]
            == batch.outputs[order[k]] by {
            assert(order.contains(order[k]));
        }
    }
    assert(batch_events(after, more, 0) == batch_events(batch, order, 0).push(
        batch.report(index, output),
    ));
}

/// One held call more.
proof fn lemma_settled(
    batch: ToolBatchView,
    order: Seq<int>,
    shown: Seq<AgentEventView>,
    index: int,
    output: ToolOutputView,
)
    requires
        shown.len() > 0,
        shown.last() == AgentEventView::AwaitingApproval(batch.calls[index]),
        under_way(batch, order, shown.drop_last(), index),
        batch.is_open(true, index),
        batch.open_from(false, 0) is None,
    ensures
        ({
            let after = batch.finished(index, output);
            &&& under_way(after, order, shown.push(batch.report(index, output)), index + 1)
            &&& after.open_from(false, 0) is None
        }),
{
    let after = batch.finished(index, output);
    let report = batch.report(index, output);
    law_open_from(batch, false, 0);
    law_open_from(after, false, 0);
    if let Some(i) = after.open_from(false, 0) {
        assert(after.is_open(false, i));
        assert(batch.is_open(false, i));
    }
    lemma_held_kept(batch, after, index);
    assert(reports(after, order) == reports(batch, order)) by {
        assert forall|k: int| 0 <= k < order.len() implies after.outputs[#[trigger] order[k]]
            == batch.outputs[order[k]] by {
            assert(order.contains(order[k]));
        }
    }
    assert(held_events(after, index + 1) == held_events(batch, index) + seq![shown.last(), report]);
    assert(shown == shown.drop_last().push(shown.last()));
    assert(shown.push(report) == batch_events(after, order, index + 1));
}

/// What was in the events stays where it is.
proof fn lemma_events_kept(story: Story, log: Log, more: Seq<AgentEventView>)
    requires
        fits(log, story),
    ensures
        forall|k: int|
            0 <= k < story.rounds.len() ==> answered(
                #[trigger] story.rounds[k],
                log.run.agent.tools,
                log.responses[k].message,
                log.events + more,
            ),
{
    assert forall|k: int| 0 <= k < story.rounds.len() implies answered(
        #[trigger] story.rounds[k],
        log.run.agent.tools,
        log.responses[k].message,
        log.events + more,
    ) by {
        let round = story.rounds[k];
        assert((log.events + more).subrange(round.from as int, round.until as int)
            == log.events.subrange(round.from as int, round.until as int));
    }
}

/// A step within a round keeps the story, whether the round goes on or ends.
proof fn lemma_round(
    log: Log,
    story: Story,
    input: InputView,
    run: RunView,
    responses: Seq<ResponseView>,
    events: Seq<AgentEventView>,
    n: int,
)
    requires
        fits(log, story),
        kept(log.after(input)),
        run.agent == log.run.agent,
        story.round_at(log, input) is Some,
        story.after(log, input).given == story.given,
        log.after(input).responses == responses,
        responses.len() == story.rounds.len() + 1,
        run.messages == conversation(story.given, replies(responses), answers(story.rounds)),
        forall|k: int|
            0 <= k < story.rounds.len() ==> answered(
                #[trigger] story.rounds[k],
                run.agent.tools,
                responses[k].message,
                log.after(input).events,
            ),
        ({
            let round = story.round_at(log, input)->0.after(
                log.run,
                input,
                log.after(input).events.len(),
            );
            &&& is_of(round.batch, run.agent.tools, responses.last().message)
            &&& round.from <= log.events.len()
            &&& under_way(
                round.batch,
                round.order,
                log.events.skip(round.from as int) + events,
                n,
            )
            &&& n > 0 ==> round.batch.open_from(false, 0) is None
            &&& log.after(input).run == run.proceeded(round.batch, events).0
            &&& log.after(input).reaction.events == run.proceeded(round.batch, events).1.events
            &&& log.after(input).reaction.command == CommandView::Finish(Ok(())) ==> run.proceeded(
                round.batch,
                events,
            ).1.command == CommandView::Finish(Ok(()))
        }),
    ensures
        fits(log.after(input), story.after(log, input)),
{
    let next = log.after(input);
    let round = story.round_at(log, input)->0.after(log.run, input, next.events.len());
    let batch = round.batch;
    let from = round.from as int;
    let shown = log.events.skip(from) + events;
    lemma_on(run, batch, round.order, shown, n, events);
    let more = next.reaction.events;
    assert(next.events == log.events + more);
    assert(next.events.skip(from) == log.events.skip(from) + more);
    if batch.open_from(false, 0) is Some {
        assert(next.events.skip(from) == shown);
    } else if batch.open_from(true, 0) is Some {
        let index = batch.open_from(true, 0)->0;
        assert(next.events.skip(from) == shown.push(
            AgentEventView::AwaitingApproval(batch.calls[index]),
        ));
        assert(next.events.skip(from).drop_last() == shown);
    } else {
        assert(next.events.subrange(from, next.events.len() as int) == next.events.skip(from));
        assert(next.events.skip(from) == shown);
        let rounds = story.rounds.push(round);
        lemma_answer(
            story.given,
            replies(responses),
            answers(story.rounds),
            results_message(batch),
        );
        assert(answers(rounds) == answers(story.rounds).push(results_message(batch)));
        assert forall|k: int| 0 <= k < rounds.len() implies answered(
            #[trigger] rounds[k],
            run.agent.tools,
            responses[k].message,
            next.events,
        ) by {
            if k < story.rounds.len() {
                assert(rounds[k] == story.rounds[k]);
            }
        }
    }
}

proof fn lemma_step(log: Log, story: Story, input: InputView)
    requires
        kept(log),
        kept(log.after(input)),
        fits(log, story),
        log.run.awaits(input),
    ensures
        fits(log.after(input), story.after(log, input)),
{
    let run = log.run;
    let next = log.after(input);
    let more = next.reaction.events;
    assert(next.events == log.events + more);
    lemma_events_kept(story, log, more);
    match (run.phase, input) {
        (PhaseView::Calling { request, call }, InputView::Pulled(pull)) => {
            if let CallStepView::Completed(response) = call.stepped(run.agent.retry, pull).1 {
                assert(response_in(run, input) == Some(response));
                let responses = log.responses.push(response);
                let replied = RunView {
                    usage: run.usage.plus(response.usage),
                    messages: run.messages.push(response.message),
                    ..run
                };
                lemma_reply(
                    story.given,
                    replies(log.responses),
                    answers(story.rounds),
                    response.message,
                );
                assert(replies(responses) == replies(log.responses).push(response.message));
                assert forall|k: int| 0 <= k < story.rounds.len() implies answered(
                    #[trigger] story.rounds[k],
                    run.agent.tools,
                    responses[k].message,
                    next.events,
                ) by {
                    assert(responses[k] == log.responses[k]);
                }
                if run.session is None && response.stop_reason is ToolUse {
                    let calls = calls_in(response.message);
                    assert(replied.batch() == ToolBatchView::fresh(run.agent.tools, calls));
                    lemma_fresh(run.agent.tools, calls);
                    assert(log.events.skip(log.events.len() as int) + announced(calls) == announced(
                        calls,
                    ));
                    lemma_round(log, story, input, replied, responses, announced(calls), 0);
                }
            } else {
                assert(response_in(run, input) is None);
            }
        },
        (PhaseView::Saving(Next::Reply { tool_use }), InputView::Saved(Ok(()))) => {
            if tool_use {
                let calls = calls_in(run.messages.last());
                lemma_fresh(run.agent.tools, calls);
                assert(log.events.skip(log.events.len() as int) + announced(calls) == announced(
                    calls,
                ));
                lemma_round(log, story, input, run, log.responses, announced(calls), 0);
            }
        },
        (PhaseView::Running(batch), InputView::ToolFinished { index, output }) => {
            let round = story.current->0;
            let shown = log.events.skip(round.from as int);
            lemma_reported(batch, round.order, shown, index, output);
            let report = batch.report(index, output);
            assert(shown + seq![report] == shown.push(report));
            lemma_round(log, story, input, run, log.responses, seq![report], 0);
        },
        (PhaseView::Deciding { batch, index }, InputView::Decided(decision)) => {
            let round = story.current->0;
            let shown = log.events.skip(round.from as int);
            match decided(batch.calls[index], decision) {
                VerdictView::Denied(output) => {
                    lemma_settled(batch, round.order, shown, index, output);
                    let report = batch.report(index, output);
                    assert(shown + seq![report] == shown.push(report));
                    lemma_round(log, story, input, run, log.responses, seq![report], index + 1);
                },
                _ => {
                    assert(batch.outputs[index] is None);
                    assert(next.events == log.events);
                },
            }
        },
        (PhaseView::Gated { batch, index }, InputView::ToolRan(output)) => {
            let round = story.current->0;
            let shown = log.events.skip(round.from as int);
            lemma_settled(batch, round.order, shown, index, output);
            let report = batch.report(index, output);
            assert(shown + seq![report] == shown.push(report));
            lemma_round(log, story, input, run, log.responses, seq![report], index + 1);
        },
        _ => {},
    }
}

/// What [`fits`] says holds of every run, at every moment.
pub proof fn law_story_fits(start: (RunView, ReactionView), inputs: Seq<InputView>)
    requires
        starts(start),
        awaited(start, inputs),
    ensures
        fits(logged(start, inputs), told(start, inputs)),
    decreases inputs.len(),
{
    if inputs.len() > 0 {
        let init = inputs.drop_last();
        law_story_fits(start, init);
        law_kept(start, init);
        law_kept(start, inputs);
        lemma_step(logged(start, init), told(start, init), inputs.last());
    }
}

/// A run that succeeds reports the messages it was given, and then by turns each
/// response's message and the message with the results of its calls, ending in
/// the message of the last response.
pub proof fn law_final_history_is_the_conversation(
    start: (RunView, ReactionView),
    inputs: Seq<InputView>,
)
    requires
        starts(start),
        awaited(start, inputs),
        logged(start, inputs).reaction.command == CommandView::Finish(Ok(())),
    ensures
        ({
            let log = logged(start, inputs);
            let story = told(start, inputs);
            &&& log.reaction.events == seq![AgentEventView::Done(log.run.result())]
            &&& log.run.result().messages == conversation(
                story.given,
                replies(log.responses),
                answers(story.rounds),
            )
            &&& log.responses.len() == story.rounds.len() + 1
            &&& forall|k: int|
                0 <= k < story.rounds.len() ==> {
                    &&& is_of(
                        (#[trigger] story.rounds[k]).batch,
                        log.run.agent.tools,
                        log.responses[k].message,
                    )
                    &&& is_done(story.rounds[k].batch)
                }
        }),
{
    law_kept(start, inputs);
    law_story_fits(start, inputs);
}

proof fn lemma_loaded_once(run: RunView, input: InputView)
    requires
        run.awaits(input),
    ensures
        run.reacted(input).0.phase !is Loading,
{
}

proof fn lemma_not_loading(start: (RunView, ReactionView), inputs: Seq<InputView>)
    requires
        awaited(start, inputs),
        inputs.len() > 0 || start.0.phase !is Loading,
    ensures
        logged(start, inputs).run.phase !is Loading,
{
    if inputs.len() > 0 {
        lemma_loaded_once(logged(start, inputs.drop_last()).run, inputs.last());
    }
}

/// A run that is resumed goes on from the messages it is given.
pub proof fn law_resumed_runs_go_on_from_what_is_given(
    agent: AgentView,
    messages: Seq<MessageView>,
    inputs: Seq<InputView>,
)
    requires
        awaited(resumed(agent, messages), inputs),
    ensures
        told(resumed(agent, messages), inputs).given == messages,
    decreases inputs.len(),
{
    if inputs.len() > 0 {
        let init = inputs.drop_last();
        law_resumed_runs_go_on_from_what_is_given(agent, messages, init);
        lemma_not_loading(resumed(agent, messages), init);
    }
}

/// A run of a session goes on from the history that was loaded, if there was
/// one, with what the user says behind it.
pub proof fn law_sessions_go_on_from_what_was_loaded(
    agent: AgentView,
    session: Seq<char>,
    input: Seq<char>,
    history: Option<Seq<MessageView>>,
    inputs: Seq<InputView>,
)
    requires
        awaited(session_begun(agent, session, input), inputs),
        inputs.len() > 0,
        inputs[0] == InputView::Loaded(Ok(history)),
    ensures
        told(session_begun(agent, session, input), inputs).given == (match history {
            Some(history) => history,
            None => Seq::empty(),
        }).push(MessageView::user(input)),
    decreases inputs.len(),
{
    let start = session_begun(agent, session, input);
    let init = inputs.drop_last();
    if init.len() > 0 {
        law_sessions_go_on_from_what_was_loaded(agent, session, input, history, init);
        lemma_not_loading(start, init);
    } else {
        assert(logged(start, init).run.awaits(inputs[0]));
    }
}

/// From the start of a batch to its results, the events are all starts in the
/// order of the calls, then one finish for each call without a gate, and then
/// for each held call in order the request for approval and its finish.
pub proof fn law_events_of_a_round_come_in_order(
    start: (RunView, ReactionView),
    inputs: Seq<InputView>,
    k: int,
)
    requires
        starts(start),
        awaited(start, inputs),
        0 <= k < told(start, inputs).rounds.len(),
    ensures
        ({
            let log = logged(start, inputs);
            let round = told(start, inputs).rounds[k];
            let batch = round.batch;
            &&& round.from <= round.until <= log.events.len()
            &&& log.events.subrange(round.from as int, round.until as int) == announced(batch.calls)
                + reports(batch, round.order) + held_events(batch, batch.calls.len() as int)
            &&& round.order.no_duplicates()
            &&& forall|i: int| #[trigger]
                round.order.contains(i) <==> 0 <= i < batch.calls.len() && !batch.gated[i]
            &&& batch.calls == calls_in(log.responses[k].message)
        }),
{
    law_story_fits(start, inputs);
    let log = logged(start, inputs);
    let round = told(start, inputs).rounds[k];
    assert(answered(round, log.run.agent.tools, log.responses[k].message, log.events));
    assert forall|i: int| #[trigger]
        round.order.contains(i) <==> 0 <= i < round.batch.calls.len() && !round.batch.gated[i] by {
        if 0 <= i < round.batch.calls.len() {
            assert(round.batch.outputs[i] is Some);
        }
    }
}

/// A run fails only for a cause: the model call failed, the turns have run out,
/// the store failed, or nobody decided on a held call. Tools never make it fail.
pub proof fn law_failures_have_their_cause(run: RunView, input: InputView, error: AgentErrorView)
    requires
        run.wf(),
        run.awaits(input),
        run.reacted(input).1.command == CommandView::Finish(Err::<(), AgentErrorView>(error)),
    ensures
        match error {
            AgentErrorView::Model(cause) => run.phase is Calling && (input
                == InputView::Pulled(Some(Err(cause))) || input == InputView::Pulled(None)),
            AgentErrorView::MaxTurns(cap) => cap == run.agent.max_turns && run.turn == cap,
            AgentErrorView::Abandoned(_) => run.phase is Deciding && input == InputView::Decided(
                None,
            ),
            AgentErrorView::Checkpoint(cause) => input == InputView::Saved(Err(cause)) || input
                == InputView::Loaded(Err(cause)),
            AgentErrorView::Config(_) => false,
        },
{
}

/// Each command is the one that the run's standing asks for: all calls of a
/// reply that need no approval start at once when the round begins and are then
/// only waited for, a held call runs once it is decided, and the stream is pulled
/// from until it is over.
pub proof fn law_commands_fit_where_the_run_stands(log: Log, input: InputView)
    requires
        kept(log),
        log.run.awaits(input),
    ensures
        ({
            let (next, reaction) = log.run.reacted(input);
            let command = reaction.command;
            match next.phase {
                PhaseView::Loading { .. } => false,
                PhaseView::Saving(_) => next.session is Some && command == CommandView::Save {
                    session: next.session->0,
                    messages: next.messages,
                },
                PhaseView::Preparing => command is Prepare && next.turn == log.run.turn + 1,
                PhaseView::Calling { request, .. } => if log.run.phase is Calling {
                    command is Pull
                } else {
                    command == CommandView::Stream(request)
                },
                PhaseView::Sleeping { call, .. } => call.attempt > 1 && command
                    == CommandView::Sleep(next.agent.retry.delay((call.attempt - 1) as u32)),
                PhaseView::Running(batch) => match asked_in(log.run, input) {
                    Some(reply) => {
                        &&& batch.calls == calls_in(reply)
                        &&& command is RunTools
                        &&& batch.calls.len() <= usize::MAX ==> forall|i: int|
                            0 <= i < batch.calls.len() && !#[trigger] batch.gated[i] ==> (
                            command->RunTools_0).contains((i as usize, batch.calls[i]))
                    },
                    None => command is AwaitOutput,
                },
                PhaseView::Deciding { .. } => command is AwaitDecision,
                PhaseView::Gated { .. } => log.run.phase is Deciding && command is RunTool,
                PhaseView::Ended => command is Finish,
            }
        }),
{
    let run = log.run;
    if let Some(reply) = asked_in(run, input) {
        let batch = ToolBatchView::fresh(run.agent.tools, calls_in(reply));
        if batch.calls.len() <= usize::MAX {
            assert forall|i: int|
                0 <= i < batch.calls.len() && !#[trigger] batch.gated[i] implies batch.concurrent_from(
                0,
            ).contains((i as usize, batch.calls[i])) by {
                law_calls_without_a_gate_all_run_at_once(batch, i);
            }
        }
    }
}

/// The model's reply is kept before anything else comes of it, and its usage is
/// counted in.
pub proof fn law_replies_are_kept_and_counted(run: RunView, response: ResponseView)
    requires
        run.wf(),
        run.phase is Calling,
        run.awaits(InputView::Pulled(Some(Ok(StreamEventView::Completed(response))))),
    ensures
        ({
            let next = run.reacted(
                InputView::Pulled(Some(Ok(StreamEventView::Completed(response)))),
            ).0;
            &&& next.messages.len() > run.messages.len()
            &&& next.messages.take(run.messages.len() as int) == run.messages
            &&& next.messages[run.messages.len() as int] == response.message
            &&& next.usage.input_tokens == run.usage.input_tokens + response.usage.input_tokens
            &&& next.usage.output_tokens == run.usage.output_tokens + response.usage.output_tokens
        }),
{
    let replied = RunView {
        usage: run.usage.plus(response.usage),
        messages: run.messages.push(response.message),
        ..run
    };
    let next = run.reacted(InputView::Pulled(Some(Ok(StreamEventView::Completed(response))))).0;
    assert(next.messages.take(run.messages.len() as int) == run.messages);
}

/// A run takes whatever can come of its command: any outcome of the store, any
/// request of the middleware, any piece of the stream, the output of any call
/// that runs, any decision, and any failure that asks for no wait too long.
pub proof fn law_runs_take_whatever_can_come(
    run: RunView,
    loaded: Result<Option<Seq<MessageView>>, CheckpointErrorView>,
    saved: Result<(), CheckpointErrorView>,
    request: RequestView,
    event: StreamEventView,
    error: ModelErrorView,
    index: int,
    output: ToolOutputView,
    decision: Option<DecisionView>,
)
    ensures
        match run.phase {
            PhaseView::Loading { .. } => run.awaits(InputView::Loaded(loaded)),
            PhaseView::Saving(_) => run.awaits(InputView::Saved(saved)),
            PhaseView::Preparing => run.awaits(InputView::Prepared(request)),
            PhaseView::Calling { call, .. } => {
                &&& event !is Completed ==> run.awaits(InputView::Pulled(Some(Ok(event))))
                &&& event matches StreamEventView::Completed(response) ==> (
                run.usage.input_tokens + response.usage.input_tokens <= u64::MAX
                    && run.usage.output_tokens + response.usage.output_tokens <= u64::MAX
                    ==> run.awaits(InputView::Pulled(Some(Ok(event)))))
                &&& run.agent.retry.delay(call.attempt) <= max_nanos() ==> run.awaits(
                    InputView::Pulled(Some(Err(error))),
                ) && run.awaits(InputView::Pulled(None))
            },
            PhaseView::Sleeping { .. } => run.awaits(InputView::Slept),
            PhaseView::Running(batch) => 0 <= index < batch.calls.len() && !batch.gated[index]
                && batch.outputs[index] is None ==> run.awaits(
                InputView::ToolFinished { index, output },
            ),
            PhaseView::Deciding { .. } => run.awaits(InputView::Decided(decision)),
            PhaseView::Gated { .. } => run.awaits(InputView::ToolRan(output)),
            PhaseView::Ended => true,
        },
{
}

}
