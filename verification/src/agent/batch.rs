//! One batch of tool calls. Calls without an approval gate run concurrently;
//! approval-gated calls then run one by one, since each blocks on a human
//! decision. Results come in the model's original order.

use vstd::prelude::*;

use super::event::{
    AgentEvent, AgentEventView, ApprovalRequest, Decision, DecisionView, ToolCall, ToolCallView,
};
use super::settings::{
    find_tool, found_from, is_gated, law_first_tool_wins, law_gate_is_that_of_the_first_tool,
    needs_approval, ToolEntry, ToolEntryView,
};
use crate::duplicate::lemma_pushed;
use crate::error::{ToolError, ToolErrorView};
use crate::message::{Content, ContentView};
use crate::text::concat;
use crate::tool::{ToolOutput, ToolOutputView};

verus! {

/// Where a call goes: to a tool, by its place among the tools, or nowhere, with
/// the output that the model gets instead.
pub open spec fn routed(tools: Seq<ToolEntryView>, call: ToolCallView) -> Result<
    int,
    ToolOutputView,
> {
    match found_from(tools, call.name, 0) {
        Some(i) => Ok(i),
        None => Err(ToolOutputView::error("unknown tool: "@ + call.name)),
    }
}

/// Where a call goes: to a tool, by its place among the tools, or nowhere, with
/// the output that the model gets instead.
pub fn route(tools: &Vec<ToolEntry>, call: &ToolCall) -> (r: Result<usize, ToolOutput>)
    ensures
        match r {
            Ok(i) => i < tools@.len() && routed(tools.deep_view(), call@) == Ok::<
                int,
                ToolOutputView,
            >(i as int),
            Err(output) => routed(tools.deep_view(), call@) == Err::<int, ToolOutputView>(output@),
        },
{
    match find_tool(tools, call.name.as_str()) {
        Some(i) => Ok(i),
        None => Err(ToolOutput::error(concat("unknown tool: ", call.name.as_str()))),
    }
}

/// What the model gets of a tool's result: a failure is an output too.
pub open spec fn output_of(result: Result<ToolOutputView, ToolErrorView>) -> ToolOutputView {
    match result {
        Ok(output) => output,
        Err(error) => ToolOutputView::error(error.words()),
    }
}

/// What the model gets of a tool's result: a failure is an output too.
pub fn tool_output(result: Result<ToolOutput, ToolError>) -> (r: ToolOutput)
    ensures
        r@ == output_of(
            match result {
                Ok(output) => Ok::<ToolOutputView, ToolErrorView>(output@),
                Err(error) => Err::<ToolOutputView, ToolErrorView>(error@),
            },
        ),
{
    match result {
        Ok(output) => output,
        Err(error) => ToolOutput::error(error.words()),
    }
}

/// What comes of a verdict on a held call.
#[verifier::ext_equal]
pub enum VerdictView {
    /// Run this call.
    Run(ToolCallView),
    /// Do not run it; this is its output.
    Denied(ToolOutputView),
    /// Nobody is there to decide.
    Abandoned,
}

/// What comes of a verdict on a held call.
#[derive(Debug)]
pub enum Verdict {
    Run(ToolCall),
    Denied(ToolOutput),
    Abandoned,
}

impl View for Verdict {
    type V = VerdictView;

    open spec fn view(&self) -> VerdictView {
        match *self {
            Verdict::Run(call) => VerdictView::Run(call@),
            Verdict::Denied(output) => VerdictView::Denied(output@),
            Verdict::Abandoned => VerdictView::Abandoned,
        }
    }
}

/// What a decision leads to: approval runs the call as it is, an edit runs it
/// with the new input, a denial is the output.
pub open spec fn decided(call: ToolCallView, decision: Option<DecisionView>) -> VerdictView {
    match decision {
        Some(DecisionView::Approve) => VerdictView::Run(call),
        Some(DecisionView::Edit(input)) => VerdictView::Run(ToolCallView { input, ..call }),
        Some(DecisionView::Deny(reason)) => VerdictView::Denied(
            ToolOutputView::error(
                match reason {
                    Some(reason) => reason,
                    None => "denied by user"@,
                },
            ),
        ),
        None => VerdictView::Abandoned,
    }
}

/// What comes of a verdict.
pub fn decide(call: ToolCall, decision: Option<Decision>) -> (r: Verdict)
    ensures
        r@ == decided(call@, decision.deep_view()),
{
    match decision {
        Some(Decision::Approve) => Verdict::Run(call),
        Some(Decision::Edit(input)) => Verdict::Run(
            ToolCall { id: call.id, name: call.name, input },
        ),
        Some(Decision::Deny(reason)) => Verdict::Denied(
            ToolOutput::error(
                match reason {
                    Some(reason) => reason,
                    None => "denied by user".to_owned(),
                },
            ),
        ),
        None => Verdict::Abandoned,
    }
}

/// A batch: its calls, which of them wait for approval, and the outputs that
/// are there.
#[verifier::ext_equal]
pub struct ToolBatchView {
    pub calls: Seq<ToolCallView>,
    pub gated: Seq<bool>,
    pub outputs: Seq<Option<ToolOutputView>>,
}

/// The events that announce calls.
pub open spec fn announced(calls: Seq<ToolCallView>) -> Seq<AgentEventView> {
    calls.map_values(|c: ToolCallView| AgentEventView::ToolCallStarted(c))
}

/// What the model gets back of a call.
pub open spec fn result_of(call: ToolCallView, output: ToolOutputView) -> ContentView {
    ContentView::ToolResult {
        tool_use_id: call.id,
        content: output.content,
        is_error: output.is_error,
    }
}

impl ToolBatchView {
    /// A batch of which nothing has run.
    pub open spec fn fresh(tools: Seq<ToolEntryView>, calls: Seq<ToolCallView>) -> ToolBatchView {
        ToolBatchView {
            calls,
            gated: calls.map_values(|c: ToolCallView| is_gated(tools, c.name)),
            outputs: calls.map_values(|c: ToolCallView| None::<ToolOutputView>),
        }
    }

    /// Every call has its gate and its place for an output.
    pub open spec fn valid(self) -> bool {
        self.calls.len() == self.gated.len() == self.outputs.len()
    }

    /// Whether call `i` has this gate and no output yet.
    pub open spec fn is_open(self, gate: bool, i: int) -> bool {
        0 <= i < self.calls.len() && self.gated[i] == gate && self.outputs[i] is None
    }

    /// The first call from `from` on with this gate and no output yet.
    pub open spec fn open_from(self, gate: bool, from: int) -> Option<int>
        decreases self.calls.len() - from,
    {
        if from >= self.calls.len() {
            None
        } else if self.gated[from] == gate && self.outputs[from] is None {
            Some(from)
        } else {
            self.open_from(gate, from + 1)
        }
    }

    /// The calls that run concurrently, each with its place, from `from` on.
    pub open spec fn concurrent_from(self, from: int) -> Seq<(usize, ToolCallView)>
        decreases self.calls.len() - from,
    {
        if from >= self.calls.len() {
            Seq::empty()
        } else if self.gated[from] {
            self.concurrent_from(from + 1)
        } else {
            seq![(from as usize, self.calls[from])] + self.concurrent_from(from + 1)
        }
    }

    /// With the output of call `i`.
    pub open spec fn finished(self, i: int, output: ToolOutputView) -> ToolBatchView {
        ToolBatchView { outputs: self.outputs.update(i, Some(output)), ..self }
    }

    /// The event that reports the output of call `i`.
    pub open spec fn report(self, i: int, output: ToolOutputView) -> AgentEventView {
        AgentEventView::ToolCallFinished { id: self.calls[i].id, name: self.calls[i].name, output }
    }

    /// What the model gets back: one result for each call, in the order of the
    /// calls.
    pub open spec fn results(self) -> Seq<ContentView> {
        Seq::new(self.calls.len(), |i: int| result_of(self.calls[i], self.outputs[i]->0))
    }
}

/// The search finds the first open call, and nothing only where there is none.
pub proof fn law_open_from(batch: ToolBatchView, gate: bool, from: int)
    requires
        0 <= from,
    ensures
        match batch.open_from(gate, from) {
            Some(i) => {
                &&& from <= i
                &&& batch.is_open(gate, i)
                &&& forall|k: int| from <= k < i ==> !#[trigger] batch.is_open(gate, k)
            },
            None => forall|k: int| from <= k ==> !#[trigger] batch.is_open(gate, k),
        },
    decreases batch.calls.len() - from,
{
    if from < batch.calls.len() && !batch.is_open(gate, from) {
        law_open_from(batch, gate, from + 1);
    }
}

/// A batch in the making.
pub struct ToolBatch {
    calls: Vec<ToolCall>,
    gated: Vec<bool>,
    outputs: Vec<Option<ToolOutput>>,
}

impl View for ToolBatch {
    type V = ToolBatchView;

    closed spec fn view(&self) -> ToolBatchView {
        ToolBatchView {
            calls: self.calls.deep_view(),
            gated: self.gated@,
            outputs: self.outputs.deep_view(),
        }
    }
}

impl ToolBatch {
    /// A batch of which nothing has run.
    pub fn new(tools: &Vec<ToolEntry>, calls: Vec<ToolCall>) -> (r: ToolBatch)
        ensures
            r@ == ToolBatchView::fresh(tools.deep_view(), calls.deep_view()),
            r@.calls.len() <= usize::MAX,
    {
        let mut gated: Vec<bool> = Vec::new();
        let mut outputs: Vec<Option<ToolOutput>> = Vec::new();
        let ghost fresh = ToolBatchView::fresh(tools.deep_view(), calls.deep_view());
        let mut i: usize = 0;
        while i < calls.len()
            invariant
                i <= calls@.len(),
                fresh == ToolBatchView::fresh(tools.deep_view(), calls.deep_view()),
                gated@ == fresh.gated.take(i as int),
                outputs.deep_view() == fresh.outputs.take(i as int),
            decreases calls@.len() - i,
        {
            gated.push(needs_approval(tools, calls[i].name.as_str()));
            let ghost before = outputs;
            outputs.push(None);
            proof {
                lemma_pushed(before, outputs, None);
            }
            i = i + 1;
            assert(gated@ == fresh.gated.take(i as int));
            assert(outputs.deep_view() == fresh.outputs.take(i as int));
        }
        assert(fresh.gated.take(i as int) == fresh.gated);
        assert(fresh.outputs.take(i as int) == fresh.outputs);
        ToolBatch { calls, gated, outputs }
    }

    /// The events that announce the calls.
    pub fn announce(&self) -> (r: Vec<AgentEvent>)
        ensures
            r.deep_view() == announced(self@.calls),
    {
        let mut out: Vec<AgentEvent> = Vec::new();
        let ghost all = announced(self@.calls);
        let mut i: usize = 0;
        while i < self.calls.len()
            invariant
                i <= self.calls@.len(),
                all == announced(self.calls.deep_view()),
                out.deep_view() == all.take(i as int),
            decreases self.calls@.len() - i,
        {
            let call = self.calls[i].clone();
            let event = AgentEvent::ToolCallStarted {
                id: call.id,
                name: call.name,
                input: call.input,
            };
            let ghost before = out;
            out.push(event);
            proof {
                lemma_pushed(before, out, event);
            }
            i = i + 1;
            assert(out.deep_view() == all.take(i as int));
        }
        assert(all.take(i as int) == all);
        out
    }

    /// The first call with this gate and no output yet.
    pub fn first_open(&self, gate: bool) -> (r: Option<usize>)
        requires
            self@.valid(),
        ensures
            match r {
                Some(i) => self@.open_from(gate, 0) == Some(i as int) && self@.is_open(
                    gate,
                    i as int,
                ),
                None => self@.open_from(gate, 0) is None,
            },
    {
        let mut i: usize = 0;
        while i < self.calls.len()
            invariant
                self@.valid(),
                i <= self.calls@.len(),
                self@.open_from(gate, 0) == self@.open_from(gate, i as int),
            decreases self.calls@.len() - i,
        {
            assert(self@.outputs[i as int] == self.outputs@[i as int].deep_view());
            if self.gated[i] == gate && self.outputs[i].is_none() {
                return Some(i);
            }
            i = i + 1;
        }
        None
    }

    /// Whether call `i` runs concurrently and has no output yet.
    pub fn awaits_output(&self, i: usize) -> (r: bool)
        requires
            self@.valid(),
        ensures
            r == self@.is_open(false, i as int),
    {
        if i < self.calls.len() {
            assert(self@.outputs[i as int] == self.outputs@[i as int].deep_view());
            !self.gated[i] && self.outputs[i].is_none()
        } else {
            false
        }
    }

    /// The calls that run concurrently, each with its place.
    pub fn concurrent(&self) -> (r: Vec<(usize, ToolCall)>)
        requires
            self@.valid(),
        ensures
            r.deep_view() == self@.concurrent_from(0),
    {
        let mut out: Vec<(usize, ToolCall)> = Vec::new();
        let mut i: usize = 0;
        assert(Seq::<(usize, ToolCallView)>::empty() + self@.concurrent_from(0)
            == self@.concurrent_from(0));
        assert(out.deep_view() == Seq::<(usize, ToolCallView)>::empty());
        while i < self.calls.len()
            invariant
                self@.valid(),
                i <= self.calls@.len(),
                out.deep_view() + self@.concurrent_from(i as int) == self@.concurrent_from(0),
            decreases self.calls@.len() - i,
        {
            if !self.gated[i] {
                let item = (i, self.calls[i].clone());
                let ghost before = out;
                out.push(item);
                proof {
                    lemma_pushed(before, out, item);
                    assert(item.deep_view() == (i, self@.calls[i as int]));
                    let head = seq![(i, self@.calls[i as int])];
                    let rest = self@.concurrent_from(i + 1);
                    assert(before.deep_view() + (head + rest) == before.deep_view().push(
                        (i, self@.calls[i as int]),
                    ) + rest);
                }
            }
            i = i + 1;
        }
        assert(out.deep_view() + Seq::<(usize, ToolCallView)>::empty() == out.deep_view());
        out
    }

    /// Call `i`.
    pub fn call(&self, i: usize) -> (r: ToolCall)
        requires
            i < self@.calls.len(),
        ensures
            r@ == self@.calls[i as int],
    {
        self.calls[i].clone()
    }

    /// The request for approval of call `i`.
    pub fn approval(&self, i: usize) -> (r: AgentEvent)
        requires
            i < self@.calls.len(),
        ensures
            r@ == AgentEventView::AwaitingApproval(self@.calls[i as int]),
    {
        let call = self.calls[i].clone();
        AgentEvent::AwaitingApproval(
            ApprovalRequest { id: call.id, name: call.name, input: call.input },
        )
    }

    /// Takes the output of call `i`, and gives the event that reports it.
    pub fn finish(&mut self, i: usize, output: ToolOutput) -> (r: AgentEvent)
        requires
            old(self)@.valid(),
            i < old(self)@.calls.len(),
        ensures
            final(self)@ == old(self)@.finished(i as int, output@),
            r@ == old(self)@.report(i as int, output@),
    {
        let event = AgentEvent::ToolCallFinished {
            id: self.calls[i].id.clone(),
            name: self.calls[i].name.clone(),
            output: output.clone(),
        };
        self.outputs.set(i, Some(output));
        assert(self.outputs.deep_view() == old(self)@.outputs.update(
            i as int,
            Some(output@),
        ));
        event
    }

    /// What the model gets back.
    pub fn results(&self) -> (r: Vec<Content>)
        requires
            self@.valid(),
            self@.open_from(false, 0) is None,
            self@.open_from(true, 0) is None,
        ensures
            r.deep_view() == self@.results(),
    {
        let mut out: Vec<Content> = Vec::new();
        let mut i: usize = 0;
        proof {
            law_open_from(self@, false, 0);
            law_open_from(self@, true, 0);
        }
        while i < self.calls.len()
            invariant
                self@.valid(),
                forall|k: int| 0 <= k ==> !#[trigger] self@.is_open(false, k),
                forall|k: int| 0 <= k ==> !#[trigger] self@.is_open(true, k),
                i <= self.calls@.len(),
                out.deep_view() == self@.results().take(i as int),
            decreases self.calls@.len() - i,
        {
            assert(!self@.is_open(false, i as int) && !self@.is_open(true, i as int));
            assert(self@.outputs[i as int] == self.outputs@[i as int].deep_view());
            if let Some(output) = &self.outputs[i] {
                let block = Content::ToolResult {
                    tool_use_id: self.calls[i].id.clone(),
                    content: output.content.clone(),
                    is_error: output.is_error,
                };
                let ghost before = out;
                out.push(block);
                proof {
                    lemma_pushed(before, out, block);
                }
            }
            i = i + 1;
            assert(out.deep_view() == self@.results().take(i as int));
        }
        assert(self@.results().take(i as int) == self@.results());
        out
    }
}

/// The model gets one result for each of its calls, in the order of the calls
/// and under their ids.
pub proof fn law_results_answer_the_calls_in_order(batch: ToolBatchView)
    ensures
        batch.results().len() == batch.calls.len(),
        forall|i: int|
            0 <= i < batch.calls.len() ==> (#[trigger] batch.results()[i] matches
                ContentView::ToolResult { tool_use_id, .. } && tool_use_id == batch.calls[i].id),
{
}

/// In what order the outputs come does not matter to the results.
pub proof fn law_order_of_completion_does_not_matter(
    batch: ToolBatchView,
    i: int,
    a: ToolOutputView,
    k: int,
    b: ToolOutputView,
)
    requires
        batch.valid(),
        0 <= i < batch.calls.len(),
        0 <= k < batch.calls.len(),
        i != k,
    ensures
        batch.finished(i, a).finished(k, b) == batch.finished(k, b).finished(i, a),
        batch.finished(i, a).finished(k, b).results() == batch.finished(k, b).finished(
            i,
            a,
        ).results(),
{
    assert(batch.outputs.update(i, Some(a)).update(k, Some(b)) == batch.outputs.update(
        k,
        Some(b),
    ).update(i, Some(a)));
}

/// A call that waits for approval is never among those that run at once.
pub proof fn law_gated_calls_do_not_run_at_once(batch: ToolBatchView, from: int, n: int)
    requires
        batch.valid(),
        0 <= from,
        batch.calls.len() <= usize::MAX,
        0 <= n < batch.concurrent_from(from).len(),
    ensures
        ({
            let (i, call) = batch.concurrent_from(from)[n];
            &&& from <= i < batch.calls.len()
            &&& !batch.gated[i as int]
            &&& call == batch.calls[i as int]
        }),
    decreases batch.calls.len() - from,
{
    if from < batch.calls.len() {
        let rest = batch.concurrent_from(from + 1);
        if batch.gated[from] {
            law_gated_calls_do_not_run_at_once(batch, from + 1, n);
        } else if n > 0 {
            assert(batch.concurrent_from(from)[n] == rest[n - 1]);
            law_gated_calls_do_not_run_at_once(batch, from + 1, n - 1);
        }
    }
}

/// A denied call never runs, an approved one runs as the model asked for it,
/// and an edited one with the edited input in place of the model's.
pub proof fn law_verdicts_are_followed(call: ToolCallView, decision: DecisionView)
    ensures
        decided(call, Some(decision)) is Run <==> decision !is Deny,
        decision is Approve ==> decided(call, Some(decision)) == VerdictView::Run(call),
        decision matches DecisionView::Edit(input) ==> decided(call, Some(decision))
            == VerdictView::Run(ToolCallView { id: call.id, name: call.name, input }),
        decision matches DecisionView::Deny(reason) ==> (decided(call, Some(decision)) matches
            VerdictView::Denied(output) && output.is_error),
{
}

proof fn lemma_concurrent_ascends(batch: ToolBatchView, from: int)
    requires
        batch.valid(),
        0 <= from,
        batch.calls.len() <= usize::MAX,
    ensures
        forall|n: int|
            0 <= n < batch.concurrent_from(from).len() ==> from <= (
            #[trigger] batch.concurrent_from(from)[n]).0 < batch.calls.len(),
        forall|n: int, m: int|
            0 <= n < m < batch.concurrent_from(from).len() ==> (#[trigger] batch.concurrent_from(
                from,
            )[n]).0 < (#[trigger] batch.concurrent_from(from)[m]).0,
    decreases batch.calls.len() - from,
{
    if from < batch.calls.len() {
        lemma_concurrent_ascends(batch, from + 1);
        let list = batch.concurrent_from(from);
        let rest = batch.concurrent_from(from + 1);
        if !batch.gated[from] {
            assert forall|n: int| 0 < n < list.len() implies #[trigger] list[n] == rest[n - 1] by {}
        }
    }
}

proof fn lemma_concurrent_has(batch: ToolBatchView, from: int, i: int)
    requires
        batch.valid(),
        0 <= from <= i < batch.calls.len() <= usize::MAX,
        !batch.gated[i],
    ensures
        batch.concurrent_from(from).contains((i as usize, batch.calls[i])),
    decreases i - from,
{
    let list = batch.concurrent_from(from);
    let item = (i as usize, batch.calls[i]);
    if from == i {
        assert(list[0] == item);
    } else {
        lemma_concurrent_has(batch, from + 1, i);
        let rest = batch.concurrent_from(from + 1);
        let n = choose|n: int| 0 <= n < rest.len() && rest[n] == item;
        if !batch.gated[from] {
            assert(list[n + 1] == item);
        }
    }
}

/// Every call without a gate is among those that run at once, under its own
/// place, and there is one entry for each, in the order of the calls.
pub proof fn law_calls_without_a_gate_all_run_at_once(batch: ToolBatchView, i: int)
    requires
        batch.valid(),
        0 <= i < batch.calls.len() <= usize::MAX,
    ensures
        !batch.gated[i] <==> batch.concurrent_from(0).contains((i as usize, batch.calls[i])),
        forall|n: int|
            0 <= n < batch.concurrent_from(0).len() ==> (#[trigger] batch.concurrent_from(0)[n]).0
                < batch.calls.len() && batch.concurrent_from(0)[n].1
                == batch.calls[batch.concurrent_from(0)[n].0 as int],
        forall|n: int, m: int|
            0 <= n < m < batch.concurrent_from(0).len() ==> (#[trigger] batch.concurrent_from(
                0,
            )[n]).0 < (#[trigger] batch.concurrent_from(0)[m]).0,
{
    lemma_concurrent_ascends(batch, 0);
    let list = batch.concurrent_from(0);
    if !batch.gated[i] {
        lemma_concurrent_has(batch, 0, i);
    } else if list.contains((i as usize, batch.calls[i])) {
        let n = choose|n: int| 0 <= n < list.len() && list[n] == (i as usize, batch.calls[i]);
        law_gated_calls_do_not_run_at_once(batch, 0, n);
    }
    assert forall|n: int| 0 <= n < list.len() implies (#[trigger] list[n]).0 < batch.calls.len()
        && list[n].1 == batch.calls[list[n].0 as int] by {
        law_gated_calls_do_not_run_at_once(batch, 0, n);
    }
}

/// A batch starts with no outputs, and a call waits for approval just where the
/// first tool of its name asks for it.
pub proof fn law_fresh_batches_gate_by_the_first_tool(
    tools: Seq<ToolEntryView>,
    calls: Seq<ToolCallView>,
    i: int,
)
    requires
        0 <= i < calls.len(),
    ensures
        ({
            let batch = ToolBatchView::fresh(tools, calls);
            &&& batch.valid()
            &&& batch.calls == calls
            &&& batch.outputs[i] is None
            &&& batch.gated[i] <==> exists|k: int|
                0 <= k < tools.len() && (#[trigger] tools[k]).advertised.name == calls[i].name
                    && tools[k].needs_approval && (forall|m: int|
                    0 <= m < k ==> (#[trigger] tools[m]).advertised.name != calls[i].name)
        }),
{
    law_gate_is_that_of_the_first_tool(tools, calls[i].name);
}

/// An output goes to its own call, and nothing else of the batch changes.
pub proof fn law_outputs_go_to_their_calls(batch: ToolBatchView, i: int, output: ToolOutputView)
    requires
        batch.valid(),
        0 <= i < batch.calls.len(),
    ensures
        ({
            let after = batch.finished(i, output);
            &&& after.valid()
            &&& after.calls == batch.calls
            &&& after.gated == batch.gated
            &&& after.outputs[i] == Some(output)
            &&& forall|k: int|
                0 <= k < batch.calls.len() && k != i ==> #[trigger] after.outputs[k]
                    == batch.outputs[k]
        }),
        batch.report(i, output) == (AgentEventView::ToolCallFinished {
            id: batch.calls[i].id,
            name: batch.calls[i].name,
            output,
        }),
{
}

/// The result of each call carries the call's id, and the text and the error
/// mark of its output.
pub proof fn law_results_carry_the_outputs(batch: ToolBatchView, i: int)
    requires
        batch.valid(),
        0 <= i < batch.calls.len(),
        batch.outputs[i] is Some,
    ensures
        batch.results().len() == batch.calls.len(),
        batch.results()[i] == (ContentView::ToolResult {
            tool_use_id: batch.calls[i].id,
            content: batch.outputs[i]->0.content,
            is_error: batch.outputs[i]->0.is_error,
        }),
{
}

/// Every call is announced, in its place and as the model asked for it.
pub proof fn law_every_call_is_announced(calls: Seq<ToolCallView>, i: int)
    requires
        0 <= i < calls.len(),
    ensures
        announced(calls).len() == calls.len(),
        announced(calls)[i] == AgentEventView::ToolCallStarted(calls[i]),
{
}

/// A call goes to the first tool of its name; without one the model is told that
/// the tool is unknown, as an error.
pub proof fn law_calls_go_to_the_first_tool_of_the_name(
    tools: Seq<ToolEntryView>,
    call: ToolCallView,
)
    ensures
        match routed(tools, call) {
            Ok(i) => {
                &&& 0 <= i < tools.len()
                &&& tools[i].advertised.name == call.name
                &&& forall|k: int|
                    0 <= k < i ==> (#[trigger] tools[k]).advertised.name != call.name
            },
            Err(output) => {
                &&& forall|k: int|
                    0 <= k < tools.len() ==> (#[trigger] tools[k]).advertised.name != call.name
                &&& output.is_error
                &&& output.content == "unknown tool: "@ + call.name
            },
        },
{
    law_first_tool_wins(tools, call.name, 0);
}

/// What a tool hands back reaches the model as it is, and a failure reaches it
/// as an error with the words of the failure.
pub proof fn law_failures_are_outputs(result: Result<ToolOutputView, ToolErrorView>)
    ensures
        match result {
            Ok(output) => output_of(result) == output,
            Err(ToolErrorView::Execution(words)) => {
                &&& output_of(result).is_error
                &&& output_of(result).content == words
            },
            Err(ToolErrorView::InvalidInput(words)) => {
                &&& output_of(result).is_error
                &&& output_of(result).content == "invalid tool input: "@ + words
            },
        },
{
}

/// A denied call answers with the reason given, or with standing words; without
/// a decision the run is abandoned.
pub proof fn law_denials_answer_with_the_reason(call: ToolCallView, reason: Seq<char>)
    ensures
        decided(call, Some(DecisionView::Deny(Some(reason)))) == VerdictView::Denied(
            (ToolOutputView { content: reason, is_error: true }),
        ),
        decided(call, Some(DecisionView::Deny(None))) == VerdictView::Denied(
            (ToolOutputView { content: "denied by user"@, is_error: true }),
        ),
        decided(call, None) is Abandoned,
{
}

}
