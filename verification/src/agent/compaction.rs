//! Context compaction: summarize older conversation history when it grows
//! past a budget.
//!
//! The canonical history the agent owns is never mutated: compaction rewrites
//! the *request* on its way to the model, replacing an old prefix of messages
//! with a model-written summary. The summary is cached and reused until the
//! (still growing) suffix exceeds the budget again.

use vstd::prelude::*;
use vstd::utf8::encode_utf8;

use crate::codec::{
    json_parse_bytes, json_pretty, json_text, render, render_pretty, MAX_NESTING,
};
use crate::duplicate::copy_range;
use crate::error::{ModelError, ModelErrorView};
use crate::history::{
    encode_history, encode_message, history_json, history_of, history_storable,
    law_histories_are_storable, law_histories_come_back, message_json,
};
use crate::json::JsonView;
use crate::message::{text_of, Content, ContentView, Message, MessageView, Role};
use crate::model::{Request, RequestView, Response, ResponseView};
use crate::text::concat;

verus! {

/// The message that stands for a summarized prefix.
pub open spec fn summary_of(text: Seq<char>) -> MessageView {
    MessageView::user("[Summary of earlier conversation]\n"@ + text)
}

/// The message that stands for a summarized prefix.
pub fn summary_message(text: &str) -> (r: Message)
    ensures
        r@ == summary_of(text@),
{
    Message::user(concat("[Summary of earlier conversation]\n", text).as_str())
}

/// Rough count of a message's tokens: a quarter of the bytes of its JSON.
pub open spec fn tokens_of(message: MessageView) -> nat {
    encode_utf8(json_text(message_json(message))).len() / 4
}

/// Rough count of the messages' tokens.
pub open spec fn estimate(messages: Seq<MessageView>) -> nat
    decreases messages.len(),
{
    if messages.len() == 0 {
        0
    } else {
        estimate(messages.drop_last()) + tokens_of(messages.last())
    }
}

fn count_tokens(message: &Message) -> (r: u128)
    ensures
        r == tokens_of(message@),
        r <= 0x4000000000000000,
{
    let text = render(&encode_message(message));
    let bytes: usize = text.as_str().as_bytes().len();
    (bytes / 4) as u128
}

/// Rough token estimate for the messages from `from` on: ~4 chars per token, on
/// serialized content length.
pub fn estimate_tokens(messages: &Vec<Message>, from: usize) -> (r: u128)
    requires
        from <= messages@.len(),
    ensures
        r == estimate(messages.deep_view().skip(from as int)),
        r <= 0x40000000000000000000000000000000,
{
    let mut total: u128 = 0;
    let mut i: usize = from;
    let ghost all = messages.deep_view().skip(from as int);
    assert(all.take(0) == Seq::<MessageView>::empty());
    while i < messages.len()
        invariant
            from <= i <= messages@.len(),
            all == messages.deep_view().skip(from as int),
            total == estimate(all.take(i - from)),
            total <= (i - from) * 0x4000000000000000,
        decreases messages@.len() - i,
    {
        proof {
            assert(all.take(i - from + 1).drop_last() == all.take(i - from));
            assert(all.take(i - from + 1).last() == messages.deep_view()[i as int]);
        }
        total = total + count_tokens(&messages[i]);
        i = i + 1;
    }
    assert(all.take(i - from) == all);
    total
}

/// Whether the history may be cut before a message: it is the user's, and holds
/// no tool result.
pub open spec fn may_cut(message: MessageView) -> bool {
    &&& message.role is User
    &&& forall|k: int|
        0 <= k < message.content.len() ==> #[trigger] message.content[k] !is ToolResult
}

/// The last place up to `i`, and not the first message, where the history may
/// be cut.
pub open spec fn last_cut(messages: Seq<MessageView>, i: int) -> Option<int>
    decreases i,
{
    if i <= 0 {
        None
    } else if may_cut(messages[i]) {
        Some(i)
    } else {
        last_cut(messages, i - 1)
    }
}

/// How many messages are kept at least.
pub open spec fn kept_at_least(keep_recent: usize) -> int {
    if keep_recent < 1 {
        1
    } else {
        keep_recent as int
    }
}

/// How many leading messages to fold into the summary: as many as can be, with
/// enough recent ones kept.
pub open spec fn split_of(messages: Seq<MessageView>, keep_recent: usize) -> Option<int> {
    last_cut(messages, messages.len() - kept_at_least(keep_recent))
}

/// The request with the summary in place of the first messages.
pub open spec fn compacted(request: RequestView, text: Seq<char>, covered: int) -> RequestView {
    RequestView {
        messages: seq![summary_of(text)] + request.messages.skip(covered),
        ..request
    }
}

/// What the model is asked for a summary of this transcript.
pub open spec fn summary_request(transcript: Seq<char>) -> RequestView {
    RequestView {
        system: Some(
            "You compress agent conversation history. Summarize the transcript into a dense brief a coding agent can resume from: user goals, decisions made, files/entities touched with their current state, tool call outcomes, and unresolved threads. No preamble."@,
        ),
        messages: seq![MessageView::user(transcript)],
        ..RequestView::blank()
    }
}

/// Whether a request tells of these messages: its one message is a text, and
/// reading the JSON in it gives them.
pub open spec fn tells_of(ask: RequestView, messages: Seq<MessageView>) -> bool {
    &&& ask.messages.len() == 1
    &&& ask.messages[0].content.len() == 1
    &&& ask.messages[0].content[0] matches ContentView::Text { text } && (json_parse_bytes(
        encode_utf8(text),
    ) matches Ok(json) && history_of(json) == Some(messages))
}

/// What to do with a request.
#[verifier::ext_equal]
pub enum PlanView {
    /// Send this.
    Send(RequestView),
    /// Ask for a summary first, of that many messages.
    Summarize { ask: RequestView, split: int },
}

/// The settings, and the summary that is there: how many messages it covers,
/// and its text.
#[verifier::ext_equal]
pub struct CompactionView {
    pub budget_tokens: usize,
    pub keep_recent: usize,
    pub cache: Option<(usize, Seq<char>)>,
}

impl CompactionView {
    /// Compaction above this budget.
    pub open spec fn fresh(budget_tokens: usize) -> CompactionView {
        CompactionView { budget_tokens, keep_recent: 8, cache: None }
    }

    /// With this many recent messages to keep.
    pub open spec fn keeping(self, n: usize) -> CompactionView {
        CompactionView { keep_recent: n, ..self }
    }

    /// Whether the cached summary serves a request that is to be cut at
    /// `split`: it covers no more, and with it the request comes to this many
    /// tokens, which is within the budget.
    pub open spec fn serves(self, split: int, projected: nat) -> bool {
        self.cache matches Some((covered, _)) && 0 < covered <= split && projected
            <= self.budget_tokens
    }

    /// What to do with a request of `total` tokens, which with the cached
    /// summary comes to `projected`: nothing while it is within the budget or
    /// cannot be cut, else the cached summary where it serves, else a new one.
    pub open spec fn chosen(self, request: RequestView, total: nat, projected: nat) -> PlanView {
        if total <= self.budget_tokens {
            PlanView::Send(request)
        } else {
            match split_of(request.messages, self.keep_recent) {
                None => PlanView::Send(request),
                Some(split) => if self.serves(split, projected) {
                    let (covered, text) = self.cache->0;
                    PlanView::Send(compacted(request, text, covered as int))
                } else {
                    PlanView::Summarize {
                        ask: summary_request(
                            json_pretty(history_json(request.messages.take(split))),
                        ),
                        split,
                    }
                },
            }
        }
    }

    /// How many tokens the messages come to with the cached summary in place of
    /// those that it covers.
    pub open spec fn projected(self, messages: Seq<MessageView>) -> nat {
        match self.cache {
            Some((covered, text)) => if covered <= messages.len() {
                estimate(seq![summary_of(text)]) + estimate(messages.skip(covered as int))
            } else {
                0
            },
            None => 0,
        }
    }

    /// What to do with a request.
    pub open spec fn planned(self, request: RequestView) -> PlanView {
        self.chosen(request, estimate(request.messages), self.projected(request.messages))
    }

    /// What is sent once the summary has come, and what is cached. A failed
    /// summary does not take the run down: the request goes out as it was.
    pub open spec fn summarized(
        self,
        request: RequestView,
        split: usize,
        outcome: Result<ResponseView, ModelErrorView>,
    ) -> (CompactionView, RequestView) {
        match outcome {
            Ok(response) => {
                let text = text_of(response.message.content);
                (
                    CompactionView { cache: Some((split, text)), ..self },
                    compacted(request, text, split as int),
                )
            },
            Err(_) => (self, request),
        }
    }
}

/// What the model is asked for a summary of this transcript.
pub fn ask_for_summary(transcript: &str) -> (r: Request)
    ensures
        r@ == summary_request(transcript@),
{
    let mut ask = Request::default();
    ask.system = Some(
        "You compress agent conversation history. Summarize the transcript into a dense brief a coding agent can resume from: user goals, decisions made, files/entities touched with their current state, tool call outcomes, and unresolved threads. No preamble.".to_owned(),
    );
    let message = Message::user(transcript);
    ask.messages.push(message);
    assert(ask.messages.deep_view() == seq![message@]);
    ask
}

/// What to do with a request.
#[derive(Debug)]
pub enum Plan {
    /// Send this.
    Send(Request),
    /// Generate this first, and give the outcome to
    /// [`Compaction::on_summary`].
    Summarize { request: Request, ask: Request, split: usize },
}

/// Summarizes the oldest part of the conversation once the estimated token
/// count exceeds `budget_tokens`, keeping at least `keep_recent` messages
/// verbatim.
pub struct Compaction {
    budget_tokens: usize,
    keep_recent: usize,
    cache: Option<(usize, String)>,
}

impl View for Compaction {
    type V = CompactionView;

    closed spec fn view(&self) -> CompactionView {
        CompactionView {
            budget_tokens: self.budget_tokens,
            keep_recent: self.keep_recent,
            cache: self.cache.deep_view(),
        }
    }
}

fn cut_before(message: &Message) -> (r: bool)
    ensures
        r == may_cut(message@),
{
    match message.role {
        Role::Assistant => false,
        Role::User => {
            let mut i: usize = 0;
            while i < message.content.len()
                invariant
                    i <= message.content@.len(),
                    forall|k: int|
                        0 <= k < i ==> #[trigger] message@.content[k] !is ToolResult,
                decreases message.content@.len() - i,
            {
                if let Content::ToolResult { .. } = &message.content[i] {
                    assert(message@.content[i as int] is ToolResult);
                    return false;
                }
                i = i + 1;
            }
            true
        },
    }
}

fn apply(request: Request, summary: Message, covered: usize) -> (r: Request)
    requires
        covered <= request@.messages.len(),
    ensures
        r@ == (RequestView {
            messages: seq![summary@] + request@.messages.skip(covered as int),
            ..request@
        }),
{
    let mut request = request;
    let mut rest = copy_range(&request.messages, covered, request.messages.len());
    let mut messages: Vec<Message> = Vec::new();
    messages.push(summary);
    let ghost kept = rest.deep_view();
    messages.append(&mut rest);
    proof {
        let all = request@.messages;
        assert(all.subrange(covered as int, all.len() as int) == all.skip(covered as int));
        assert(messages.deep_view() == seq![summary@] + kept);
    }
    request.messages = messages;
    request
}

impl Compaction {
    /// Compaction above this budget.
    pub fn new(budget_tokens: usize) -> (r: Compaction)
        ensures
            r@ == (CompactionView { budget_tokens, keep_recent: 8, cache: None }),
            r@ == CompactionView::fresh(budget_tokens),
    {
        Compaction { budget_tokens, keep_recent: 8, cache: None }
    }

    /// Minimum number of most-recent messages kept verbatim (default 8).
    pub fn keep_recent(self, n: usize) -> (r: Compaction)
        ensures
            r@ == (CompactionView { keep_recent: n, ..self@ }),
            r@ == self@.keeping(n),
    {
        Compaction { budget_tokens: self.budget_tokens, keep_recent: n, cache: self.cache }
    }

    /// Pick how many leading messages to fold into the summary. The cut must
    /// land on a `user` message that isn't a tool result, so no
    /// tool_use/tool_result pair is ever split across the boundary.
    pub fn split_point(&self, messages: &Vec<Message>) -> (r: Option<usize>)
        ensures
            match r {
                Some(split) => split_of(messages.deep_view(), self@.keep_recent) == Some(
                    split as int,
                ) && 0 < split < messages@.len(),
                None => split_of(messages.deep_view(), self@.keep_recent) is None,
            },
    {
        let keep: usize = if self.keep_recent < 1 { 1 } else { self.keep_recent };
        if messages.len() <= keep {
            return None;
        }
        let mut i: usize = messages.len() - keep;
        while i > 0
            invariant
                i < messages@.len(),
                split_of(messages.deep_view(), self@.keep_recent) == last_cut(
                    messages.deep_view(),
                    i as int,
                ),
            decreases i,
        {
            if cut_before(&messages[i]) {
                return Some(i);
            }
            i = i - 1;
        }
        None
    }

    fn project(&self, messages: &Vec<Message>) -> (r: u128)
        ensures
            r == self@.projected(messages.deep_view()),
    {
        match &self.cache {
            None => 0,
            Some((covered, text)) => if *covered <= messages.len() {
                let summary = summary_message(text.as_str());
                let own: u128 = count_tokens(&summary);
                proof {
                    reveal_with_fuel(estimate, 2);
                    assert(seq![summary@].drop_last() == Seq::<MessageView>::empty());
                }
                own + estimate_tokens(messages, *covered)
            } else {
                0
            },
        }
    }

    /// What to do with a request before it goes to the model.
    pub fn plan(&self, request: Request) -> (r: Plan)
        ensures
            match r {
                Plan::Send(sent) => self@.planned(request@) == PlanView::Send(sent@),
                Plan::Summarize { request: same, ask, split } => {
                    &&& self@.planned(request@) == PlanView::Summarize {
                        ask: ask@,
                        split: split as int,
                    }
                    &&& same@ == request@
                    &&& split <= request@.messages.len()
                    &&& history_storable(
                        request@.messages.take(split as int),
                        MAX_NESTING as int,
                    ) ==> tells_of(ask@, request@.messages.take(split as int))
                },
            },
    {
        let total = estimate_tokens(&request.messages, 0);
        assert(request@.messages.skip(0) == request@.messages);
        let projected = self.project(&request.messages);
        self.plan_for(request, total, projected)
    }

    /// What to do with a request of `total` tokens, which with the cached
    /// summary comes to `projected`.
    pub fn plan_for(&self, request: Request, total: u128, projected: u128) -> (r: Plan)
        ensures
            ({
                let chosen = self@.chosen(request@, total as nat, projected as nat);
                match r {
                    Plan::Send(sent) => chosen == PlanView::Send(sent@),
                    Plan::Summarize { request: same, ask, split } => {
                        &&& chosen == PlanView::Summarize { ask: ask@, split: split as int }
                        &&& same@ == request@
                        &&& split <= request@.messages.len()
                        &&& history_storable(
                            request@.messages.take(split as int),
                            MAX_NESTING as int,
                        ) ==> tells_of(ask@, request@.messages.take(split as int))
                    },
                }
            }),
    {
        if total <= self.budget_tokens as u128 {
            return Plan::Send(request);
        }
        let split = match self.split_point(&request.messages) {
            None => {
                return Plan::Send(request);
            },
            Some(split) => split,
        };
        // History is append-only, so a previously summarized prefix is still
        // a valid summary. Reuse it when the compacted result would fit the
        // budget; only re-summarize (at a later split) when it wouldn't.
        if let Some((covered, text)) = &self.cache {
            if *covered > 0 && *covered <= split && projected <= self.budget_tokens as u128 {
                let summary = summary_message(text.as_str());
                return Plan::Send(apply(request, summary, *covered));
            }
        }
        let transcript = render_pretty(&encode_history(&request.messages, split));
        proof {
            let dropped = request@.messages.take(split as int);
            if history_storable(dropped, MAX_NESTING as int) {
                law_histories_are_storable(dropped, MAX_NESTING as int);
            }
            law_histories_come_back(dropped);
        }
        Plan::Summarize { request, ask: ask_for_summary(transcript.as_str()), split }
    }

    /// What is sent once the summary has come.
    pub fn on_summary(
        &mut self,
        request: Request,
        split: usize,
        outcome: Result<Response, ModelError>,
    ) -> (r: Request)
        requires
            split <= request@.messages.len(),
        ensures
            (final(self)@, r@) == old(self)@.summarized(
                request@,
                split,
                match outcome {
                    Ok(response) => Ok::<ResponseView, ModelErrorView>(response@),
                    Err(error) => Err::<ResponseView, ModelErrorView>(error@),
                },
            ),
    {
        match outcome {
            Ok(response) => {
                let text = response.message.text();
                let summary = summary_message(text.as_str());
                self.cache = Some((split, text));
                apply(request, summary, split)
            },
            Err(_) => request,
        }
    }
}

proof fn lemma_last_cut(messages: Seq<MessageView>, i: int)
    ensures
        last_cut(messages, i) matches Some(cut) ==> {
            &&& 0 < cut <= i
            &&& may_cut(messages[cut])
            &&& forall|k: int| cut < k <= i ==> !may_cut(#[trigger] messages[k])
        },
        last_cut(messages, i) is None ==> forall|k: int|
            0 < k <= i ==> !may_cut(#[trigger] messages[k]),
    decreases i,
{
    if i > 0 && !may_cut(messages[i]) {
        lemma_last_cut(messages, i - 1);
    }
}

/// The split leaves at least the recent messages that are to be kept, the first
/// message kept is the user's and no tool result, and no later split would do.
pub proof fn law_split_keeps_recent_messages(messages: Seq<MessageView>, keep_recent: usize)
    ensures
        split_of(messages, keep_recent) matches Some(split) ==> {
            &&& 0 < split < messages.len()
            &&& messages.len() - split >= keep_recent
            &&& may_cut(messages[split])
            &&& forall|k: int|
                split < k <= messages.len() - kept_at_least(keep_recent) ==> !may_cut(
                    #[trigger] messages[k],
                )
        },
{
    lemma_last_cut(messages, messages.len() - kept_at_least(keep_recent));
}

/// A compacted request begins with the summary and goes on with the messages
/// that are not covered, verbatim: at least the recent ones that are to be kept.
/// All else of the request stays.
pub proof fn law_compacted_request_keeps_recent_messages(
    state: CompactionView,
    request: RequestView,
    split: usize,
    response: ResponseView,
)
    requires
        state.planned(request) matches PlanView::Summarize { split: s, .. } && s == split,
    ensures
        ({
            let sent = state.summarized(request, split, Ok(response)).1;
            let text = text_of(response.message.content);
            &&& sent.messages[0] == summary_of(text)
            &&& sent.messages.skip(1) == request.messages.skip(split as int)
            &&& sent.messages.len() - 1 >= state.keep_recent
            &&& sent == (RequestView { messages: sent.messages, ..request })
        }),
{
    law_split_keeps_recent_messages(request.messages, state.keep_recent);
    let sent = state.summarized(request, split, Ok(response)).1;
    assert(sent.messages.skip(1) == request.messages.skip(split as int));
}

/// A request that is answered from the cache keeps at least the recent messages
/// too, and is within the budget.
pub proof fn law_cached_summary_keeps_recent_messages(state: CompactionView, request: RequestView)
    requires
        estimate(request.messages) > state.budget_tokens,
        split_of(request.messages, state.keep_recent) matches Some(split) && state.serves(
            split,
            state.projected(request.messages),
        ),
    ensures
        state.planned(request) matches PlanView::Send(sent) && {
            let (covered, text) = state.cache->0;
            &&& sent.messages[0] == summary_of(text)
            &&& sent.messages.skip(1) == request.messages.skip(covered as int)
            &&& sent.messages.len() - 1 >= state.keep_recent
            &&& estimate(seq![sent.messages[0]]) + estimate(sent.messages.skip(1))
                <= state.budget_tokens
        },
{
    law_split_keeps_recent_messages(request.messages, state.keep_recent);
    let (covered, text) = state.cache->0;
    let sent = compacted(request, text, covered as int);
    assert(sent.messages.skip(1) == request.messages.skip(covered as int));
}

/// A request within the budget, or one that cannot be cut, goes out as it is.
pub proof fn law_small_requests_are_left_alone(state: CompactionView, request: RequestView)
    requires
        estimate(request.messages) <= state.budget_tokens || split_of(
            request.messages,
            state.keep_recent,
        ) is None,
    ensures
        state.planned(request) == PlanView::Send(request),
{
}

/// A failed summary changes nothing: the request goes out as it was.
pub proof fn law_failed_summary_changes_nothing(
    state: CompactionView,
    request: RequestView,
    split: usize,
    error: ModelErrorView,
)
    ensures
        state.summarized(request, split, Err(error)) == (state, request),
{
}

/// Whether message `i` asks for the tool call of this id.
pub open spec fn asks(messages: Seq<MessageView>, i: int, id: Seq<char>) -> bool {
    exists|k: int|
        0 <= k < messages[i].content.len() && (#[trigger] messages[i].content[k] matches
            ContentView::ToolUse { id: asked, .. } && asked == id)
}

/// Whether message `i` answers the tool call of this id.
pub open spec fn answers(messages: Seq<MessageView>, i: int, id: Seq<char>) -> bool {
    exists|k: int|
        0 <= k < messages[i].content.len() && (#[trigger] messages[i].content[k] matches
            ContentView::ToolResult { tool_use_id, .. } && tool_use_id == id)
}

/// A history as runs make them: tool results come directly after the message
/// that asks for them.
pub open spec fn paired(messages: Seq<MessageView>) -> bool {
    forall|i: int, id: Seq<char>|
        0 <= i < messages.len() && #[trigger] answers(messages, i, id) ==> {
            &&& i > 0
            &&& asks(messages, i - 1, id)
        }
}

/// No tool call is parted from its result: what is kept of a history holds,
/// with each tool result, the message that asked for it.
pub proof fn law_no_pair_is_split(
    messages: Seq<MessageView>,
    keep_recent: usize,
    i: int,
    id: Seq<char>,
)
    requires
        paired(messages),
        split_of(messages, keep_recent) matches Some(split) && split <= i < messages.len(),
        answers(messages, i, id),
    ensures
        split_of(messages, keep_recent)->0 <= i - 1,
        asks(messages, i - 1, id),
{
    law_split_keeps_recent_messages(messages, keep_recent);
}

/// Whether the results of the tool calls of a message stand in the message right
/// after it.
pub open spec fn results_follow(messages: Seq<MessageView>) -> bool {
    forall|i: int, k: int, id: Seq<char>|
        0 <= i < messages.len() && 0 <= k < messages.len() && #[trigger] asks(messages, k, id)
            && #[trigger] answers(messages, i, id) ==> i == k + 1
}

/// No id stands on both sides of the cut: a call that is summarized away leaves
/// no result behind.
pub proof fn law_no_id_is_on_both_sides(
    messages: Seq<MessageView>,
    keep_recent: usize,
    k: int,
    i: int,
    id: Seq<char>,
)
    requires
        results_follow(messages),
        split_of(messages, keep_recent) matches Some(split) && 0 <= k < split <= i < messages.len(),
        asks(messages, k, id),
    ensures
        !answers(messages, i, id),
{
    law_split_keeps_recent_messages(messages, keep_recent);
}

/// The summarizer is told of just the messages that are folded away: the one
/// message that it gets is the JSON of the first `split` messages, and reading
/// that JSON gives them all back, each as it was.
pub proof fn law_summarizer_is_told_of_all_that_is_dropped(
    state: CompactionView,
    request: RequestView,
    total: nat,
    projected: nat,
)
    ensures
        state.chosen(request, total, projected) matches PlanView::Summarize { ask, split } ==> {
            &&& 0 < split < request.messages.len()
            &&& ask.messages.len() == 1
            &&& ask.messages[0].role is User
            &&& ask.messages[0].content.len() == 1
            &&& ask.tools.len() == 0
            &&& ask.tool_choice is None
            &&& ask.system == Some(
                "You compress agent conversation history. Summarize the transcript into a dense brief a coding agent can resume from: user goals, decisions made, files/entities touched with their current state, tool call outcomes, and unresolved threads. No preamble."@,
            )
            &&& exists|transcript: JsonView|
                {
                    &&& ask.messages[0].content[0] == (ContentView::Text {
                        text: #[trigger] json_pretty(transcript),
                    })
                    &&& history_of(transcript) == Some(request.messages.take(split))
                }
        },
{
    if let PlanView::Summarize { ask, split } = state.chosen(request, total, projected) {
        law_split_keeps_recent_messages(request.messages, state.keep_recent);
        let transcript = history_json(request.messages.take(split));
        law_histories_come_back(request.messages.take(split));
        assert(ask.messages[0].content[0] == (ContentView::Text { text: json_pretty(transcript) }));
    }
}

/// Once the summary has come, every message of the conversation is in what is
/// sent or was in what was summarized: none is lost, and none is sent twice.
pub proof fn law_no_message_is_lost(
    state: CompactionView,
    request: RequestView,
    total: nat,
    projected: nat,
    response: ResponseView,
    split: usize,
)
    requires
        state.chosen(request, total, projected) matches PlanView::Summarize { split: s, .. } && s
            == split,
    ensures
        ({
            let ask = state.chosen(request, total, projected)->ask;
            let (next, sent) = state.summarized(request, split, Ok(response));
            &&& exists|transcript: JsonView|
                {
                    &&& ask.messages[0].content[0] == (ContentView::Text {
                        text: #[trigger] json_pretty(transcript),
                    })
                    &&& history_of(transcript) is Some
                    &&& history_of(transcript)->0 + sent.messages.skip(1) == request.messages
                }
            &&& next.cache == Some((split, text_of(response.message.content)))
            &&& next.budget_tokens == state.budget_tokens
            &&& next.keep_recent == state.keep_recent
        }),
{
    law_summarizer_is_told_of_all_that_is_dropped(state, request, total, projected);
    let ask = state.chosen(request, total, projected)->ask;
    let sent = state.summarized(request, split, Ok(response)).1;
    let transcript = choose|transcript: JsonView|
        {
            &&& ask.messages[0].content[0] == (ContentView::Text {
                text: #[trigger] json_pretty(transcript),
            })
            &&& history_of(transcript) == Some(request.messages.take(split as int))
        };
    assert(sent.messages.skip(1) == request.messages.skip(split as int));
    assert(request.messages.take(split as int) + request.messages.skip(split as int)
        == request.messages);
    assert(ask.messages[0].content[0] == (ContentView::Text { text: json_pretty(transcript) }));
}

/// A summary stands as a message of the user that says what it is.
pub proof fn law_summaries_say_what_they_are(text: Seq<char>)
    ensures
        summary_of(text).role is User,
        summary_of(text).content.len() == 1,
        summary_of(text).content[0] == (ContentView::Text {
            text: "[Summary of earlier conversation]\n"@ + text,
        }),
{
}

/// Whether a message is the user's and holds no tool result.
pub open spec fn is_said_by_the_user(message: MessageView) -> bool {
    message.role is User && forall|k: int|
        0 <= k < message.content.len() ==> !(#[trigger] message.content[k] is ToolResult)
}

/// The cut is as late as it may be: at the last message said by the user that
/// leaves as many messages as are to be kept, and at least one, and not at the
/// first. Where there is no such message there is no cut.
pub proof fn law_cut_is_as_late_as_it_may_be(messages: Seq<MessageView>, keep_recent: usize)
    ensures
        match split_of(messages, keep_recent) {
            Some(split) => {
                &&& 0 < split < messages.len()
                &&& messages.len() - split >= keep_recent
                &&& is_said_by_the_user(messages[split])
                &&& forall|k: int|
                    split < k < messages.len() && messages.len() - k >= keep_recent
                        ==> !is_said_by_the_user(#[trigger] messages[k])
            },
            None => forall|k: int|
                0 < k < messages.len() && messages.len() - k >= keep_recent
                    ==> !is_said_by_the_user(#[trigger] messages[k]),
        },
{
    lemma_last_cut(messages, messages.len() - kept_at_least(keep_recent));
}

/// Above the budget a conversation that can be cut is always compacted: with the
/// cached summary where that covers no more than is to be cut and fits, and else
/// with a new one. Within the budget nothing is done.
pub proof fn law_long_conversations_are_compacted(
    state: CompactionView,
    request: RequestView,
    total: nat,
    projected: nat,
)
    ensures
        total <= state.budget_tokens ==> state.chosen(request, total, projected) == PlanView::Send(
            request,
        ),
        total > state.budget_tokens ==> (split_of(request.messages, state.keep_recent) matches Some(
            split,
        ) ==> {
            let fits = state.cache is Some && {
                let (covered, text) = state.cache->0;
                0 < covered <= split && projected <= state.budget_tokens
            };
            let plan = state.chosen(request, total, projected);
            &&& fits ==> (plan matches PlanView::Send(sent) && {
                let (covered, text) = state.cache->0;
                &&& sent.messages.len() == request.messages.len() - covered + 1
                &&& sent.messages[0] == summary_of(text)
                &&& sent.messages.skip(1) == request.messages.skip(covered as int)
                &&& sent.system == request.system
                &&& sent.tools == request.tools
                &&& sent.tool_choice == request.tool_choice
                &&& sent.max_tokens == request.max_tokens
                &&& sent.temperature == request.temperature
            })
            &&& !fits ==> (plan matches PlanView::Summarize { split: at, .. } && at == split)
        }),
{
    if total > state.budget_tokens {
        if let Some(split) = split_of(request.messages, state.keep_recent) {
            law_split_keeps_recent_messages(request.messages, state.keep_recent);
            if state.serves(split, projected) {
                let (covered, text) = state.cache->0;
                let sent = compacted(request, text, covered as int);
                assert(sent.messages.skip(1) == request.messages.skip(covered as int));
            }
        }
    }
}

/// What is planned goes by the estimate of the whole conversation, and by that of
/// the cached summary with the messages that it does not cover.
pub proof fn law_plans_go_by_the_estimate(state: CompactionView, request: RequestView)
    ensures
        state.planned(request) == state.chosen(
            request,
            estimate(request.messages),
            state.projected(request.messages),
        ),
        state.cache matches Some((covered, text)) ==> (covered <= request.messages.len()
            ==> state.projected(request.messages) == estimate(
            seq![summary_of(text)] + request.messages.skip(covered as int),
        )),
{
    if let Some((covered, text)) = state.cache {
        if covered <= request.messages.len() {
            law_estimates_add_up(seq![summary_of(text)], request.messages.skip(covered as int));
        }
    }
}

/// The estimates of two conversations add up.
pub proof fn law_estimates_add_up(a: Seq<MessageView>, b: Seq<MessageView>)
    ensures
        estimate(a + b) == estimate(a) + estimate(b),
    decreases b.len(),
{
    if b.len() == 0 {
        assert(a + b == a);
    } else {
        assert((a + b).drop_last() == a + b.drop_last());
        law_estimates_add_up(a, b.drop_last());
    }
}

/// A message counts a quarter of the bytes of its JSON, rounded down.
pub proof fn law_messages_count_a_quarter_of_their_bytes(message: MessageView)
    ensures
        ({
            let bytes = encode_utf8(json_text(message_json(message))).len();
            4 * estimate(seq![message]) <= bytes < 4 * estimate(seq![message]) + 4
        }),
{
    reveal_with_fuel(estimate, 2);
    assert(seq![message].drop_last() == Seq::<MessageView>::empty());
}

/// Compaction starts with the budget it is given, without a summary and with
/// eight recent messages to keep, or as many as are asked for.
pub proof fn law_compaction_starts_without_a_summary(budget_tokens: usize, n: usize)
    ensures
        CompactionView::fresh(budget_tokens).budget_tokens == budget_tokens,
        CompactionView::fresh(budget_tokens).keep_recent == 8,
        CompactionView::fresh(budget_tokens).cache is None,
        CompactionView::fresh(budget_tokens).keeping(n).keep_recent == n,
        CompactionView::fresh(budget_tokens).keeping(n).budget_tokens == budget_tokens,
        CompactionView::fresh(budget_tokens).keeping(n).cache is None,
{
}

}
