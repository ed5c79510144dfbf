//! How an agent is configured.

use core::time::Duration;

use vstd::arithmetic::power2::pow2;
use vstd::prelude::*;

use crate::duplicate::{copy_all, copy_option, lemma_pushed, Duplicate};
use crate::json::{Json, JsonView};
use crate::model::{ToolSpec, ToolSpecView};
use crate::text::same;

verus! {

/// How long a `Duration` lasts, in nanoseconds.
pub uninterp spec fn duration_nanos(duration: Duration) -> nat;

/// The longest `Duration`, in nanoseconds: a second short of 2^64 seconds, and
/// all but one nanosecond of that second.
pub open spec fn max_nanos() -> nat {
    18446744073709551615999999999
}

/// `Duration::from_millis`: a span of so many milliseconds.
#[verifier::external_body]
fn millis(n: u64) -> (r: Duration)
    ensures
        duration_nanos(r) == n as nat * 1000000,
{
    Duration::from_millis(n)
}

/// `Duration::checked_mul`: the span so many times over, and nothing where that
/// is longer than the longest span.
#[verifier::external_body]
fn times(duration: &Duration, factor: u32) -> (r: Option<Duration>)
    ensures
        r is None <==> duration_nanos(*duration) * factor as nat > max_nanos(),
        r matches Some(product) ==> duration_nanos(product) == duration_nanos(*duration)
            * factor as nat,
{
    duration.checked_mul(factor)
}

/// Retry behavior for transient model failures (rate limits, 5xx, transport).
/// A call is only retried while nothing of it has been streamed to the
/// consumer yet, so the UI never sees duplicated output.
#[derive(Debug)]
pub struct RetryPolicy {
    pub max_attempts: u32,
    pub base_delay: Duration,
}

/// What a retry policy says.
#[verifier::ext_equal]
pub struct RetryPolicyView {
    pub max_attempts: u32,
    pub base_nanos: nat,
}

impl View for RetryPolicy {
    type V = RetryPolicyView;

    open spec fn view(&self) -> RetryPolicyView {
        RetryPolicyView {
            max_attempts: self.max_attempts,
            base_nanos: duration_nanos(self.base_delay),
        }
    }
}

impl Clone for RetryPolicy {
    fn clone(&self) -> (r: RetryPolicy)
        ensures
            r@ == self@,
    {
        RetryPolicy { max_attempts: self.max_attempts, base_delay: self.base_delay }
    }
}

impl Default for RetryPolicy {
    fn default() -> (r: RetryPolicy)
        ensures
            r@ == RetryPolicyView::usual(),
    {
        RetryPolicy { max_attempts: 3, base_delay: millis(500) }
    }
}

/// 2 to the power of `n`, or the largest number of 32 bits where that is less.
pub open spec fn doubled(n: nat) -> nat {
    if n < 32 {
        pow2(n)
    } else {
        u32::MAX as nat
    }
}

fn double(n: u32) -> (r: u32)
    ensures
        r == doubled(n as nat),
{
    if n >= 32 {
        return u32::MAX;
    }
    let mut i: u32 = 0;
    let mut r: u32 = 1;
    proof {
        vstd::arithmetic::power2::lemma2_to64();
    }
    while i < n
        invariant
            i <= n < 32,
            r == pow2(i as nat),
        decreases n - i,
    {
        proof {
            vstd::arithmetic::power2::lemma_pow2_unfold((i + 1) as nat);
            vstd::arithmetic::power2::lemma2_to64();
            if i < 30 {
                vstd::arithmetic::power2::lemma_pow2_strictly_increases(i as nat, 30);
            }
        }
        r = r * 2;
        i = i + 1;
    }
    r
}

impl RetryPolicyView {
    /// Three attempts, half a second apart and then a second.
    pub open spec fn usual() -> RetryPolicyView {
        RetryPolicyView { max_attempts: 3, base_nanos: 500000000 }
    }

    /// How long to wait after a failed attempt, in nanoseconds: the base delay,
    /// doubled with each attempt.
    pub open spec fn delay(self, attempt: u32) -> nat {
        self.base_nanos * doubled((attempt - 1) as nat)
    }
}

impl RetryPolicy {
    /// How long to wait after a failed attempt, and nothing where that is more
    /// than the longest span.
    pub fn delay(&self, attempt: u32) -> (r: Option<Duration>)
        requires
            attempt > 0,
        ensures
            r is None <==> self@.delay(attempt) > max_nanos(),
            r matches Some(delay) ==> duration_nanos(delay) == self@.delay(attempt),
    {
        times(&self.base_delay, double(attempt - 1))
    }
}

/// The wait doubles with each attempt for as long as the factor has room.
pub proof fn law_delay_doubles(policy: RetryPolicyView, attempt: u32)
    requires
        1 <= attempt < 32,
    ensures
        policy.delay(1) == policy.base_nanos,
        policy.delay((attempt + 1) as u32) == 2 * policy.delay(attempt),
{
    vstd::arithmetic::power2::lemma2_to64();
    vstd::arithmetic::power2::lemma_pow2_unfold(attempt as nat);
    let base = policy.base_nanos;
    let factor = pow2((attempt - 1) as nat);
    assert(base * (2 * factor) == 2 * (base * factor)) by (nonlinear_arith);
    assert(base * 1 == base) by (nonlinear_arith);
}

/// A tool as the agent knows it.
#[derive(Debug)]
pub struct ToolEntry {
    pub advertised: ToolSpec,
    pub needs_approval: bool,
}

/// What is known of a tool.
#[verifier::ext_equal]
pub struct ToolEntryView {
    pub advertised: ToolSpecView,
    pub needs_approval: bool,
}

impl View for ToolEntry {
    type V = ToolEntryView;

    open spec fn view(&self) -> ToolEntryView {
        ToolEntryView { advertised: self.advertised@, needs_approval: self.needs_approval }
    }
}

impl DeepView for ToolEntry {
    type V = ToolEntryView;

    open spec fn deep_view(&self) -> ToolEntryView {
        self@
    }
}

impl Duplicate for ToolEntry {
    fn duplicate(&self) -> (r: ToolEntry) {
        ToolEntry { advertised: self.advertised.clone(), needs_approval: self.needs_approval }
    }
}

/// The first tool of that name, from `from` on.
pub open spec fn found_from(tools: Seq<ToolEntryView>, name: Seq<char>, from: int) -> Option<int>
    decreases tools.len() - from,
{
    if from >= tools.len() {
        None
    } else if tools[from].advertised.name == name {
        Some(from)
    } else {
        found_from(tools, name, from + 1)
    }
}

/// Whether calls of the tool of that name wait for approval. An unknown tool's
/// do not.
pub open spec fn is_gated(tools: Seq<ToolEntryView>, name: Seq<char>) -> bool {
    match found_from(tools, name, 0) {
        Some(i) => tools[i].needs_approval,
        None => false,
    }
}

/// The first tool of that name.
pub fn find_tool(tools: &Vec<ToolEntry>, name: &str) -> (r: Option<usize>)
    ensures
        match r {
            Some(i) => found_from(tools.deep_view(), name@, 0) == Some(i as int) && i
                < tools@.len(),
            None => found_from(tools.deep_view(), name@, 0) is None,
        },
{
    let mut i: usize = 0;
    while i < tools.len()
        invariant
            i <= tools@.len(),
            found_from(tools.deep_view(), name@, 0) == found_from(
                tools.deep_view(),
                name@,
                i as int,
            ),
        decreases tools@.len() - i,
    {
        if same(tools[i].advertised.name.as_str(), name) {
            return Some(i);
        }
        i = i + 1;
    }
    None
}

/// Whether calls of the tool of that name wait for approval.
pub fn needs_approval(tools: &Vec<ToolEntry>, name: &str) -> (r: bool)
    ensures
        r == is_gated(tools.deep_view(), name@),
{
    match find_tool(tools, name) {
        Some(i) => tools[i].needs_approval,
        None => false,
    }
}

/// The first tool of a name is the first: none before it has the name.
pub proof fn law_first_tool_wins(tools: Seq<ToolEntryView>, name: Seq<char>, from: int)
    requires
        0 <= from,
    ensures
        match found_from(tools, name, from) {
            Some(i) => {
                &&& from <= i < tools.len()
                &&& tools[i].advertised.name == name
                &&& forall|k: int| from <= k < i ==> (#[trigger] tools[k]).advertised.name != name
            },
            None => forall|k: int|
                from <= k < tools.len() ==> (#[trigger] tools[k]).advertised.name != name,
        },
    decreases tools.len() - from,
{
    if from < tools.len() && tools[from].advertised.name != name {
        law_first_tool_wins(tools, name, from + 1);
    }
}

/// The configuration of an agent: system prompt, tools, limits. It holds no
/// per-conversation state. Conversation history lives with the caller
/// (`Agent::run`, `RunResult::messages`) or, for durable sessions, with a
/// checkpointer (`Agent::run_session`).
#[derive(Debug)]
pub struct Agent {
    pub system: Option<String>,
    pub tools: Vec<ToolEntry>,
    /// Whether there is a store for durable sessions.
    pub has_checkpointer: bool,
    pub max_turns: u32,
    pub max_tokens: u32,
    /// The sampling temperature as it goes over the wire.
    pub temperature: Option<Json>,
    pub retry: RetryPolicy,
}

/// What a configuration says.
#[verifier::ext_equal]
pub struct AgentView {
    pub system: Option<Seq<char>>,
    pub tools: Seq<ToolEntryView>,
    pub has_checkpointer: bool,
    pub max_turns: u32,
    pub max_tokens: u32,
    pub temperature: Option<JsonView>,
    pub retry: RetryPolicyView,
}

impl View for Agent {
    type V = AgentView;

    open spec fn view(&self) -> AgentView {
        AgentView {
            system: self.system.deep_view(),
            tools: self.tools.deep_view(),
            has_checkpointer: self.has_checkpointer,
            max_turns: self.max_turns,
            max_tokens: self.max_tokens,
            temperature: self.temperature.deep_view(),
            retry: self.retry@,
        }
    }
}

impl Clone for Agent {
    fn clone(&self) -> (r: Agent)
        ensures
            r@ == self@,
    {
        Agent {
            system: copy_option(&self.system),
            tools: copy_all(&self.tools),
            has_checkpointer: self.has_checkpointer,
            max_turns: self.max_turns,
            max_tokens: self.max_tokens,
            temperature: copy_option(&self.temperature),
            retry: self.retry.clone(),
        }
    }
}

impl AgentView {
    /// The configuration that a builder starts from.
    pub open spec fn usual() -> AgentView {
        AgentView {
            system: None,
            tools: Seq::empty(),
            has_checkpointer: false,
            max_turns: 50,
            max_tokens: 0,
            temperature: None,
            retry: RetryPolicyView::usual(),
        }
    }

    /// With this system prompt.
    pub open spec fn with_system(self, system: Seq<char>) -> AgentView {
        AgentView { system: Some(system), ..self }
    }

    /// With more tools.
    pub open spec fn with_tools(self, tools: Seq<ToolEntryView>) -> AgentView {
        AgentView { tools: self.tools + tools, ..self }
    }

    /// With one more tool.
    pub open spec fn with_tool(self, tool: ToolEntryView) -> AgentView {
        AgentView { tools: self.tools.push(tool), ..self }
    }

    /// With a store for durable sessions.
    pub open spec fn with_checkpointer(self) -> AgentView {
        AgentView { has_checkpointer: true, ..self }
    }

    /// With this cap on model calls.
    pub open spec fn with_max_turns(self, n: u32) -> AgentView {
        AgentView { max_turns: n, ..self }
    }

    /// With this limit on generated tokens.
    pub open spec fn with_max_tokens(self, n: u32) -> AgentView {
        AgentView { max_tokens: n, ..self }
    }

    /// With this temperature.
    pub open spec fn with_temperature(self, temperature: JsonView) -> AgentView {
        AgentView { temperature: Some(temperature), ..self }
    }

    /// With this retry behavior.
    pub open spec fn with_retry(self, retry: RetryPolicyView) -> AgentView {
        AgentView { retry, ..self }
    }

    /// The tools as advertised to the model.
    pub open spec fn specs(self) -> Seq<ToolSpecView> {
        self.tools.map_values(|t: ToolEntryView| t.advertised)
    }
}

impl Agent {
    /// A builder with the usual settings.
    pub fn builder() -> (r: AgentBuilder)
        ensures
            r@ == AgentView::usual(),
            !r.has_model(),
    {
        AgentBuilder::default()
    }

    /// The tools as advertised to the model.
    pub fn specs(&self) -> (r: Vec<ToolSpec>)
        ensures
            r.deep_view() == self@.specs(),
    {
        let mut out: Vec<ToolSpec> = Vec::new();
        let mut i: usize = 0;
        while i < self.tools.len()
            invariant
                i <= self.tools@.len(),
                out.deep_view() == self@.specs().take(i as int),
            decreases self.tools@.len() - i,
        {
            let spec = self.tools[i].advertised.clone();
            let ghost before = out;
            out.push(spec);
            i = i + 1;
            proof {
                lemma_pushed(before, out, spec);
            }
            assert(out.deep_view() == self@.specs().take(i as int));
        }
        assert(self@.specs().take(i as int) == self@.specs());
        out
    }
}

/// Puts a configuration together.
pub struct AgentBuilder {
    agent: Agent,
    model: bool,
}

impl View for AgentBuilder {
    type V = AgentView;

    closed spec fn view(&self) -> AgentView {
        self.agent@
    }
}

impl Default for AgentBuilder {
    fn default() -> (r: AgentBuilder)
        ensures
            r@ == AgentView::usual(),
            !r.has_model(),
    {
        AgentBuilder {
            agent: Agent {
                system: None,
                tools: Vec::new(),
                has_checkpointer: false,
                max_turns: 50,
                max_tokens: 0,
                temperature: None,
                retry: RetryPolicy::default(),
            },
            model: false,
        }
    }
}

impl AgentBuilder {
    /// Whether there is a model to call.
    pub closed spec fn has_model(self) -> bool {
        self.model
    }

    /// There is a model to call.
    pub fn model(self) -> (r: AgentBuilder)
        ensures
            r@ == self@,
            r.has_model(),
    {
        AgentBuilder { agent: self.agent, model: true }
    }

    /// The system prompt.
    pub fn system(self, system: String) -> (r: AgentBuilder)
        ensures
            r@ == (AgentView { system: Some(system@), ..self@ }),
            r@ == self@.with_system(system@),
            r.has_model() == self.has_model(),
    {
        let mut r = self;
        r.agent.system = Some(system);
        r
    }

    /// More tools.
    pub fn tools(self, tools: Vec<ToolEntry>) -> (r: AgentBuilder)
        ensures
            r@ == (AgentView { tools: self@.tools + tools.deep_view(), ..self@ }),
            r@ == self@.with_tools(tools.deep_view()),
            r.has_model() == self.has_model(),
    {
        let mut r = self;
        let mut tools = tools;
        let ghost before = r.agent.tools.deep_view();
        let ghost more = tools.deep_view();
        r.agent.tools.append(&mut tools);
        assert(r.agent.tools.deep_view() == before + more);
        r
    }

    /// One more tool.
    pub fn tool(self, tool: ToolEntry) -> (r: AgentBuilder)
        ensures
            r@ == (AgentView { tools: self@.tools.push(tool@), ..self@ }),
            r@ == self@.with_tool(tool@),
            r.has_model() == self.has_model(),
    {
        let mut r = self;
        let ghost before = r.agent.tools;
        r.agent.tools.push(tool);
        proof {
            lemma_pushed(before, r.agent.tools, tool);
        }
        r
    }

    /// There is durable session storage, which enables `Agent::run_session`.
    pub fn checkpointer(self) -> (r: AgentBuilder)
        ensures
            r@ == (AgentView { has_checkpointer: true, ..self@ }),
            r@ == self@.with_checkpointer(),
            r.has_model() == self.has_model(),
    {
        let mut r = self;
        r.agent.has_checkpointer = true;
        r
    }

    /// Safety cap on model calls per run (default 50).
    pub fn max_turns(self, n: u32) -> (r: AgentBuilder)
        ensures
            r@ == (AgentView { max_turns: n, ..self@ }),
            r@ == self@.with_max_turns(n),
            r.has_model() == self.has_model(),
    {
        let mut r = self;
        r.agent.max_turns = n;
        r
    }

    /// Max generated tokens per model call (0 = provider default).
    pub fn max_tokens(self, n: u32) -> (r: AgentBuilder)
        ensures
            r@ == (AgentView { max_tokens: n, ..self@ }),
            r@ == self@.with_max_tokens(n),
            r.has_model() == self.has_model(),
    {
        let mut r = self;
        r.agent.max_tokens = n;
        r
    }

    /// The sampling temperature as it goes over the wire.
    pub fn temperature(self, t: Json) -> (r: AgentBuilder)
        ensures
            r@ == (AgentView { temperature: Some(t@), ..self@ }),
            r@ == self@.with_temperature(t@),
            r.has_model() == self.has_model(),
    {
        let mut r = self;
        r.agent.temperature = Some(t);
        r
    }

    /// Retry behavior.
    pub fn retry(self, policy: RetryPolicy) -> (r: AgentBuilder)
        ensures
            r@ == (AgentView { retry: policy@, ..self@ }),
            r@ == self@.with_retry(policy@),
            r.has_model() == self.has_model(),
    {
        let mut r = self;
        r.agent.retry = policy;
        r
    }

    /// The configuration. There must be a model to call.
    pub fn build(self) -> (r: Agent)
        requires
            self.has_model(),
        ensures
            r@ == self@,
    {
        self.agent
    }

    /// Whether [`AgentBuilder::build`] may be called.
    pub fn is_complete(&self) -> (r: bool)
        ensures
            r == self.has_model(),
    {
        self.model
    }
}

/// Calls of a name wait for approval just where the first tool of that name asks
/// for it; other tools of the name, and unknown names, do not matter.
pub proof fn law_gate_is_that_of_the_first_tool(tools: Seq<ToolEntryView>, name: Seq<char>)
    ensures
        is_gated(tools, name) <==> exists|k: int|
            0 <= k < tools.len() && (#[trigger] tools[k]).advertised.name == name
                && tools[k].needs_approval && (forall|m: int|
                0 <= m < k ==> (#[trigger] tools[m]).advertised.name != name),
{
    law_first_tool_wins(tools, name, 0);
    if let Some(i) = found_from(tools, name, 0) {
        assert(tools[i].advertised.name == name);
    }
}

/// The model is shown every tool, in the order of the tools and as each
/// describes itself.
pub proof fn law_every_tool_is_advertised(agent: AgentView, i: int)
    requires
        0 <= i < agent.tools.len(),
    ensures
        agent.specs().len() == agent.tools.len(),
        agent.specs()[i] == agent.tools[i].advertised,
{
}

/// What holds of an agent that nothing was said of: no prompt, no tools, no
/// store, a cap of fifty model calls, the provider's own limits, and three
/// attempts with half a second before the second.
pub proof fn law_usual_settings()
    ensures
        AgentView::usual().system is None,
        AgentView::usual().tools.len() == 0,
        !AgentView::usual().has_checkpointer,
        AgentView::usual().max_turns == 50,
        AgentView::usual().max_tokens == 0,
        AgentView::usual().temperature is None,
        AgentView::usual().retry.max_attempts == 3,
        AgentView::usual().retry.base_nanos == 500_000_000,
{
}

/// The wait grows with the base delay, never shrinks from one attempt to the
/// next, and stays the same once the factor is at its largest.
pub proof fn law_delay_never_shrinks(policy: RetryPolicyView, attempt: u32)
    requires
        1 <= attempt < u32::MAX,
    ensures
        policy.delay(attempt) <= policy.delay((attempt + 1) as u32),
        attempt > 32 ==> policy.delay(attempt) == policy.base_nanos * 0xffffffff,
{
    vstd::arithmetic::power2::lemma2_to64();
    let base = policy.base_nanos;
    let n = (attempt - 1) as nat;
    if attempt < 32 {
        law_delay_doubles(policy, attempt);
    } else if attempt == 32 {
        assert(pow2(31) == 0x80000000);
        assert(base * 0x80000000 <= base * 0xffffffff) by (nonlinear_arith)
            requires
                base >= 0,
        ;
    }
}

/// Tools are added behind those that are there, all of them and in their order,
/// and nothing else changes; one by one or together is the same.
pub proof fn law_tools_are_added_behind(
    agent: AgentView,
    a: Seq<ToolEntryView>,
    b: Seq<ToolEntryView>,
    tool: ToolEntryView,
)
    ensures
        ({
            let after = agent.with_tools(a);
            &&& after.tools.len() == agent.tools.len() + a.len()
            &&& after.tools.take(agent.tools.len() as int) == agent.tools
            &&& after.tools.skip(agent.tools.len() as int) == a
            &&& after.system == agent.system
            &&& after.has_checkpointer == agent.has_checkpointer
            &&& after.max_turns == agent.max_turns
            &&& after.max_tokens == agent.max_tokens
            &&& after.temperature == agent.temperature
            &&& after.retry == agent.retry
        }),
        agent.with_tools(a).with_tools(b) == agent.with_tools(a + b),
        agent.with_tool(tool) == agent.with_tools(seq![tool]),
{
    let after = agent.with_tools(a);
    assert(after.tools.take(agent.tools.len() as int) == agent.tools);
    assert(after.tools.skip(agent.tools.len() as int) == a);
    assert(agent.tools + a + b == agent.tools + (a + b));
    assert(agent.tools.push(tool) == agent.tools + seq![tool]);
}

/// What is set is what the agent has, the last setting counts, and each setting
/// leaves the others alone.
pub proof fn law_settings_are_kept_apart(
    agent: AgentView,
    system: Seq<char>,
    n: u32,
    m: u32,
    temperature: JsonView,
    retry: RetryPolicyView,
)
    ensures
        ({
            let all = agent.with_system(system).with_checkpointer().with_max_turns(
                n,
            ).with_max_tokens(m).with_temperature(temperature).with_retry(retry);
            &&& all.system == Some(system)
            &&& all.has_checkpointer
            &&& all.max_turns == n
            &&& all.max_tokens == m
            &&& all.temperature == Some(temperature)
            &&& all.retry == retry
            &&& all.tools == agent.tools
            &&& all == agent.with_retry(retry).with_temperature(temperature).with_max_tokens(
                m,
            ).with_max_turns(n).with_checkpointer().with_system(system)
            &&& all.with_max_turns(m).max_turns == m
            &&& all.with_max_tokens(n).max_tokens == n
        }),
        agent.with_system(system) == (AgentView { system: Some(system), ..agent }),
        agent.with_checkpointer() == (AgentView { has_checkpointer: true, ..agent }),
        agent.with_max_turns(n) == (AgentView { max_turns: n, ..agent }),
        agent.with_max_tokens(m) == (AgentView { max_tokens: m, ..agent }),
        agent.with_temperature(temperature) == (AgentView {
            temperature: Some(temperature),
            ..agent
        }),
        agent.with_retry(retry) == (AgentView { retry, ..agent }),
{
}

}
