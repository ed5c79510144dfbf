//! Model calls: what is asked of a model and what comes back.

use vstd::prelude::*;

use crate::duplicate::{copy_all, copy_option, Duplicate};
use crate::error::{ModelError, ModelErrorView};
use crate::json::{Json, JsonView};
use crate::message::{Message, MessageView};

verus! {

/// A tool as advertised to the model: name, human description, JSON Schema
/// for its input. Providers bring it into their wire format.
#[derive(Debug, PartialEq)]
pub struct ToolSpec {
    pub name: String,
    pub description: String,
    pub input_schema: Json,
}

/// What an advertised tool says.
#[verifier::ext_equal]
pub struct ToolSpecView {
    pub name: Seq<char>,
    pub description: Seq<char>,
    pub input_schema: JsonView,
}

impl View for ToolSpec {
    type V = ToolSpecView;

    open spec fn view(&self) -> ToolSpecView {
        ToolSpecView {
            name: self.name@,
            description: self.description@,
            input_schema: self.input_schema@,
        }
    }
}

impl DeepView for ToolSpec {
    type V = ToolSpecView;

    open spec fn deep_view(&self) -> ToolSpecView {
        self@
    }
}

impl Clone for ToolSpec {
    fn clone(&self) -> (r: ToolSpec)
        ensures
            r@ == self@,
    {
        ToolSpec {
            name: self.name.clone(),
            description: self.description.clone(),
            input_schema: self.input_schema.clone(),
        }
    }
}

impl Duplicate for ToolSpec {
    fn duplicate(&self) -> (r: ToolSpec) {
        self.clone()
    }
}

/// How the model is allowed to use the advertised tools.
#[derive(Debug, PartialEq, Eq)]
pub enum ToolChoice {
    /// Model decides freely (the default when unset).
    Auto,
    /// Model must call some tool.
    Any,
    /// Model must call this specific tool.
    Tool(String),
}

/// What a tool choice says.
#[verifier::ext_equal]
pub enum ToolChoiceView {
    Auto,
    Any,
    Tool(Seq<char>),
}

impl View for ToolChoice {
    type V = ToolChoiceView;

    open spec fn view(&self) -> ToolChoiceView {
        match *self {
            ToolChoice::Auto => ToolChoiceView::Auto,
            ToolChoice::Any => ToolChoiceView::Any,
            ToolChoice::Tool(name) => ToolChoiceView::Tool(name@),
        }
    }
}

impl DeepView for ToolChoice {
    type V = ToolChoiceView;

    open spec fn deep_view(&self) -> ToolChoiceView {
        self@
    }
}

impl Clone for ToolChoice {
    fn clone(&self) -> (r: ToolChoice)
        ensures
            r@ == self@,
    {
        match self {
            ToolChoice::Auto => ToolChoice::Auto,
            ToolChoice::Any => ToolChoice::Any,
            ToolChoice::Tool(name) => ToolChoice::Tool(name.clone()),
        }
    }
}

impl Duplicate for ToolChoice {
    fn duplicate(&self) -> (r: ToolChoice) {
        self.clone()
    }
}

/// One model invocation. There is no session state hidden in the provider:
/// the full conversation travels in `messages` every call, which is what
/// makes runs resumable and providers stateless.
#[derive(Debug, PartialEq)]
pub struct Request {
    pub system: Option<String>,
    pub messages: Vec<Message>,
    pub tools: Vec<ToolSpec>,
    pub tool_choice: Option<ToolChoice>,
    /// Upper bound on generated tokens. Providers apply their own default if 0.
    pub max_tokens: u32,
    /// The sampling temperature as it goes over the wire.
    pub temperature: Option<Json>,
    /// The nucleus sampling bound as it goes over the wire.
    pub top_p: Option<Json>,
    pub stop_sequences: Vec<String>,
}

/// What a request says.
#[verifier::ext_equal]
pub struct RequestView {
    pub system: Option<Seq<char>>,
    pub messages: Seq<MessageView>,
    pub tools: Seq<ToolSpecView>,
    pub tool_choice: Option<ToolChoiceView>,
    pub max_tokens: u32,
    pub temperature: Option<JsonView>,
    pub top_p: Option<JsonView>,
    pub stop_sequences: Seq<Seq<char>>,
}

impl View for Request {
    type V = RequestView;

    open spec fn view(&self) -> RequestView {
        RequestView {
            system: self.system.deep_view(),
            messages: self.messages.deep_view(),
            tools: self.tools.deep_view(),
            tool_choice: self.tool_choice.deep_view(),
            max_tokens: self.max_tokens,
            temperature: self.temperature.deep_view(),
            top_p: self.top_p.deep_view(),
            stop_sequences: self.stop_sequences.deep_view(),
        }
    }
}

impl DeepView for Request {
    type V = RequestView;

    open spec fn deep_view(&self) -> RequestView {
        self@
    }
}

impl RequestView {
    /// The request that asks for nothing.
    pub open spec fn blank() -> RequestView {
        RequestView {
            system: None,
            messages: Seq::empty(),
            tools: Seq::empty(),
            tool_choice: None,
            max_tokens: 0,
            temperature: None,
            top_p: None,
            stop_sequences: Seq::empty(),
        }
    }
}

impl Default for Request {
    fn default() -> (r: Request)
        ensures
            r@ == RequestView::blank(),
    {
        Request {
            system: None,
            messages: Vec::new(),
            tools: Vec::new(),
            tool_choice: None,
            max_tokens: 0,
            temperature: None,
            top_p: None,
            stop_sequences: Vec::new(),
        }
    }
}

impl Clone for Request {
    fn clone(&self) -> (r: Request)
        ensures
            r@ == self@,
    {
        Request {
            system: copy_option(&self.system),
            messages: copy_all(&self.messages),
            tools: copy_all(&self.tools),
            tool_choice: copy_option(&self.tool_choice),
            max_tokens: self.max_tokens,
            temperature: copy_option(&self.temperature),
            top_p: copy_option(&self.top_p),
            stop_sequences: copy_all(&self.stop_sequences),
        }
    }
}

/// Why the model stopped.
#[derive(Debug, PartialEq, Eq)]
pub enum StopReason {
    EndTurn,
    ToolUse,
    MaxTokens,
    StopSequence,
    Other(String),
}

/// What a stop reason says.
#[verifier::ext_equal]
pub enum StopReasonView {
    EndTurn,
    ToolUse,
    MaxTokens,
    StopSequence,
    Other(Seq<char>),
}

impl View for StopReason {
    type V = StopReasonView;

    open spec fn view(&self) -> StopReasonView {
        match *self {
            StopReason::EndTurn => StopReasonView::EndTurn,
            StopReason::ToolUse => StopReasonView::ToolUse,
            StopReason::MaxTokens => StopReasonView::MaxTokens,
            StopReason::StopSequence => StopReasonView::StopSequence,
            StopReason::Other(words) => StopReasonView::Other(words@),
        }
    }
}

impl DeepView for StopReason {
    type V = StopReasonView;

    open spec fn deep_view(&self) -> StopReasonView {
        self@
    }
}

impl Clone for StopReason {
    fn clone(&self) -> (r: StopReason)
        ensures
            r@ == self@,
    {
        match self {
            StopReason::EndTurn => StopReason::EndTurn,
            StopReason::ToolUse => StopReason::ToolUse,
            StopReason::MaxTokens => StopReason::MaxTokens,
            StopReason::StopSequence => StopReason::StopSequence,
            StopReason::Other(words) => StopReason::Other(words.clone()),
        }
    }
}

/// Tokens read and written.
#[derive(Debug, Clone, Copy, PartialEq, Eq, Structural)]
pub struct Usage {
    pub input_tokens: u64,
    pub output_tokens: u64,
}

impl DeepView for Usage {
    type V = Usage;

    open spec fn deep_view(&self) -> Usage {
        *self
    }
}

impl Default for Usage {
    fn default() -> (r: Usage)
        ensures
            r == Usage::zero(),
    {
        Usage { input_tokens: 0, output_tokens: 0 }
    }
}

impl Usage {
    /// Nothing read or written.
    pub open spec fn zero() -> Usage {
        Usage { input_tokens: 0, output_tokens: 0 }
    }

    /// Whether the sums fit in 64 bits.
    pub open spec fn fits(self, other: Usage) -> bool {
        &&& self.input_tokens + other.input_tokens <= u64::MAX
        &&& self.output_tokens + other.output_tokens <= u64::MAX
    }

    /// The sums.
    pub open spec fn plus(self, other: Usage) -> Usage {
        Usage {
            input_tokens: (self.input_tokens + other.input_tokens) as u64,
            output_tokens: (self.output_tokens + other.output_tokens) as u64,
        }
    }

    /// Counts `other` in.
    pub fn add(&mut self, other: Usage)
        requires
            old(self).fits(other),
        ensures
            *final(self) == old(self).plus(other),
            final(self).input_tokens == old(self).input_tokens + other.input_tokens,
            final(self).output_tokens == old(self).output_tokens + other.output_tokens,
    {
        self.input_tokens = self.input_tokens + other.input_tokens;
        self.output_tokens = self.output_tokens + other.output_tokens;
    }

    /// Whether [`Usage::add`] can count `other` in.
    pub fn can_add(&self, other: Usage) -> (r: bool)
        ensures
            r == self.fits(other),
    {
        self.input_tokens <= u64::MAX - other.input_tokens && self.output_tokens <= u64::MAX
            - other.output_tokens
    }
}

/// A complete model response: the assistant message, why generation stopped,
/// and token accounting.
#[derive(Debug, PartialEq)]
pub struct Response {
    pub message: Message,
    pub stop_reason: StopReason,
    pub usage: Usage,
}

/// What a response says.
#[verifier::ext_equal]
pub struct ResponseView {
    pub message: MessageView,
    pub stop_reason: StopReasonView,
    pub usage: Usage,
}

impl View for Response {
    type V = ResponseView;

    open spec fn view(&self) -> ResponseView {
        ResponseView {
            message: self.message@,
            stop_reason: self.stop_reason@,
            usage: self.usage,
        }
    }
}

impl DeepView for Response {
    type V = ResponseView;

    open spec fn deep_view(&self) -> ResponseView {
        self@
    }
}

impl Clone for Response {
    fn clone(&self) -> (r: Response)
        ensures
            r@ == self@,
    {
        Response {
            message: self.message.clone(),
            stop_reason: self.stop_reason.clone(),
            usage: self.usage,
        }
    }
}

/// Typed streaming events. This is the whole event vocabulary: no string
/// event names, no untyped payload dictionaries.
#[derive(Debug, PartialEq)]
pub enum StreamEvent {
    TextDelta(String),
    ThinkingDelta(String),
    /// The model began emitting a tool call. Its input arrives incrementally
    /// as `InputJsonDelta` and is complete in the final [`Response`].
    ToolUseStart { id: String, name: String },
    InputJsonDelta(String),
    /// Always the final event of a successful stream: the fully assembled
    /// response, identical to what a non-streaming call would return.
    Completed(Response),
}

/// What a streaming event says.
#[verifier::ext_equal]
pub enum StreamEventView {
    TextDelta(Seq<char>),
    ThinkingDelta(Seq<char>),
    ToolUseStart { id: Seq<char>, name: Seq<char> },
    InputJsonDelta(Seq<char>),
    Completed(ResponseView),
}

impl View for StreamEvent {
    type V = StreamEventView;

    open spec fn view(&self) -> StreamEventView {
        match *self {
            StreamEvent::TextDelta(text) => StreamEventView::TextDelta(text@),
            StreamEvent::ThinkingDelta(text) => StreamEventView::ThinkingDelta(text@),
            StreamEvent::ToolUseStart { id, name } => StreamEventView::ToolUseStart {
                id: id@,
                name: name@,
            },
            StreamEvent::InputJsonDelta(text) => StreamEventView::InputJsonDelta(text@),
            StreamEvent::Completed(response) => StreamEventView::Completed(response@),
        }
    }
}

impl DeepView for StreamEvent {
    type V = StreamEventView;

    open spec fn deep_view(&self) -> StreamEventView {
        self@
    }
}

impl Clone for StreamEvent {
    fn clone(&self) -> (r: StreamEvent)
        ensures
            r@ == self@,
    {
        match self {
            StreamEvent::TextDelta(text) => StreamEvent::TextDelta(text.clone()),
            StreamEvent::ThinkingDelta(text) => StreamEvent::ThinkingDelta(text.clone()),
            StreamEvent::ToolUseStart { id, name } => StreamEvent::ToolUseStart {
                id: id.clone(),
                name: name.clone(),
            },
            StreamEvent::InputJsonDelta(text) => StreamEvent::InputJsonDelta(text.clone()),
            StreamEvent::Completed(response) => StreamEvent::Completed(response.clone()),
        }
    }
}

/// The text that an event adds to the answer.
pub open spec fn delta_text(event: StreamEventView) -> Seq<char> {
    match event {
        StreamEventView::TextDelta(text) => text,
        _ => Seq::empty(),
    }
}

/// The text that the events add to the answer, one after another.
pub open spec fn deltas_text(events: Seq<StreamEventView>) -> Seq<char>
    decreases events.len(),
{
    if events.len() == 0 {
        Seq::empty()
    } else {
        deltas_text(events.drop_last()) + delta_text(events.last())
    }
}

/// The texts of two runs of events follow each other.
pub proof fn lemma_deltas_append(a: Seq<StreamEventView>, b: Seq<StreamEventView>)
    ensures
        deltas_text(a + b) == deltas_text(a) + deltas_text(b),
    decreases b.len(),
{
    if b.len() == 0 {
        assert(a + b == a);
    } else {
        assert((a + b).drop_last() == a + b.drop_last());
        lemma_deltas_append(a, b.drop_last());
        assert(deltas_text(a + b) == deltas_text(a) + deltas_text(b));
    }
}

/// One pull from a model's stream: an event, a failure, or the end.
pub type Pull = Option<Result<StreamEventView, ModelErrorView>>;

/// A pull, by what it says.
pub open spec fn pull_view(pull: Option<Result<StreamEvent, ModelError>>) -> Pull {
    match pull {
        None => None,
        Some(Ok(event)) => Some(Ok(event@)),
        Some(Err(error)) => Some(Err(error@)),
    }
}

/// The words of a stream that ended early.
pub open spec fn ended_early() -> ModelErrorView {
    ModelErrorView::Stream("stream ended without a Completed event"@)
}

/// What a drained stream comes to at this pull, where it is over: the response,
/// or the failure.
pub open spec fn settled(pull: Pull) -> Option<Result<ResponseView, ModelErrorView>> {
    match pull {
        None => Some(Err(ended_early())),
        Some(Err(error)) => Some(Err(error)),
        Some(Ok(StreamEventView::Completed(response))) => Some(Ok(response)),
        Some(Ok(_)) => None,
    }
}

/// What a whole stream comes to: its items are pulled until one settles it.
pub open spec fn generated(items: Seq<Result<StreamEventView, ModelErrorView>>) -> Result<
    ResponseView,
    ModelErrorView,
>
    decreases items.len(),
{
    if items.len() == 0 {
        Err(ended_early())
    } else {
        match settled(Some(items[0])) {
            Some(outcome) => outcome,
            None => generated(items.drop_first()),
        }
    }
}

/// One step of draining a stream: the outcome where this pull settles it, and
/// nothing where the next pull is due.
pub fn generate_step(pull: Option<Result<StreamEvent, ModelError>>) -> (r: Option<
    Result<Response, ModelError>,
>)
    ensures
        match r {
            None => settled(pull_view(pull)) is None,
            Some(Ok(response)) => settled(pull_view(pull)) == Some(
                Ok::<ResponseView, ModelErrorView>(response@),
            ),
            Some(Err(error)) => settled(pull_view(pull)) == Some(
                Err::<ResponseView, ModelErrorView>(error@),
            ),
        },
{
    match pull {
        None => Some(
            Err(ModelError::Stream("stream ended without a Completed event".to_owned())),
        ),
        Some(Err(error)) => Some(Err(error)),
        Some(Ok(StreamEvent::Completed(response))) => Some(Ok(response)),
        Some(Ok(_)) => None,
    }
}

/// Draining a stream gives its first failure or completed response, whichever
/// comes first, and what follows it does not matter.
pub proof fn law_first_settling_item_wins(
    items: Seq<Result<StreamEventView, ModelErrorView>>,
    k: int,
)
    requires
        0 <= k < items.len(),
        settled(Some(items[k])) is Some,
        forall|i: int| 0 <= i < k ==> settled(Some(#[trigger] items[i])) is None,
    ensures
        settled(Some(items[k])) == Some(generated(items)),
    decreases k,
{
    if k > 0 {
        let rest = items.drop_first();
        assert(settled(Some(items[0])) is None);
        assert forall|i: int| 0 <= i < k - 1 implies settled(Some(#[trigger] rest[i])) is None by {
            assert(rest[i] == items[i + 1]);
        }
        law_first_settling_item_wins(rest, k - 1);
    }
}

/// A stream that neither fails nor completes ends in an error.
pub proof fn law_unsettled_stream_fails(items: Seq<Result<StreamEventView, ModelErrorView>>)
    requires
        forall|i: int| 0 <= i < items.len() ==> settled(Some(#[trigger] items[i])) is None,
    ensures
        generated(items) == Err::<ResponseView, ModelErrorView>(ended_early()),
    decreases items.len(),
{
    if items.len() > 0 {
        let rest = items.drop_first();
        assert(settled(Some(items[0])) is None);
        assert forall|i: int| 0 <= i < rest.len() implies settled(Some(#[trigger] rest[i])) is None by {
            assert(rest[i] == items[i + 1]);
        }
        law_unsettled_stream_fails(rest);
    }
}

/// Draining a stream gives the first failure or the first completed response as
/// it is, whatever pieces come before and whatever comes after.
pub proof fn law_draining_gives_the_first_outcome(
    items: Seq<Result<StreamEventView, ModelErrorView>>,
    k: int,
)
    requires
        0 <= k < items.len(),
        forall|i: int|
            0 <= i < k ==> (#[trigger] items[i] matches Ok(event) && event !is Completed),
    ensures
        items[k] matches Ok(StreamEventView::Completed(response)) ==> generated(items) == Ok::<
            ResponseView,
            ModelErrorView,
        >(response),
        items[k] matches Err(error) ==> generated(items) == Err::<ResponseView, ModelErrorView>(
            error,
        ),
{
    if items[k] is Err || items[k]->Ok_0 is Completed {
        law_first_settling_item_wins(items, k);
    }
}

/// Draining a stream of pieces alone fails: it has no response to give.
pub proof fn law_draining_needs_a_response(items: Seq<Result<StreamEventView, ModelErrorView>>)
    requires
        forall|i: int|
            0 <= i < items.len() ==> (#[trigger] items[i] matches Ok(event) && event
                !is Completed),
    ensures
        generated(items) == Err::<ResponseView, ModelErrorView>(
            ModelErrorView::Stream("stream ended without a Completed event"@),
        ),
        settled(None) == Some(generated(items)),
{
    law_unsettled_stream_fails(items);
}

/// Usage adds up, count by count, in whatever order.
pub proof fn law_usage_adds_up(a: Usage, b: Usage)
    requires
        a.input_tokens + b.input_tokens <= u64::MAX,
        a.output_tokens + b.output_tokens <= u64::MAX,
    ensures
        a.fits(b),
        a.plus(b).input_tokens == a.input_tokens + b.input_tokens,
        a.plus(b).output_tokens == a.output_tokens + b.output_tokens,
        a.plus(b) == b.plus(a),
        a.plus(Usage::zero()) == a,
{
}

/// Of the pieces of a stream only those of text add to the answer's text.
pub proof fn law_only_text_adds_to_the_answer(event: StreamEventView)
    ensures
        deltas_text(seq![event]) == (match event {
            StreamEventView::TextDelta(text) => text,
            _ => Seq::empty(),
        }),
{
    reveal_with_fuel(deltas_text, 2);
    assert(seq![event].drop_last() == Seq::<StreamEventView>::empty());
    assert(deltas_text(seq![event]) == delta_text(event));
}

/// A request that nothing was said of asks for nothing.
pub proof fn law_blank_requests_say_nothing()
    ensures
        RequestView::blank().system is None,
        RequestView::blank().messages.len() == 0,
        RequestView::blank().tools.len() == 0,
        RequestView::blank().tool_choice is None,
        RequestView::blank().max_tokens == 0,
        RequestView::blank().temperature is None,
        RequestView::blank().top_p is None,
        RequestView::blank().stop_sequences.len() == 0,
{
}

}
