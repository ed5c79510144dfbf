//! Typed structured output.
//!
//! The target type's JSON Schema is exposed as a forced tool call, and the tool
//! input is what the type is read from. If the model's output fails validation,
//! the error is fed back and the model gets a bounded number of repair attempts
//! before the call fails.

use vstd::prelude::*;
use vstd::string::StringExecFns;

use crate::duplicate::lemma_pushed;
use crate::error::{ModelError, ModelErrorView};
use crate::json::{Json, JsonView};
use crate::message::{uses_of, Content, ContentView, Message, MessageView, Role, UseView};
use crate::model::{
    Request, RequestView, Response, ToolChoice, ToolChoiceView, ToolSpec, ToolSpecView,
};
use crate::text::{concat, concat3, same};

verus! {

/// Name of the synthetic tool used to carry structured output.
pub const STRUCTURED_OUTPUT_TOOL: &'static str = "emit_structured_output";

/// How many times a schema-invalid response is sent back for repair.
pub const REPAIR_ATTEMPTS: u32 = 2;

/// The synthetic tool.
pub open spec fn output_tool(schema: JsonView) -> ToolSpecView {
    ToolSpecView {
        name: STRUCTURED_OUTPUT_TOOL@,
        description: "Emit the final answer in the required structured format. Call this exactly once with the complete answer."@,
        input_schema: schema,
    }
}

/// The first use of the synthetic tool, from `from` on.
pub open spec fn emitted_from(uses: Seq<UseView>, from: int) -> Option<UseView>
    decreases uses.len() - from,
{
    if from >= uses.len() {
        None
    } else if uses[from].1 == STRUCTURED_OUTPUT_TOOL@ {
        Some(uses[from])
    } else {
        emitted_from(uses, from + 1)
    }
}

/// What to do next.
#[verifier::ext_equal]
pub enum StructuredStepView {
    /// Read the value from this.
    Validate(JsonView),
    /// Generate once more.
    Generate(RequestView),
    /// It failed for good.
    Fail(ModelErrorView),
}

/// A call for structured output: the request as it stands, how often it has
/// been repaired, and the reply that is being validated, with the id of its
/// call.
#[verifier::ext_equal]
pub struct StructuredView {
    pub request: RequestView,
    pub attempt: u32,
    pub pending: Option<(MessageView, Seq<char>)>,
}

/// What the model is told of an output that does not fit.
pub open spec fn invalid_text(words: Seq<char>) -> Seq<char> {
    "Output failed schema validation: "@ + words + ". Call "@ + STRUCTURED_OUTPUT_TOOL@
        + " again with corrected arguments."@
}

/// What the model is told where it did not use the synthetic tool.
pub open spec fn missing_text() -> Seq<char> {
    "You must provide the final answer by calling the "@ + STRUCTURED_OUTPUT_TOOL@ + " tool."@
}

impl StructuredView {
    /// At the start. The synthetic tool is forced where it is the only one;
    /// otherwise the model may need to call other tools first.
    pub open spec fn begun(request: RequestView, schema: JsonView) -> StructuredView {
        StructuredView {
            request: RequestView {
                tool_choice: if request.tools.len() == 0 {
                    Some(ToolChoiceView::Tool(STRUCTURED_OUTPUT_TOOL@))
                } else {
                    request.tool_choice
                },
                tools: request.tools.push(output_tool(schema)),
                ..request
            },
            attempt: 0,
            pending: None,
        }
    }

    /// With one more exchange in the conversation.
    pub open spec fn repaired(self, reply: MessageView, remark: MessageView) -> (
        StructuredView,
        StructuredStepView,
    ) {
        let request = RequestView {
            messages: self.request.messages.push(reply).push(remark),
            ..self.request
        };
        (
            StructuredView { request, attempt: (self.attempt + 1) as u32, pending: None },
            StructuredStepView::Generate(request),
        )
    }

    /// After a reply of the model.
    pub open spec fn responded(self, reply: MessageView) -> (StructuredView, StructuredStepView) {
        match emitted_from(uses_of(reply.content), 0) {
            Some((id, _, input)) => (
                StructuredView { pending: Some((reply, id)), ..self },
                StructuredStepView::Validate(input),
            ),
            None => if self.attempt < REPAIR_ATTEMPTS {
                self.repaired(reply, MessageView::user(missing_text()))
            } else {
                (
                    self,
                    StructuredStepView::Fail(
                        ModelErrorView::Deserialize("model never produced structured output"@),
                    ),
                )
            },
        }
    }

    /// After the value could not be read, for this reason.
    pub open spec fn refused(self, words: Seq<char>) -> (StructuredView, StructuredStepView) {
        let (reply, id) = self.pending->0;
        if self.attempt < REPAIR_ATTEMPTS {
            self.repaired(
                reply,
                MessageView {
                    role: Role::User,
                    content: seq![
                        ContentView::ToolResult {
                            tool_use_id: id,
                            content: invalid_text(words),
                            is_error: true,
                        },
                    ],
                },
            )
        } else {
            (
                StructuredView { pending: None, ..self },
                StructuredStepView::Fail(
                    ModelErrorView::Deserialize(
                        "structured output failed validation after 2 repairs: "@ + words,
                    ),
                ),
            )
        }
    }
}

/// What to do next.
#[derive(Debug)]
pub enum StructuredStep {
    Validate(Json),
    Generate(Request),
    Fail(ModelError),
}

impl View for StructuredStep {
    type V = StructuredStepView;

    open spec fn view(&self) -> StructuredStepView {
        match *self {
            StructuredStep::Validate(input) => StructuredStepView::Validate(input@),
            StructuredStep::Generate(request) => StructuredStepView::Generate(request@),
            StructuredStep::Fail(error) => StructuredStepView::Fail(error@),
        }
    }
}

/// A call for structured output.
pub struct Structured {
    request: Request,
    attempt: u32,
    pending: Option<(Message, String)>,
}

impl View for Structured {
    type V = StructuredView;

    closed spec fn view(&self) -> StructuredView {
        StructuredView {
            request: self.request@,
            attempt: self.attempt,
            pending: self.pending.deep_view(),
        }
    }
}

impl Structured {
    /// At the start: what to generate first.
    pub fn begin(req: Request, schema: Json) -> (r: (Structured, Request))
        ensures
            r.0@ == StructuredView::begun(req@, schema@),
            r.1@ == r.0@.request,
    {
        let mut request = req;
        if request.tools.len() == 0 {
            request.tool_choice = Some(ToolChoice::Tool(STRUCTURED_OUTPUT_TOOL.to_owned()));
        }
        let tool = ToolSpec {
            name: STRUCTURED_OUTPUT_TOOL.to_owned(),
            description: "Emit the final answer in the required structured format. Call this exactly once with the complete answer.".to_owned(),
            input_schema: schema,
        };
        let ghost before = request.tools;
        request.tools.push(tool);
        proof {
            lemma_pushed(before, request.tools, tool);
        }
        let first = request.clone();
        (Structured { request, attempt: 0, pending: None }, first)
    }

    fn repair(&mut self, reply: Message, remark: Message) -> (r: StructuredStep)
        requires
            old(self)@.attempt < REPAIR_ATTEMPTS,
        ensures
            (final(self)@, r@) == old(self)@.repaired(reply@, remark@),
    {
        let ghost first = self.request.messages;
        self.request.messages.push(reply);
        let ghost second = self.request.messages;
        self.request.messages.push(remark);
        proof {
            lemma_pushed(first, second, reply);
            lemma_pushed(second, self.request.messages, remark);
        }
        self.attempt = self.attempt + 1;
        self.pending = None;
        StructuredStep::Generate(self.request.clone())
    }

    /// After a response of the model.
    pub fn on_response(&mut self, response: Response) -> (r: StructuredStep)
        ensures
            (final(self)@, r@) == old(self)@.responded(response@.message),
    {
        let reply = response.message;
        let found = find_output(&reply);
        match found {
            Some((id, input)) => {
                self.pending = Some((reply, id));
                StructuredStep::Validate(input)
            },
            None => if self.attempt < REPAIR_ATTEMPTS {
                let text = concat3(
                    "You must provide the final answer by calling the ",
                    STRUCTURED_OUTPUT_TOOL,
                    " tool.",
                );
                self.repair(reply, Message::user(text.as_str()))
            } else {
                StructuredStep::Fail(
                    ModelError::Deserialize("model never produced structured output".to_owned()),
                )
            },
        }
    }

    /// After the value could not be read, for this reason.
    pub fn on_invalid(&mut self, words: &str) -> (r: StructuredStep)
        requires
            old(self)@.pending is Some,
        ensures
            (final(self)@, r@) == old(self)@.refused(words@),
    {
        let mut pending: Option<(Message, String)> = None;
        std::mem::swap(&mut pending, &mut self.pending);
        let (reply, id) = match pending {
            Some(pending) => pending,
            None => (Message::user(""), String::new()),
        };
        if self.attempt < REPAIR_ATTEMPTS {
            let mut text = concat3("Output failed schema validation: ", words, ". Call ");
            text.append(STRUCTURED_OUTPUT_TOOL);
            text.append(" again with corrected arguments.");
            let block = Content::ToolResult { tool_use_id: id, content: text, is_error: true };
            let mut content: Vec<Content> = Vec::new();
            content.push(block);
            assert(content.deep_view() == seq![block@]);
            self.repair(reply, Message { role: Role::User, content })
        } else {
            StructuredStep::Fail(
                ModelError::Deserialize(
                    concat("structured output failed validation after 2 repairs: ", words),
                ),
            )
        }
    }

    /// Whether a reply is being validated.
    pub fn is_validating(&self) -> (r: bool)
        ensures
            r == (self@.pending is Some),
    {
        self.pending.is_some()
    }
}

fn find_output(reply: &Message) -> (r: Option<(String, Json)>)
    ensures
        match r {
            Some((id, input)) => emitted_from(uses_of(reply@.content), 0) matches Some(
                (i, _, value),
            ) && i == id@ && value == input@,
            None => emitted_from(uses_of(reply@.content), 0) is None,
        },
{
    let uses = reply.tool_uses();
    let ghost all = uses_of(reply@.content);
    let mut i: usize = 0;
    while i < uses.len()
        invariant
            i <= uses@.len(),
            all == uses.deep_view(),
            all == uses_of(reply@.content),
            emitted_from(all, 0) == emitted_from(all, i as int),
        decreases uses@.len() - i,
    {
        let (id, name, input) = uses[i];
        assert(all[i as int] == (id@, name@, input@));
        if same(name, STRUCTURED_OUTPUT_TOOL) {
            return Some((id.to_owned(), input.clone()));
        }
        i = i + 1;
    }
    None
}

/// The synthetic tool is forced just where the request has no other tools, and
/// the tools of the request stay available, in their places.
pub proof fn law_output_tool_is_forced_only_alone(request: RequestView, schema: JsonView)
    ensures
        ({
            let begun = StructuredView::begun(request, schema).request;
            &&& request.tools.len() == 0 ==> begun.tool_choice == Some(
                ToolChoiceView::Tool(STRUCTURED_OUTPUT_TOOL@),
            )
            &&& request.tools.len() > 0 ==> begun.tool_choice == request.tool_choice
            &&& begun.tools.drop_last() == request.tools
            &&& begun.tools.last() == output_tool(schema)
        }),
{
    let begun = StructuredView::begun(request, schema).request;
    assert(begun.tools.drop_last() == request.tools);
}

/// Each step that asks the model again is one of a bounded number of repairs,
/// and keeps all that was said before.
pub proof fn law_repairs_are_bounded(state: StructuredView, reply: MessageView, words: Seq<char>)
    requires
        state.attempt <= REPAIR_ATTEMPTS,
    ensures
        ({
            let (next, step) = state.responded(reply);
            &&& next.attempt <= REPAIR_ATTEMPTS
            &&& step is Generate ==> next.attempt == state.attempt + 1
            &&& state.request.messages.is_prefix_of(next.request.messages)
        }),
        state.pending is Some ==> {
            let (next, step) = state.refused(words);
            &&& next.attempt <= REPAIR_ATTEMPTS
            &&& step is Generate ==> next.attempt == state.attempt + 1
            &&& state.request.messages.is_prefix_of(next.request.messages)
        },
{
    let messages = state.request.messages;
    assert(messages.is_prefix_of(state.responded(reply).0.request.messages));
    if state.pending is Some {
        assert(messages.is_prefix_of(state.refused(words).0.request.messages));
    }
}

/// What goes to the model first is the request as it was, with one tool more: the
/// synthetic one, with the schema that was asked for.
pub proof fn law_request_stays_with_one_tool_more(request: RequestView, schema: JsonView)
    ensures
        ({
            let begun = StructuredView::begun(request, schema);
            &&& begun.request.messages == request.messages
            &&& begun.request.system == request.system
            &&& begun.request.max_tokens == request.max_tokens
            &&& begun.request.temperature == request.temperature
            &&& begun.request.top_p == request.top_p
            &&& begun.request.stop_sequences == request.stop_sequences
            &&& begun.request.tools.len() == request.tools.len() + 1
            &&& begun.request.tools.last().name == "emit_structured_output"@
            &&& begun.request.tools.last().description
                == "Emit the final answer in the required structured format. Call this exactly once with the complete answer."@
            &&& begun.request.tools.last().input_schema == schema
            &&& begun.attempt == 0
            &&& begun.pending is None
        }),
{
}

proof fn lemma_emitted(uses: Seq<UseView>, from: int)
    requires
        0 <= from,
    ensures
        match emitted_from(uses, from) {
            Some(found) => exists|k: int|
                {
                    &&& from <= k < uses.len()
                    &&& #[trigger] uses[k] == found
                    &&& found.1 == "emit_structured_output"@
                    &&& forall|m: int|
                        from <= m < k ==> (#[trigger] uses[m]).1 != "emit_structured_output"@
                },
            None => forall|m: int|
                from <= m < uses.len() ==> (#[trigger] uses[m]).1 != "emit_structured_output"@,
        },
    decreases uses.len() - from,
{
    if from < uses.len() {
        if uses[from].1 == STRUCTURED_OUTPUT_TOOL@ {
            assert(uses[from] == emitted_from(uses, from)->0);
        } else {
            lemma_emitted(uses, from + 1);
        }
    }
}

/// The value is read from the input of the first call of the synthetic tool, at
/// whatever attempt, and the reply is remembered with the id of that call.
pub proof fn law_value_is_read_from_the_first_call(state: StructuredView, reply: MessageView)
    ensures
        ({
            let uses = uses_of(reply.content);
            let (next, step) = state.responded(reply);
            &&& step is Validate <==> exists|k: int|
                0 <= k < uses.len() && (#[trigger] uses[k]).1 == "emit_structured_output"@
            &&& step matches StructuredStepView::Validate(input) ==> {
                &&& next.request == state.request
                &&& next.attempt == state.attempt
                &&& exists|k: int|
                    {
                        &&& 0 <= k < uses.len()
                        &&& (#[trigger] uses[k]).1 == "emit_structured_output"@
                        &&& uses[k].2 == input
                        &&& next.pending == Some((reply, uses[k].0))
                        &&& forall|m: int|
                            0 <= m < k ==> (#[trigger] uses[m]).1 != "emit_structured_output"@
                    }
            }
        }),
{
    lemma_emitted(uses_of(reply.content), 0);
}

/// A repair goes on from all that was said, with the reply and one remark of the
/// user behind it, and with the same tools and settings.
pub open spec fn asks_again(
    before: RequestView,
    after: RequestView,
    reply: MessageView,
    remark: MessageView,
) -> bool {
    &&& after.messages.len() == before.messages.len() + 2
    &&& after.messages.take(before.messages.len() as int) == before.messages
    &&& after.messages[before.messages.len() as int] == reply
    &&& after.messages.last() == remark
    &&& after.system == before.system
    &&& after.tools == before.tools
    &&& after.tool_choice == before.tool_choice
    &&& after.max_tokens == before.max_tokens
    &&& after.temperature == before.temperature
    &&& after.top_p == before.top_p
    &&& after.stop_sequences == before.stop_sequences
}

/// An output that does not fit is sent back with the reason, as the failed result
/// of the very call that made it, twice at most; then the call fails, with the
/// last reason.
pub proof fn law_invalid_output_is_sent_back(
    state: StructuredView,
    reply: MessageView,
    id: Seq<char>,
    words: Seq<char>,
)
    requires
        state.pending == Some((reply, id)),
    ensures
        ({
            let (next, step) = state.refused(words);
            let remark = MessageView {
                role: Role::User,
                content: seq![
                    ContentView::ToolResult {
                        tool_use_id: id,
                        content: "Output failed schema validation: "@ + words + ". Call "@
                            + "emit_structured_output"@ + " again with corrected arguments."@,
                        is_error: true,
                    },
                ],
            };
            &&& state.attempt < 2 ==> {
                &&& step == StructuredStepView::Generate(next.request)
                &&& asks_again(state.request, next.request, reply, remark)
                &&& next.attempt == state.attempt + 1
                &&& next.pending is None
            }
            &&& state.attempt >= 2 ==> step == StructuredStepView::Fail(
                ModelErrorView::Deserialize(
                    "structured output failed validation after 2 repairs: "@ + words,
                ),
            )
        }),
{
    let after = state.refused(words).0.request.messages;
    if state.attempt < 2 {
        assert(after.take(state.request.messages.len() as int) == state.request.messages);
    }
}

/// A reply without such a call is answered with the demand for one, twice at
/// most; then the call fails.
pub proof fn law_missing_output_is_demanded(state: StructuredView, reply: MessageView)
    requires
        forall|k: int|
            0 <= k < uses_of(reply.content).len() ==> (#[trigger] uses_of(reply.content)[k]).1
                != "emit_structured_output"@,
    ensures
        ({
            let (next, step) = state.responded(reply);
            let remark = MessageView {
                role: Role::User,
                content: seq![
                    ContentView::Text {
                        text: "You must provide the final answer by calling the "@
                            + "emit_structured_output"@ + " tool."@,
                    },
                ],
            };
            &&& state.attempt < 2 ==> {
                &&& step == StructuredStepView::Generate(next.request)
                &&& asks_again(state.request, next.request, reply, remark)
                &&& next.attempt == state.attempt + 1
            }
            &&& state.attempt >= 2 ==> step == StructuredStepView::Fail(
                ModelErrorView::Deserialize("model never produced structured output"@),
            )
        }),
{
    lemma_emitted(uses_of(reply.content), 0);
    let after = state.responded(reply).0.request.messages;
    if state.attempt < 2 {
        assert(after.take(state.request.messages.len() as int) == state.request.messages);
    }
}

}
