//! Agents as tools: the multi-agent primitive.
//!
//! There is no subgraph machinery: a sub-agent is just a tool whose
//! implementation happens to run another agent to completion. The parent
//! model delegates by calling the tool.

use vstd::prelude::*;

use super::event::{AgentError, AgentErrorView, RunResult, RunResultView};
use crate::error::{ToolError, ToolErrorView};
use crate::json::{Json, JsonView};
use crate::model::{ToolSpec, ToolSpecView};
use crate::text::concat;
use crate::tool::{ToolOutput, ToolOutputView};

verus! {

/// The input of a sub-agent: one text, the task.
pub open spec fn task_schema() -> JsonView {
    let task = JsonView::empty_object().with("type"@, JsonView::String("string"@)).with(
        "description"@,
        JsonView::String(
            "Complete, self-contained task description for the sub-agent. It sees nothing but this text."@,
        ),
    );
    JsonView::empty_object().with("type"@, JsonView::String("object"@)).with(
        "properties"@,
        JsonView::empty_object().with("task"@, task),
    ).with("required"@, JsonView::Array(seq![JsonView::String("task"@)]))
}

/// The task in a sub-agent's input.
pub open spec fn task_of(input: JsonView) -> Result<Seq<char>, ToolErrorView> {
    match input.at("task"@).as_str() {
        Some(task) => Ok(task),
        None => Err(ToolErrorView::InvalidInput("missing required field: task"@)),
    }
}

/// What the caller gets of a sub-agent's run: its final text.
pub open spec fn answer_of(outcome: Result<RunResultView, AgentErrorView>) -> Result<
    ToolOutputView,
    ToolErrorView,
> {
    match outcome {
        Ok(result) => Ok(ToolOutputView::text(result.final_text)),
        Err(error) => Err(ToolErrorView::Execution("sub-agent failed: "@ + error.words())),
    }
}

/// A sub-agent exposed as a tool.
///
/// Each invocation starts a fresh conversation with the sub-agent and runs it
/// to completion, returning its final text. Approval-gated tools inside the
/// sub-agent are auto-denied (there is no human attached to a delegated run);
/// give sub-agents approval-free toolsets.
#[derive(Debug)]
pub struct AgentTool {
    pub name: String,
    pub description: String,
}

impl AgentTool {
    /// The input of a sub-agent.
    pub fn input_schema() -> (r: Json)
        ensures
            r@ == task_schema(),
    {
        let task = Json::object().with("type", Json::text("string")).with(
            "description",
            Json::text(
                "Complete, self-contained task description for the sub-agent. It sees nothing but this text.",
            ),
        );
        let mut required: Vec<Json> = Vec::new();
        required.push(Json::text("task"));
        assert(required.deep_view() == seq![JsonView::String("task"@)]);
        Json::object().with("type", Json::text("object")).with(
            "properties",
            Json::object().with("task", task),
        ).with("required", Json::array(required))
    }

    /// The tool as advertised to the calling model.
    pub fn advertised(&self) -> (r: ToolSpec)
        ensures
            r@ == (ToolSpecView {
                name: self.name@,
                description: self.description@,
                input_schema: task_schema(),
            }),
    {
        ToolSpec {
            name: self.name.clone(),
            description: self.description.clone(),
            input_schema: AgentTool::input_schema(),
        }
    }

    /// The task in the input.
    pub fn task(input: &Json) -> (r: Result<String, ToolError>)
        ensures
            match r {
                Ok(task) => task_of(input@) == Ok::<Seq<char>, ToolErrorView>(task@),
                Err(error) => task_of(input@) == Err::<Seq<char>, ToolErrorView>(error@),
            },
    {
        match input.at("task").as_str() {
            Some(task) => Ok(task.to_owned()),
            None => Err(ToolError::InvalidInput("missing required field: task".to_owned())),
        }
    }

    /// What the caller gets of the sub-agent's run.
    pub fn answer(outcome: Result<RunResult, AgentError>) -> (r: Result<ToolOutput, ToolError>)
        ensures
            ({
                let outcome = match outcome {
                    Ok(result) => Ok::<RunResultView, AgentErrorView>(result@),
                    Err(error) => Err::<RunResultView, AgentErrorView>(error@),
                };
                match r {
                    Ok(output) => answer_of(outcome) == Ok::<ToolOutputView, ToolErrorView>(
                        output@,
                    ),
                    Err(error) => answer_of(outcome) == Err::<ToolOutputView, ToolErrorView>(
                        error@,
                    ),
                }
            }),
    {
        match outcome {
            Ok(result) => Ok(ToolOutput::text(result.final_text)),
            Err(error) => Err(
                ToolError::Execution(concat("sub-agent failed: ", error.words().as_str())),
            ),
        }
    }
}

/// The keys of the schema differ from each other.
proof fn lemma_schema_keys()
    ensures
        "type"@ != "properties"@,
        "type"@ != "required"@,
        "type"@ != "task"@,
        "type"@ != "description"@,
        "properties"@ != "required"@,
        "properties"@ != "task"@,
        "properties"@ != "description"@,
        "required"@ != "task"@,
        "required"@ != "description"@,
        "task"@ != "description"@,
{
    reveal_strlit("type");
    reveal_strlit("properties");
    reveal_strlit("required");
    reveal_strlit("task");
    reveal_strlit("description");
    assert("type"@.len() == 4 && "type"@[1] == 'y');
    assert("properties"@.len() == 10);
    assert("required"@.len() == 8);
    assert("task"@.len() == 4 && "task"@[1] == 'a');
    assert("description"@.len() == 11);
}

/// The input of a sub-agent is an object with one text, the task, which must be
/// there.
pub proof fn law_sub_agents_are_given_a_task()
    ensures
        task_schema().at("type"@) == JsonView::String("object"@),
        task_schema().at("properties"@).at("task"@).at("type"@) == JsonView::String("string"@),
        task_schema().at("required"@) == JsonView::Array(seq![JsonView::String("task"@)]),
        task_schema().at("properties"@).at("task"@).at("description"@) == JsonView::String(
            "Complete, self-contained task description for the sub-agent. It sees nothing but this text."@,
        ),
{
    lemma_schema_keys();
}

/// The task is the text that the caller gives under its name, whatever else the
/// input has; an input without one is refused as invalid.
pub proof fn law_tasks_are_taken_as_given(input: JsonView, task: Seq<char>)
    requires
        input is Object,
    ensures
        task_of(input.with("task"@, JsonView::String(task))) == Ok::<Seq<char>, ToolErrorView>(
            task,
        ),
        input.at("task"@) !is String ==> task_of(input) == Err::<Seq<char>, ToolErrorView>(
            ToolErrorView::InvalidInput("missing required field: task"@),
        ),
{
}

/// The caller gets the sub-agent's final text, as no error; a failed run is a
/// failed tool call that tells why.
pub proof fn law_sub_agents_answer_with_their_final_text(
    result: RunResultView,
    error: AgentErrorView,
)
    ensures
        answer_of(Ok(result)) == Ok::<ToolOutputView, ToolErrorView>(
            (ToolOutputView { content: result.final_text, is_error: false }),
        ),
        answer_of(Err(error)) == Err::<ToolOutputView, ToolErrorView>(
            ToolErrorView::Execution("sub-agent failed: "@ + error.words()),
        ),
{
}

}
