//! Tools: what they are given and what they hand back.

use vstd::prelude::*;

use crate::codec::{json_text, render};
use crate::json::Json;

verus! {

/// A path as std holds it.
#[verifier::external_type_specification]
#[verifier::external_body]
pub struct ExPathBuf(std::path::PathBuf);

/// Cloning a path gives the same path.
pub assume_specification[ <std::path::PathBuf as Clone>::clone ](path: &std::path::PathBuf) -> (r:
    std::path::PathBuf)
    ensures
        r == *path,
;

/// Ambient context handed to every tool invocation. Kept deliberately small;
/// tools needing richer state should close over it at construction time.
#[derive(Debug)]
pub struct ToolContext {
    /// Working directory tools should resolve relative paths against.
    pub cwd: std::path::PathBuf,
}

impl Clone for ToolContext {
    fn clone(&self) -> (r: ToolContext)
        ensures
            r == *self,
    {
        ToolContext { cwd: self.cwd.clone() }
    }
}

/// What a tool hands back to the model. Errors are data, not exceptions:
/// a failed tool call becomes an `is_error` result the model can react to,
/// instead of aborting the run.
#[derive(Debug, PartialEq)]
pub struct ToolOutput {
    pub content: String,
    pub is_error: bool,
}

/// What an output says.
#[verifier::ext_equal]
pub struct ToolOutputView {
    pub content: Seq<char>,
    pub is_error: bool,
}

impl View for ToolOutput {
    type V = ToolOutputView;

    open spec fn view(&self) -> ToolOutputView {
        ToolOutputView { content: self.content@, is_error: self.is_error }
    }
}

impl DeepView for ToolOutput {
    type V = ToolOutputView;

    open spec fn deep_view(&self) -> ToolOutputView {
        self@
    }
}

impl Clone for ToolOutput {
    fn clone(&self) -> (r: ToolOutput)
        ensures
            r@ == self@,
    {
        ToolOutput { content: self.content.clone(), is_error: self.is_error }
    }
}

impl ToolOutputView {
    /// An output that is no error.
    pub open spec fn text(content: Seq<char>) -> ToolOutputView {
        ToolOutputView { content, is_error: false }
    }

    /// An output that is an error.
    pub open spec fn error(content: Seq<char>) -> ToolOutputView {
        ToolOutputView { content, is_error: true }
    }
}

impl ToolOutput {
    /// An output that is no error.
    pub fn text(content: String) -> (r: ToolOutput)
        ensures
            r@ == ToolOutputView::text(content@),
    {
        ToolOutput { content, is_error: false }
    }

    /// An output that is an error.
    pub fn error(content: String) -> (r: ToolOutput)
        ensures
            r@ == ToolOutputView::error(content@),
    {
        ToolOutput { content, is_error: true }
    }
}

/// What a tool function may return: plain text, JSON, nothing, or a full
/// [`ToolOutput`].
pub trait IntoToolOutput: Sized {
    /// The output that a value stands for.
    spec fn output(self) -> ToolOutputView;

    fn into_tool_output(self) -> (r: ToolOutput)
        ensures
            r@ == self.output(),
    ;
}

impl IntoToolOutput for ToolOutput {
    open spec fn output(self) -> ToolOutputView {
        self@
    }

    fn into_tool_output(self) -> (r: ToolOutput) {
        self
    }
}

impl IntoToolOutput for String {
    open spec fn output(self) -> ToolOutputView {
        ToolOutputView::text(self@)
    }

    fn into_tool_output(self) -> (r: ToolOutput) {
        ToolOutput::text(self)
    }
}

impl IntoToolOutput for &str {
    open spec fn output(self) -> ToolOutputView {
        ToolOutputView::text(self@)
    }

    fn into_tool_output(self) -> (r: ToolOutput) {
        ToolOutput::text(self.to_owned())
    }
}

impl IntoToolOutput for Json {
    open spec fn output(self) -> ToolOutputView {
        ToolOutputView::text(json_text(self@))
    }

    fn into_tool_output(self) -> (r: ToolOutput) {
        ToolOutput::text(render(&self))
    }
}

impl IntoToolOutput for () {
    open spec fn output(self) -> ToolOutputView {
        ToolOutputView::text("ok"@)
    }

    fn into_tool_output(self) -> (r: ToolOutput) {
        ToolOutput::text("ok".to_owned())
    }
}

/// Text, JSON and nothing are outputs that are no errors, with the text itself,
/// the text of the JSON, and a word of consent; a full output stays as it is.
pub proof fn law_outputs_say_what_was_returned(
    text: String,
    slice: &str,
    json: Json,
    output: ToolOutput,
    words: Seq<char>,
)
    ensures
        text.output() == (ToolOutputView { content: text@, is_error: false }),
        slice.output() == (ToolOutputView { content: slice@, is_error: false }),
        json.output() == (ToolOutputView { content: json_text(json@), is_error: false }),
        ().output() == (ToolOutputView { content: "ok"@, is_error: false }),
        output.output().content == output.content@,
        output.output().is_error == output.is_error,
        ToolOutputView::text(words) == (ToolOutputView { content: words, is_error: false }),
        ToolOutputView::error(words) == (ToolOutputView { content: words, is_error: true }),
{
}

}
