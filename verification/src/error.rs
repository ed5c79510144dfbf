//! What can go wrong in a model call or a tool call.

use vstd::prelude::*;
use vstd::string::StringExecFns;

use crate::text::{concat, decimal, decimal_text};

verus! {

/// A failed model call.
#[derive(Debug)]
pub enum ModelError {
    /// Transport-level failure (connect, TLS, timeout).
    Http(String),
    /// The API answered with a non-success status.
    Api { status: u16, message: String },
    /// The stream broke or produced something unparseable mid-flight.
    Stream(String),
    /// The output of the model has the wrong shape.
    Deserialize(String),
}

/// What a failed model call says.
#[verifier::ext_equal]
pub enum ModelErrorView {
    Http(Seq<char>),
    Api { status: u16, message: Seq<char> },
    Stream(Seq<char>),
    Deserialize(Seq<char>),
}

impl View for ModelError {
    type V = ModelErrorView;

    open spec fn view(&self) -> ModelErrorView {
        match *self {
            ModelError::Http(words) => ModelErrorView::Http(words@),
            ModelError::Api { status, message } => ModelErrorView::Api { status, message: message@ },
            ModelError::Stream(words) => ModelErrorView::Stream(words@),
            ModelError::Deserialize(words) => ModelErrorView::Deserialize(words@),
        }
    }
}

impl DeepView for ModelError {
    type V = ModelErrorView;

    open spec fn deep_view(&self) -> ModelErrorView {
        self@
    }
}

impl ModelErrorView {
    /// Rate limits, server errors and transport failures may go away.
    pub open spec fn is_retryable(self) -> bool {
        match self {
            ModelErrorView::Http(_) => true,
            ModelErrorView::Api { status, .. } => status == 408 || status == 429 || status >= 500,
            ModelErrorView::Stream(_) => true,
            ModelErrorView::Deserialize(_) => false,
        }
    }

    /// The error in words.
    pub open spec fn words(self) -> Seq<char> {
        match self {
            ModelErrorView::Http(words) => "http error: "@ + words,
            ModelErrorView::Api { status, message } => "api error (status "@ + decimal_text(
                status as nat,
            ) + "): "@ + message,
            ModelErrorView::Stream(words) => "stream error: "@ + words,
            ModelErrorView::Deserialize(words) => "failed to deserialize model output: "@ + words,
        }
    }
}

impl ModelError {
    /// Whether retrying the same request may succeed. Rate limits, server
    /// errors and transport failures are retryable; malformed requests and
    /// deserialization bugs are not.
    pub fn is_retryable(&self) -> (r: bool)
        ensures
            r == self@.is_retryable(),
    {
        match self {
            ModelError::Http(_) => true,
            ModelError::Api { status, .. } => *status == 408 || *status == 429 || *status >= 500,
            ModelError::Stream(_) => true,
            ModelError::Deserialize(_) => false,
        }
    }

    /// The error in words.
    pub fn words(&self) -> (r: String)
        ensures
            r@ == self@.words(),
    {
        match self {
            ModelError::Http(words) => concat("http error: ", words.as_str()),
            ModelError::Api { status, message } => {
                let mut out = concat("api error (status ", decimal(*status as u64).as_str());
                out.append("): ");
                out.append(message.as_str());
                out
            },
            ModelError::Stream(words) => concat("stream error: ", words.as_str()),
            ModelError::Deserialize(words) => concat(
                "failed to deserialize model output: ",
                words.as_str(),
            ),
        }
    }
}

/// A failed tool call.
#[derive(Debug)]
pub enum ToolError {
    /// The model supplied input that doesn't match the tool's schema.
    InvalidInput(String),
    /// The tool ran but failed.
    Execution(String),
}

/// What a failed tool call says.
#[verifier::ext_equal]
pub enum ToolErrorView {
    InvalidInput(Seq<char>),
    Execution(Seq<char>),
}

impl View for ToolError {
    type V = ToolErrorView;

    open spec fn view(&self) -> ToolErrorView {
        match *self {
            ToolError::InvalidInput(words) => ToolErrorView::InvalidInput(words@),
            ToolError::Execution(words) => ToolErrorView::Execution(words@),
        }
    }
}

impl DeepView for ToolError {
    type V = ToolErrorView;

    open spec fn deep_view(&self) -> ToolErrorView {
        self@
    }
}

impl ToolErrorView {
    /// The error in words.
    pub open spec fn words(self) -> Seq<char> {
        match self {
            ToolErrorView::InvalidInput(words) => "invalid tool input: "@ + words,
            ToolErrorView::Execution(words) => words,
        }
    }
}

impl ToolError {
    /// The error in words.
    pub fn words(&self) -> (r: String)
        ensures
            r@ == self@.words(),
    {
        match self {
            ToolError::InvalidInput(words) => concat("invalid tool input: ", words.as_str()),
            ToolError::Execution(words) => words.clone(),
        }
    }
}

/// An input or output failure as std reports it.
#[verifier::external_type_specification]
#[verifier::external_body]
pub struct ExIoError(std::io::Error);

/// The words of `std::io::Error`. They rest on the operating system, so nothing
/// is said of them.
#[verifier::external_body]
fn io_words(error: &std::io::Error) -> (r: String) {
    error.to_string()
}

impl vstd::std_specs::convert::FromSpecImpl<std::io::Error> for ToolError {
    open spec fn obeys_from_spec() -> bool {
        false
    }

    open spec fn from_spec(error: std::io::Error) -> ToolError {
        arbitrary()
    }
}

impl From<std::io::Error> for ToolError {
    fn from(error: std::io::Error) -> (r: ToolError)
        ensures
            r is Execution,
    {
        ToolError::Execution(io_words(&error))
    }
}

/// Transport failures, broken streams, timeouts, rate limits and server errors
/// may go away; malformed requests and output of the wrong shape do not.
pub proof fn law_what_may_go_away(error: ModelErrorView)
    ensures
        error is Http || error is Stream ==> error.is_retryable(),
        error is Deserialize ==> !error.is_retryable(),
        error matches ModelErrorView::Api { status, .. } ==> {
            &&& 500 <= status ==> error.is_retryable()
            &&& status == 429 || status == 408 ==> error.is_retryable()
            &&& status < 500 && status != 429 && status != 408 ==> !error.is_retryable()
        },
{
}

/// The words of an error say what kind it is, and then what went wrong.
pub proof fn law_errors_say_what_went_wrong(words: Seq<char>, status: u16)
    ensures
        ModelErrorView::Http(words).words() == "http error: "@ + words,
        ModelErrorView::Stream(words).words() == "stream error: "@ + words,
        ModelErrorView::Deserialize(words).words() == "failed to deserialize model output: "@
            + words,
        (ModelErrorView::Api { status, message: words }).words() == "api error (status "@
            + decimal_text(status as nat) + "): "@ + words,
        ToolErrorView::InvalidInput(words).words() == "invalid tool input: "@ + words,
        ToolErrorView::Execution(words).words() == words,
{
}

}
