//! The agent: a loop of model calls and tool calls, as a machine that says what
//! to do next and takes back what came of it.
pub mod batch;
pub mod call;
pub mod checkpoint;
pub mod compaction;
pub mod delegate;
pub mod event;
pub mod laws;
pub mod middleware;
pub mod run;
pub mod settings;
pub mod story;
pub mod wait;
