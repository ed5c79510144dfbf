//! An agent framework: a uniform model interface, a tool system, and an agent
//! runtime with a typed event stream, human-in-the-loop approval, durable
//! sessions, retries and middleware.
//!
//! An agent here is not a graph: it is a productized version of the loop
//! everyone writes by hand. Call the model, execute requested tools, feed
//! results back, repeat until the model stops asking.
//!
//! All that decides and computes is here, and verified. What waits for the
//! outside (HTTP, files, timers, tasks, a human) is not: [`agent::run`] says
//! what to do next and takes back what came of it, and so do the other machines
//! of this crate ([`structured`], [`agent::compaction`], [`agent::wait`]).
pub mod agent;
pub mod anthropic;
pub mod codec;
pub mod duplicate;
pub mod error;
pub mod history;
pub mod http;
pub mod json;
pub mod message;
pub mod model;
pub mod openai;
pub mod structured;
pub mod text;
pub mod tool;
pub mod tool_macro;
