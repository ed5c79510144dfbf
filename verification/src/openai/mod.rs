//! The Chat Completions API.
pub mod client;
pub mod convert;
pub mod laws;
pub mod sse;
