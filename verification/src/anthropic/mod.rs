//! The Messages API.
pub mod client;
pub mod convert;
pub mod laws;
pub mod sse;
