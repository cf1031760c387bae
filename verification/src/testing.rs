//! Helpers for exercising handlers in tests: a builder for requests and a
//! wrapper for inspecting responses.

pub mod request;
pub mod response;
