//! Decisions of the Responses-to-Chat-Completions compatibility layer.
pub mod chat_completions;
pub mod chat_stream;
pub mod error;
pub mod models;
pub mod responses_retry;
pub mod text;
