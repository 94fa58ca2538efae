//! Local chat-completions support: endpoint configuration, request
//! planning, server-sent-event framing and response-event construction.

pub mod text;
pub mod config;
pub mod stream;
pub mod sse;
pub mod client;
