//! Client-side core of a chat-completion API client: the typed message and
//! tool model with its JSON wire encoding, the transient-failure classifier,
//! the retry state machine with exponential backoff, and the server-sent-event
//! stream decoder.

pub mod chat;
pub mod classify;
pub mod decode;
pub mod encode;
pub mod json;
pub mod pipeline;
pub mod retry;
pub mod sse;
