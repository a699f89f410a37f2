//! Reduces a stream of chat messages to a compact transcript: each message
//! yields at most one turn, neighbouring turns of one author are merged, and
//! the transcript is read and written oldest turn first.

pub mod message;
pub mod conversation;
pub mod context;
pub mod json;
pub mod laws;
pub mod clock;
pub mod ordering;
pub mod fetch;
