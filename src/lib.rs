//! The decision engine of a session-reflection hook: on a stop or a
//! pre-compaction event it reads the session transcript and decides whether the
//! session may go on as it is, or must first record what it learned.
pub mod json;
pub mod policy;
pub mod prompt;
pub mod text;
pub mod transcript;
