//! Session time accounting: how long the current session has run, how that
//! merges into the persisted lifetime total, how both are reported, and the
//! state machine that decides when a report is due and that the last one is
//! made exactly once.

pub mod badge;
pub mod trim;
pub mod decimal;
pub mod time_handler;
pub mod file_handler;
pub mod quotes;
pub mod report;
pub mod session;
pub mod user_input;
