//! A background-job engine with verified core logic.
//!
//! Producers describe work as [`job::Job`]s and enqueue their records; a
//! [`queue::Queue`] keeps the records in claim order on a
//! [`queue::QueueBackend`] and tracks [`stats::QueueStats`]; workers claim
//! jobs, run them and report back through [`worker::next_action`] and
//! [`worker::settle`], which apply the retry, recurrence and dead-letter
//! policy. The mathematical model of a queue lives in [`pool`], and what
//! holds of the engine as a whole is proved in [`laws`].
//!
//! Around the engine stand small helpers for web handlers and tools:
//! [`cookie`], [`headers`], [`server_header`], [`testing`], [`commands`] and
//! [`text`].
//!
//! Every executable function carries a contract that Verus checks. The few
//! statements about other crates that are taken on trust are gathered in
//! [`external`]. Functions that need the time come in two forms: one that
//! takes the time as an argument and is specified exactly, and one that
//! reads the clock and then behaves like the first at some time.

pub mod commands;
pub mod cookie;
pub mod error;
pub mod external;
pub mod headers;
pub mod job;
pub mod laws;
pub mod pool;
pub mod queue;
pub mod server_header;
pub mod stats;
pub mod testing;
pub mod text;
pub mod worker;
