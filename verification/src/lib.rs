//! Verified core of an agentic loop runner: harness rendering, status-line
//! parsing, running-state bookkeeping and the loop's termination rules.

pub mod text;
pub mod status;
pub mod harness;
pub mod engine;
pub mod laws;
