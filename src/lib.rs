//! Execution engine of a host triage agent: orders manifest sections by
//! priority, and runs each entry (a staged payload, an installed tool or a
//! builtin collector) as a state machine that tells the host what to do next.

pub mod config;
pub mod execute;
pub mod schedule;
pub mod text;
