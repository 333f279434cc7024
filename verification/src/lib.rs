//! Counter-group measurement harness: plans which performance counters share
//! a group, drives the open / enable / measure / disable / read protocol as a
//! state machine, merges the raw counts, derives metrics and renders the
//! report. The micro-kernels that serve as workloads live in `kernels`.

pub mod counter;
pub mod failure;
pub mod indices;
pub mod kernels;
pub mod metrics;
pub mod plan;
pub mod reading;
pub mod report;
pub mod session;
pub mod text;
