//! Coordination core of a parallel command runner.
//!
//! A fixed pool of workers pulls command lines from a single ordered source
//! and hands each to a process executor. The pieces here are the decisions
//! of that protocol, free of threads and processes:
//!
//! - [`source`]: the ordered, one-shot list of commands;
//! - [`barrier`]: the rendezvous before the first request;
//! - [`signal`]: what workers tell the dispatcher;
//! - [`worker`]: the request-and-execute cycle of one worker;
//! - [`tracker`]: the count of workers still active;
//! - [`dispatcher`]: the coordinator that serves requests and ends the run;
//! - [`config`]: how the number of workers is settled.
//!
//! [`protocol`] puts dispatcher and workers together into a transition
//! system, [`safety`] holds its invariant, and [`guarantees`] states what
//! every run of it guarantees.

pub mod barrier;
pub mod config;
pub mod dispatcher;
pub mod guarantees;
pub mod protocol;
pub mod safety;
pub mod signal;
pub mod source;
pub mod tracker;
pub mod worker;
