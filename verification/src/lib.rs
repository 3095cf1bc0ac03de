//! The rules of a periodic download runner: how declared profiles and
//! downloads become a checked job set, how each job becomes one call of the
//! download tool, how failures are kept apart and recorded, and how long the
//! runner waits between two cycles.
//!
//! Nothing here touches the file system, the network or a process. Whoever
//! drives a cycle hands in three functions: one that loads the configuration,
//! one that fetches a remote job source, and one that launches a job.

pub mod config;
pub mod cycle;
pub mod exec;
pub mod one_or_many;
pub mod remote;
pub mod resolve;
pub mod run;
pub mod schedule;
