//! Execution core of a host-availability monitor: a realm of services is
//! expanded into work items, each item is probed by its checker, and the
//! outcomes are reduced into a deterministic report.
pub mod checkers;
pub mod config;
pub mod dispatch;
pub mod engine;
pub mod report;
pub mod run;
