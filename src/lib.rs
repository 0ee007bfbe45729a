//! Liveness checks over a set of hosts: each host gets its own bounded retry
//! loop with a fixed pause after every failed probe, and the run reports, in
//! input order, which hosts are healthy.
//!
//! The library holds the decisions; the driver performs the probes and the
//! sleeps that the loops ask for and hands back what happened.
pub mod config;
pub mod dur;
pub mod health_check;
pub mod retry;
