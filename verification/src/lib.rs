//! Keeps one kernel routing table in step with published address-block lists.
//!
//! The crate holds the decisions of the tool as verified state machines: a
//! driver performs the outside work (HTTP fetches, netlink calls, timers) that
//! each machine asks for and reports back what happened.

pub mod route;
pub mod fanout;
pub mod request;
pub mod reconcile;
pub mod kernel;
pub mod parser;
pub mod url;
pub mod cli;
pub mod update;
pub mod periodic;
pub mod program;
