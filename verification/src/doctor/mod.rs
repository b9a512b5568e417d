//! `aks-tui doctor` and `aks-tui setup`: the two subcommands, and the only
//! place `az` is run.
//!
//! Neither runs a program itself. Each is a walk through a list of calls: it
//! says which one is next, and what to print once that one has ended.

pub mod check;
pub mod report;
pub mod setup;

pub use check::Doctor;
pub use setup::{cluster_block, is_system_namespace, Cluster, Setup};
