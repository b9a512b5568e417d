//! The logic of `aks-tui`, a terminal browser for the pods of AKS clusters:
//! what a pod is, when a cluster is asked about one, what the keys do and
//! what every pane says. Nothing here touches the terminal, a process, a
//! file or a clock beyond the one call that stamps a read.

pub mod app;
pub mod cache;
pub mod cli;
pub mod columns;
pub mod config;
pub mod doctor;
pub mod filter;
pub mod input;
pub mod json;
pub mod kube;
pub mod run;
pub mod search;
pub mod session;
pub mod store;
pub mod text;
pub mod text_input;
pub mod timestamp;
pub mod ui;
