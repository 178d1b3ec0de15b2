//! A local process manager's supervisor logic: the data model of managed
//! applications, the per-process state machine, restart and limit policies,
//! cluster and reload protocols, and the text formats around them.

pub mod appspec;
pub mod check;
pub mod cli;
pub mod commands;
pub mod config;
pub mod constants;
pub mod error;
pub mod handlers;
pub mod health;
pub mod history;
pub mod hooks;
pub mod ipc;
pub mod logs;
pub mod metrics;
pub mod notify;
pub mod output;
pub mod process;
pub mod registry;
pub mod runners;
pub mod runtime;
pub mod seqs;
pub mod supervisor;
pub mod text;
pub mod tui;
pub mod types;
pub mod watch;
pub mod web;
