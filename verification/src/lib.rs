//! A local pipeline runner: named pipelines of ordered steps and shell
//! commands, a monotonic run-status state machine, trigger matching on
//! version-control context, and append-only JSON-line run logs used to
//! discover and stop running pipelines.

pub mod status;
pub mod text;
pub mod hook;
pub mod error;
pub mod cast;
pub mod types;
pub mod wrappers;
pub mod json;
pub mod logs;
pub mod runner;
pub mod service;
