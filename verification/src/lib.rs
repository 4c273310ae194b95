//! The verified core of an interactive command shell: command-line text
//! handling, builtin command tables, argument validation, completion,
//! command history and the planning of pipelines.

pub mod command;
pub mod complete;
pub mod control;
pub mod error;
pub mod fmt;
pub mod fs;
pub mod history;
pub mod keyboard;
pub mod rule;
pub mod runner;
pub mod structure;
pub mod text;
