//! A process-local file logger whose log files carry a run index.
//!
//! Every run of a program resolves one run index: the value found in the
//! environment or in the counter file, plus one. Log lines are appended to
//! files named after the log, the run index and an extension.
//!
//! This crate holds the rules: how a run index is read and written as text,
//! how it is resolved and advanced, which file a record goes to and which
//! bytes are appended. Reading the environment and touching files is left to
//! the caller, who hands in what was read and carries out what comes back.

pub mod decimal;
pub mod logger;
pub mod run_index;

pub use logger::{index, log, DEFAULT_EXTENSION};
pub use run_index::{Append, Index, Startup, FILE_LOG_INDEX_ENV_VAR, INDEX, UNREADABLE};
