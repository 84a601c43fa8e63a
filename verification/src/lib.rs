//! Locate files inside software-package archives and report or stream them.
//!
//! The library holds the verified core of the tool: the filename matcher
//! (literal set or regular-expression set), the single-pass archive-entry
//! state machine, the target-classification rules, and the aggregation of
//! per-archive statuses into a process exit status. Reading archives,
//! talking to the package database, fetching URLs and writing to the
//! terminal are left to the thin binary around the library.

pub mod args;
pub mod matcher;
pub mod resolver;
pub mod scanner;
pub mod status;
