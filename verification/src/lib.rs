//! A library for discovering build-tool projects under a directory, measuring
//! the disk space taken by their build artifacts, and driving bulk operations
//! (statistics, cleaning, re-running a build tool command) over them.
//!
//! Filesystem contents are represented as explicit values: callers read the
//! disk, build these values, and get back fully specified results. Likewise,
//! external commands are represented by their outcomes: callers run the
//! processes and hand the per-project exit statuses back to be aggregated.

pub mod cli;
pub mod commands;
pub mod data;
pub mod extensions;
pub mod text;
pub mod utility;
