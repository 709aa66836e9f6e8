//! Finds files that are safe candidates for deletion, classifies them, and
//! decides which of them may be removed.
//!
//! The library holds the rules: what each scanner reports from what a walk of
//! the file system observed, how the reports are merged into one result
//! without repeated paths, which files are duplicates of which, when a cached
//! result may be reused, and which paths may be deleted at all. Walking the
//! file system, reading files, and removing them is left to the caller, who
//! hands the library plain observations and carries out its decisions.

pub mod analyzer;
pub mod bridge;
pub mod cleaner;
pub mod cli;
pub mod config;
pub mod digest;
pub mod lexical;
pub mod path;
pub mod ranking;
pub mod scan_cache;
pub mod scanner;
pub mod sorting;
pub mod space;
pub mod text;
pub mod time;
pub mod ui;
