//! Verified core of a file-aggregation tool: it resolves a configuration
//! (legacy fields or a named profile) into a set of files, filters a
//! directory walk, and assembles the file contents into one annotated
//! text blob destined for the clipboard.
//!
//! All decisions live here, fully specified; the thin binary around this
//! library performs the file, process, environment and clipboard I/O.

pub mod assemble;
pub mod collect;
pub mod config;
pub mod error;
pub mod expand;
pub mod tree;
