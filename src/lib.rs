//! Runs one command in every project directory of a directory tree.
//!
//! The library holds the decisions: how a command is launched and judged
//! (`command`), and the depth-bounded, pre-order walk with its error policy
//! (`walk`). The caller performs the file-system probes, the listings and the
//! process launches that the walk asks for.

pub mod command;
pub mod config;
pub mod walk;
