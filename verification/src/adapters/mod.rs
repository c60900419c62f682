//! Adapters: the in-memory store, the text protocols of the `bd` and
//! `backlog` command-line tools, configuration-path rules, and the
//! navigation state of the terminal front end.

pub mod backlog;
pub mod beads;
pub mod cli;
pub mod config_file;
pub mod memory;
pub mod tui;
