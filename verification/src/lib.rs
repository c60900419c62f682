//! Task-management core: a backend-neutral task model, the service rules that
//! sit on top of any task store, an in-memory store, the text formats of the
//! `bd` and `backlog` command-line tools, and the list-navigation state of the
//! terminal front end.

pub mod text;
pub mod domain;
pub mod error;
pub mod ports;
pub mod adapters;
pub mod config;
