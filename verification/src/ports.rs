//! The ports of the core: the store abstraction that backends implement, and
//! the use-case surface that the terminal front end calls.

use vstd::prelude::*;

use crate::domain::model::{Filter, NewTask, Status, Task, TaskPatch};
use crate::error::Error;

verus! {

/// Outbound port: what the core needs from a task store (the `bd` and
/// `backlog` command-line tools, or the in-memory store).
pub trait TaskRepository {
    /// Name of the backend (shown in the status bar).
    fn name(&self) -> &str;

    fn list(&self, filter: &Filter) -> Result<Vec<Task>, Error>;

    fn get(&self, id: &str) -> Result<Task, Error>;

    fn create(&mut self, task: &NewTask) -> Result<String, Error>;

    fn update(&mut self, id: &str, patch: &TaskPatch) -> Result<(), Error>;

    fn set_status(&mut self, id: &str, status: Status) -> Result<(), Error>;

    fn delete(&mut self, id: &str) -> Result<(), Error>;
}

/// Inbound port: the use cases the terminal front end calls.
pub trait TaskApi {
    fn backend_name(&self) -> &str;

    fn list(&self, filter: &Filter) -> Result<Vec<Task>, Error>;

    fn get(&self, id: &str) -> Result<Task, Error>;

    fn create(&mut self, task: &NewTask) -> Result<String, Error>;

    fn update(&mut self, id: &str, patch: &TaskPatch) -> Result<(), Error>;

    fn set_status(&mut self, id: &str, status: Status) -> Result<(), Error>;

    fn delete(&mut self, id: &str) -> Result<(), Error>;
}

} // verus!
