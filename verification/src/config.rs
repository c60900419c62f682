//! The application configuration. Serialised as JSON; every field has a
//! default so that a partial file works.

use vstd::prelude::*;

verus! {

/// The backend to use.
#[derive(Debug, Clone, Copy, PartialEq, Eq, Structural)]
pub enum Backend {
    /// beads (the `bd` command-line tool).
    Beads,
    /// backlog.md (the `backlog` command-line tool).
    Backlog,
    /// In memory (no backend; demos and tests).
    Memory,
}

/// The name of a backend as configuration and command line spell it.
pub open spec fn backend_name_s(b: Backend) -> Seq<char> {
    match b {
        Backend::Beads => "beads"@,
        Backend::Backlog => "backlog"@,
        Backend::Memory => "memory"@,
    }
}

impl Backend {
    pub fn as_str(self) -> (r: &'static str)
        ensures
            r@ == backend_name_s(self),
    {
        match self {
            Backend::Beads => "beads",
            Backend::Backlog => "backlog",
            Backend::Memory => "memory",
        }
    }
}

impl Default for Backend {
    fn default() -> (r: Backend)
        ensures
            r == Backend::Beads,
    {
        Backend::Beads
    }
}

/// The view shown at start: the task list or the status board.
#[derive(Debug, Clone, Copy, PartialEq, Eq, Structural)]
pub enum ViewMode {
    List,
    Board,
}

impl Default for ViewMode {
    fn default() -> (r: ViewMode)
        ensures
            r == ViewMode::List,
    {
        ViewMode::List
    }
}

/// Settings of the beads backend.
#[derive(Debug, Clone)]
pub struct BeadsConfig {
    /// The beads database directory; `None` follows the working directory
    /// and the `BEADS_DIR` environment variable.
    pub dir: Option<String>,
}

impl Default for BeadsConfig {
    fn default() -> (r: BeadsConfig)
        ensures
            r.dir is None,
    {
        BeadsConfig { dir: None }
    }
}

/// Settings of the backlog.md backend.
#[derive(Debug, Clone)]
pub struct BacklogConfig {
    /// The backlog.md project path; `None` is the working directory.
    pub project_path: Option<String>,
}

impl Default for BacklogConfig {
    fn default() -> (r: BacklogConfig)
        ensures
            r.project_path is None,
    {
        BacklogConfig { project_path: None }
    }
}

/// Settings of the terminal front end.
#[derive(Debug, Clone)]
pub struct UiConfig {
    pub default_view: ViewMode,
}

impl Default for UiConfig {
    fn default() -> (r: UiConfig)
        ensures
            r.default_view == ViewMode::List,
    {
        UiConfig { default_view: ViewMode::List }
    }
}

/// The whole configuration.
#[derive(Debug, Clone)]
pub struct Config {
    pub backend: Backend,
    pub beads: BeadsConfig,
    pub backlog: BacklogConfig,
    pub ui: UiConfig,
}

impl Default for Config {
    /// The defaults: the beads backend, no directories, the list view.
    fn default() -> (r: Config)
        ensures
            r.backend == Backend::Beads,
            r.beads.dir is None,
            r.backlog.project_path is None,
            r.ui.default_view == ViewMode::List,
    {
        Config {
            backend: Backend::Beads,
            beads: BeadsConfig { dir: None },
            backlog: BacklogConfig { project_path: None },
            ui: UiConfig { default_view: ViewMode::List },
        }
    }
}

} // verus!
