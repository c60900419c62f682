//! Where the configuration file lives. The path is the one given on the
//! command line; else `$TASKR_CONFIG` when set and non-empty; else
//! `taskr/config.json` under the XDG configuration directory (on macOS too).
//! Reading the environment and the file system is the caller's.

use vstd::prelude::*;

use crate::error::{Error, ErrorView};
use crate::text::{opt_string_view, push_str};

verus! {

/// The default configuration path: a non-empty `$TASKR_CONFIG`, else the XDG
/// path, else the reason the home directory could not be found, as a
/// configuration error.
pub open spec fn default_config_path_s(env_value: Option<Seq<char>>, xdg_path: Result<Seq<char>, Seq<char>>) -> Result<Seq<char>, ErrorView> {
    match env_value {
        Some(p) if p.len() > 0 => Ok(p),
        _ => match xdg_path {
            Ok(p) => Ok(p),
            Err(reason) => Err(ErrorView::Config("홈 디렉터리 해석 실패: "@ + reason)),
        },
    }
}

/// The view of a result that carries a string or a reason.
pub open spec fn reason_result_view(r: Result<String, String>) -> Result<Seq<char>, Seq<char>> {
    match r {
        Ok(s) => Ok(s@),
        Err(e) => Err(e@),
    }
}

/// The default configuration path, from the value of `$TASKR_CONFIG` and the
/// XDG path (or the reason there is none).
pub fn default_config_path(env_value: Option<String>, xdg_path: Result<String, String>) -> (r: Result<String, Error>)
    ensures
        crate::adapters::memory::string_result_view(r) == default_config_path_s(
            opt_string_view(env_value),
            reason_result_view(xdg_path),
        ),
{
    match env_value {
        Some(p) => {
            if !p.as_str().is_empty() {
                return Ok(p);
            }
        },
        None => {},
    }
    match xdg_path {
        Ok(p) => Ok(p),
        Err(reason) => {
            let mut m = String::new();
            push_str(&mut m, "홈 디렉터리 해석 실패: ");
            push_str(&mut m, reason.as_str());
            Err(Error::Config(m))
        },
    }
}

/// The configuration file store: where the file is.
pub struct FileConfigStore {
    path: String,
}

impl FileConfigStore {
    /// The path of the configuration file.
    pub closed spec fn path_s(&self) -> Seq<char> {
        self.path@
    }

    /// The store at `explicit` when given, else at the default path.
    pub fn new(explicit: Option<String>, env_value: Option<String>, xdg_path: Result<String, String>) -> (r: Result<FileConfigStore, Error>)
        ensures
            explicit matches Some(p) ==> r matches Ok(s) && s.path_s() == p@,
            explicit is None ==> match default_config_path_s(opt_string_view(env_value), reason_result_view(xdg_path)) {
                Ok(p) => r matches Ok(s) && s.path_s() == p,
                Err(e) => r matches Err(x) && x@ == e,
            },
    {
        let path = match explicit {
            Some(p) => p,
            None => default_config_path(env_value, xdg_path)?,
        };
        Ok(FileConfigStore { path })
    }

    /// The path of the configuration file.
    pub fn path(&self) -> (r: &str)
        ensures
            r@ == self.path_s(),
    {
        self.path.as_str()
    }
}

} // verus!
