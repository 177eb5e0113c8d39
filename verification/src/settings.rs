//! Launcher settings: the run mode, where the settings file lives, and how
//! two warnings are reported together.

use vstd::prelude::*;
use vstd::string::*;

use crate::paths::{join, path_join};
use crate::text::concat;

verus! {

/// How verbose the launcher's log is.
#[derive(Clone, Copy, Debug, PartialEq, Eq, Structural)]
pub enum AppMode {
    Release,
    Debug,
}

impl Default for AppMode {
    fn default() -> (r: Self)
        ensures
            r == AppMode::Release,
    {
        AppMode::Release
    }
}

/// The launcher's settings.
#[derive(Clone, Copy, Debug, PartialEq, Eq, Structural)]
pub struct Settings {
    pub mode: AppMode,
}

impl Default for Settings {
    fn default() -> (r: Self)
        ensures
            r.mode == AppMode::Release,
    {
        Settings { mode: AppMode::Release }
    }
}

impl Settings {
    /// The settings file: `settings.json` in `app_dir`.
    pub fn path(app_dir: &str) -> (r: String)
        ensures
            r@ == path_join(app_dir@, "settings.json"@),
    {
        join(app_dir, "settings.json")
    }
}

/// Two optional warnings reported as one: both on separate lines, or the
/// one there is, or nothing.
pub fn combine_warnings(first: Option<String>, second: Option<String>) -> (r: Option<String>)
    ensures
        match (first, second) {
            (Some(a), Some(b)) => r matches Some(w) && w@ == a@ + "\n"@ + b@,
            (Some(a), None) => r == Some(a),
            (None, Some(b)) => r == Some(b),
            (None, None) => r is None,
        },
{
    match (first, second) {
        (Some(first), Some(second)) => {
            let joined = concat(first.as_str(), "\n");
            Some(concat(joined.as_str(), second.as_str()))
        },
        (Some(first), None) => Some(first),
        (None, Some(second)) => Some(second),
        (None, None) => None,
    }
}

} // verus!
