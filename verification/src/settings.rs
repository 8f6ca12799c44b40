//! The tool's saved configuration.
use vstd::prelude::*;

verus! {

/// The saved configuration: where the local winget-pkgs repository is.
#[derive(Clone, Debug)]
pub struct Settings {
    pub repo_path: String,
}

impl Default for Settings {
    /// No repository path.
    fn default() -> (r: Settings)
        ensures
            r.repo_path@.len() == 0,
    {
        Settings { repo_path: String::new() }
    }
}

} // verus!
