//! The commands of the command line tool, as plain values.
use vstd::prelude::*;

verus! {

/// What the tool is asked to do.
#[derive(Clone, Debug)]
pub enum Commands {
    /// Save the configuration.
    Init(Init),
    /// Install packages.
    Install(Install),
    /// Upgrade packages.
    Upgrade(Upgrade),
    /// Remove packages.
    Remove(Remove),
    /// Search packages.
    Search(Search),
}

/// Saves the local path of the winget-pkgs repository.
#[derive(Clone, Debug)]
pub struct Init {
    pub repo_path: String,
}

/// Installs packages, optionally of a version meeting a requirement.
#[derive(Clone, Debug)]
pub struct Install {
    pub packages: Vec<String>,
    pub repo_path: Option<String>,
    pub version: Option<String>,
    pub no_update: bool,
    pub wine: String,
}

/// Removes packages.
#[derive(Clone, Debug)]
pub struct Remove {
    pub packages: Vec<String>,
}

/// Upgrades packages.
#[derive(Clone, Debug)]
pub struct Upgrade {
    pub packages: Vec<String>,
}

/// Searches vendors and packages by a part of their path.
#[derive(Clone, Debug)]
pub struct Search {
    pub search_string: String,
    pub repo_path: Option<String>,
}

} // verus!
