//! Finding, checking and selecting Windows packages in a local clone of the
//! winget package repository.
pub mod cli;
pub mod error;
pub mod install;
pub mod install_flow;
pub mod listing;
pub mod package;
pub mod schema;
pub mod search;
pub mod settings;
pub mod text;
pub mod version;
