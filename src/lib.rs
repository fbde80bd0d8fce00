//! Workspace membership for Cargo: the `workspace.members` and
//! `workspace.exclude` lists of a root manifest, how each `cargo member`
//! operation changes them, and the directory work that goes with it.

pub mod cli;
pub mod error;
pub mod locate;
pub mod membership;
pub mod ops;
pub mod path;
pub mod project;

