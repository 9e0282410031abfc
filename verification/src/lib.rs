//! Coppo: a package-manager front end for C++ projects.
//!
//! The crate is organised around four pieces:
//! - a configuration model for the project manifest (`config`, `manifest`),
//! - a leveled console logger with a global quiet flag (`logger`),
//! - the addon contract that every subcommand implements (`addon`),
//! - the dispatcher that routes one invocation to one addon (`cli`).

pub mod addon;
pub mod build_addon;
pub mod builtin;
pub mod cli;
pub mod cli_args;
pub mod config;
pub mod logger;
pub mod manifest;
pub mod new_addon;

use vstd::prelude::*;

verus! {

/// The manifest lives under this name in the project root.
pub const CONFIG_FILE: &'static str = "Coppo.toml";

} // verus!
