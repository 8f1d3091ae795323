//! Practice environments for tool-assisted speedruns of a game.
//!
//! The library decides and the caller acts: it is told what lies on disk
//! and which processes run, and it answers with the arguments of the game,
//! the processes to start, the links to make and the files to copy. It
//! holds the catalogue of installed games, the composition of the game's
//! arguments, the supervision of several instances, the linking of
//! scripts into two installations, and the reconciliation of their save
//! files.

use vstd::prelude::*;

pub mod cfg;
pub mod commands;
pub mod files;
pub mod helper;
pub mod project_toml;
pub mod text;

verus! {

/// Name of the tool; the configuration file is named after it.
pub const NAME: &'static str = "hltas_manager";

/// Game that is selected when none is named.
pub const DEFAULT_GAME: &'static str = "valve";

} // verus!
