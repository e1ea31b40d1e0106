//! Core of a small game engine: an archive-backed asset loader that serves
//! read requests from a worker, a dispatcher that defers work bound to the
//! rendering context until that context is active, and a barrier that waits
//! for a set of asynchronous loads before a dependent build step.

pub mod archive;
pub mod channel;
pub mod data;
pub mod error;
pub mod paths;
pub mod render;
pub mod text;

use vstd::prelude::*;

verus! {

/// The name of the archive that holds the game's data.
pub const DATA_FILENAME: &'static str = "arena-builder.pk3";

pub const GAME_ID: &'static str = "arena-builder";

pub const GAME_TITLE: &'static str = "ArenaBuilder";

/// Parsed command line arguments.
pub struct Args {
    /// Where the data archive lies, if not beside the executable.
    pub data_path: Option<std::path::PathBuf>,
}

} // verus!
