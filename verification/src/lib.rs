//! Core library of a local music player: a verified model of the playback
//! actor (state machine, command protocol and volume control), the duration
//! prober's tolerance policy, library and playlist bookkeeping, album name
//! normalization, and small formatting utilities.

use vstd::prelude::*;

pub mod audio;
pub mod text;
pub mod utils;
pub mod albums;
mod ids;
pub mod library;
pub mod playlist;
pub mod api;
pub mod config;

verus! {

/// The application name
pub const APP_NAME: &'static str = "Hexendrum";

/// The current version of the library
pub const VERSION: &'static str = "0.1.0";

} // verus!
