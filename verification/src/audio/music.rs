//! Background music state.

use vstd::prelude::*;

verus! {

/// Music system: holds what the game knows about background music.
pub struct MusicSystem {}

impl MusicSystem {
    /// Creates the music system.
    pub fn new() -> (r: Self) {
        MusicSystem {}
    }
}

impl Default for MusicSystem {
    fn default() -> (r: Self) {
        MusicSystem::new()
    }
}

} // verus!
