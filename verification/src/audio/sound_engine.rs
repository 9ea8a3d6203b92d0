//! Sound effect state.

use vstd::prelude::*;

verus! {

/// Sound engine: holds what the game knows about sound effects.
pub struct SoundEngine {}

impl SoundEngine {
    /// Creates the sound engine.
    pub fn new() -> (r: Self) {
        SoundEngine {}
    }
}

impl Default for SoundEngine {
    fn default() -> (r: Self) {
        SoundEngine::new()
    }
}

} // verus!
