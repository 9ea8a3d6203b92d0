//! Light levels of blocks.

use vstd::prelude::*;

verus! {

/// The brightest light level a block can have.
pub const FULL_LIGHT: u8 = 15;

/// Light system: answers the light level at a block.
pub struct LightSystem {}

impl LightSystem {
    /// Creates the light system.
    pub fn new() -> (r: Self) {
        LightSystem {}
    }

    /// The light level at a block: every block is fully lit.
    pub fn calculate_light(&self, block_x: i32, block_y: i32, block_z: i32) -> (r: u8)
        ensures
            r == FULL_LIGHT,
    {
        FULL_LIGHT
    }
}

impl Default for LightSystem {
    fn default() -> (r: Self) {
        LightSystem::new()
    }
}

} // verus!
