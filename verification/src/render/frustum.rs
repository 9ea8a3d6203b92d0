//! View-frustum culling of block positions.

use vstd::prelude::*;
use crate::math::position::WorldPos;

verus! {

/// The view frustum. No planes are tracked yet, so every position counts as
/// inside it.
pub struct Frustum {}

impl Frustum {
    /// Creates a frustum.
    pub fn new() -> (r: Self) {
        Frustum {}
    }

    /// Whether a position is inside the frustum: always.
    pub fn contains(&self, pos: WorldPos) -> (r: bool)
        ensures
            r,
    {
        true
    }
}

} // verus!
