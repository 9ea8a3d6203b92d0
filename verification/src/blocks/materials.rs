//! Block materials: how a kind of block behaves physically and visually.

use vstd::prelude::*;

verus! {

/// A block material.
pub struct BlockMaterial {
    pub name: String,
    pub solid: bool,
    pub transparent: bool,
}

impl BlockMaterial {
    /// Creates a material with the given name and properties.
    pub fn new(name: &str, solid: bool, transparent: bool) -> (r: Self)
        ensures
            r.name@ == name@,
            r.solid == solid,
            r.transparent == transparent,
    {
        BlockMaterial { name: name.to_owned(), solid, transparent }
    }
}

} // verus!
