//! The block registry: the names of the block kinds the world knows by name.

use vstd::prelude::*;

verus! {

/// The id that `name` stands for in the registry, if it names a block.
pub open spec fn registered_block_id(name: Seq<char>) -> Option<u8> {
    if name == "air"@ {
        Some(0u8)
    } else if name == "stone"@ {
        Some(1u8)
    } else if name == "grass"@ {
        Some(3u8)
    } else if name == "dirt"@ {
        Some(2u8)
    } else {
        None
    }
}

/// Whether two strings hold the same characters.
fn same_text(a: &str, b: &str) -> (r: bool)
    ensures
        r == (a@ == b@),
{
    let left = a.to_owned();
    let right = b.to_owned();
    left == right
}

/// Block registry: maps block names to block ids.
pub struct BlockRegistry {}

impl BlockRegistry {
    /// Creates the registry.
    pub fn new() -> (r: Self) {
        BlockRegistry {}
    }

    /// The id of the block called `name`, or `None` for a name that is not
    /// registered.
    pub fn get_block_id(&self, name: &str) -> (r: Option<u8>)
        ensures
            r == registered_block_id(name@),
    {
        if same_text(name, "air") {
            Some(0)
        } else if same_text(name, "stone") {
            Some(1)
        } else if same_text(name, "grass") {
            Some(3)
        } else if same_text(name, "dirt") {
            Some(2)
        } else {
            None
        }
    }
}

} // verus!
