//! Reader state for NBT-encoded data.

use vstd::prelude::*;

verus! {

/// NBT parser.
pub struct NbtParser {}

impl NbtParser {
    /// Creates a parser.
    pub fn new() -> (r: Self) {
        NbtParser {}
    }
}

impl Default for NbtParser {
    fn default() -> (r: Self) {
        NbtParser::new()
    }
}

} // verus!
