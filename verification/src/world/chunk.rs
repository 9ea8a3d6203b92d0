//! A chunk: 16 by 16 columns of 128 blocks, one byte per block.

use vstd::prelude::*;
use crate::math::position::{LocalPos, law_index_is_bijective};

verus! {

/// Number of blocks in a chunk.
pub const CHUNK_VOLUME: usize = 32768;

/// Chunk data: its chunk coordinates and its block ids, indexed by
/// `LocalPos::to_index`.
pub struct Chunk {
    pub x: i32,
    pub z: i32,
    pub blocks: [u8; 32768],
}

impl Chunk {
    /// The block ids of the chunk.
    pub open spec fn spec_blocks(&self) -> Seq<u8> {
        self.blocks@
    }

    /// The block at an in-bounds local position.
    pub open spec fn spec_block_at(&self, pos: LocalPos) -> u8 {
        self.blocks@[pos.spec_raw_index() as int]
    }

    /// Creates a chunk of air (all blocks 0) at the given chunk coordinates.
    pub fn new(x: i32, z: i32) -> (c: Self)
        ensures
            c.x == x,
            c.z == z,
            c.blocks@.len() == CHUNK_VOLUME,
            forall|i: int| 0 <= i < CHUNK_VOLUME ==> c.blocks@[i] == 0,
    {
        let c = Chunk { x, z, blocks: [0u8; 32768] };
        assert(c.blocks@.len() == CHUNK_VOLUME);
        c
    }

    /// The block at a local position. The position's index must lie inside
    /// the block array (indexing past it panics).
    pub fn get_block(&self, pos: LocalPos) -> (b: u8)
        requires
            pos.spec_raw_index() < CHUNK_VOLUME,
        ensures
            b == self.blocks@[pos.spec_raw_index() as int],
    {
        let i = pos.to_index();
        self.blocks[i]
    }

    /// Sets the block at a local position; returns whether the stored id
    /// changed. Nothing else in the chunk changes.
    pub fn set_block(&mut self, pos: LocalPos, block_id: u8) -> (changed: bool)
        requires
            pos.spec_raw_index() < CHUNK_VOLUME,
        ensures
            final(self).x == old(self).x,
            final(self).z == old(self).z,
            final(self).blocks@ == old(self).blocks@.update(pos.spec_raw_index() as int, block_id),
            changed == (old(self).blocks@[pos.spec_raw_index() as int] != block_id),
    {
        let index = pos.to_index();
        if self.blocks[index] != block_id {
            self.blocks[index] = block_id;
            true
        } else {
            proof {
                assert(old(self).blocks@.update(index as int, block_id) =~= old(self).blocks@);
            }
            false
        }
    }
}

/// Reading a block back gives what was last written there, and a write
/// leaves every other position of the chunk as it was.
pub proof fn law_chunk_read_after_write(
    before: Chunk,
    after: Chunk,
    pos: LocalPos,
    block_id: u8,
    other: LocalPos,
)
    requires
        pos.in_bounds(),
        other.in_bounds(),
        before.blocks@.len() == CHUNK_VOLUME,
        after.blocks@ == before.blocks@.update(pos.spec_raw_index() as int, block_id),
    ensures
        after.spec_block_at(pos) == block_id,
        other != pos ==> after.spec_block_at(other) == before.spec_block_at(other),
{
    pos.lemma_raw_index();
    other.lemma_raw_index();
    law_index_is_bijective(pos, other);
}

} // verus!
