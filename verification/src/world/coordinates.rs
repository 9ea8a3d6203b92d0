//! Conversions between world and chunk coordinates.

use vstd::prelude::*;
use crate::math::position::{WorldPos, ChunkPos, chunk_coord, lemma_split_coord};

verus! {

/// Coordinate conversion utilities.
pub struct CoordinateUtils;

/// The world coordinate of a chunk's first column (a left shift by 4).
pub open spec fn chunk_origin(c: i32) -> i32 {
    c << 4
}

/// Shifting left by 4 multiplies by 16 when the product fits.
pub proof fn lemma_chunk_origin(c: i32)
    requires
        -134217728 <= c < 134217728,
    ensures
        chunk_origin(c) == c * 16,
{
    assert(-134217728 <= c < 134217728 ==> (c << 4) as int == c as int * 16) by (bit_vector);
}

impl CoordinateUtils {
    /// Converts world coordinates to the coordinates of the chunk that
    /// holds them.
    pub fn world_to_chunk(world_pos: WorldPos) -> (c: ChunkPos)
        ensures
            c == world_pos.spec_to_chunk_pos(),
            c.x == (world_pos.x as int) / 16,
            c.z == (world_pos.z as int) / 16,
    {
        proof {
            lemma_split_coord(world_pos.x);
            lemma_split_coord(world_pos.z);
        }
        ChunkPos::new(world_pos.x >> 4, world_pos.z >> 4)
    }

    /// Converts chunk coordinates to the world coordinates of the chunk's
    /// first column, at height 0.
    pub fn chunk_to_world(chunk_pos: ChunkPos) -> (w: WorldPos)
        ensures
            w.x == chunk_origin(chunk_pos.x),
            w.y == 0,
            w.z == chunk_origin(chunk_pos.z),
    {
        WorldPos::new(chunk_pos.x << 4, 0, chunk_pos.z << 4)
    }
}

/// Going from a chunk to its origin and back gives the same chunk, for
/// every chunk whose origin fits an `i32`.
pub proof fn law_chunk_to_world_to_chunk(c: ChunkPos)
    requires
        -134217728 <= c.x < 134217728,
        -134217728 <= c.z < 134217728,
    ensures
        chunk_coord(chunk_origin(c.x)) == c.x,
        chunk_coord(chunk_origin(c.z)) == c.z,
{
    lemma_chunk_origin(c.x);
    lemma_chunk_origin(c.z);
    lemma_split_coord(chunk_origin(c.x));
    lemma_split_coord(chunk_origin(c.z));
}

/// The origin of the chunk that holds a world position lies at most 15
/// blocks before it, on both horizontal axes.
pub proof fn law_world_to_chunk_origin(w: WorldPos)
    ensures
        chunk_origin(chunk_coord(w.x)) <= w.x < chunk_origin(chunk_coord(w.x)) + 16,
        chunk_origin(chunk_coord(w.z)) <= w.z < chunk_origin(chunk_coord(w.z)) + 16,
{
    lemma_split_coord(w.x);
    lemma_split_coord(w.z);
    let wx = w.x;
    let wz = w.z;
    assert(-134217728 <= wx >> 4 < 134217728) by (bit_vector);
    assert(-134217728 <= wz >> 4 < 134217728) by (bit_vector);
    lemma_chunk_origin(chunk_coord(w.x));
    lemma_chunk_origin(chunk_coord(w.z));
}

} // verus!
