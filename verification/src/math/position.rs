//! Block, world, chunk and chunk-local coordinates.

use vstd::prelude::*;
use crate::math::text::{triple_string, pair_string, triple_text, pair_text};

verus! {

/// Immutable 3D block coordinate packed into one integer.
///
/// Packing format: bits 0..10 hold X, bits 10..20 hold Y, bits 20..30 hold Z.
#[derive(Debug, Clone, Copy, PartialEq, Eq, Hash, Structural)]
pub struct Position {
    packed: i32,
}

/// The X field of a packed coordinate.
pub open spec fn packed_x(p: i32) -> i32 {
    p & 0x3FF
}

/// The Y field of a packed coordinate.
pub open spec fn packed_y(p: i32) -> i32 {
    (p >> 10) & 0x3FF
}

/// The Z field of a packed coordinate.
pub open spec fn packed_z(p: i32) -> i32 {
    (p >> 20) & 0x3FF
}

/// Whether a value fits one 10-bit coordinate field.
pub open spec fn in_field_range(v: int) -> bool {
    0 <= v < 1024
}

/// Absolute value on mathematical integers.
pub open spec fn abs_int(v: int) -> int {
    if v < 0 { -v } else { v }
}

proof fn lemma_pack_fields(x: i32, y: i32, z: i32)
    requires
        0 <= x < 1024,
        0 <= y < 1024,
        0 <= z < 1024,
    ensures
        ({
            let p = x | (y << 10) | (z << 20);
            &&& p == x + y * 1024 + z * 1048576
            &&& packed_x(p) == x
            &&& packed_y(p) == y
            &&& packed_z(p) == z
        }),
{
    assert({
        let p = x | (y << 10) | (z << 20);
        &&& p == x + y * 1024 + z * 1048576
        &&& p & 0x3FF == x
        &&& (p >> 10) & 0x3FF == y
        &&& (p >> 20) & 0x3FF == z
    }) by (bit_vector)
        requires
            0 <= x < 1024,
            0 <= y < 1024,
            0 <= z < 1024,
    ;
}

proof fn lemma_field_bounds(p: i32)
    ensures
        0 <= packed_x(p) < 1024,
        0 <= packed_y(p) < 1024,
        0 <= packed_z(p) < 1024,
{
    assert(0 <= p & 0x3FF < 1024) by (bit_vector);
    assert(0 <= (p >> 10) & 0x3FF < 1024) by (bit_vector);
    assert(0 <= (p >> 20) & 0x3FF < 1024) by (bit_vector);
}

impl Position {
    /// The packed integer.
    pub closed spec fn spec_packed(&self) -> i32 {
        self.packed
    }

    /// The X coordinate as the accessor computes it.
    pub open spec fn spec_x(&self) -> i32 {
        packed_x(self.spec_packed())
    }

    /// The Y coordinate as the accessor computes it.
    pub open spec fn spec_y(&self) -> i32 {
        packed_y(self.spec_packed())
    }

    /// The Z coordinate as the accessor computes it.
    pub open spec fn spec_z(&self) -> i32 {
        packed_z(self.spec_packed())
    }

    /// Creates a position from three coordinates, each in `0..1024`.
    pub fn new(x: i32, y: i32, z: i32) -> (pos: Self)
        requires
            in_field_range(x as int),
            in_field_range(y as int),
            in_field_range(z as int),
        ensures
            pos.spec_packed() == x + y * 1024 + z * 1048576,
            pos.spec_x() == x,
            pos.spec_y() == y,
            pos.spec_z() == z,
    {
        proof {
            lemma_pack_fields(x, y, z);
        }
        let packed = x | (y << 10) | (z << 20);
        Position { packed }
    }

    /// The X coordinate (bits 0..10 of the packed value).
    pub fn x(&self) -> (r: i32)
        ensures
            r == self.spec_x(),
            0 <= r < 1024,
    {
        proof {
            lemma_field_bounds(self.packed);
        }
        self.packed & 0x3FF
    }

    /// The Y coordinate (bits 10..20 of the packed value).
    pub fn y(&self) -> (r: i32)
        ensures
            r == self.spec_y(),
            0 <= r < 1024,
    {
        proof {
            lemma_field_bounds(self.packed);
        }
        (self.packed >> 10) & 0x3FF
    }

    /// The Z coordinate (bits 20..30 of the packed value).
    pub fn z(&self) -> (r: i32)
        ensures
            r == self.spec_z(),
            0 <= r < 1024,
    {
        proof {
            lemma_field_bounds(self.packed);
        }
        (self.packed >> 20) & 0x3FF
    }

    /// The packed coordinate value.
    pub fn packed(&self) -> (r: i32)
        ensures
            r == self.spec_packed(),
    {
        self.packed
    }

    /// Manhattan distance between two positions.
    pub fn distance_to(&self, other: &Position) -> (d: i32)
        ensures
            d == abs_int(self.spec_x() - other.spec_x()) + abs_int(self.spec_y() - other.spec_y())
                + abs_int(self.spec_z() - other.spec_z()),
    {
        let sx = self.x();
        let ox = other.x();
        let sy = self.y();
        let oy = other.y();
        let sz = self.z();
        let oz = other.z();
        let dx = if sx >= ox { sx - ox } else { ox - sx };
        let dy = if sy >= oy { sy - oy } else { oy - sy };
        let dz = if sz >= oz { sz - oz } else { oz - sz };
        dx + dy + dz
    }

    /// The position that holds exactly the given packed value.
    pub closed spec fn spec_from_packed(packed: i32) -> Position {
        Position { packed }
    }

    /// The position as text: `(x, y, z)`.
    pub fn to_string(&self) -> (s: String)
        ensures
            s@ == triple_text(self.spec_x() as int, self.spec_y() as int, self.spec_z() as int),
    {
        triple_string(self.x(), self.y(), self.z())
    }

    /// Creates a position holding the given packed value unchanged.
    pub fn from_packed(packed: i32) -> (pos: Self)
        ensures
            pos.spec_packed() == packed,
            pos == Position::spec_from_packed(packed),
    {
        Position { packed }
    }
}

/// Packing three in-range coordinates and reading the fields back gives
/// the coordinates again.
pub proof fn law_pack_then_unpack(x: i32, y: i32, z: i32)
    requires
        in_field_range(x as int),
        in_field_range(y as int),
        in_field_range(z as int),
    ensures
        packed_x((x + y * 1024 + z * 1048576) as i32) == x,
        packed_y((x + y * 1024 + z * 1048576) as i32) == y,
        packed_z((x + y * 1024 + z * 1048576) as i32) == z,
{
    lemma_pack_fields(x, y, z);
}

/// Rebuilding a position from its packed value gives the same position.
pub proof fn law_from_packed_of_packed(p: Position)
    ensures
        Position::spec_from_packed(p.spec_packed()) == p,
{
}

/// Two positions built from the same coordinates are equal, and positions
/// built from different coordinates differ.
pub proof fn law_position_identity(a: Position, b: Position)
    requires
        a.spec_packed() >= 0,
        a.spec_packed() < 1073741824,
        b.spec_packed() >= 0,
        b.spec_packed() < 1073741824,
    ensures
        (a == b) <==> (a.spec_x() == b.spec_x() && a.spec_y() == b.spec_y() && a.spec_z()
            == b.spec_z()),
{
    let pa = a.spec_packed();
    let pb = b.spec_packed();
    assert(0 <= pa < 1073741824 && 0 <= pb < 1073741824 && (pa & 0x3FF) == (pb & 0x3FF) && ((pa
        >> 10) & 0x3FF) == ((pb >> 10) & 0x3FF) && ((pa >> 20) & 0x3FF) == ((pb >> 20) & 0x3FF)
        ==> pa == pb) by (bit_vector);
    if a.spec_x() == b.spec_x() && a.spec_y() == b.spec_y() && a.spec_z() == b.spec_z() {
        assert(pa == pb);
        assert(a == Position::spec_from_packed(pa));
        assert(b == Position::spec_from_packed(pb));
    }
}

/// The Manhattan distance from a position to itself is zero.
pub proof fn law_distance_to_self(a: Position)
    ensures
        manhattan(a, a) == 0,
{
}

/// The Manhattan distance is symmetric and satisfies the triangle inequality.
pub proof fn law_distance_metric(a: Position, b: Position, c: Position)
    ensures
        manhattan(a, b) == manhattan(b, a),
        manhattan(a, c) <= manhattan(a, b) + manhattan(b, c),
        manhattan(a, b) >= 0,
{
}

/// Manhattan distance between the coordinates that the accessors report.
pub open spec fn manhattan(a: Position, b: Position) -> int {
    abs_int(a.spec_x() - b.spec_x()) + abs_int(a.spec_y() - b.spec_y()) + abs_int(a.spec_z()
        - b.spec_z())
}

/// World coordinate of a block.
#[derive(Debug, Clone, Copy, PartialEq, Eq, Structural)]
pub struct WorldPos {
    pub x: i32,
    pub y: i32,
    pub z: i32,
}

/// Chunk coordinate; a chunk spans 16 by 16 columns.
#[derive(Debug, Clone, Copy, PartialEq, Eq, Hash, Structural)]
pub struct ChunkPos {
    pub x: i32,
    pub z: i32,
}

/// Coordinate of a block inside its chunk.
#[derive(Debug, Clone, Copy, PartialEq, Eq, Structural)]
pub struct LocalPos {
    pub x: i32,
    pub y: i32,
    pub z: i32,
}

/// The chunk column that holds a world coordinate (an arithmetic shift by 4).
pub open spec fn chunk_coord(v: i32) -> i32 {
    v >> 4
}

/// The offset of a world coordinate inside its chunk (the low four bits).
pub open spec fn local_coord(v: i32) -> i32 {
    v & 15
}

/// A world coordinate splits into a chunk coordinate and an offset below 16:
/// the chunk coordinate is the floor of the division by 16, the offset the
/// non-negative remainder.
pub proof fn lemma_split_coord(v: i32)
    ensures
        chunk_coord(v) * 16 + local_coord(v) == v,
        0 <= local_coord(v) < 16,
        chunk_coord(v) == (v as int) / 16,
        local_coord(v) == (v as int) % 16,
{
    assert((v >> 4) as int * 16 + (v & 15) as int == v as int) by (bit_vector);
    assert(0 <= (v & 15) < 16) by (bit_vector);
}

impl WorldPos {
    /// Creates a world position.
    pub fn new(x: i32, y: i32, z: i32) -> (p: Self)
        ensures
            p.x == x,
            p.y == y,
            p.z == z,
    {
        WorldPos { x, y, z }
    }

    /// The position as text: `(x, y, z)`.
    pub fn to_string(&self) -> (s: String)
        ensures
            s@ == triple_text(self.x as int, self.y as int, self.z as int),
    {
        triple_string(self.x, self.y, self.z)
    }

    /// The chunk that holds this position.
    pub open spec fn spec_to_chunk_pos(self) -> ChunkPos {
        ChunkPos { x: chunk_coord(self.x), z: chunk_coord(self.z) }
    }

    /// The position inside its chunk.
    pub open spec fn spec_to_local_pos(self) -> LocalPos {
        LocalPos { x: local_coord(self.x), y: self.y, z: local_coord(self.z) }
    }

    /// Converts world coordinates to the coordinates of the chunk that holds
    /// them (floor division by 16).
    pub fn to_chunk_pos(&self) -> (c: ChunkPos)
        ensures
            c == self.spec_to_chunk_pos(),
            c.x == (self.x as int) / 16,
            c.z == (self.z as int) / 16,
    {
        proof {
            lemma_split_coord(self.x);
            lemma_split_coord(self.z);
        }
        ChunkPos { x: self.x >> 4, z: self.z >> 4 }
    }

    /// Converts world coordinates to coordinates inside the chunk (the
    /// non-negative remainder modulo 16; Y is kept).
    pub fn to_local_pos(&self) -> (l: LocalPos)
        ensures
            l == self.spec_to_local_pos(),
            l.x == (self.x as int) % 16,
            l.y == self.y,
            l.z == (self.z as int) % 16,
    {
        proof {
            lemma_split_coord(self.x);
            lemma_split_coord(self.z);
        }
        LocalPos { x: self.x & 15, y: self.y, z: self.z & 15 }
    }
}

/// The chunk of a world position and the position inside that chunk
/// together give back the world position.
pub proof fn law_world_pos_decomposes(p: WorldPos)
    ensures
        p.spec_to_chunk_pos().x * 16 + p.spec_to_local_pos().x == p.x,
        p.spec_to_chunk_pos().z * 16 + p.spec_to_local_pos().z == p.z,
        p.spec_to_local_pos().y == p.y,
        0 <= p.spec_to_local_pos().x < 16,
        0 <= p.spec_to_local_pos().z < 16,
{
    lemma_split_coord(p.x);
    lemma_split_coord(p.z);
}

impl ChunkPos {
    /// Creates a chunk position.
    pub fn new(x: i32, z: i32) -> (c: Self)
        ensures
            c.x == x,
            c.z == z,
    {
        ChunkPos { x, z }
    }

    /// The chunk position as text: `(x, z)`.
    pub fn to_string(&self) -> (s: String)
        ensures
            s@ == pair_text(self.x as int, self.z as int),
    {
        pair_string(self.x, self.z)
    }
}

impl LocalPos {
    /// Whether the coordinates lie inside a chunk: X and Z in `0..16`, Y in `0..128`.
    pub open spec fn in_bounds(self) -> bool {
        &&& 0 <= self.x < 16
        &&& 0 <= self.y < 128
        &&& 0 <= self.z < 16
    }

    /// The storage index of an in-bounds position.
    pub open spec fn spec_index(self) -> int {
        self.x * 2048 + self.z * 128 + self.y
    }

    /// The storage index as `to_index` computes it for any coordinates.
    pub open spec fn spec_raw_index(self) -> usize {
        ((self.x << 11) | (self.z << 7) | self.y) as usize
    }

    /// Creates a local position; the coordinates must lie inside a chunk.
    pub fn new(x: i32, y: i32, z: i32) -> (l: Self)
        requires
            0 <= x < 16,
            0 <= y < 128,
            0 <= z < 16,
        ensures
            l.x == x,
            l.y == y,
            l.z == z,
            l.in_bounds(),
            l.spec_raw_index() == l.spec_index(),
    {
        let l = LocalPos { x, y, z };
        proof {
            l.lemma_raw_index();
        }
        l
    }

    /// For in-bounds coordinates the bit-packed index is `x * 2048 + z * 128 + y`.
    pub proof fn lemma_raw_index(self)
        requires
            self.in_bounds(),
        ensures
            self.spec_raw_index() == self.spec_index(),
            self.spec_index() < 32768,
    {
        let x = self.x;
        let y = self.y;
        let z = self.z;
        assert(0 <= x < 16 && 0 <= y < 128 && 0 <= z < 16 ==> (x << 11) | (z << 7) | y == x
            * 2048 + z * 128 + y) by (bit_vector);
    }

    /// The array index for chunk storage: `x << 11 | z << 7 | y`.
    pub fn to_index(&self) -> (i: usize)
        ensures
            i == self.spec_raw_index(),
            self.in_bounds() ==> i == self.spec_index(),
            self.in_bounds() ==> i < 32768,
    {
        let x = self.x;
        let y = self.y;
        let z = self.z;
        proof {
            if self.in_bounds() {
                assert(0 <= x < 16 && 0 <= y < 128 && 0 <= z < 16 ==> (x << 11) | (z << 7) | y
                    == x * 2048 + z * 128 + y) by (bit_vector);
            }
        }
        ((x << 11) | (z << 7) | y) as usize
    }
}

/// Distinct in-bounds local positions have distinct storage indices, and
/// every index below 32768 belongs to one of them.
pub proof fn law_index_is_bijective(a: LocalPos, b: LocalPos)
    requires
        a.in_bounds(),
        b.in_bounds(),
    ensures
        a.spec_index() == b.spec_index() <==> a == b,
        0 <= a.spec_index() < 32768,
{
}

/// Every storage index below 32768 is the index of an in-bounds position.
pub proof fn law_index_covers(i: int)
    requires
        0 <= i < 32768,
    ensures
        ({
            let l = LocalPos { x: (i / 2048) as i32, y: (i % 128) as i32, z: ((i / 128) % 16) as i32 };
            l.in_bounds() && l.spec_index() == i
        }),
{
}

} // verus!
