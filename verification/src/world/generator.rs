//! The integer side of terrain generation: filling columns up to given
//! surface heights, surface layers for given biomes, carving cave spheres,
//! and ore veins placed from the world seed.
//!
//! The noise-driven parts (surface heights, biome choice, cave paths) are
//! computed by the caller and handed in as plain values.

use vstd::prelude::*;
use crate::math::position::LocalPos;
use crate::world::chunk::Chunk;

verus! {

/// Block ids used by the generator.
pub const AIR: u8 = 0;
pub const STONE: u8 = 1;
pub const GRASS: u8 = 3;
pub const DIRT: u8 = 2;
pub const BEDROCK: u8 = 7;
pub const SAND: u8 = 12;
pub const SNOW: u8 = 78;

/// The storage index of local coordinates `(x, y, z)`.
pub open spec fn idx(x: int, y: int, z: int) -> int {
    x * 2048 + z * 128 + y
}

/// Clamps a surface height to the generated range 20..=100.
pub open spec fn clamp_height(h: int) -> int {
    if h < 20 {
        20
    } else if h > 100 {
        100
    } else {
        h
    }
}

/// The blocks after filling every column `(x, z)` with stone below its
/// clamped surface height `heights[x * 16 + z]`.
pub open spec fn filled_terrain(old: Seq<u8>, heights: Seq<i32>) -> Seq<u8> {
    Seq::new(
        old.len(),
        |i: int|
            {
                let x = i / 2048;
                let z = (i / 128) % 16;
                let y = i % 128;
                if y < clamp_height(heights[x * 16 + z] as int) {
                    STONE
                } else {
                    old[i]
                }
            },
    )
}

proof fn lemma_idx_decode(x: int, y: int, z: int)
    requires
        0 <= x < 16,
        0 <= y < 128,
        0 <= z < 16,
    ensures
        idx(x, y, z) / 2048 == x,
        (idx(x, y, z) / 128) % 16 == z,
        idx(x, y, z) % 128 == y,
        0 <= idx(x, y, z) < 32768,
{
}

/// Fills a chunk column with stone from the bottom up to (not including)
/// height `h`.
fn fill_column(chunk: &mut Chunk, x: i32, z: i32, h: i32)
    requires
        0 <= x < 16,
        0 <= z < 16,
        0 <= h <= 128,
    ensures
        final(chunk).x == old(chunk).x,
        final(chunk).z == old(chunk).z,
        final(chunk).blocks@.len() == old(chunk).blocks@.len(),
        forall|i: int|
            0 <= i < 32768 ==> #[trigger] final(chunk).blocks@[i] == if i / 2048 == x && (i / 128)
                % 16 == z && i % 128 < h {
                STONE
            } else {
                old(chunk).blocks@[i]
            },
{
    for y in 0..h
        invariant
            0 <= x < 16,
            0 <= z < 16,
            0 <= h <= 128,
            chunk.x == old(chunk).x,
            chunk.z == old(chunk).z,
            chunk.blocks@.len() == 32768,
            forall|i: int|
                0 <= i < 32768 ==> #[trigger] chunk.blocks@[i] == if i / 2048 == x && (i / 128)
                    % 16 == z && i % 128 < y {
                    STONE
                } else {
                    old(chunk).blocks@[i]
                },
    {
        let pos = LocalPos::new(x, y, z);
        chunk.set_block(pos, STONE);
        proof {
            lemma_idx_decode(x as int, y as int, z as int);
        }
    }
}

/// Fills every column of a chunk with stone below its surface height.
/// `surface_heights[x * 16 + z]` is the surface height of column `(x, z)`,
/// clamped to 20..=100.
pub fn generate_base_terrain(chunk: &mut Chunk, surface_heights: &[i32; 256])
    ensures
        final(chunk).x == old(chunk).x,
        final(chunk).z == old(chunk).z,
        final(chunk).blocks@ == filled_terrain(old(chunk).blocks@, surface_heights@),
{
    let ghost old_blocks = chunk.blocks@;
    for x in 0..16i32
        invariant
            chunk.x == old(chunk).x,
            chunk.z == old(chunk).z,
            old_blocks == old(chunk).blocks@,
            old_blocks.len() == 32768,
            chunk.blocks@.len() == 32768,
            surface_heights@.len() == 256,
            forall|i: int|
                0 <= i < 32768 ==> #[trigger] chunk.blocks@[i] == if i / 2048 < x {
                    filled_terrain(old_blocks, surface_heights@)[i]
                } else {
                    old_blocks[i]
                },
    {
        for z in 0..16i32
            invariant
                0 <= x < 16,
                chunk.x == old(chunk).x,
                chunk.z == old(chunk).z,
                old_blocks == old(chunk).blocks@,
                old_blocks.len() == 32768,
                chunk.blocks@.len() == 32768,
                surface_heights@.len() == 256,
                forall|i: int|
                    0 <= i < 32768 ==> #[trigger] chunk.blocks@[i] == if i / 2048 < x || (i / 2048
                        == x && (i / 128) % 16 < z) {
                        filled_terrain(old_blocks, surface_heights@)[i]
                    } else {
                        old_blocks[i]
                    },
        {
            let surface_height = surface_heights[(x * 16 + z) as usize];
            let clamped_height = if surface_height < 20 {
                20
            } else if surface_height > 100 {
                100
            } else {
                surface_height
            };
            let top = if clamped_height < 128 { clamped_height } else { 128 };
            fill_column(chunk, x, z, top);
        }
    }
    proof {
        assert(chunk.blocks@ =~= filled_terrain(old_blocks, surface_heights@));
    }
}

/// The biome of a column, as the surface layers need it.
#[derive(Debug, Clone, Copy, PartialEq, Eq, Structural)]
pub struct ColumnBiome {
    pub is_snow: bool,
    pub is_desert: bool,
}

/// The highest stone block at or below height `y` in column `(x, z)`, or 0
/// when there is none.
pub open spec fn top_stone_from(b: Seq<u8>, x: int, z: int, y: int) -> int
    decreases y + 1,
{
    if y < 0 {
        0
    } else if b[idx(x, y, z)] == STONE {
        y
    } else {
        top_stone_from(b, x, z, y - 1)
    }
}

/// The block at height `y` of a column after its surface layers are laid,
/// given the column's surface height and biome: the top block is snow,
/// sand or grass; the three blocks below it are dirt unless in a desert;
/// the bottom block is bedrock. A column whose surface is at height 0 is
/// left as it is.
pub open spec fn layered_block(old: u8, y: int, surface: int, biome: ColumnBiome) -> u8 {
    if surface <= 0 || y > surface {
        old
    } else if y == 0 {
        BEDROCK
    } else if y == surface {
        if biome.is_snow {
            SNOW
        } else if biome.is_desert {
            SAND
        } else {
            GRASS
        }
    } else if y >= surface - 3 && !biome.is_desert {
        DIRT
    } else {
        old
    }
}

/// The blocks after laying surface layers on every column, each column's
/// surface being its highest stone block.
pub open spec fn layered_terrain(old: Seq<u8>, biomes: Seq<ColumnBiome>) -> Seq<u8> {
    Seq::new(
        old.len(),
        |i: int|
            {
                let x = i / 2048;
                let z = (i / 128) % 16;
                let y = i % 128;
                layered_block(old[i], y, top_stone_from(old, x, z, 127), biomes[x * 16 + z])
            },
    )
}

/// The highest stone block of column `(x, z)`, or 0 when there is none.
fn find_surface(chunk: &Chunk, x: i32, z: i32) -> (s: i32)
    requires
        0 <= x < 16,
        0 <= z < 16,
    ensures
        s == top_stone_from(chunk.blocks@, x as int, z as int, 127),
        0 <= s < 128,
{
    let mut y: i32 = 127;
    let mut surface_height: i32 = 0;
    let mut found = false;
    while !found && y >= 0
        invariant
            0 <= x < 16,
            0 <= z < 16,
            -1 <= y <= 127,
            0 <= surface_height < 128,
            found ==> surface_height == top_stone_from(chunk.blocks@, x as int, z as int, 127),
            !found ==> surface_height == 0,
            !found ==> top_stone_from(chunk.blocks@, x as int, z as int, 127) == top_stone_from(
                chunk.blocks@,
                x as int,
                z as int,
                y as int,
            ),
        decreases y + 1, if found { 0int } else { 1int },
    {
        let pos = LocalPos::new(x, y, z);
        if chunk.get_block(pos) == STONE {
            surface_height = y;
            found = true;
        } else {
            y = y - 1;
        }
    }
    proof {
        if !found {
            assert(top_stone_from(chunk.blocks@, x as int, z as int, -1) == 0);
        }
    }
    surface_height
}

/// Lays the surface layers of column `(x, z)`.
fn layer_column(chunk: &mut Chunk, x: i32, z: i32, biome: ColumnBiome)
    requires
        0 <= x < 16,
        0 <= z < 16,
    ensures
        final(chunk).x == old(chunk).x,
        final(chunk).z == old(chunk).z,
        final(chunk).blocks@.len() == old(chunk).blocks@.len(),
        forall|i: int|
            0 <= i < 32768 ==> #[trigger] final(chunk).blocks@[i] == if i / 2048 == x && (i / 128)
                % 16 == z {
                layered_block(
                    old(chunk).blocks@[i],
                    i % 128,
                    top_stone_from(old(chunk).blocks@, x as int, z as int, 127),
                    biome,
                )
            } else {
                old(chunk).blocks@[i]
            },
{
    let surface_height = find_surface(chunk, x, z);
    let ghost old_blocks = chunk.blocks@;
    if surface_height > 0 {
        let mut y: i32 = surface_height;
        while y >= 0
            invariant
                0 <= x < 16,
                0 <= z < 16,
                0 < surface_height < 128,
                -1 <= y <= surface_height,
                surface_height == top_stone_from(old_blocks, x as int, z as int, 127),
                old_blocks == old(chunk).blocks@,
                chunk.x == old(chunk).x,
                chunk.z == old(chunk).z,
                chunk.blocks@.len() == 32768,
                forall|i: int|
                    0 <= i < 32768 ==> #[trigger] chunk.blocks@[i] == if i / 2048 == x && (i
                        / 128) % 16 == z && i % 128 > y {
                        layered_block(old_blocks[i], i % 128, surface_height as int, biome)
                    } else {
                        old_blocks[i]
                    },
            decreases y + 1,
        {
            let pos = LocalPos::new(x, y, z);
            proof {
                lemma_idx_decode(x as int, y as int, z as int);
            }
            if y == surface_height {
                if biome.is_snow {
                    chunk.set_block(pos, SNOW);
                } else if biome.is_desert {
                    chunk.set_block(pos, SAND);
                } else {
                    chunk.set_block(pos, GRASS);
                }
            } else if y >= surface_height - 3 {
                if !biome.is_desert {
                    chunk.set_block(pos, DIRT);
                }
            }
            if y <= 0 {
                chunk.set_block(pos, BEDROCK);
            }
            y = y - 1;
        }
    }
}

/// Lays the surface layers of every column of a chunk: `biomes[x * 16 + z]`
/// is the biome of column `(x, z)`.
pub fn generate_surface_details(chunk: &mut Chunk, biomes: &[ColumnBiome; 256])
    ensures
        final(chunk).x == old(chunk).x,
        final(chunk).z == old(chunk).z,
        final(chunk).blocks@ == layered_terrain(old(chunk).blocks@, biomes@),
{
    let ghost old_blocks = chunk.blocks@;
    for x in 0..16i32
        invariant
            chunk.x == old(chunk).x,
            chunk.z == old(chunk).z,
            old_blocks == old(chunk).blocks@,
            old_blocks.len() == 32768,
            chunk.blocks@.len() == 32768,
            biomes@.len() == 256,
            forall|i: int|
                0 <= i < 32768 ==> #[trigger] chunk.blocks@[i] == if i / 2048 < x {
                    layered_terrain(old_blocks, biomes@)[i]
                } else {
                    old_blocks[i]
                },
    {
        for z in 0..16i32
            invariant
                0 <= x < 16,
                chunk.x == old(chunk).x,
                chunk.z == old(chunk).z,
                old_blocks == old(chunk).blocks@,
                old_blocks.len() == 32768,
                chunk.blocks@.len() == 32768,
                biomes@.len() == 256,
                forall|i: int|
                    0 <= i < 32768 ==> #[trigger] chunk.blocks@[i] == if i / 2048 < x || (i / 2048
                        == x && (i / 128) % 16 < z) {
                        layered_terrain(old_blocks, biomes@)[i]
                    } else {
                        old_blocks[i]
                    },
        {
            let ghost before = chunk.blocks@;
            proof {
                assert forall|y: int| 0 <= y < 128 implies before[idx(x as int, y, z as int)]
                    == old_blocks[idx(x as int, y, z as int)] by {
                    lemma_idx_decode(x as int, y, z as int);
                }
                lemma_top_stone_same(before, old_blocks, x as int, z as int, 127);
            }
            layer_column(chunk, x, z, biomes[(x * 16 + z) as usize]);
        }
    }
    proof {
        assert(chunk.blocks@ =~= layered_terrain(old_blocks, biomes@));
    }
}

/// Two block arrays that agree on a column agree on its highest stone.
proof fn lemma_top_stone_same(a: Seq<u8>, b: Seq<u8>, x: int, z: int, y: int)
    requires
        y < 128,
        forall|k: int| 0 <= k < 128 ==> a[idx(x, k, z)] == b[idx(x, k, z)],
    ensures
        top_stone_from(a, x, z, y) == top_stone_from(b, x, z, y),
    decreases y + 1,
{
    if y >= 0 {
        lemma_top_stone_same(a, b, x, z, y - 1);
    }
}

/// Multiplier of the chunk X coordinate in cave and ore seeds.
pub const SEED_MUL_X: u64 = 341873128712;

/// Multiplier of the chunk Z coordinate in cave and ore seeds.
pub const SEED_MUL_Z: u64 = 132897987541;

/// Whether the block coordinates of a chunk, with the room that cave and
/// ore starts need around them, fit an `i32`.
pub open spec fn chunk_seed_ok(chunk_x: i32, chunk_z: i32) -> bool {
    &&& i32::MIN + 3 <= chunk_x * 16 && chunk_x * 16 + 20 <= i32::MAX
    &&& i32::MIN + 3 <= chunk_z * 16 && chunk_z * 16 + 20 <= i32::MAX
}

/// The seed of a chunk for a given per-chunk offset (a cave number, or an
/// ore attempt already added to the world seed).
pub open spec fn chunk_seed(base: u64, chunk_x: i32, chunk_z: i32) -> u64 {
    base.wrapping_mul((chunk_x as u64).wrapping_mul(SEED_MUL_X)).wrapping_add(
        (chunk_z as u64).wrapping_mul(SEED_MUL_Z),
    )
}

proof fn lemma_chunk_seed_ok_bounds(chunk_x: i32, chunk_z: i32)
    requires
        chunk_seed_ok(chunk_x, chunk_z),
    ensures
        -134217727 <= chunk_x <= 134217726,
        -134217727 <= chunk_z <= 134217726,
{
}

/// The seed of cave `cave_id` of a chunk.
pub fn cave_seed(world_seed: u64, cave_id: u64, chunk_x: i32, chunk_z: i32) -> (seed: u64)
    requires
        chunk_seed_ok(chunk_x, chunk_z),
    ensures
        seed == chunk_seed(world_seed.wrapping_add(cave_id), chunk_x, chunk_z),
{
    world_seed.wrapping_add(cave_id).wrapping_mul((chunk_x as u64).wrapping_mul(SEED_MUL_X)).wrapping_add(
        (chunk_z as u64).wrapping_mul(SEED_MUL_Z),
    )
}

/// The starting block of a cave: X and Z inside the chunk at world
/// coordinates, Y below 128.
pub fn cave_start(seed: u64, chunk_x: i32, chunk_z: i32) -> (p: (i32, i32, i32))
    requires
        chunk_seed_ok(chunk_x, chunk_z),
    ensures
        p.0 == chunk_x * 16 + ((seed >> 32u64) % 16) as int,
        p.1 == ((seed >> 16u64) % 128) as int,
        p.2 == chunk_z * 16 + (seed % 16) as int,
{
    proof {
        lemma_chunk_seed_ok_bounds(chunk_x, chunk_z);
    }
    let base_x = chunk_x * 16;
    let base_z = chunk_z * 16;
    let start_x = base_x + ((seed >> 32u64) % 16) as i32;
    let start_y = ((seed >> 16u64) % 128) as i32;
    let start_z = base_z + (seed % 16) as i32;
    (start_x, start_y, start_z)
}

/// The number of steps of a cave tunnel: 20 to 59.
pub fn cave_length(seed: u64) -> (n: i32)
    ensures
        n == 20 + (seed % 40) as int,
{
    20 + (seed % 40) as i32
}

/// The raw movement amounts of step `step` of a cave tunnel, in hundredths
/// before centering: X and Z in 0..401, Y in 0..201.
pub fn cave_step_offsets(seed: u64, step: u64) -> (o: (u64, u64, u64))
    ensures
        ({
            let s = seed.wrapping_add(step);
            &&& o.0 == (s >> 8u64).wrapping_sub(200) % 401
            &&& o.1 == (s >> 16u64).wrapping_sub(100) % 201
            &&& o.2 == (s >> 24u64).wrapping_sub(200) % 401
        }),
{
    let step_seed = seed.wrapping_add(step);
    (
        (step_seed >> 8u64).wrapping_sub(200) % 401,
        (step_seed >> 16u64).wrapping_sub(100) % 201,
        (step_seed >> 24u64).wrapping_sub(200) % 401,
    )
}

/// The blocks after carving a sphere of radius `r` around `(cx, cy, cz)`:
/// stone inside the sphere and inside the chunk becomes air.
pub open spec fn carved(old: Seq<u8>, cx: int, cy: int, cz: int, r: int) -> Seq<u8> {
    Seq::new(
        old.len(),
        |i: int|
            {
                let x = i / 2048;
                let z = (i / 128) % 16;
                let y = i % 128;
                if 0 <= r && (x - cx) * (x - cx) + (y - cy) * (y - cy) + (z - cz) * (z - cz) <= r
                    * r && old[i] == STONE {
                    AIR
                } else {
                    old[i]
                }
            },
    )
}

/// The largest sphere radius whose squared offsets sum within an `i32`.
pub const MAX_CARVE_RADIUS: i32 = 26754;

/// The squared distance from block `i` to `(cx, cy, cz)`.
pub open spec fn dist2(i: int, cx: int, cy: int, cz: int) -> int {
    (i / 2048 - cx) * (i / 2048 - cx) + (i % 128 - cy) * (i % 128 - cy) + ((i / 128) % 16 - cz) * (
    (i / 128) % 16 - cz)
}

/// Whether block `i` was visited by the carving loops before offset
/// `(dx, dy, dz)` (offsets walk X, then Y, then Z).
pub open spec fn carve_visited(i: int, cx: int, cy: int, cz: int, dx: int, dy: int, dz: int) -> bool {
    let ox = i / 2048 - cx;
    let oy = i % 128 - cy;
    let oz = (i / 128) % 16 - cz;
    ox < dx || (ox == dx && oy < dy) || (ox == dx && oy == dy && oz < dz)
}

/// The block after carving the visited part of the sphere.
pub open spec fn carve_partial(old: Seq<u8>, i: int, cx: int, cy: int, cz: int, r: int, dx: int, dy: int, dz: int) -> u8 {
    if carve_visited(i, cx, cy, cz, dx, dy, dz) && dist2(i, cx, cy, cz) <= r * r && old[i] == STONE {
        AIR
    } else {
        old[i]
    }
}

proof fn lemma_square_bound(a: int, r: int)
    requires
        r >= 0,
        a * a <= r * r,
    ensures
        -r <= a <= r,
{
    assert(-r <= a <= r) by (nonlinear_arith)
        requires
            r >= 0,
            a * a <= r * r,
    ;
}

proof fn lemma_sphere_offsets(i: int, cx: int, cy: int, cz: int, r: int)
    requires
        r >= 0,
        dist2(i, cx, cy, cz) <= r * r,
    ensures
        -r <= i / 2048 - cx <= r,
        -r <= i % 128 - cy <= r,
        -r <= (i / 128) % 16 - cz <= r,
{
    let ox = i / 2048 - cx;
    let oy = i % 128 - cy;
    let oz = (i / 128) % 16 - cz;
    assert(ox * ox >= 0 && oy * oy >= 0 && oz * oz >= 0) by (nonlinear_arith);
    lemma_square_bound(ox, r);
    lemma_square_bound(oy, r);
    lemma_square_bound(oz, r);
}

/// Carves a sphere of radius `radius` around `(cx, cy, cz)` (chunk-local
/// coordinates): every stone block within it that lies inside the chunk
/// becomes air. A negative radius carves nothing. The radius must keep the
/// squared distances of the sphere's offsets within an `i32`, and the
/// sphere's coordinates must fit an `i32`.
pub fn carve_sphere(chunk: &mut Chunk, cx: i32, cy: i32, cz: i32, radius: i32)
    requires
        i32::MIN < radius <= MAX_CARVE_RADIUS,
        radius >= 0 ==> i32::MIN + radius <= cx <= i32::MAX - radius,
        radius >= 0 ==> i32::MIN + radius <= cy <= i32::MAX - radius,
        radius >= 0 ==> i32::MIN + radius <= cz <= i32::MAX - radius,
    ensures
        final(chunk).x == old(chunk).x,
        final(chunk).z == old(chunk).z,
        final(chunk).blocks@ == carved(old(chunk).blocks@, cx as int, cy as int, cz as int, radius as int),
{
    let ghost old_blocks = chunk.blocks@;
    let ghost (gx, gy, gz, r) = (cx as int, cy as int, cz as int, radius as int);
    if radius < 0 {
        assert(chunk.blocks@ =~= carved(old_blocks, gx, gy, gz, r));
        return;
    }
    assert(radius * radius <= 715776516) by (nonlinear_arith)
        requires
            0 <= radius <= 26754,
    ;
    proof {
        assert forall|i: int| 0 <= i < 32768 implies #[trigger] chunk.blocks@[i] == carve_partial(old_blocks, i, gx, gy, gz, r, -r, -r, -r) by {
            if dist2(i, gx, gy, gz) <= r * r {
                lemma_sphere_offsets(i, gx, gy, gz, r);
            }
        }
    }
    let mut dx = -radius;
    while dx <= radius
        invariant
            0 <= radius <= MAX_CARVE_RADIUS,
            r == radius && gx == cx && gy == cy && gz == cz,
            radius * radius <= 715776516,
            -radius <= dx <= radius + 1,
            i32::MIN + radius <= cx <= i32::MAX - radius,
            i32::MIN + radius <= cy <= i32::MAX - radius,
            i32::MIN + radius <= cz <= i32::MAX - radius,
            chunk.x == old(chunk).x,
            chunk.z == old(chunk).z,
            old_blocks == old(chunk).blocks@,
            old_blocks.len() == 32768,
            chunk.blocks@.len() == 32768,
            forall|i: int| 0 <= i < 32768 ==> #[trigger] chunk.blocks@[i] == carve_partial(old_blocks, i, gx, gy, gz, r, dx as int, -r, -r),
        decreases radius + 1 - dx,
    {
        proof {
            assert forall|i: int| 0 <= i < 32768 implies #[trigger] chunk.blocks@[i] == carve_partial(old_blocks, i, gx, gy, gz, r, dx as int, -r, -r) by {}
        }
        let mut dy = -radius;
        while dy <= radius
            invariant
                0 <= radius <= MAX_CARVE_RADIUS,
                r == radius && gx == cx && gy == cy && gz == cz,
                radius * radius <= 715776516,
                -radius <= dx <= radius,
                -radius <= dy <= radius + 1,
                i32::MIN + radius <= cx <= i32::MAX - radius,
                i32::MIN + radius <= cy <= i32::MAX - radius,
                i32::MIN + radius <= cz <= i32::MAX - radius,
                chunk.x == old(chunk).x,
                chunk.z == old(chunk).z,
                old_blocks.len() == 32768,
                chunk.blocks@.len() == 32768,
                forall|i: int| 0 <= i < 32768 ==> #[trigger] chunk.blocks@[i] == carve_partial(old_blocks, i, gx, gy, gz, r, dx as int, dy as int, -r),
            decreases radius + 1 - dy,
        {
            let mut dz = -radius;
            while dz <= radius
                invariant
                    0 <= radius <= MAX_CARVE_RADIUS,
                    r == radius && gx == cx && gy == cy && gz == cz,
                    radius * radius <= 715776516,
                    -radius <= dx <= radius,
                    -radius <= dy <= radius,
                    -radius <= dz <= radius + 1,
                    i32::MIN + radius <= cx <= i32::MAX - radius,
                    i32::MIN + radius <= cy <= i32::MAX - radius,
                    i32::MIN + radius <= cz <= i32::MAX - radius,
                    chunk.x == old(chunk).x,
                    chunk.z == old(chunk).z,
                    old_blocks.len() == 32768,
                    chunk.blocks@.len() == 32768,
                    forall|i: int| 0 <= i < 32768 ==> #[trigger] chunk.blocks@[i] == carve_partial(old_blocks, i, gx, gy, gz, r, dx as int, dy as int, dz as int),
                decreases radius + 1 - dz,
            {
                assert(0 <= dx * dx <= 715776516 && 0 <= dy * dy <= 715776516 && 0 <= dz * dz
                    <= 715776516) by (nonlinear_arith)
                    requires
                        -26754 <= dx <= 26754,
                        -26754 <= dy <= 26754,
                        -26754 <= dz <= 26754,
                ;
                if dx * dx + dy * dy + dz * dz <= radius * radius {
                    let world_x = cx + dx;
                    let world_y = cy + dy;
                    let world_z = cz + dz;
                    if world_x >= 0 && world_x < 16 && world_y >= 0 && world_y < 128 && world_z
                        >= 0 && world_z < 16 {
                        let pos = LocalPos::new(world_x, world_y, world_z);
                        proof {
                            lemma_idx_decode(world_x as int, world_y as int, world_z as int);
                        }
                        if chunk.get_block(pos) == STONE {
                            chunk.set_block(pos, AIR);
                        }
                    }
                }
                dz = dz + 1;
            }
            proof {
                assert forall|i: int| 0 <= i < 32768 implies #[trigger] chunk.blocks@[i] == carve_partial(old_blocks, i, gx, gy, gz, r, dx as int, dy + 1, -r) by {
                    if dist2(i, gx, gy, gz) <= r * r {
                        lemma_sphere_offsets(i, gx, gy, gz, r);
                    }
                }
            }
            dy = dy + 1;
        }
        proof {
            assert forall|i: int| 0 <= i < 32768 implies #[trigger] chunk.blocks@[i] == carve_partial(old_blocks, i, gx, gy, gz, r, dx + 1, -r, -r) by {
                if dist2(i, gx, gy, gz) <= r * r {
                    lemma_sphere_offsets(i, gx, gy, gz, r);
                }
            }
        }
        dx = dx + 1;
    }
    proof {
        assert forall|i: int| 0 <= i < 32768 implies #[trigger] chunk.blocks@[i] == carved(old_blocks, gx, gy, gz, r)[i] by {
            if dist2(i, gx, gy, gz) <= r * r {
                lemma_sphere_offsets(i, gx, gy, gz, r);
            }
        }
        assert(chunk.blocks@ =~= carved(old_blocks, gx, gy, gz, r));
    }
}

/// The blocks after trying to place ore at `(x, y, z)`: a stone block
/// inside the chunk becomes ore, anything else stays.
pub open spec fn place_ore(b: Seq<u8>, x: int, y: int, z: int, ore: u8) -> Seq<u8> {
    if 0 <= x < 16 && 0 <= y < 128 && 0 <= z < 16 && b[idx(x, y, z)] == STONE {
        b.update(idx(x, y, z), ore)
    } else {
        b
    }
}

/// The offset of the `k`-th block of a vein from its start, each axis in
/// -3..=3.
pub open spec fn vein_offset(seed: u64, k: int) -> (int, int, int) {
    let s = seed.wrapping_add(k as u64);
    (((s >> 16u64) % 7) as int - 3, ((s >> 8u64) % 7) as int - 3, (s % 7) as int - 3)
}

/// The blocks after placing the first `k` blocks of a vein.
pub open spec fn vein_blocks(
    b: Seq<u8>,
    seed: u64,
    sx: int,
    sy: int,
    sz: int,
    ore: u8,
    k: nat,
) -> Seq<u8>
    decreases k,
{
    if k == 0 {
        b
    } else {
        let prev = vein_blocks(b, seed, sx, sy, sz, ore, (k - 1) as nat);
        let o = vein_offset(seed, k - 1);
        place_ore(prev, sx + o.0, sy + o.1, sz + o.2, ore)
    }
}

proof fn lemma_place_ore_len(b: Seq<u8>, x: int, y: int, z: int, ore: u8)
    requires
        b.len() == 32768,
    ensures
        place_ore(b, x, y, z, ore).len() == b.len(),
{
}

/// Whether `after` differs from `before` only where `before` held stone and
/// `after` holds an ore (block ids 13 to 16).
pub open spec fn replaces_only_stone(before: Seq<u8>, after: Seq<u8>) -> bool {
    &&& after.len() == before.len()
    &&& forall|i: int|
        0 <= i < before.len() && #[trigger] after[i] != before[i] ==> before[i] == STONE && 13
            <= after[i] <= 16
}

proof fn lemma_replaces_only_stone_trans(a: Seq<u8>, b: Seq<u8>, c: Seq<u8>)
    requires
        replaces_only_stone(a, b),
        replaces_only_stone(b, c),
    ensures
        replaces_only_stone(a, c),
{
    assert forall|i: int| 0 <= i < a.len() && #[trigger] c[i] != a[i] implies a[i] == STONE && 13
        <= c[i] <= 16 by {
        if b[i] == a[i] {
            assert(c[i] != b[i]);
        } else {
            assert(b[i] == STONE || c[i] == b[i]);
        }
    }
}

/// Placing a vein changes only stone blocks, each into the vein's ore.
pub proof fn law_vein_replaces_only_stone(
    b: Seq<u8>,
    seed: u64,
    sx: int,
    sy: int,
    sz: int,
    ore: u8,
    k: nat,
)
    requires
        b.len() == 32768,
    ensures
        vein_blocks(b, seed, sx, sy, sz, ore, k).len() == b.len(),
        forall|i: int|
            0 <= i < b.len() && #[trigger] vein_blocks(b, seed, sx, sy, sz, ore, k)[i] != b[i]
                ==> b[i] == STONE && vein_blocks(b, seed, sx, sy, sz, ore, k)[i] == ore,
    decreases k,
{
    if k > 0 {
        law_vein_replaces_only_stone(b, seed, sx, sy, sz, ore, (k - 1) as nat);
        let prev = vein_blocks(b, seed, sx, sy, sz, ore, (k - 1) as nat);
        let o = vein_offset(seed, k - 1);
        let now = vein_blocks(b, seed, sx, sy, sz, ore, k);
        assert(now == place_ore(prev, sx + o.0, sy + o.1, sz + o.2, ore));
        assert forall|i: int| 0 <= i < b.len() && #[trigger] now[i] != b[i] implies b[i] == STONE
            && now[i] == ore by {
            if now[i] != prev[i] {
                assert(prev[i] == STONE && now[i] == ore);
            } else {
                assert(prev[i] != b[i]);
            }
        }
    }
}

proof fn lemma_ore_attempts_replace_only_stone(
    b: Seq<u8>,
    world_seed: u64,
    chunk_x: i32,
    chunk_z: i32,
    t: int,
    m: nat,
)
    requires
        b.len() == 32768,
    ensures
        replaces_only_stone(b, ore_attempts(b, world_seed, chunk_x, chunk_z, t, m)),
    decreases m,
{
    if m > 0 {
        lemma_ore_attempts_replace_only_stone(b, world_seed, chunk_x, chunk_z, t, (m - 1) as nat);
        let prev = ore_attempts(b, world_seed, chunk_x, chunk_z, t, (m - 1) as nat);
        let (ore_id, vein_size, max_y, _attempts) = ore_type(t);
        let seed = ore_seed(world_seed, ore_id, m - 1, chunk_x, chunk_z);
        let sx = chunk_x * 16 + ((seed >> 16u64) % 16) as int;
        let sy = ((seed >> 8u64) % max_y) as int;
        let sz = chunk_z * 16 + (seed % 16) as int;
        law_vein_replaces_only_stone(prev, seed, sx, sy, sz, ore_id, vein_size as nat);
        assert(13 <= ore_id <= 16);
        lemma_replaces_only_stone_trans(b, prev, ore_attempts(b, world_seed, chunk_x, chunk_z, t, m));
    }
}

proof fn lemma_ores_placed_replace_only_stone(
    b: Seq<u8>,
    world_seed: u64,
    chunk_x: i32,
    chunk_z: i32,
    n: nat,
)
    requires
        b.len() == 32768,
    ensures
        replaces_only_stone(b, ores_placed(b, world_seed, chunk_x, chunk_z, n)),
    decreases n,
{
    if n > 0 {
        lemma_ores_placed_replace_only_stone(b, world_seed, chunk_x, chunk_z, (n - 1) as nat);
        let prev = ores_placed(b, world_seed, chunk_x, chunk_z, (n - 1) as nat);
        lemma_ore_attempts_replace_only_stone(prev, world_seed, chunk_x, chunk_z, n - 1, ore_type(n - 1).3 as nat);
        lemma_replaces_only_stone_trans(b, prev, ores_placed(b, world_seed, chunk_x, chunk_z, n));
    }
}

/// Generating the ores of a chunk changes only stone blocks, each into one of
/// the ores (ids 13 to 16): air, dirt and every other block stay as they were.
pub proof fn law_ores_replace_only_stone(b: Seq<u8>, world_seed: u64, chunk_x: i32, chunk_z: i32)
    requires
        b.len() == 32768,
    ensures
        replaces_only_stone(b, ores_placed(b, world_seed, chunk_x, chunk_z, 4)),
{
    lemma_ores_placed_replace_only_stone(b, world_seed, chunk_x, chunk_z, 4);
}

/// Places a vein of up to `vein_size` ore blocks around a start: the
/// `k`-th candidate is offset by `vein_offset(seed, k)`, and only stone
/// inside the chunk is replaced.
pub fn generate_ore_vein(
    chunk: &mut Chunk,
    start_x: i32,
    start_y: i32,
    start_z: i32,
    ore_id: u8,
    vein_size: i32,
    seed: u64,
)
    requires
        i32::MIN + 3 <= start_x <= i32::MAX - 3,
        i32::MIN + 3 <= start_y <= i32::MAX - 3,
        i32::MIN + 3 <= start_z <= i32::MAX - 3,
    ensures
        final(chunk).x == old(chunk).x,
        final(chunk).z == old(chunk).z,
        final(chunk).blocks@ == vein_blocks(
            old(chunk).blocks@,
            seed,
            start_x as int,
            start_y as int,
            start_z as int,
            ore_id,
            if vein_size > 0 { vein_size as nat } else { 0 },
        ),
{
    let ghost old_blocks = chunk.blocks@;
    let mut placed: i32 = 0;
    let mut offset: i32 = 0;
    while offset < vein_size
        invariant
            0 <= offset,
            vein_size > 0 ==> offset <= vein_size,
            vein_size <= 0 ==> offset == 0,
            0 <= placed <= offset,
            i32::MIN + 3 <= start_x <= i32::MAX - 3,
            i32::MIN + 3 <= start_y <= i32::MAX - 3,
            i32::MIN + 3 <= start_z <= i32::MAX - 3,
            chunk.x == old(chunk).x,
            chunk.z == old(chunk).z,
            old_blocks == old(chunk).blocks@,
            chunk.blocks@.len() == 32768,
            chunk.blocks@ == vein_blocks(
                old_blocks,
                seed,
                start_x as int,
                start_y as int,
                start_z as int,
                ore_id,
                offset as nat,
            ),
        ensures
            chunk.x == old(chunk).x,
            chunk.z == old(chunk).z,
            chunk.blocks@ == vein_blocks(
                old_blocks,
                seed,
                start_x as int,
                start_y as int,
                start_z as int,
                ore_id,
                if vein_size > 0 { vein_size as nat } else { 0 },
            ),
        decreases vein_size - offset,
    {
        let offset_seed = seed.wrapping_add(offset as u64);
        let dx = ((offset_seed >> 16u64) % 7) as i32 - 3;
        let dy = ((offset_seed >> 8u64) % 7) as i32 - 3;
        let dz = (offset_seed % 7) as i32 - 3;
        let world_x = start_x + dx;
        let world_y = start_y + dy;
        let world_z = start_z + dz;
        let ghost prev = chunk.blocks@;
        if world_x >= 0 && world_x < 16 && world_y >= 0 && world_y < 128 && world_z >= 0 && world_z
            < 16 {
            let pos = LocalPos::new(world_x, world_y, world_z);
            proof {
                lemma_idx_decode(world_x as int, world_y as int, world_z as int);
            }
            if chunk.get_block(pos) == STONE {
                chunk.set_block(pos, ore_id);
                placed = placed + 1;
            }
        }
        proof {
            lemma_place_ore_len(prev, world_x as int, world_y as int, world_z as int, ore_id);
        }
        offset = offset + 1;
        if placed >= vein_size {
            // every candidate so far was placed, so this was the last one
            assert(offset == vein_size);
            break;
        }
    }
}

/// The ore types: block id, vein size, height bound and attempts per chunk
/// (coal, iron, gold, diamond).
pub open spec fn ore_type(t: int) -> (u8, i32, u64, i32) {
    if t == 0 {
        (16u8, 8i32, 60u64, 20i32)
    } else if t == 1 {
        (15u8, 4i32, 40u64, 15i32)
    } else if t == 2 {
        (14u8, 3i32, 30u64, 10i32)
    } else {
        (13u8, 2i32, 20u64, 5i32)
    }
}

/// The seed of one ore attempt of a chunk.
pub open spec fn ore_seed(world_seed: u64, ore_id: u8, attempt: int, chunk_x: i32, chunk_z: i32) -> u64 {
    chunk_seed(
        world_seed.wrapping_add((ore_id as u64 * 1000) as u64).wrapping_add(attempt as u64),
        chunk_x,
        chunk_z,
    )
}

/// The blocks after the first `m` attempts of ore type `t`.
pub open spec fn ore_attempts(
    b: Seq<u8>,
    world_seed: u64,
    chunk_x: i32,
    chunk_z: i32,
    t: int,
    m: nat,
) -> Seq<u8>
    decreases m,
{
    if m == 0 {
        b
    } else {
        let prev = ore_attempts(b, world_seed, chunk_x, chunk_z, t, (m - 1) as nat);
        let (ore_id, vein_size, max_y, _attempts) = ore_type(t);
        let seed = ore_seed(world_seed, ore_id, m - 1, chunk_x, chunk_z);
        vein_blocks(
            prev,
            seed,
            chunk_x * 16 + ((seed >> 16u64) % 16) as int,
            ((seed >> 8u64) % max_y) as int,
            chunk_z * 16 + (seed % 16) as int,
            ore_id,
            vein_size as nat,
        )
    }
}

/// The blocks after all attempts of the first `n` ore types.
pub open spec fn ores_placed(b: Seq<u8>, world_seed: u64, chunk_x: i32, chunk_z: i32, n: nat) -> Seq<u8>
    decreases n,
{
    if n == 0 {
        b
    } else {
        let prev = ores_placed(b, world_seed, chunk_x, chunk_z, (n - 1) as nat);
        ore_attempts(prev, world_seed, chunk_x, chunk_z, n - 1, ore_type(n - 1).3 as nat)
    }
}

proof fn lemma_vein_blocks_len(b: Seq<u8>, seed: u64, sx: int, sy: int, sz: int, ore: u8, k: nat)
    requires
        b.len() == 32768,
    ensures
        vein_blocks(b, seed, sx, sy, sz, ore, k).len() == b.len(),
    decreases k,
{
    if k > 0 {
        lemma_vein_blocks_len(b, seed, sx, sy, sz, ore, (k - 1) as nat);
        let o = vein_offset(seed, k - 1);
        lemma_place_ore_len(
            vein_blocks(b, seed, sx, sy, sz, ore, (k - 1) as nat),
            sx + o.0,
            sy + o.1,
            sz + o.2,
            ore,
        );
    }
}

/// Places the ore deposits of a chunk: for each ore type in turn, each
/// attempt draws a seed from the world seed and the chunk position, and
/// places a vein from a start inside the chunk below the type's height
/// bound.
pub fn generate_ores(chunk: &mut Chunk, world_seed: u64, chunk_x: i32, chunk_z: i32)
    requires
        chunk_seed_ok(chunk_x, chunk_z),
    ensures
        final(chunk).x == old(chunk).x,
        final(chunk).z == old(chunk).z,
        final(chunk).blocks@ == ores_placed(old(chunk).blocks@, world_seed, chunk_x, chunk_z, 4),
{
    proof {
        lemma_chunk_seed_ok_bounds(chunk_x, chunk_z);
    }
    let base_x = chunk_x * 16;
    let base_z = chunk_z * 16;
    let ore_types: [(u8, i32, u64, i32); 4] = [(16, 8, 60, 20), (15, 4, 40, 15), (14, 3, 30, 10), (13, 2, 20, 5)];
    let ghost old_blocks = chunk.blocks@;
    let mut t: usize = 0;
    while t < 4
        invariant
            0 <= t <= 4,
            chunk_seed_ok(chunk_x, chunk_z),
            -134217727 <= chunk_x <= 134217726,
            -134217727 <= chunk_z <= 134217726,
            base_x == chunk_x * 16,
            base_z == chunk_z * 16,
            forall|k: int| 0 <= k < 4 ==> ore_types@[k] == ore_type(k),
            chunk.x == old(chunk).x,
            chunk.z == old(chunk).z,
            old_blocks == old(chunk).blocks@,
            chunk.blocks@.len() == 32768,
            chunk.blocks@ == ores_placed(old_blocks, world_seed, chunk_x, chunk_z, t as nat),
        decreases 4 - t,
    {
        let (ore_id, vein_size, max_y, attempts) = ore_types[t];
        assert((ore_id, vein_size, max_y, attempts) == ore_type(t as int));
        assert(attempts >= 0 && vein_size >= 0 && max_y > 0);
        let ghost before = chunk.blocks@;
        let mut attempt: i32 = 0;
        while attempt < attempts
            invariant
                0 <= t < 4,
                (ore_id, vein_size, max_y, attempts) == ore_type(t as int),
                0 <= attempt <= attempts,
                chunk_seed_ok(chunk_x, chunk_z),
                -134217727 <= chunk_x <= 134217726,
                -134217727 <= chunk_z <= 134217726,
                base_x == chunk_x * 16,
                base_z == chunk_z * 16,
                chunk.x == old(chunk).x,
                chunk.z == old(chunk).z,
                chunk.blocks@.len() == 32768,
                chunk.blocks@ == ore_attempts(before, world_seed, chunk_x, chunk_z, t as int, attempt as nat),
            decreases attempts - attempt,
        {
            let seed = world_seed.wrapping_add(ore_id as u64 * 1000).wrapping_add(attempt as u64).wrapping_mul(
                (chunk_x as u64).wrapping_mul(SEED_MUL_X),
            ).wrapping_add((chunk_z as u64).wrapping_mul(SEED_MUL_Z));
            let start_x = base_x + ((seed >> 16u64) % 16) as i32;
            let start_y = ((seed >> 8u64) % max_y) as i32;
            let start_z = base_z + (seed % 16) as i32;
            proof {
                lemma_vein_blocks_len(chunk.blocks@, seed, start_x as int, start_y as int, start_z as int, ore_id, vein_size as nat);
            }
            generate_ore_vein(chunk, start_x, start_y, start_z, ore_id, vein_size, seed);
            attempt = attempt + 1;
        }
        t = t + 1;
    }
}

} // verus!
