//! Whole-cube chunk meshes: every solid block becomes a full cube of 24
//! vertices and 36 indices, placed at world coordinates.
//!
//! The vertex and index data stand for the GPU buffers they are uploaded to.

use vstd::prelude::*;
use crate::math::position::LocalPos;
use crate::world::chunk::Chunk;
use crate::render::chunk_mesh::MeshVertex;
use crate::render::gl_wrapper::GraphicsError;

verus! {

/// The 24 cube corners, four per face: front, back, top, bottom, right, left.
pub open spec fn cube_corner(c: int) -> (int, int, int) {
    let t = seq![
        (0int, 0int, 1int), (1, 0, 1), (1, 1, 1), (0, 1, 1),
        (0, 0, 0), (1, 0, 0), (1, 1, 0), (0, 1, 0),
        (0, 1, 0), (1, 1, 0), (1, 1, 1), (0, 1, 1),
        (0, 0, 0), (1, 0, 0), (1, 0, 1), (0, 0, 1),
        (1, 0, 0), (1, 0, 1), (1, 1, 1), (1, 1, 0),
        (0, 0, 0), (0, 0, 1), (0, 1, 1), (0, 1, 0),
    ];
    t[c]
}

/// Corner `i` (0..4) of face `f` (0..6) of the cube.
pub open spec fn face_corner(f: int, i: int) -> (int, int, int) {
    cube_corner(4 * f + i)
}

/// The 24 cube corners are the six faces of the unit cube, four corners
/// each: every corner coordinate is 0 or 1; corners 0..4 lie on the front
/// plane z = 1, 4..8 on the back plane z = 0, 8..12 on the top plane y = 1,
/// 12..16 on the bottom plane y = 0, 16..20 on the right plane x = 1 and
/// 20..24 on the left plane x = 0; and the four corners of each face are
/// distinct, so they are the four corners of that face.
pub proof fn law_cube_corners_are_unit_cube_faces()
    ensures
        forall|c: int|
            0 <= c < 24 ==> {
                let p = #[trigger] cube_corner(c);
                &&& 0 <= p.0 <= 1 && 0 <= p.1 <= 1 && 0 <= p.2 <= 1
                &&& 0 <= c < 4 ==> p.2 == 1
                &&& 4 <= c < 8 ==> p.2 == 0
                &&& 8 <= c < 12 ==> p.1 == 1
                &&& 12 <= c < 16 ==> p.1 == 0
                &&& 16 <= c < 20 ==> p.0 == 1
                &&& 20 <= c < 24 ==> p.0 == 0
            },
        forall|f: int, i: int, j: int|
            0 <= f < 6 && 0 <= i < j < 4 ==> #[trigger] face_corner(f, i) != #[trigger] face_corner(f, j),
{
    assert forall|c: int| 0 <= c < 24 implies {
        let p = #[trigger] cube_corner(c);
        &&& 0 <= p.0 <= 1 && 0 <= p.1 <= 1 && 0 <= p.2 <= 1
        &&& 0 <= c < 4 ==> p.2 == 1
        &&& 4 <= c < 8 ==> p.2 == 0
        &&& 8 <= c < 12 ==> p.1 == 1
        &&& 12 <= c < 16 ==> p.1 == 0
        &&& 16 <= c < 20 ==> p.0 == 1
        &&& 20 <= c < 24 ==> p.0 == 0
    } by {
        if c == 0 {} else if c == 1 {} else if c == 2 {} else if c == 3 {} else if c == 4 {} else if c == 5 {} else if c == 6 {} else if c == 7 {} else if c == 8 {} else if c == 9 {} else if c == 10 {} else if c == 11 {} else if c == 12 {} else if c == 13 {} else if c == 14 {} else if c == 15 {} else if c == 16 {} else if c == 17 {} else if c == 18 {} else if c == 19 {} else if c == 20 {} else if c == 21 {} else if c == 22 {} else {}
    }
    assert forall|f: int, i: int, j: int|
        0 <= f < 6 && 0 <= i < j < 4 implies #[trigger] face_corner(f, i) != #[trigger] face_corner(f, j) by {
        if f == 0 && i == 0 && j == 1 {} else if f == 0 && i == 0 && j == 2 {} else if f == 0 && i == 0 && j == 3 {} else if f == 0 && i == 1 && j == 2 {} else if f == 0 && i == 1 && j == 3 {} else if f == 0 && i == 2 && j == 3 {} else if f == 1 && i == 0 && j == 1 {} else if f == 1 && i == 0 && j == 2 {} else if f == 1 && i == 0 && j == 3 {} else if f == 1 && i == 1 && j == 2 {} else if f == 1 && i == 1 && j == 3 {} else if f == 1 && i == 2 && j == 3 {} else if f == 2 && i == 0 && j == 1 {} else if f == 2 && i == 0 && j == 2 {} else if f == 2 && i == 0 && j == 3 {} else if f == 2 && i == 1 && j == 2 {} else if f == 2 && i == 1 && j == 3 {} else if f == 2 && i == 2 && j == 3 {} else if f == 3 && i == 0 && j == 1 {} else if f == 3 && i == 0 && j == 2 {} else if f == 3 && i == 0 && j == 3 {} else if f == 3 && i == 1 && j == 2 {} else if f == 3 && i == 1 && j == 3 {} else if f == 3 && i == 2 && j == 3 {} else if f == 4 && i == 0 && j == 1 {} else if f == 4 && i == 0 && j == 2 {} else if f == 4 && i == 0 && j == 3 {} else if f == 4 && i == 1 && j == 2 {} else if f == 4 && i == 1 && j == 3 {} else if f == 4 && i == 2 && j == 3 {} else if f == 5 && i == 0 && j == 1 {} else if f == 5 && i == 0 && j == 2 {} else if f == 5 && i == 0 && j == 3 {} else if f == 5 && i == 1 && j == 2 {} else if f == 5 && i == 1 && j == 3 {} else {}
    }
}

/// The 36 cube indices, relative to the cube's first vertex.
pub open spec fn cube_index_table() -> Seq<u16> {
    seq![
        0u16, 1, 2, 2, 3, 0,
        4, 6, 5, 6, 4, 7,
        8, 9, 10, 10, 11, 8,
        12, 14, 13, 14, 12, 15,
        16, 17, 18, 18, 19, 16,
        20, 22, 21, 22, 20, 23,
    ]
}

/// The 24 vertices of a cube with its minimum corner at `(x, y, z)`.
pub open spec fn cube_vertices(x: int, y: int, z: int, b: u8) -> Seq<MeshVertex> {
    Seq::new(
        24,
        |c: int|
            MeshVertex {
                x: (x + cube_corner(c).0) as i64,
                y: (y + cube_corner(c).1) as i64,
                z: (z + cube_corner(c).2) as i64,
                block_type: b,
            },
    )
}

/// The 36 indices of a cube whose first vertex has index `base`.
pub open spec fn cube_indices(base: int) -> Seq<u16> {
    cube_index_table().map_values(|i: u16| (base + i) as u16)
}

/// The block coordinates of cell `k` (0..32768) in cube-building order: Y
/// outermost, then X, then Z.
pub open spec fn cube_cell(k: int) -> (int, int, int) {
    ((k / 16) % 16, k / 256, k % 16)
}

/// The solid blocks among the first `n` cells, in cube-building order, as
/// local coordinates and block type.
pub open spec fn solid_cells(chunk: Chunk, n: nat) -> Seq<(int, int, int, u8)>
    decreases n,
{
    if n == 0 {
        Seq::empty()
    } else {
        let prev = solid_cells(chunk, (n - 1) as nat);
        let c = cube_cell(n - 1);
        let b = chunk.blocks@[c.0 * 2048 + c.2 * 128 + c.1];
        if b != 0 {
            prev.push((c.0, c.1, c.2, b))
        } else {
            prev
        }
    }
}

/// The cube vertices of a list of solid blocks of a chunk, at world
/// coordinates.
pub open spec fn cubes_vertices(chunk: Chunk, cells: Seq<(int, int, int, u8)>) -> Seq<MeshVertex>
    decreases cells.len(),
{
    if cells.len() == 0 {
        Seq::empty()
    } else {
        let c = cells.last();
        cubes_vertices(chunk, cells.drop_last()) + cube_vertices(
            chunk.x * 16 + c.0,
            c.1,
            chunk.z * 16 + c.2,
            c.3,
        )
    }
}

/// The cube indices of a list of solid blocks, 24 vertices apart.
pub open spec fn cubes_indices(cells: Seq<(int, int, int, u8)>) -> Seq<u16>
    decreases cells.len(),
{
    if cells.len() == 0 {
        Seq::empty()
    } else {
        cubes_indices(cells.drop_last()) + cube_indices(24 * (cells.len() - 1))
    }
}

proof fn lemma_cubes_len(chunk: Chunk, cells: Seq<(int, int, int, u8)>)
    ensures
        cubes_vertices(chunk, cells).len() == 24 * cells.len(),
        cubes_indices(cells).len() == 36 * cells.len(),
    decreases cells.len(),
{
    if cells.len() > 0 {
        lemma_cubes_len(chunk, cells.drop_last());
    }
}

/// Every index of a cube mesh names one of its vertices, as long as the
/// vertex count fits the 16-bit indices.
pub proof fn law_cube_indices_in_range(chunk: Chunk, cells: Seq<(int, int, int, u8)>)
    requires
        24 * cells.len() <= u16::MAX + 1,
    ensures
        forall|i: int|
            0 <= i < cubes_indices(cells).len() ==> (#[trigger] cubes_indices(cells)[i] as int)
                < cubes_vertices(chunk, cells).len(),
    decreases cells.len(),
{
    lemma_cubes_len(chunk, cells);
    if cells.len() > 0 {
        let prev = cells.drop_last();
        law_cube_indices_in_range(chunk, prev);
        lemma_cubes_len(chunk, prev);
        let base = 24 * (cells.len() - 1);
        assert forall|i: int| 0 <= i < cubes_indices(cells).len() implies (#[trigger] cubes_indices(
            cells,
        )[i] as int) < cubes_vertices(chunk, cells).len() by {
            if i < cubes_indices(prev).len() {
                assert(cubes_indices(cells)[i] == cubes_indices(prev)[i]);
            } else {
                let k = i - cubes_indices(prev).len();
                assert(cubes_indices(cells)[i] == cube_indices(base)[k]);
                assert(0 <= k < 36);
                assert(cube_index_table()[k] < 24);
            }
        }
    }
}

proof fn lemma_solid_cells_len(chunk: Chunk, n: nat)
    ensures
        solid_cells(chunk, n).len() <= n,
    decreases n,
{
    if n > 0 {
        lemma_solid_cells_len(chunk, (n - 1) as nat);
    }
}

/// Chunk renderer state: the cube mesh of the last chunk that had solid
/// blocks, and its index count.
pub struct ChunkRenderer {
    vertex_buffer: Option<Vec<MeshVertex>>,
    index_buffer: Option<Vec<u16>>,
    num_indices: u32,
}

/// The corner `c` (0..24) of a cube.
fn cube_corner_exec(c: usize) -> (o: (i64, i64, i64))
    requires
        c < 24,
    ensures
        (o.0 as int, o.1 as int, o.2 as int) == cube_corner(c as int),
{
    let table: [(i64, i64, i64); 24] = [
        (0, 0, 1), (1, 0, 1), (1, 1, 1), (0, 1, 1),
        (0, 0, 0), (1, 0, 0), (1, 1, 0), (0, 1, 0),
        (0, 1, 0), (1, 1, 0), (1, 1, 1), (0, 1, 1),
        (0, 0, 0), (1, 0, 0), (1, 0, 1), (0, 0, 1),
        (1, 0, 0), (1, 0, 1), (1, 1, 1), (1, 1, 0),
        (0, 0, 0), (0, 0, 1), (0, 1, 1), (0, 1, 0),
    ];
    table[c]
}

impl ChunkRenderer {
    /// The vertex data of the current mesh, if any.
    pub closed spec fn spec_vertex_buffer(&self) -> Option<Seq<MeshVertex>> {
        match self.vertex_buffer {
            Some(v) => Some(v@),
            None => None,
        }
    }

    /// The index data of the current mesh, if any.
    pub closed spec fn spec_index_buffer(&self) -> Option<Seq<u16>> {
        match self.index_buffer {
            Some(v) => Some(v@),
            None => None,
        }
    }

    /// The index count of the current mesh.
    pub closed spec fn spec_num_indices(&self) -> u32 {
        self.num_indices
    }

    /// Creates a renderer with no mesh.
    pub fn new() -> (r: Result<Self, GraphicsError>)
        ensures
            r matches Ok(c) && c.spec_vertex_buffer() is None && c.spec_index_buffer() is None
                && c.spec_num_indices() == 0,
    {
        Ok(ChunkRenderer { vertex_buffer: None, index_buffer: None, num_indices: 0 })
    }

    /// Appends the cube of one block: 24 vertices and 36 indices offset by
    /// the current vertex count.
    fn add_cube_vertices(
        &self,
        x: i64,
        y: i64,
        z: i64,
        block_id: u8,
        vertices: &mut Vec<MeshVertex>,
        indices: &mut Vec<u16>,
    )
        requires
            old(vertices)@.len() + 24 <= 65536,
            -0x1_0000_0000 <= x <= 0x1_0000_0000,
            -0x1_0000_0000 <= y <= 0x1_0000_0000,
            -0x1_0000_0000 <= z <= 0x1_0000_0000,
        ensures
            final(vertices)@ == old(vertices)@ + cube_vertices(x as int, y as int, z as int, block_id),
            final(indices)@ == old(indices)@ + cube_indices(old(vertices)@.len() as int),
    {
        let base_index = vertices.len() as u16;
        let ghost v0 = vertices@;
        let mut c: usize = 0;
        while c < 24
            invariant
                0 <= c <= 24,
                v0 == old(vertices)@,
                indices@ == old(indices)@,
                -0x1_0000_0000 <= x <= 0x1_0000_0000,
                -0x1_0000_0000 <= y <= 0x1_0000_0000,
                -0x1_0000_0000 <= z <= 0x1_0000_0000,
                vertices@ == v0 + cube_vertices(x as int, y as int, z as int, block_id).take(c as int),
            decreases 24 - c,
        {
            let (ox, oy, oz) = cube_corner_exec(c);
            vertices.push(MeshVertex { x: x + ox, y: y + oy, z: z + oz, block_type: block_id });
            proof {
                assert(cube_vertices(x as int, y as int, z as int, block_id).take(c + 1) =~= cube_vertices(
                    x as int,
                    y as int,
                    z as int,
                    block_id,
                ).take(c as int).push(vertices@.last()));
            }
            c = c + 1;
        }
        proof {
            assert(cube_vertices(x as int, y as int, z as int, block_id).take(24) =~= cube_vertices(
                x as int,
                y as int,
                z as int,
                block_id,
            ));
        }
        let cube_index: [u16; 36] = [
            0, 1, 2, 2, 3, 0,
            4, 6, 5, 6, 4, 7,
            8, 9, 10, 10, 11, 8,
            12, 14, 13, 14, 12, 15,
            16, 17, 18, 18, 19, 16,
            20, 22, 21, 22, 20, 23,
        ];
        assert(cube_index@ =~= cube_index_table());
        let mut t: usize = 0;
        while t < 36
            invariant
                0 <= t <= 36,
                cube_index@ == cube_index_table(),
                base_index == v0.len(),
                base_index + 24 <= 65536,
                indices@ == old(indices)@ + cube_indices(base_index as int).take(t as int),
            decreases 36 - t,
        {
            assert(cube_index@[t as int] <= 23);
            indices.push(base_index + cube_index[t]);
            proof {
                assert(cube_indices(base_index as int).take(t + 1) =~= cube_indices(
                    base_index as int,
                ).take(t as int).push(indices@.last()));
            }
            t = t + 1;
        }
        proof {
            assert(cube_indices(base_index as int).take(36) =~= cube_indices(base_index as int));
        }
    }

    /// Builds the cube mesh of a chunk: a cube at world coordinates for each
    /// solid block, walking Y, then X, then Z. When the chunk has solid
    /// blocks the mesh replaces the current one; otherwise nothing changes.
    /// A chunk with more than 2730 solid blocks overflows the 16-bit
    /// indices, and world coordinates must fit an `i32`.
    pub fn generate_chunk_mesh(&mut self, chunk: &Chunk) -> (r: Result<(), GraphicsError>)
        requires
            solid_cells(*chunk, 32768).len() <= 2730,
            solid_cells(*chunk, 32768).len() > 0 ==> {
                &&& i32::MIN <= chunk.x * 16 && chunk.x * 16 + 15 <= i32::MAX
                &&& i32::MIN <= chunk.z * 16 && chunk.z * 16 + 15 <= i32::MAX
            },
        ensures
            r is Ok,
            ({
                let cells = solid_cells(*chunk, 32768);
                if cells.len() > 0 {
                    &&& final(self).spec_vertex_buffer() == Some(cubes_vertices(*chunk, cells))
                    &&& final(self).spec_index_buffer() == Some(cubes_indices(cells))
                    &&& final(self).spec_num_indices() == 36 * cells.len()
                } else {
                    *final(self) == *old(self)
                }
            }),
    {
        let mut vertices: Vec<MeshVertex> = Vec::new();
        let mut indices: Vec<u16> = Vec::new();
        let ghost mut n: nat = 0;
        proof {
            lemma_solid_cells_monotone(*chunk, 0, 32768);
        }
        for y in 0..128i32
            invariant
                n == y * 256,
                solid_cells(*chunk, 32768).len() <= 2730,
                solid_cells(*chunk, n).len() <= solid_cells(*chunk, 32768).len(),
                solid_cells(*chunk, 32768).len() > 0 ==> {
                    &&& i32::MIN <= chunk.x * 16 && chunk.x * 16 + 15 <= i32::MAX
                    &&& i32::MIN <= chunk.z * 16 && chunk.z * 16 + 15 <= i32::MAX
                },
                vertices@ == cubes_vertices(*chunk, solid_cells(*chunk, n)),
                indices@ == cubes_indices(solid_cells(*chunk, n)),
        {
            for x in 0..16i32
                invariant
                    0 <= y < 128,
                    n == y * 256 + x * 16,
                    solid_cells(*chunk, 32768).len() <= 2730,
                    solid_cells(*chunk, n).len() <= solid_cells(*chunk, 32768).len(),
                    solid_cells(*chunk, 32768).len() > 0 ==> {
                        &&& i32::MIN <= chunk.x * 16 && chunk.x * 16 + 15 <= i32::MAX
                        &&& i32::MIN <= chunk.z * 16 && chunk.z * 16 + 15 <= i32::MAX
                    },
                    vertices@ == cubes_vertices(*chunk, solid_cells(*chunk, n)),
                    indices@ == cubes_indices(solid_cells(*chunk, n)),
            {
                for z in 0..16i32
                    invariant
                        0 <= y < 128,
                        0 <= x < 16,
                        n == y * 256 + x * 16 + z,
                        solid_cells(*chunk, 32768).len() <= 2730,
                        solid_cells(*chunk, n).len() <= solid_cells(*chunk, 32768).len(),
                        solid_cells(*chunk, 32768).len() > 0 ==> {
                            &&& i32::MIN <= chunk.x * 16 && chunk.x * 16 + 15 <= i32::MAX
                            &&& i32::MIN <= chunk.z * 16 && chunk.z * 16 + 15 <= i32::MAX
                        },
                        vertices@ == cubes_vertices(*chunk, solid_cells(*chunk, n)),
                        indices@ == cubes_indices(solid_cells(*chunk, n)),
                {
                    let local_pos = LocalPos::new(x, y, z);
                    let block_id = chunk.get_block(local_pos);
                    let ghost prev = solid_cells(*chunk, n);
                    proof {
                        lemma_solid_cells_step(*chunk, n, x as int, y as int, z as int);
                        lemma_cubes_len(*chunk, prev);
                        if n + 1 <= 32768 {
                            lemma_solid_cells_monotone(*chunk, n + 1, 32768);
                        }
                    }
                    if block_id != 0 {
                        let world_x = chunk.x * 16 + x;
                        let world_y = y;
                        let world_z = chunk.z * 16 + z;
                        self.add_cube_vertices(
                            world_x as i64,
                            world_y as i64,
                            world_z as i64,
                            block_id,
                            &mut vertices,
                            &mut indices,
                        );
                        proof {
                            let c = (x as int, y as int, z as int, block_id);
                            assert(prev.push(c).drop_last() =~= prev);
                        }
                    }
                    proof {
                        n = n + 1;
                    }
                }
            }
        }
        proof {
            lemma_cubes_len(*chunk, solid_cells(*chunk, 32768));
        }
        if vertices.len() > 0 {
            self.num_indices = indices.len() as u32;
            self.vertex_buffer = Some(vertices);
            self.index_buffer = Some(indices);
        }
        Ok(())
    }

    /// The vertex data of the current mesh, if any.
    pub fn vertex_buffer(&self) -> (r: Option<&Vec<MeshVertex>>)
        ensures
            match r {
                Some(v) => self.spec_vertex_buffer() == Some(v@),
                None => self.spec_vertex_buffer() is None,
            },
    {
        self.vertex_buffer.as_ref()
    }

    /// The index data of the current mesh, if any.
    pub fn index_buffer(&self) -> (r: Option<&Vec<u16>>)
        ensures
            match r {
                Some(v) => self.spec_index_buffer() == Some(v@),
                None => self.spec_index_buffer() is None,
            },
    {
        self.index_buffer.as_ref()
    }

    /// The index count of the current mesh.
    pub fn num_indices(&self) -> (n: u32)
        ensures
            n == self.spec_num_indices(),
    {
        self.num_indices
    }
}

/// One more cell adds its block, if it is solid.
proof fn lemma_solid_cells_step(chunk: Chunk, n: nat, x: int, y: int, z: int)
    requires
        0 <= x < 16,
        0 <= y < 128,
        0 <= z < 16,
        n == y * 256 + x * 16 + z,
    ensures
        ({
            let b = chunk.blocks@[x * 2048 + z * 128 + y];
            solid_cells(chunk, n + 1) == if b != 0 {
                solid_cells(chunk, n).push((x, y, z, b))
            } else {
                solid_cells(chunk, n)
            }
        }),
{
    assert(cube_cell(n as int) == (x, y, z));
}

/// The solid blocks of a prefix of cells are at most those of a longer one.
proof fn lemma_solid_cells_monotone(chunk: Chunk, m: nat, n: nat)
    requires
        m <= n,
    ensures
        solid_cells(chunk, m).len() <= solid_cells(chunk, n).len(),
    decreases n - m,
{
    if m < n {
        lemma_solid_cells_monotone(chunk, m, (n - 1) as nat);
    }
}

} // verus!
