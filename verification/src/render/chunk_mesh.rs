//! Chunk mesh generation: the visible faces of a chunk's blocks as quads of
//! vertices with triangle indices.
//!
//! Vertex positions are block-corner coordinates (integers); a vertex
//! carries the block type that decides its colour.

use vstd::prelude::*;
use crate::math::position::{ChunkPos, LocalPos};
use crate::world::chunk::Chunk;
use crate::world::world_manager::World;

verus! {

/// Block face directions.
#[derive(Debug, Clone, Copy, PartialEq, Eq, Structural)]
pub enum FaceDirection {
    /// Right face.
    PositiveX,
    /// Left face.
    NegativeX,
    /// Top face.
    PositiveY,
    /// Bottom face.
    NegativeY,
    /// Front face.
    PositiveZ,
    /// Back face.
    NegativeZ,
}

/// A mesh vertex: a block-corner position and the block type that colours it.
#[derive(Debug, Clone, Copy, PartialEq, Eq, Structural)]
pub struct MeshVertex {
    pub x: i64,
    pub y: i64,
    pub z: i64,
    pub block_type: u8,
}

/// A face of a block: block coordinates, direction and block type.
pub type Face = (i32, i32, i32, FaceDirection, u8);

/// The corner offset `c` (0..4) of a face, in the winding order of its quad.
pub open spec fn spec_corner_offset(direction: FaceDirection, c: int) -> (int, int, int) {
    match direction {
        FaceDirection::PositiveX => if c == 0 { (1, 0, 1) } else if c == 1 { (1, 0, 0) } else if c == 2 { (1, 1, 0) } else { (1, 1, 1) },
        FaceDirection::NegativeX => if c == 0 { (0, 0, 0) } else if c == 1 { (0, 0, 1) } else if c == 2 { (0, 1, 1) } else { (0, 1, 0) },
        FaceDirection::PositiveY => if c == 0 { (0, 1, 1) } else if c == 1 { (1, 1, 1) } else if c == 2 { (1, 1, 0) } else { (0, 1, 0) },
        FaceDirection::NegativeY => if c == 0 { (0, 0, 0) } else if c == 1 { (1, 0, 0) } else if c == 2 { (1, 0, 1) } else { (0, 0, 1) },
        FaceDirection::PositiveZ => if c == 0 { (0, 0, 1) } else if c == 1 { (1, 0, 1) } else if c == 2 { (1, 1, 1) } else { (0, 1, 1) },
        FaceDirection::NegativeZ => if c == 0 { (1, 0, 0) } else if c == 1 { (0, 0, 0) } else if c == 2 { (0, 1, 0) } else { (1, 1, 0) },
    }
}

/// The vertex at corner `c` of a face.
pub open spec fn corner_vertex(f: Face, c: int) -> MeshVertex {
    let o = spec_corner_offset(f.3, c);
    MeshVertex { x: (f.0 + o.0) as i64, y: (f.1 + o.1) as i64, z: (f.2 + o.2) as i64, block_type: f.4 }
}

/// The four vertices of a face.
pub open spec fn quad_vertices(f: Face) -> Seq<MeshVertex> {
    seq![corner_vertex(f, 0), corner_vertex(f, 1), corner_vertex(f, 2), corner_vertex(f, 3)]
}

/// The two triangles of a quad whose first vertex has index `base`.
pub open spec fn quad_indices(base: int) -> Seq<u32> {
    seq![base as u32, (base + 1) as u32, (base + 2) as u32, (base + 2) as u32, (base + 3) as u32, base as u32]
}

/// The vertices of a list of faces, four per face in order.
pub open spec fn face_vertices(faces: Seq<Face>) -> Seq<MeshVertex>
    decreases faces.len(),
{
    if faces.len() == 0 {
        Seq::empty()
    } else {
        face_vertices(faces.drop_last()) + quad_vertices(faces.last())
    }
}

/// The indices of a list of faces, six per face, each face's indices
/// offset by the number of vertices before it.
pub open spec fn face_indices(faces: Seq<Face>) -> Seq<u32>
    decreases faces.len(),
{
    if faces.len() == 0 {
        Seq::empty()
    } else {
        face_indices(faces.drop_last()) + quad_indices(4 * (faces.len() - 1))
    }
}

/// Every triangle index of a mesh of faces names one of its vertices, as
/// long as the vertex count fits the 32-bit indices.
pub proof fn law_mesh_indices_in_range(faces: Seq<Face>)
    requires
        4 * faces.len() <= u32::MAX + 1,
    ensures
        forall|i: int|
            0 <= i < face_indices(faces).len() ==> (#[trigger] face_indices(faces)[i] as int)
                < face_vertices(faces).len(),
    decreases faces.len(),
{
    lemma_face_vertices_len(faces);
    if faces.len() > 0 {
        let prev = faces.drop_last();
        law_mesh_indices_in_range(prev);
        lemma_face_vertices_len(prev);
        let base = 4 * (faces.len() - 1);
        assert forall|i: int| 0 <= i < face_indices(faces).len() implies (#[trigger] face_indices(
            faces,
        )[i] as int) < face_vertices(faces).len() by {
            if i < face_indices(prev).len() {
                assert(face_indices(faces)[i] == face_indices(prev)[i]);
            } else {
                let k = i - face_indices(prev).len();
                assert(face_indices(faces)[i] == quad_indices(base)[k]);
                assert(0 <= k < 6);
            }
        }
    }
}

/// Four vertices per face.
pub proof fn lemma_face_vertices_len(faces: Seq<Face>)
    ensures
        face_vertices(faces).len() == 4 * faces.len(),
        face_indices(faces).len() == 6 * faces.len(),
    decreases faces.len(),
{
    if faces.len() > 0 {
        lemma_face_vertices_len(faces.drop_last());
    }
}

/// Chunk mesh data: vertices and triangle indices.
pub struct ChunkMesh {
    vertices: Vec<MeshVertex>,
    indices: Vec<u32>,
}

impl ChunkMesh {
    /// The vertices.
    pub closed spec fn spec_vertices(&self) -> Seq<MeshVertex> {
        self.vertices@
    }

    /// The triangle indices.
    pub closed spec fn spec_indices(&self) -> Seq<u32> {
        self.indices@
    }

    /// Whether the mesh is exactly the quads of the given faces.
    pub open spec fn holds_faces(&self, faces: Seq<Face>) -> bool {
        &&& self.spec_vertices() == face_vertices(faces)
        &&& self.spec_indices() == face_indices(faces)
    }

    /// Creates an empty mesh.
    pub fn new() -> (m: Self)
        ensures
            m.spec_vertices() == Seq::<MeshVertex>::empty(),
            m.spec_indices() == Seq::<u32>::empty(),
            m.holds_faces(Seq::empty()),
    {
        ChunkMesh { vertices: Vec::new(), indices: Vec::new() }
    }

    /// Adds the quad of a block face: four corner vertices and two
    /// triangles whose indices start at the current vertex count.
    pub fn add_face(&mut self, x: i32, y: i32, z: i32, direction: FaceDirection, block_type: u8)
        requires
            old(self).spec_vertices().len() + 4 <= u32::MAX,
        ensures
            final(self).spec_vertices() == old(self).spec_vertices() + quad_vertices(
                (x, y, z, direction, block_type),
            ),
            final(self).spec_indices() == old(self).spec_indices() + quad_indices(
                old(self).spec_vertices().len() as int,
            ),
    {
        let ghost f: Face = (x, y, z, direction, block_type);
        let vertex_offset = self.vertices.len() as u32;
        let bx = x as i64;
        let by = y as i64;
        let bz = z as i64;
        let mut c: usize = 0;
        while c < 4
            invariant
                0 <= c <= 4,
                f == (x, y, z, direction, block_type),
                bx == x && by == y && bz == z,
                old(self).spec_vertices().len() + 4 <= u32::MAX,
                self.indices@ == old(self).spec_indices(),
                self.vertices@ == old(self).spec_vertices() + quad_vertices(f).take(c as int),
            decreases 4 - c,
        {
            let (ox, oy, oz) = corner_offset(direction, c);
            self.vertices.push(MeshVertex { x: bx + ox, y: by + oy, z: bz + oz, block_type });
            proof {
                assert(quad_vertices(f).take(c + 1) =~= quad_vertices(f).take(c as int).push(
                    corner_vertex(f, c as int),
                ));
            }
            c = c + 1;
        }
        proof {
            assert(quad_vertices(f).take(4) =~= quad_vertices(f));
        }
        let face_indices: [u32; 6] = [0, 1, 2, 2, 3, 0];
        let mut t: usize = 0;
        while t < 6
            invariant
                0 <= t <= 6,
                face_indices@ == seq![0u32, 1, 2, 2, 3, 0],
                vertex_offset == old(self).spec_vertices().len(),
                vertex_offset + 4 <= u32::MAX,
                self.vertices@ == old(self).spec_vertices() + quad_vertices(f),
                self.indices@ == old(self).spec_indices() + quad_indices(vertex_offset as int).take(
                    t as int,
                ),
            decreases 6 - t,
        {
            self.indices.push(face_indices[t] + vertex_offset);
            proof {
                assert(quad_indices(vertex_offset as int).take(t + 1) =~= quad_indices(
                    vertex_offset as int,
                ).take(t as int).push((face_indices@[t as int] + vertex_offset) as u32));
            }
            t = t + 1;
        }
        proof {
            assert(quad_indices(vertex_offset as int).take(6) =~= quad_indices(vertex_offset as int));
        }
    }

    /// The vertices of the mesh.
    pub fn get_vertices(&self) -> (v: &Vec<MeshVertex>)
        ensures
            v@ == self.spec_vertices(),
    {
        &self.vertices
    }

    /// The triangle indices of the mesh.
    pub fn get_indices(&self) -> (v: &Vec<u32>)
        ensures
            v@ == self.spec_indices(),
    {
        &self.indices
    }

    /// The vertices of the mesh, for modification in place; the indices are
    /// left as they are.
    pub fn get_vertices_mut(&mut self) -> (v: &mut Vec<MeshVertex>)
        ensures
            v@ == old(self).spec_vertices(),
            final(self).spec_vertices() == final(v)@,
            final(self).spec_indices() == old(self).spec_indices(),
    {
        &mut self.vertices
    }

    /// The triangle indices of the mesh, for modification in place; the
    /// vertices are left as they are.
    pub fn get_indices_mut(&mut self) -> (v: &mut Vec<u32>)
        ensures
            v@ == old(self).spec_indices(),
            final(self).spec_indices() == final(v)@,
            final(self).spec_vertices() == old(self).spec_vertices(),
    {
        &mut self.indices
    }
}

impl Default for ChunkMesh {
    fn default() -> (m: Self)
        ensures
            m.holds_faces(Seq::empty()),
    {
        ChunkMesh::new()
    }
}

/// The corner offset `c` (0..4) of a face direction.
fn corner_offset(direction: FaceDirection, c: usize) -> (o: (i64, i64, i64))
    requires
        c < 4,
    ensures
        (o.0 as int, o.1 as int, o.2 as int) == spec_corner_offset(direction, c as int),
{
    match direction {
        FaceDirection::PositiveX => if c == 0 { (1, 0, 1) } else if c == 1 { (1, 0, 0) } else if c == 2 { (1, 1, 0) } else { (1, 1, 1) },
        FaceDirection::NegativeX => if c == 0 { (0, 0, 0) } else if c == 1 { (0, 0, 1) } else if c == 2 { (0, 1, 1) } else { (0, 1, 0) },
        FaceDirection::PositiveY => if c == 0 { (0, 1, 1) } else if c == 1 { (1, 1, 1) } else if c == 2 { (1, 1, 0) } else { (0, 1, 0) },
        FaceDirection::NegativeY => if c == 0 { (0, 0, 0) } else if c == 1 { (1, 0, 0) } else if c == 2 { (1, 0, 1) } else { (0, 0, 1) },
        FaceDirection::PositiveZ => if c == 0 { (0, 0, 1) } else if c == 1 { (1, 0, 1) } else if c == 2 { (1, 1, 1) } else { (0, 1, 1) },
        FaceDirection::NegativeZ => if c == 0 { (1, 0, 0) } else if c == 1 { (0, 0, 0) } else if c == 2 { (0, 1, 0) } else { (1, 1, 0) },
    }
}

/// The block position a face looks at.
pub open spec fn neighbor_of(x: int, y: int, z: int, d: FaceDirection) -> (int, int, int) {
    match d {
        FaceDirection::PositiveX => (x + 1, y, z),
        FaceDirection::NegativeX => (x - 1, y, z),
        FaceDirection::PositiveY => (x, y + 1, z),
        FaceDirection::NegativeY => (x, y - 1, z),
        FaceDirection::PositiveZ => (x, y, z + 1),
        FaceDirection::NegativeZ => (x, y, z - 1),
    }
}

/// The chunk that holds a horizontal neighbor outside the chunk at
/// `(cx, cz)`, as the face check picks it (X is tested before Z).
pub open spec fn neighbor_chunk(cx: int, cz: int, nx: int, nz: int) -> (int, int) {
    if nx < 0 {
        (cx - 1, cz)
    } else if nx >= 16 {
        (cx + 1, cz)
    } else if nz < 0 {
        (cx, cz - 1)
    } else if nz >= 16 {
        (cx, cz + 1)
    } else {
        (cx, cz)
    }
}

/// A local coordinate wrapped into the neighboring chunk.
pub open spec fn wrap_local(v: int) -> int {
    if v < 0 {
        15
    } else if v >= 16 {
        0
    } else {
        v
    }
}

/// The storage index of in-bounds local coordinates.
pub open spec fn block_index(x: int, y: int, z: int) -> int {
    x * 2048 + z * 128 + y
}

/// Whether a face of the block at `(x, y, z)` in `chunk` is drawn: its
/// neighbor is air, inside the chunk or in the loaded neighboring chunk;
/// faces at the top and bottom of the world, and toward chunks that are
/// not loaded, are always drawn.
pub open spec fn face_visible(
    chunk: Chunk,
    loaded: Map<ChunkPos, Chunk>,
    x: int,
    y: int,
    z: int,
    d: FaceDirection,
) -> bool {
    let n = neighbor_of(x, y, z, d);
    if !(0 <= n.0 < 16) || !(0 <= n.1 < 128) || !(0 <= n.2 < 16) {
        if !(0 <= n.1 < 128) {
            true
        } else {
            let nc = neighbor_chunk(chunk.x as int, chunk.z as int, n.0, n.2);
            let np = ChunkPos { x: nc.0 as i32, z: nc.1 as i32 };
            if loaded.contains_key(np) {
                loaded[np].blocks@[block_index(wrap_local(n.0), n.1, wrap_local(n.2))] == 0
            } else {
                true
            }
        }
    } else {
        chunk.blocks@[block_index(n.0, n.1, n.2)] == 0
    }
}

/// A face is decided by the block at the world position it looks at: for
/// a block at local `(x, y, z)` of a chunk, the neighbor at world
/// coordinates `(chunk.x * 16 + n.0, n.1, chunk.z * 16 + n.2)` is read from
/// the chunk holding that world position (floor division by 16) at the
/// position's offset inside it (the remainder modulo 16). Above and below
/// the world the face is drawn, and toward a chunk that is not loaded too.
pub proof fn law_face_reads_adjacent_world_block(
    chunk: Chunk,
    loaded: Map<ChunkPos, Chunk>,
    x: int,
    y: int,
    z: int,
    d: FaceDirection,
)
    requires
        0 <= x < 16,
        0 <= y < 128,
        0 <= z < 16,
        i32::MIN < chunk.x < i32::MAX,
        i32::MIN < chunk.z < i32::MAX,
    ensures
        ({
            let n = neighbor_of(x, y, z, d);
            let wx = chunk.x * 16 + n.0;
            let wz = chunk.z * 16 + n.2;
            let home = ChunkPos { x: (wx / 16) as i32, z: (wz / 16) as i32 };
            let lx = wx % 16;
            let lz = wz % 16;
            if !(0 <= n.1 < 128) {
                face_visible(chunk, loaded, x, y, z, d)
            } else if home == (ChunkPos { x: chunk.x, z: chunk.z }) {
                face_visible(chunk, loaded, x, y, z, d) == (chunk.blocks@[lx * 2048 + lz * 128 + n.1]
                    == 0)
            } else if loaded.contains_key(home) {
                face_visible(chunk, loaded, x, y, z, d) == (loaded[home].blocks@[lx * 2048 + lz * 128
                    + n.1] == 0)
            } else {
                face_visible(chunk, loaded, x, y, z, d)
            }
        }),
{
    let n = neighbor_of(x, y, z, d);
    let cx = chunk.x as int;
    let cz = chunk.z as int;
    let wx = cx * 16 + n.0;
    let wz = cz * 16 + n.2;
    assert(-1 <= n.0 <= 16 && -1 <= n.2 <= 16);
    assert(wx / 16 == if n.0 < 0 { cx - 1 } else if n.0 >= 16 { cx + 1 } else { cx }
        && wx % 16 == wrap_local(n.0)) by (nonlinear_arith)
        requires
            wx == cx * 16 + n.0,
            -1 <= n.0 <= 16,
    ;
    assert(wz / 16 == if n.2 < 0 { cz - 1 } else if n.2 >= 16 { cz + 1 } else { cz }
        && wz % 16 == wrap_local(n.2)) by (nonlinear_arith)
        requires
            wz == cz * 16 + n.2,
            -1 <= n.2 <= 16,
    ;
}

/// Whether the neighboring chunk coordinates a face check needs fit an
/// `i32`.
pub open spec fn neighbor_chunk_fits(chunk: Chunk, x: int, y: int, z: int, d: FaceDirection) -> bool {
    let n = neighbor_of(x, y, z, d);
    0 <= n.1 < 128 ==> {
        let nc = neighbor_chunk(chunk.x as int, chunk.z as int, n.0, n.2);
        i32::MIN <= nc.0 <= i32::MAX && i32::MIN <= nc.1 <= i32::MAX
    }
}

/// The face direction checked `i`-th (0..6) for each block.
pub open spec fn dir_at(i: int) -> FaceDirection {
    if i == 0 {
        FaceDirection::PositiveX
    } else if i == 1 {
        FaceDirection::NegativeX
    } else if i == 2 {
        FaceDirection::PositiveY
    } else if i == 3 {
        FaceDirection::NegativeY
    } else if i == 4 {
        FaceDirection::PositiveZ
    } else {
        FaceDirection::NegativeZ
    }
}

/// The drawn faces among the first `m` directions of the block at
/// `(x, y, z)`, whose type is `b`.
pub open spec fn block_faces(
    chunk: Chunk,
    loaded: Map<ChunkPos, Chunk>,
    x: int,
    y: int,
    z: int,
    b: u8,
    m: nat,
) -> Seq<Face>
    decreases m,
{
    if m == 0 {
        Seq::empty()
    } else {
        let prev = block_faces(chunk, loaded, x, y, z, b, (m - 1) as nat);
        let d = dir_at(m - 1);
        if face_visible(chunk, loaded, x, y, z, d) {
            prev.push((x as i32, y as i32, z as i32, d, b))
        } else {
            prev
        }
    }
}

/// The block coordinates of cell `k` (0..32768) in meshing order: X
/// outermost, then Y, then Z.
pub open spec fn mesh_cell(k: int) -> (int, int, int) {
    (k / 2048, (k / 16) % 128, k % 16)
}

/// The faces drawn for the first `n` cells of a chunk, in meshing order;
/// air blocks (type 0) have none.
pub open spec fn chunk_faces(chunk: Chunk, loaded: Map<ChunkPos, Chunk>, n: nat) -> Seq<Face>
    decreases n,
{
    if n == 0 {
        Seq::empty()
    } else {
        let prev = chunk_faces(chunk, loaded, (n - 1) as nat);
        let c = mesh_cell(n - 1);
        let b = chunk.blocks@[block_index(c.0, c.1, c.2)];
        if b == 0 {
            prev
        } else {
            prev + block_faces(chunk, loaded, c.0, c.1, c.2, b, 6)
        }
    }
}

/// Whether every face check of a chunk can compute its neighboring chunk:
/// a chunk at the edge of the `i32` range has no solid block on that edge.
pub open spec fn mesh_coords_ok(chunk: Chunk) -> bool {
    &&& chunk.x == i32::MIN ==> forall|y: int, z: int|
        0 <= y < 128 && 0 <= z < 16 ==> chunk.blocks@[block_index(0, y, z)] == 0
    &&& chunk.x == i32::MAX ==> forall|y: int, z: int|
        0 <= y < 128 && 0 <= z < 16 ==> chunk.blocks@[block_index(15, y, z)] == 0
    &&& chunk.z == i32::MIN ==> forall|x: int, y: int|
        0 <= x < 16 && 0 <= y < 128 ==> chunk.blocks@[block_index(x, y, 0)] == 0
    &&& chunk.z == i32::MAX ==> forall|x: int, y: int|
        0 <= x < 16 && 0 <= y < 128 ==> chunk.blocks@[block_index(x, y, 15)] == 0
}

proof fn lemma_block_faces_len(
    chunk: Chunk,
    loaded: Map<ChunkPos, Chunk>,
    x: int,
    y: int,
    z: int,
    b: u8,
    m: nat,
)
    ensures
        block_faces(chunk, loaded, x, y, z, b, m).len() <= m,
    decreases m,
{
    if m > 0 {
        lemma_block_faces_len(chunk, loaded, x, y, z, b, (m - 1) as nat);
    }
}

proof fn lemma_chunk_faces_len(chunk: Chunk, loaded: Map<ChunkPos, Chunk>, n: nat)
    ensures
        chunk_faces(chunk, loaded, n).len() <= 6 * n,
    decreases n,
{
    if n > 0 {
        lemma_chunk_faces_len(chunk, loaded, (n - 1) as nat);
        let c = mesh_cell(n - 1);
        lemma_block_faces_len(chunk, loaded, c.0, c.1, c.2, chunk.blocks@[block_index(c.0, c.1, c.2)], 6);
    }
}

/// Adding the quad of one more face extends the face lists.
proof fn lemma_faces_push(faces: Seq<Face>, f: Face)
    ensures
        face_vertices(faces.push(f)) == face_vertices(faces) + quad_vertices(f),
        face_indices(faces.push(f)) == face_indices(faces) + quad_indices(4 * faces.len() as int),
{
    assert(faces.push(f).drop_last() =~= faces);
}

impl ChunkMesh {
    /// Whether a face of the block at local `(x, y, z)` is drawn (face
    /// culling): see `face_visible`.
    fn should_render_face(
        chunk: &Chunk,
        world: &World,
        x: i32,
        y: i32,
        z: i32,
        direction: FaceDirection,
    ) -> (b: bool)
        requires
            0 <= x < 16,
            0 <= y < 128,
            0 <= z < 16,
            neighbor_chunk_fits(*chunk, x as int, y as int, z as int, direction),
        ensures
            b == face_visible(*chunk, world.chunks_view(), x as int, y as int, z as int, direction),
    {
        let (check_x, check_y, check_z) = match direction {
            FaceDirection::PositiveX => (x + 1, y, z),
            FaceDirection::NegativeX => (x - 1, y, z),
            FaceDirection::PositiveY => (x, y + 1, z),
            FaceDirection::NegativeY => (x, y - 1, z),
            FaceDirection::PositiveZ => (x, y, z + 1),
            FaceDirection::NegativeZ => (x, y, z - 1),
        };
        if !(0 <= check_x && check_x < 16) || !(0 <= check_y && check_y < 128) || !(0 <= check_z
            && check_z < 16) {
            if !(0 <= check_y && check_y < 128) {
                return true;
            }
            let chunk_pos = ChunkPos::new(chunk.x, chunk.z);
            let (neighbor_chunk_x, neighbor_chunk_z) = if check_x < 0 {
                (chunk_pos.x - 1, chunk_pos.z)
            } else if check_x >= 16 {
                (chunk_pos.x + 1, chunk_pos.z)
            } else if check_z < 0 {
                (chunk_pos.x, chunk_pos.z - 1)
            } else if check_z >= 16 {
                (chunk_pos.x, chunk_pos.z + 1)
            } else {
                (chunk_pos.x, chunk_pos.z)
            };
            let neighbor_chunk_pos = ChunkPos::new(neighbor_chunk_x, neighbor_chunk_z);
            let neighbor_local_x = if check_x < 0 {
                15
            } else if check_x >= 16 {
                0
            } else {
                check_x
            };
            let neighbor_local_z = if check_z < 0 {
                15
            } else if check_z >= 16 {
                0
            } else {
                check_z
            };
            let neighbor_local_pos = LocalPos::new(neighbor_local_x, check_y, neighbor_local_z);
            match world.get_chunk(neighbor_chunk_pos) {
                Some(neighbor_chunk) => neighbor_chunk.get_block(neighbor_local_pos) == 0,
                None => true,
            }
        } else {
            let neighbor_pos = LocalPos::new(check_x, check_y, check_z);
            chunk.get_block(neighbor_pos) == 0
        }
    }

    /// Adds the drawn faces of one solid block, in the order +X, -X, +Y,
    /// -Y, +Z, -Z.
    fn add_visible_faces(
        &mut self,
        chunk: &Chunk,
        world: &World,
        x: i32,
        y: i32,
        z: i32,
        block_type: u8,
        prev: Ghost<Seq<Face>>,
    )
        requires
            mesh_coords_ok(*chunk),
            0 <= x < 16,
            0 <= y < 128,
            0 <= z < 16,
            block_type != 0,
            block_type == chunk.blocks@[block_index(x as int, y as int, z as int)],
            prev@.len() <= 6 * 32768,
            old(self).holds_faces(prev@),
        ensures
            final(self).holds_faces(
                prev@ + block_faces(*chunk, world.chunks_view(), x as int, y as int, z as int, block_type, 6),
            ),
    {
        let ghost loaded = world.chunks_view();
        let directions: [FaceDirection; 6] = [
            FaceDirection::PositiveX,
            FaceDirection::NegativeX,
            FaceDirection::PositiveY,
            FaceDirection::NegativeY,
            FaceDirection::PositiveZ,
            FaceDirection::NegativeZ,
        ];
        proof {
            assert(block_faces(*chunk, loaded, x as int, y as int, z as int, block_type, 0) =~= Seq::<Face>::empty());
            assert(prev@ + Seq::<Face>::empty() =~= prev@);
        }
        let mut i: usize = 0;
        while i < 6
            invariant
                0 <= i <= 6,
                loaded == world.chunks_view(),
                mesh_coords_ok(*chunk),
                forall|j: int| 0 <= j < 6 ==> directions@[j] == dir_at(j),
                0 <= x < 16,
                0 <= y < 128,
                0 <= z < 16,
                block_type != 0,
                block_type == chunk.blocks@[block_index(x as int, y as int, z as int)],
                prev@.len() <= 6 * 32768,
                self.holds_faces(
                    prev@ + block_faces(*chunk, loaded, x as int, y as int, z as int, block_type, i as nat),
                ),
            decreases 6 - i,
        {
            let direction = directions[i];
            let ghost cur = prev@ + block_faces(*chunk, loaded, x as int, y as int, z as int, block_type, i as nat);
            proof {
                lemma_block_faces_len(*chunk, loaded, x as int, y as int, z as int, block_type, i as nat);
                lemma_face_vertices_len(cur);
                lemma_edge_blocks_fit(*chunk, x as int, y as int, z as int, direction);
            }
            if Self::should_render_face(chunk, world, x, y, z, direction) {
                self.add_face(x, y, z, direction, block_type);
                proof {
                    lemma_faces_push(cur, (x, y, z, direction, block_type));
                    assert(cur.push((x, y, z, direction, block_type)) =~= prev@ + block_faces(*chunk, loaded, x as int, y as int, z as int, block_type, (i + 1) as nat));
                }
            } else {
                proof {
                    assert(cur =~= prev@ + block_faces(*chunk, loaded, x as int, y as int, z as int, block_type, (i + 1) as nat));
                }
            }
            i = i + 1;
        }
    }

    /// Generates the mesh of a chunk with face culling: for every non-air
    /// block, walking X, then Y, then Z, each drawn face (see
    /// `face_visible`) in the order +X, -X, +Y, -Y, +Z, -Z becomes a quad.
    pub fn generate_chunk_mesh(chunk: &Chunk, world: &World) -> (mesh: Self)
        requires
            mesh_coords_ok(*chunk),
        ensures
            mesh.holds_faces(chunk_faces(*chunk, world.chunks_view(), 32768)),
    {
        let mut mesh = Self::new();
        let ghost loaded = world.chunks_view();
        let ghost mut n: nat = 0;
        for x in 0..16i32
            invariant
                loaded == world.chunks_view(),
                mesh_coords_ok(*chunk),
                n == x * 2048,
                mesh.holds_faces(chunk_faces(*chunk, loaded, n)),
        {
            for y in 0..128i32
                invariant
                    loaded == world.chunks_view(),
                    mesh_coords_ok(*chunk),
                        0 <= x < 16,
                    n == x * 2048 + y * 16,
                    mesh.holds_faces(chunk_faces(*chunk, loaded, n)),
            {
                for z in 0..16i32
                    invariant
                        loaded == world.chunks_view(),
                        mesh_coords_ok(*chunk),
                                0 <= x < 16,
                        0 <= y < 128,
                        n == x * 2048 + y * 16 + z,
                        mesh.holds_faces(chunk_faces(*chunk, loaded, n)),
                {
                    let local_pos = LocalPos::new(x, y, z);
                    let block_type = chunk.get_block(local_pos);
                    let ghost prev = chunk_faces(*chunk, loaded, n);
                    proof {
                        lemma_chunk_faces_step(*chunk, loaded, n, x as int, y as int, z as int);
                        lemma_chunk_faces_len(*chunk, loaded, n);
                    }
                    if block_type != 0 {
                        mesh.add_visible_faces(chunk, world, x, y, z, block_type, Ghost(prev));
                    }
                    proof {
                        n = n + 1;
                    }
                }
            }
        }
        mesh
    }
}

/// One more cell adds the faces of its block, if it is solid.
proof fn lemma_chunk_faces_step(chunk: Chunk, loaded: Map<ChunkPos, Chunk>, n: nat, x: int, y: int, z: int)
    requires
        0 <= x < 16,
        0 <= y < 128,
        0 <= z < 16,
        n == x * 2048 + y * 16 + z,
    ensures
        ({
            let b = chunk.blocks@[block_index(x, y, z)];
            chunk_faces(chunk, loaded, n + 1) == if b == 0 {
                chunk_faces(chunk, loaded, n)
            } else {
                chunk_faces(chunk, loaded, n) + block_faces(chunk, loaded, x, y, z, b, 6)
            }
        }),
{
    assert(mesh_cell(n as int) == (x, y, z));
}

/// A solid block on the edge of a chunk at the edge of the `i32` range does
/// not exist, so the neighboring chunk of every solid block fits an `i32`.
proof fn lemma_edge_blocks_fit(chunk: Chunk, x: int, y: int, z: int, d: FaceDirection)
    requires
        mesh_coords_ok(chunk),
        0 <= x < 16,
        0 <= y < 128,
        0 <= z < 16,
        chunk.blocks@[block_index(x, y, z)] != 0,
    ensures
        neighbor_chunk_fits(chunk, x, y, z, d),
{
    if chunk.x == i32::MIN && x == 0 {
        assert(chunk.blocks@[block_index(0, y, z)] == 0);
    }
    if chunk.x == i32::MAX && x == 15 {
        assert(chunk.blocks@[block_index(15, y, z)] == 0);
    }
    if chunk.z == i32::MIN && z == 0 {
        assert(chunk.blocks@[block_index(x, y, 0)] == 0);
    }
    if chunk.z == i32::MAX && z == 15 {
        assert(chunk.blocks@[block_index(x, y, 15)] == 0);
    }
}

} // verus!
