use minecraft_alpha_rust::math::position::{ChunkPos, LocalPos};
use minecraft_alpha_rust::world::chunk::Chunk;
use minecraft_alpha_rust::world::world_manager::World;
use minecraft_alpha_rust::render::chunk_mesh::{ChunkMesh, FaceDirection, MeshVertex};
use minecraft_alpha_rust::render::chunk_renderer::ChunkRenderer;
use minecraft_alpha_rust::render::gl_wrapper::{GlWrapper, DEFAULT_TEXTURE};
use minecraft_alpha_rust::render::hud::WebGPUInfo;
use minecraft_alpha_rust::render::frustum::Frustum;
use minecraft_alpha_rust::math::position::WorldPos;

fn air(p: ChunkPos) -> Chunk {
    Chunk::new(p.x, p.z)
}

fn v(x: i64, y: i64, z: i64, b: u8) -> (i64, i64, i64, u8) {
    let _ = MeshVertex { x, y, z, block_type: b };
    (x, y, z, b)
}

fn verts(m: &ChunkMesh) -> Vec<(i64, i64, i64, u8)> {
    m.get_vertices().iter().map(|p| (p.x, p.y, p.z, p.block_type)).collect()
}

#[test]
fn add_face_appends_a_quad_and_two_triangles() {
    let mut m = ChunkMesh::new();
    m.add_face(1, 2, 3, FaceDirection::PositiveX, 7);
    assert_eq!(verts(&m), vec![v(2, 2, 4, 7), v(2, 2, 3, 7), v(2, 3, 3, 7), v(2, 3, 4, 7)]);
    assert_eq!(m.get_indices(), &vec![0, 1, 2, 2, 3, 0]);
    m.add_face(0, 0, 0, FaceDirection::NegativeY, 1);
    assert_eq!(m.get_vertices().len(), 8);
    assert_eq!(&m.get_indices()[6..], &[4, 5, 6, 6, 7, 4]);
    assert_eq!(&verts(&m)[4..], &[v(0, 0, 0, 1), v(1, 0, 0, 1), v(1, 0, 1, 1), v(0, 0, 1, 1)]);
}

#[test]
fn every_mesh_index_names_a_vertex() {
    let mut m = ChunkMesh::default();
    for i in 0..10 {
        m.add_face(i, i, i, FaceDirection::PositiveZ, 2);
    }
    let n = m.get_vertices().len() as u32;
    assert_eq!(n, 40);
    assert_eq!(m.get_indices().len(), 60);
    assert!(m.get_indices().iter().all(|&i| i < n));
}

#[test]
fn lone_block_shows_six_faces() {
    let world = World::new(0, air);
    let mut c = Chunk::new(0, 0);
    c.set_block(LocalPos::new(5, 5, 5), 3);
    let m = ChunkMesh::generate_chunk_mesh(&c, &world);
    assert_eq!(m.get_vertices().len(), 24);
    assert_eq!(m.get_indices().len(), 36);
    // The faces come in the order +X, -X, +Y, -Y, +Z, -Z.
    assert_eq!(verts(&m)[0], v(6, 5, 6, 3));
    assert_eq!(verts(&m)[4], v(5, 5, 5, 3));
    assert_eq!(verts(&m)[8], v(5, 6, 6, 3));
}

#[test]
fn touching_blocks_hide_the_shared_faces() {
    let world = World::new(0, air);
    let mut c = Chunk::new(0, 0);
    c.set_block(LocalPos::new(5, 5, 5), 1);
    c.set_block(LocalPos::new(6, 5, 5), 1);
    let m = ChunkMesh::generate_chunk_mesh(&c, &world);
    assert_eq!(m.get_vertices().len(), 40);
    assert_eq!(m.get_indices().len(), 60);
}

#[test]
fn faces_against_a_loaded_neighbor_chunk_are_culled() {
    let mut world = World::new(0, air);
    let mut neighbor = Chunk::new(-1, 0);
    neighbor.set_block(LocalPos::new(15, 5, 5), 1);
    world.add_chunk(neighbor);
    let mut c = Chunk::new(0, 0);
    c.set_block(LocalPos::new(0, 5, 5), 1);
    let m = ChunkMesh::generate_chunk_mesh(&c, &world);
    assert_eq!(m.get_vertices().len(), 20);
    // Far from the loaded chunks every face of an edge block shows.
    let mut far = Chunk::new(10, 10);
    far.set_block(LocalPos::new(0, 0, 15), 1);
    let m2 = ChunkMesh::generate_chunk_mesh(&far, &world);
    assert_eq!(m2.get_vertices().len(), 24);
}

#[test]
fn chunk_renderer_builds_a_cube_per_solid_block() {
    let mut r = ChunkRenderer::new().ok().unwrap();
    assert!(r.vertex_buffer().is_none() && r.index_buffer().is_none());
    assert_eq!(r.num_indices(), 0);
    let empty = Chunk::new(0, 0);
    assert!(r.generate_chunk_mesh(&empty).is_ok());
    assert!(r.vertex_buffer().is_none());
    let mut c = Chunk::new(1, 2);
    c.set_block(LocalPos::new(3, 4, 5), 2);
    c.set_block(LocalPos::new(3, 4, 6), 2);
    assert!(r.generate_chunk_mesh(&c).is_ok());
    let vb = r.vertex_buffer().unwrap();
    let ib = r.index_buffer().unwrap();
    assert_eq!(vb.len(), 48);
    assert_eq!(ib.len(), 72);
    assert_eq!(r.num_indices(), 72);
    assert_eq!((vb[0].x, vb[0].y, vb[0].z, vb[0].block_type), (19, 4, 38, 2));
    assert_eq!(&ib[..6], &[0, 1, 2, 2, 3, 0]);
    assert_eq!(&ib[36..42], &[24, 25, 26, 26, 27, 24]);
    assert!(ib.iter().all(|&i| (i as usize) < vb.len()));
    // An empty chunk afterwards leaves the last mesh in place.
    assert!(r.generate_chunk_mesh(&empty).is_ok());
    assert_eq!(r.num_indices(), 72);
}

#[test]
fn graphics_wrapper_always_succeeds() {
    let mut g = GlWrapper::new().ok().unwrap();
    assert!(g.init().is_ok());
    assert_eq!(g.create_texture().ok(), Some(DEFAULT_TEXTURE));
    assert_eq!(DEFAULT_TEXTURE, 0);
}

#[test]
fn unknown_adapter_info() {
    let i = WebGPUInfo::unknown();
    assert_eq!(i.adapter_name, "Unknown");
    assert_eq!(i.backend, "Unknown");
    assert_eq!(i.device_type, "Unknown");
    assert_eq!(i.limits, "Unknown");
}

#[test]
fn frustum_contains_every_position() {
    let f = Frustum::new();
    assert!(f.contains(WorldPos::new(0, 0, 0)));
    assert!(f.contains(WorldPos::new(i32::MIN, -5, i32::MAX)));
}
