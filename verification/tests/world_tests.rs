use minecraft_alpha_rust::math::position::{WorldPos, ChunkPos, LocalPos};
use minecraft_alpha_rust::world::chunk::Chunk;
use minecraft_alpha_rust::world::storage::WorldStorage;
use minecraft_alpha_rust::world::world::World as TickWorld;
use minecraft_alpha_rust::world::world_manager::World;
use minecraft_alpha_rust::world::generator::{
    generate_base_terrain, generate_surface_details, generate_ore_vein, generate_ores, carve_sphere,
    cave_seed, cave_start, cave_length, cave_step_offsets, ColumnBiome, AIR, STONE, GRASS, DIRT,
    BEDROCK, SAND, SNOW,
};

fn flat(p: ChunkPos) -> Chunk {
    let mut c = Chunk::new(p.x, p.z);
    c.set_block(LocalPos::new(0, 0, 0), 9);
    c
}

#[test]
fn chunk_starts_as_air_and_reads_back_writes() {
    let mut c = Chunk::new(2, -3);
    assert_eq!((c.x, c.z), (2, -3));
    let p = LocalPos::new(4, 100, 9);
    assert_eq!(c.get_block(p), 0);
    assert!(c.set_block(p, 5));
    assert_eq!(c.get_block(p), 5);
    assert!(!c.set_block(p, 5));
    assert_eq!(c.get_block(LocalPos::new(4, 99, 9)), 0);
}

#[test]
fn storage_store_get_remove() {
    let mut s = WorldStorage::new();
    assert!(s.get_chunk(ChunkPos::new(1, 1)).is_none());
    s.store_chunk(Chunk::new(1, 1));
    s.store_chunk(Chunk::new(-1, 1));
    assert_eq!(s.chunk_count(), 2);
    assert!(s.contains_chunk(ChunkPos::new(-1, 1)));
    let got = s.get_chunk(ChunkPos::new(1, 1)).unwrap();
    assert_eq!((got.x, got.z), (1, 1));
    let removed = s.remove_chunk(ChunkPos::new(1, 1)).unwrap();
    assert_eq!((removed.x, removed.z), (1, 1));
    assert!(s.get_chunk(ChunkPos::new(1, 1)).is_none());
    assert!(s.remove_chunk(ChunkPos::new(1, 1)).is_none());
    assert_eq!(s.chunk_count(), 1);
    assert_eq!(s.all_chunks().len(), 1);
}

#[test]
fn storing_again_replaces_the_chunk() {
    let mut s = WorldStorage::new();
    s.store_chunk(Chunk::new(0, 0));
    let mut c = Chunk::new(0, 0);
    c.set_block(LocalPos::new(1, 1, 1), 3);
    s.store_chunk(c);
    assert_eq!(s.chunk_count(), 1);
    assert_eq!(s.get_chunk(ChunkPos::new(0, 0)).unwrap().get_block(LocalPos::new(1, 1, 1)), 3);
}

#[test]
fn world_manager_starts_with_the_spawn_neighborhood() {
    let w = World::new(42, flat);
    assert_eq!(w.seed, 42);
    assert_eq!(w.time, 0);
    assert_eq!((w.spawn_x, w.spawn_y, w.spawn_z), (0, 64, 0));
    assert_eq!(w.get_all_chunks().len(), 9);
    for dx in -1..=1 {
        for dz in -1..=1 {
            assert!(w.is_chunk_loaded(ChunkPos::new(dx, dz)));
        }
    }
    assert!(!w.is_chunk_loaded(ChunkPos::new(2, 0)));
}

#[test]
fn world_manager_block_read_after_write() {
    let mut w = World::new(1, flat);
    let p = WorldPos::new(-5, 70, 20);
    assert_eq!(w.get_block(p), 0);
    assert!(w.set_block(p, 4));
    assert_eq!(w.get_block(p), 4);
    assert_eq!(w.get_block(WorldPos::new(-5, 71, 20)), 0);
    assert_eq!(w.get_block(WorldPos::new(-16, 0, -16)), 9);
    // No chunk is loaded this far out: reads are air and writes do nothing.
    let far = WorldPos::new(1000, 10, 1000);
    assert_eq!(w.get_block(far), 0);
    assert!(!w.set_block(far, 4));
    assert_eq!(w.get_block(far), 0);
}

#[test]
fn world_manager_load_and_remove() {
    let mut w = World::new(1, flat);
    assert!(w.load_chunk(ChunkPos::new(5, 5), flat));
    assert!(!w.load_chunk(ChunkPos::new(5, 5), flat));
    assert!(w.get_chunk(ChunkPos::new(5, 5)).is_some());
    assert!(w.remove_chunk(ChunkPos::new(5, 5)).is_some());
    assert!(!w.is_chunk_loaded(ChunkPos::new(5, 5)));
    w.add_chunk(Chunk::new(7, -7));
    assert!(w.is_chunk_loaded(ChunkPos::new(7, -7)));
}

#[test]
fn world_manager_near_chunks_stay_in_the_circle() {
    let mut w = World::new(1, flat);
    w.add_chunk(Chunk::new(4, 0));
    w.add_chunk(Chunk::new(4, 1));
    w.add_chunk(Chunk::new(2, 3));
    let near = w.get_chunks_near(ChunkPos::new(0, 0));
    // The nine spawn chunks, (4, 0) and (2, 3) lie within four chunks; (4, 1) does not.
    assert_eq!(near.len(), 11);
    assert!(near.iter().all(|c| c.x * c.x + c.z * c.z <= 16));
}

#[test]
fn world_manager_update_queues_and_generates_around_the_player() {
    let mut w = World::new(1, flat);
    w.update(flat, None);
    assert_eq!(w.time, 1);
    assert_eq!(w.get_all_chunks().len(), 9);
    w.update(flat, Some(ChunkPos::new(0, 0)));
    assert_eq!(w.time, 2);
    // The circle of radius four holds 49 chunks; nine are loaded, so 40 are queued,
    // and each later tick generates two of them.
    assert_eq!(w.get_all_chunks().len(), 9);
    w.update(flat, Some(ChunkPos::new(0, 0)));
    assert_eq!(w.get_all_chunks().len(), 11);
    for _ in 0..19 {
        w.update(flat, Some(ChunkPos::new(0, 0)));
    }
    assert_eq!(w.get_all_chunks().len(), 49);
    w.update(flat, Some(ChunkPos::new(0, 0)));
    assert_eq!(w.get_all_chunks().len(), 49);
    assert_eq!(w.get_chunks_near(ChunkPos::new(0, 0)).len(), 49);
}

#[test]
fn tick_world_has_one_chunk_and_counts_time() {
    let mut w = TickWorld::new(3, flat);
    assert_eq!(w.get_all_chunks().len(), 1);
    assert!(w.get_chunk(ChunkPos::new(0, 0)).is_some());
    assert!(w.get_chunk(ChunkPos::new(-1, 0)).is_none());
    assert_eq!(w.get_block(WorldPos::new(0, 0, 0)), 9);
    assert!(w.set_block(WorldPos::new(15, 127, 15), 2));
    assert_eq!(w.get_block(WorldPos::new(15, 127, 15)), 2);
    assert!(!w.set_block(WorldPos::new(16, 1, 0), 2));
    w.update();
    w.update();
    assert_eq!(w.current_time(), 2);
    assert_eq!(w.spawn_point(), (0, 64, 0));
}

fn column(c: &Chunk, x: i32, z: i32) -> Vec<u8> {
    (0..128).map(|y| c.get_block(LocalPos::new(x, y, z))).collect()
}

#[test]
fn base_terrain_fills_columns_to_the_clamped_height() {
    let mut c = Chunk::new(0, 0);
    let mut heights = [64i32; 256];
    heights[0] = 5; // raised to 20
    heights[1] = 500; // lowered to 100
    heights[17] = 30;
    generate_base_terrain(&mut c, &heights);
    let col0 = column(&c, 0, 0);
    assert!(col0[..20].iter().all(|&b| b == STONE));
    assert!(col0[20..].iter().all(|&b| b == AIR));
    let col1 = column(&c, 0, 1);
    assert!(col1[..100].iter().all(|&b| b == STONE));
    assert!(col1[100..].iter().all(|&b| b == AIR));
    let col17 = column(&c, 1, 1);
    assert_eq!(col17.iter().filter(|&&b| b == STONE).count(), 30);
}

#[test]
fn surface_details_layer_each_biome() {
    let mut c = Chunk::new(0, 0);
    generate_base_terrain(&mut c, &[40i32; 256]);
    let mut biomes = [ColumnBiome { is_snow: false, is_desert: false }; 256];
    biomes[1] = ColumnBiome { is_snow: true, is_desert: false };
    biomes[2] = ColumnBiome { is_snow: false, is_desert: true };
    generate_surface_details(&mut c, &biomes);
    let plain = column(&c, 0, 0);
    assert_eq!(plain[39], GRASS);
    assert_eq!(&plain[36..39], &[DIRT, DIRT, DIRT]);
    assert_eq!(plain[35], STONE);
    assert_eq!(plain[0], BEDROCK);
    assert_eq!(plain[40], AIR);
    let snowy = column(&c, 0, 1);
    assert_eq!(snowy[39], SNOW);
    assert_eq!(snowy[38], DIRT);
    let desert = column(&c, 0, 2);
    assert_eq!(desert[39], SAND);
    assert_eq!(desert[38], STONE);
    assert_eq!(desert[0], BEDROCK);
}

#[test]
fn surface_details_skip_empty_columns() {
    let mut c = Chunk::new(0, 0);
    generate_surface_details(&mut c, &[ColumnBiome { is_snow: false, is_desert: false }; 256]);
    assert!(column(&c, 3, 3).iter().all(|&b| b == AIR));
}

#[test]
fn carving_only_turns_stone_into_air() {
    let mut c = Chunk::new(0, 0);
    generate_base_terrain(&mut c, &[64i32; 256]);
    c.set_block(LocalPos::new(8, 40, 8), BEDROCK);
    carve_sphere(&mut c, 8, 40, 8, 2);
    assert_eq!(c.get_block(LocalPos::new(8, 40, 8)), BEDROCK);
    assert_eq!(c.get_block(LocalPos::new(8, 42, 8)), AIR);
    assert_eq!(c.get_block(LocalPos::new(9, 41, 8)), AIR);
    assert_eq!(c.get_block(LocalPos::new(9, 42, 9)), STONE);
    assert_eq!(c.get_block(LocalPos::new(8, 43, 8)), STONE);
    // A sphere centered outside the chunk only touches what lies inside it.
    carve_sphere(&mut c, -1, 10, 0, 1);
    assert_eq!(c.get_block(LocalPos::new(0, 10, 0)), AIR);
    assert_eq!(c.get_block(LocalPos::new(0, 11, 0)), STONE);
}

#[test]
fn cave_numbers_follow_the_seed() {
    let seed = cave_seed(0, 0, 0, 0);
    assert_eq!(seed, 0);
    let s = cave_seed(5, 2, 1, 1);
    assert_eq!(s, 7u64.wrapping_mul(341873128712).wrapping_add(132897987541));
    let (x, y, z) = cave_start(s, 1, 1);
    assert_eq!(x, 16 + ((s >> 32) % 16) as i32);
    assert_eq!(y, ((s >> 16) % 128) as i32);
    assert_eq!(z, 16 + (s % 16) as i32);
    assert_eq!(cave_length(45), 25);
    let (ox, oy, oz) = cave_step_offsets(0, 0);
    assert_eq!(ox, 0u64.wrapping_sub(200) % 401);
    assert_eq!(oy, 0u64.wrapping_sub(100) % 201);
    assert_eq!(oz, 0u64.wrapping_sub(200) % 401);
}

#[test]
fn ore_veins_only_replace_stone() {
    let mut c = Chunk::new(0, 0);
    generate_base_terrain(&mut c, &[20i32; 256]);
    let before: Vec<u8> = (0..32768).map(|i| {
        let x = (i / 2048) as i32;
        let z = ((i / 128) % 16) as i32;
        let y = (i % 128) as i32;
        c.get_block(LocalPos::new(x, y, z))
    }).collect();
    generate_ore_vein(&mut c, 8, 10, 8, 16, 8, 12345);
    let mut placed = 0;
    for i in 0..32768usize {
        let x = (i / 2048) as i32;
        let z = ((i / 128) % 16) as i32;
        let y = (i % 128) as i32;
        let now = c.get_block(LocalPos::new(x, y, z));
        if now != before[i] {
            assert_eq!(before[i], STONE);
            assert_eq!(now, 16);
            placed += 1;
        }
    }
    assert!(placed >= 1 && placed <= 8);
    let mut empty = Chunk::new(0, 0);
    generate_ore_vein(&mut empty, 8, 10, 8, 16, 8, 12345);
    assert!(column(&empty, 8, 8).iter().all(|&b| b == AIR));
}

#[test]
fn ores_leave_air_alone() {
    let mut c = Chunk::new(0, 1);
    generate_ores(&mut c, 99, 0, 1);
    assert!((0..16).all(|x| (0..16).all(|z| column(&c, x, z).iter().all(|&b| b == AIR))));
    let mut s = Chunk::new(0, 1);
    generate_base_terrain(&mut s, &[100i32; 256]);
    generate_ores(&mut s, 99, 0, 1);
    // Only stone below the surface can have turned into ore.
    assert!((0..16).all(|x| (0..16).all(|z| {
        let col = column(&s, x, z);
        col[..100].iter().all(|&b| b == STONE || (13..=16).contains(&b)) && col[100..].iter().all(|&b| b == AIR)
    })));
}

// Vein starts are world coordinates while veins are placed by local
// coordinates, so a chunk away from the origin column gets no ore; in the
// origin chunk every vein starts at the corner and reaches outside it.
#[test]
fn ores_only_reach_chunks_next_to_the_origin() {
    let mut o = Chunk::new(0, 0);
    generate_base_terrain(&mut o, &[100i32; 256]);
    generate_ores(&mut o, 99, 0, 0);
    assert!((0..16).all(|x| (0..16).all(|z| column(&o, x, z)[..100].iter().all(|&b| b == STONE))));
    let mut s = Chunk::new(3, 4);
    generate_base_terrain(&mut s, &[100i32; 256]);
    generate_ores(&mut s, 99, 3, 4);
    assert!((0..16).all(|x| (0..16).all(|z| column(&s, x, z)[..100].iter().all(|&b| b == STONE))));
}

#[test]
fn queue_never_holds_a_position_twice() {
    let mut w = World::new(1, flat);
    for step in 0..6 {
        let center = ChunkPos::new(step, -step);
        w.update(flat, Some(center));
        let q = w.queued_chunks();
        for i in 0..q.len() {
            for j in (i + 1)..q.len() {
                assert_ne!(q[i], q[j]);
            }
        }
    }
    // Moving far away drops every loaded chunk once more than 81 are loaded.
    assert!(w.get_all_chunks().len() <= 81);
}

#[test]
fn unloading_keeps_only_nearby_chunks() {
    let mut w = World::new(1, flat);
    w.add_chunk(Chunk::new(20, 20));
    w.update(flat, Some(ChunkPos::new(0, 0)));
    assert!(!w.is_chunk_loaded(ChunkPos::new(20, 20)));
    assert!(w.is_chunk_loaded(ChunkPos::new(1, 1)));
    // More than 81 loaded chunks: every one is unloaded.
    for x in 0..9 {
        for z in 0..9 {
            w.add_chunk(Chunk::new(x - 4, z - 4));
        }
    }
    w.add_chunk(Chunk::new(5, 0));
    assert!(w.get_all_chunks().len() > 81);
    w.update(flat, Some(ChunkPos::new(0, 0)));
    assert_eq!(w.get_all_chunks().len(), 0);
}

#[test]
fn every_position_in_range_is_loaded_or_queued() {
    let mut w = World::new(1, flat);
    w.update(flat, Some(ChunkPos::new(2, -1)));
    w.update(flat, Some(ChunkPos::new(2, -1)));
    for dx in -4..=4 {
        for dz in -4..=4 {
            if dx * dx + dz * dz <= 16 {
                let p = ChunkPos::new(2 + dx, -1 + dz);
                assert!(w.is_chunk_loaded(p) || w.queued_chunks().contains(&p));
            }
        }
    }
}

#[test]
fn negative_chunks_get_caves_and_ores_without_panicking() {
    let s = cave_seed(7, 1, -1, -2000000);
    assert_eq!(s, 8u64.wrapping_mul((-1i32 as u64).wrapping_mul(341873128712))
        .wrapping_add((-2000000i32 as u64).wrapping_mul(132897987541)));
    let (x, _, z) = cave_start(s, -1, -2000000);
    assert!((-16..0).contains(&x));
    assert!((-32000000..-31999984).contains(&z));
    let mut c = Chunk::new(-1, -2000000);
    generate_base_terrain(&mut c, &[60i32; 256]);
    generate_ores(&mut c, 7, -1, -2000000);
    assert!((0..16).all(|x| (0..16).all(|z| {
        let col = column(&c, x, z);
        col[..60].iter().all(|&b| b == STONE || (13..=16).contains(&b)) && col[60..].iter().all(|&b| b == AIR)
    })));
}

#[test]
fn grass_tops_dirt() {
    assert_eq!(GRASS, 3);
    assert_eq!(DIRT, 2);
}
