use minecraft_alpha_rust::audio::music::MusicSystem;
use minecraft_alpha_rust::audio::sound_engine::SoundEngine;
use minecraft_alpha_rust::blocks::block::BlockRegistry;
use minecraft_alpha_rust::blocks::light::{LightSystem, FULL_LIGHT};
use minecraft_alpha_rust::blocks::materials::BlockMaterial;
use minecraft_alpha_rust::engine::Engine;
use minecraft_alpha_rust::engine::threading::{world_thread_step, GameMessage, Incoming, LoopExit, WorldReply};
use minecraft_alpha_rust::entities::spatial_index::SpatialIndex;
use minecraft_alpha_rust::input::{InputEvent, InputState, Key, MouseButton};
use minecraft_alpha_rust::math::position::{ChunkPos, LocalPos, WorldPos};
use minecraft_alpha_rust::nbt::parser::NbtParser;
use minecraft_alpha_rust::world::chunk::Chunk;
use minecraft_alpha_rust::world::world::World;

fn air(p: ChunkPos) -> Chunk {
    Chunk::new(p.x, p.z)
}

#[test]
fn block_registry_names() {
    let r = BlockRegistry::new();
    assert_eq!(r.get_block_id("air"), Some(0));
    assert_eq!(r.get_block_id("stone"), Some(1));
    assert_eq!(r.get_block_id("grass"), Some(3));
    assert_eq!(r.get_block_id("dirt"), Some(2));
    assert_eq!(r.get_block_id("Stone"), None);
    assert_eq!(r.get_block_id(""), None);
    assert_eq!(r.get_block_id("dirt "), None);
}

#[test]
fn light_is_full_everywhere() {
    let l = LightSystem::default();
    assert_eq!(l.calculate_light(0, 0, 0), 15);
    assert_eq!(LightSystem::new().calculate_light(-100, 300, 7), FULL_LIGHT);
}

#[test]
fn material_keeps_its_properties() {
    let m = BlockMaterial::new("glass", true, true);
    assert_eq!(m.name, "glass");
    assert!(m.solid && m.transparent);
    let w = BlockMaterial::new("water", false, true);
    assert_eq!(w.name, "water");
    assert!(!w.solid);
}

#[test]
fn empty_systems_construct() {
    let _ = MusicSystem::new();
    let _ = MusicSystem::default();
    let _ = SoundEngine::new();
    let _ = SoundEngine::default();
    let _ = NbtParser::new();
    let _ = NbtParser::default();
}

#[test]
fn engine_run_ticks_the_world_ten_times() {
    let mut world = World::new(7, air);
    let mut engine = Engine::new().ok().unwrap();
    assert!(engine.run(&mut world).is_ok());
    assert_eq!(world.time, 10);
    assert!(engine.run(&mut world).is_ok());
    assert_eq!(world.time, 20);
    assert_eq!(world.seed, 7);
}

#[test]
fn world_thread_ticks_only_when_due() {
    let mut world = World::new(0, air);
    let s = world_thread_step(&mut world, Incoming::Message(GameMessage::WorldTick), false, 5);
    assert!(!s.ticked && !s.idle && s.reply.is_none());
    assert!(matches!(s.exit, LoopExit::Continue));
    assert_eq!(world.time, 0);
    let s = world_thread_step(&mut world, Incoming::Message(GameMessage::WorldTick), true, 5);
    assert!(s.ticked && !s.idle);
    assert!(matches!(s.reply, Some(WorldReply::TickCompleted { tick_count: 6 })));
    assert_eq!(world.time, 1);
    let s = world_thread_step(&mut world, Incoming::Empty, true, u64::MAX);
    assert!(s.ticked);
    assert!(matches!(s.reply, Some(WorldReply::TickCompleted { tick_count: 0 })));
    assert_eq!(world.time, 2);
    let s = world_thread_step(&mut world, Incoming::Empty, false, 0);
    assert!(!s.ticked && s.idle && s.reply.is_none());
    assert_eq!(world.time, 2);
}

#[test]
fn world_thread_answers_requests() {
    let mut world = World::new(0, air);
    world.update();
    let s = world_thread_step(&mut world, Incoming::Message(GameMessage::RequestWorldState), false, 9);
    match s.reply {
        Some(WorldReply::WorldStateSnapshot { tick_count, time, spawn_x, spawn_y, spawn_z }) => {
            assert_eq!((tick_count, time, spawn_x, spawn_y, spawn_z), (9, 1, 0, 64, 0));
        },
        _ => panic!("expected a snapshot"),
    }
    assert!(s.idle && !s.ticked);
    let pos = WorldPos::new(3, 4, 5);
    let s = world_thread_step(&mut world, Incoming::Message(GameMessage::SetBlock { pos, block_id: 8 }), true, 0);
    assert!(matches!(s.reply, Some(WorldReply::BlockOperationResult { success: true })));
    assert!(!s.ticked && !s.idle);
    assert_eq!(world.get_block(pos), 8);
    let s = world_thread_step(&mut world, Incoming::Message(GameMessage::SetBlock { pos, block_id: 8 }), true, 0);
    assert!(matches!(s.reply, Some(WorldReply::BlockOperationResult { success: false })));
    let far = WorldPos::new(100, 4, 5);
    let s = world_thread_step(&mut world, Incoming::Message(GameMessage::SetBlock { pos: far, block_id: 8 }), false, 0);
    assert!(matches!(s.reply, Some(WorldReply::BlockOperationResult { success: false })));
    let s = world_thread_step(&mut world, Incoming::Message(GameMessage::AddChunk { chunk_pos: ChunkPos::new(1, 1) }), false, 0);
    assert!(s.reply.is_none() && s.idle);
    assert!(world.get_chunk(ChunkPos::new(1, 1)).is_none());
}

#[test]
fn world_thread_stops_on_shutdown_or_disconnect() {
    let mut world = World::new(0, air);
    let s = world_thread_step(&mut world, Incoming::Message(GameMessage::Shutdown), true, 0);
    assert!(matches!(s.exit, LoopExit::Shutdown));
    assert!(!s.ticked && !s.idle && s.reply.is_none());
    let s = world_thread_step(&mut world, Incoming::Disconnected, true, 0);
    assert!(matches!(s.exit, LoopExit::Disconnected));
    assert!(!s.ticked && !s.idle);
    assert_eq!(world.time, 0);
}

#[test]
fn spatial_index_sections_by_height() {
    let mut idx: SpatialIndex<u32> = SpatialIndex::new();
    idx.add_entity(&1, 0);
    idx.add_entity(&2, 15);
    idx.add_entity(&3, 16);
    idx.add_entity(&4, -40);
    idx.add_entity(&5, 500);
    idx.add_entity(&6, 127);
    assert_eq!(idx.get_entities_in_section(3), &[1, 2, 4]);
    assert_eq!(idx.get_entities_in_section(-1), &[1, 2, 4]);
    assert_eq!(idx.get_entities_in_section(31), &[3]);
    assert_eq!(idx.get_entities_in_section(112), &[5, 6]);
    assert_eq!(idx.get_entities_in_section(64), &[] as &[u32]);
    let all: Vec<u32> = idx.get_all_entities().into_iter().copied().collect();
    assert_eq!(all, vec![1, 2, 4, 3, 5, 6]);
    let empty: SpatialIndex<u32> = SpatialIndex::default();
    assert!(empty.get_all_entities().is_empty());
}

#[test]
fn movement_keys_follow_press_and_release() {
    let mut s = InputState::new();
    assert!(!s.is_moving());
    assert!(s.process_keyboard_input(&Key::Character("w".to_string()), true));
    assert!(s.move_forward && s.is_moving());
    assert!(s.process_keyboard_input(&Key::Character("W".to_string()), false));
    assert!(!s.move_forward && !s.is_moving());
    assert!(s.process_keyboard_input(&Key::Character("a".to_string()), true));
    assert!(s.process_keyboard_input(&Key::Character("S".to_string()), true));
    assert!(s.process_keyboard_input(&Key::Character("d".to_string()), true));
    assert!(s.process_keyboard_input(&Key::Space, true));
    assert!(s.process_keyboard_input(&Key::Shift, true));
    assert!(s.move_left && s.move_backward && s.move_right && s.move_up && s.move_down);
    assert!(!s.process_keyboard_input(&Key::Character("q".to_string()), true));
    assert!(!s.process_keyboard_input(&Key::Character("ww".to_string()), true));
    assert!(!s.process_keyboard_input(&Key::Other, true));
}

#[test]
fn mouse_capture_and_release() {
    let mut s = InputState::default();
    assert!(!s.process_mouse_input(true, MouseButton::Right));
    assert!(!s.mouse_captured);
    assert!(s.process_mouse_input(true, MouseButton::Left));
    assert!(s.mouse_captured && s.capture_changed);
    s.reset_mouse_delta();
    assert!(!s.capture_changed);
    assert!(s.process_mouse_input(true, MouseButton::Left));
    assert!(!s.capture_changed);
    assert!(!s.process_mouse_input(false, MouseButton::Left));
    assert!(s.process_keyboard_input(&Key::Escape, false));
    assert!(s.mouse_captured);
    assert!(s.process_keyboard_input(&Key::Escape, true));
    assert!(!s.mouse_captured && s.capture_changed);
}

#[test]
fn focus_events() {
    let mut s = InputState::new();
    assert!(!s.process_event(&InputEvent::Focused(true)));
    assert!(s.window_focused);
    assert!(s.process_event(&InputEvent::MouseInput { button: MouseButton::Left, pressed: true }));
    assert!(s.mouse_captured);
    s.reset_mouse_delta();
    assert!(!s.process_event(&InputEvent::Focused(false)));
    assert!(!s.window_focused && !s.mouse_captured && s.capture_changed);
    assert!(s.process_event(&InputEvent::Keyboard { key: Key::Space, pressed: true }));
    assert!(s.move_up);
    assert!(!s.process_event(&InputEvent::Other));
}

#[test]
fn chunk_local_positions_used_by_the_thread_world() {
    let mut world = World::new(0, air);
    let c = world.get_chunk_mut(ChunkPos::new(0, 0)).unwrap();
    c.set_block(LocalPos::new(1, 2, 3), 4);
    assert_eq!(world.get_block(WorldPos::new(1, 2, 3)), 4);
    assert!(world.remove_chunk(ChunkPos::new(0, 0)).is_some());
    assert_eq!(world.get_block(WorldPos::new(1, 2, 3)), 0);
}
