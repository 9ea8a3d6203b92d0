use minecraft_alpha_rust::math::position::{Position, WorldPos, ChunkPos, LocalPos};
use minecraft_alpha_rust::math::trig::safe_int_div;
use minecraft_alpha_rust::math::utils::{clamp, next_power_of_two};
use minecraft_alpha_rust::world::coordinates::CoordinateUtils;

#[test]
fn test_position_packing() {
    let pos = Position::new(100, 200, 300);
    assert_eq!(pos.x(), 100);
    assert_eq!(pos.y(), 200);
    assert_eq!(pos.z(), 300);
}

#[test]
fn test_position_from_packed() {
    let pos1 = Position::new(100, 200, 300);
    let pos2 = Position::from_packed(pos1.packed());
    assert_eq!(pos1, pos2);
}

#[test]
fn test_position_distance() {
    let pos1 = Position::new(0, 0, 0);
    let pos2 = Position::new(5, 10, 15);
    assert_eq!(pos1.distance_to(&pos2), 30);
}

#[test]
fn test_world_to_chunk_pos() {
    let world_pos = WorldPos::new(32, 64, 48);
    let chunk_pos = world_pos.to_chunk_pos();
    assert_eq!(chunk_pos.x, 2);
    assert_eq!(chunk_pos.z, 3);
}

#[test]
fn test_world_to_local_pos() {
    let world_pos = WorldPos::new(35, 64, 51);
    let local_pos = world_pos.to_local_pos();
    assert_eq!(local_pos.x, 3);
    assert_eq!(local_pos.y, 64);
    assert_eq!(local_pos.z, 3);
}

#[test]
fn test_local_to_index() {
    let local_pos = LocalPos::new(5, 10, 15);
    let index = local_pos.to_index();
    assert_eq!(index, (5 << 11) | (15 << 7) | 10);
}

#[test]
fn test_safe_int_div() {
    assert_eq!(safe_int_div(7, 3), 2);
    assert_eq!(safe_int_div(-7, 3), -3);
    assert_eq!(safe_int_div(7, -3), -3);
    assert_eq!(safe_int_div(-7, -3), 2);
    assert_eq!(safe_int_div(6, 3), 2);
}

#[test]
#[should_panic]
fn test_safe_int_div_by_zero() {
    safe_int_div(5, 0);
}

#[test]
fn test_clamp() {
    assert_eq!(clamp(5, 0, 10), 5);
    assert_eq!(clamp(-5, 0, 10), 0);
    assert_eq!(clamp(15, 0, 10), 10);
}

#[test]
fn test_next_power_of_two() {
    assert_eq!(next_power_of_two(0), 1);
    assert_eq!(next_power_of_two(1), 1);
    assert_eq!(next_power_of_two(5), 8);
    assert_eq!(next_power_of_two(16), 16);
    assert_eq!(next_power_of_two(17), 32);
}

// Packing keeps each coordinate in its own 10-bit field, up to the largest
// coordinate a field holds.
#[test]
fn packing_round_trips_at_field_limits() {
    let pos = Position::new(1023, 0, 1023);
    let back = Position::from_packed(pos.packed());
    assert_eq!(back, pos);
    assert_eq!(back.x(), 1023);
    assert_eq!(back.y(), 0);
    assert_eq!(back.z(), 1023);
    assert_eq!(Position::new(1, 2, 3).packed(), 1 | (2 << 10) | (3 << 20));
}

// Distance is the Manhattan distance: symmetric and zero to itself.
#[test]
fn distance_is_symmetric_and_zero_to_self() {
    let a = Position::new(3, 40, 7);
    let b = Position::new(10, 4, 1);
    assert_eq!(a.distance_to(&b), 7 + 36 + 6);
    assert_eq!(b.distance_to(&a), a.distance_to(&b));
    assert_eq!(a.distance_to(&a), 0);
}

// Negative world coordinates round down to the chunk below.
#[test]
fn negative_world_coordinates_floor_to_chunks() {
    let p = WorldPos::new(-1, 5, -17);
    let c = p.to_chunk_pos();
    assert_eq!((c.x, c.z), (-1, -2));
    let l = p.to_local_pos();
    assert_eq!((l.x, l.y, l.z), (15, 5, 15));
    assert_eq!(c.x * 16 + l.x, -1);
    assert_eq!(c.z * 16 + l.z, -17);
}

#[test]
fn chunk_to_world_and_back() {
    let c = ChunkPos::new(-3, 7);
    let w = CoordinateUtils::chunk_to_world(c);
    assert_eq!((w.x, w.y, w.z), (-48, 0, 112));
    assert_eq!(CoordinateUtils::world_to_chunk(w), c);
    let inner = CoordinateUtils::world_to_chunk(WorldPos::new(-33, 90, 127));
    assert_eq!((inner.x, inner.z), (-3, 7));
}

#[test]
fn index_covers_the_corners_of_a_chunk() {
    assert_eq!(LocalPos::new(0, 0, 0).to_index(), 0);
    assert_eq!(LocalPos::new(15, 127, 15).to_index(), 32767);
    assert_eq!(LocalPos::new(0, 1, 0).to_index(), 1);
    assert_eq!(LocalPos::new(0, 0, 1).to_index(), 128);
    assert_eq!(LocalPos::new(1, 0, 0).to_index(), 2048);
}

#[test]
fn safe_int_div_floors_toward_negative_infinity() {
    assert_eq!(safe_int_div(-1, 16), -1);
    assert_eq!(safe_int_div(-16, 16), -1);
    assert_eq!(safe_int_div(-17, 16), -2);
    assert_eq!(safe_int_div(i32::MIN, 1), i32::MIN);
    assert_eq!(safe_int_div(0, -5), 0);
}

#[test]
fn next_power_of_two_at_the_top_of_the_range() {
    assert_eq!(next_power_of_two(0x4000_0001), 0x8000_0000);
    assert_eq!(next_power_of_two(0x8000_0000), 0x8000_0000);
    assert_eq!(next_power_of_two(3), 4);
}

#[test]
fn clamp_on_bounds_and_other_types() {
    assert_eq!(clamp(0, 0, 10), 0);
    assert_eq!(clamp(10, 0, 10), 10);
    assert_eq!(clamp(200u8, 10, 100), 100);
    assert_eq!(clamp(-2.5f32, -1.0, 1.0), -1.0);
}

#[test]
fn positions_as_text() {
    assert_eq!(Position::new(1, 20, 300).to_string(), "(1, 20, 300)");
    assert_eq!(Position::new(0, 0, 0).to_string(), "(0, 0, 0)");
    assert_eq!(WorldPos::new(-5, 64, i32::MIN).to_string(), "(-5, 64, -2147483648)");
    assert_eq!(WorldPos::new(i32::MAX, -10, 7).to_string(), "(2147483647, -10, 7)");
    assert_eq!(ChunkPos::new(0, -12).to_string(), "(0, -12)");
}
