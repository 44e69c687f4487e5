use voxel_core::chunk_position::{ChunkPartPosition, ChunkPosition, CHUNK_SIZE, PARTS_PER_CHUNK};
use voxel_core::global_vector::GlobalVecU;
use voxel_core::vector::Vec3;

fn pos(x: u32, y: u32, z: u32, part: usize) -> ChunkPosition {
    ChunkPosition::new(Vec3::new(x, y, z), part).unwrap()
}

#[test]
fn new_checks_part_and_position() {
    assert!(ChunkPosition::new(Vec3::new(0, 0, 0), PARTS_PER_CHUNK).is_none());
    assert!(ChunkPosition::new(Vec3::new(32, 0, 0), 0).is_none());
    assert!(ChunkPosition::new(Vec3::new(0, 32, 0), 0).is_none());
    let p = pos(1, 2, 3, 4);
    assert_eq!(p.chunk_part_index(), 4);
    let q = p.chunk_part_position();
    assert_eq!((q.x(), q.y(), q.z()), (1, 2, 3));
    assert!(ChunkPartPosition::new(Vec3::new(31, 31, 31)).is_some());
    assert!(ChunkPartPosition::new(Vec3::new(0, 0, 40)).is_none());
}

#[test]
fn checked_add_i32_crosses_parts() {
    let p = pos(1, 31, 2, 3);
    let q = p.checked_add_i32(Vec3::new(0, 1, 0)).unwrap();
    assert_eq!(q.chunk_part_index(), 4);
    assert_eq!(q.chunk_part_position().y(), 0);
    assert_eq!(q.into_u32(), Vec3::new(1, 128, 2));
    let r = pos(0, 0, 0, 1).checked_add_i32(Vec3::new(0, -1, 0)).unwrap();
    assert_eq!(r.into_u32(), Vec3::new(0, 31, 0));
}

#[test]
fn checked_add_i32_leaves_the_column() {
    let p = pos(0, 0, 0, 0);
    assert!(p.checked_add_i32(Vec3::new(-1, 0, 0)).is_none());
    assert!(p.checked_add_i32(Vec3::new(0, 0, 32)).is_none());
    assert!(p.checked_add_i32(Vec3::new(0, -1, 0)).is_none());
    assert!(pos(0, 31, 0, 15).checked_add_i32(Vec3::new(0, 1, 0)).is_none());
}

#[test]
fn checked_sub_i32_within_a_part_subtracts() {
    let p = pos(5, 10, 5, 2);
    let q = p.checked_sub_i32(Vec3::new(1, 3, 2)).unwrap();
    assert_eq!(q.into_u32(), Vec3::new(4, 71, 3));
}

#[test]
fn checked_sub_i32_wrapping_down_raises_the_part() {
    // y = 0 in part 3, minus 1: the part index goes to 4, not 2.
    let p = pos(0, 0, 0, 3);
    let q = p.checked_sub_i32(Vec3::new(0, 1, 0)).unwrap();
    assert_eq!(q.chunk_part_index(), 4);
    assert_eq!(q.chunk_part_position().y(), 31);
    assert!(pos(0, 0, 0, 15).checked_sub_i32(Vec3::new(0, 1, 0)).is_none());
    assert!(pos(0, 0, 0, 0).checked_sub_i32(Vec3::new(1, 0, 0)).is_none());
}

#[test]
fn checked_add_u32_and_sub_u32_undo_each_other() {
    let p = pos(3, 20, 4, 2);
    let v = Vec3::new(10, 45, 7);
    let q = p.checked_add_u32(v).unwrap();
    assert_eq!(q.into_u32(), Vec3::new(13, 129, 11));
    let r = q.checked_sub_u32(v).unwrap();
    assert_eq!(r, p);
    assert!(p.checked_add_u32(Vec3::new(29, 0, 0)).is_none());
    assert!(p.checked_sub_u32(Vec3::new(4, 0, 0)).is_none());
    assert!(p.checked_sub_u32(Vec3::new(0, 85, 0)).is_none());
}

#[test]
fn unchecked_moves() {
    let p = pos(3, 20, 4, 2);
    assert_eq!(p.unchecked_add_i32(Vec3::new(-3, 12, 1)).into_u32(), Vec3::new(0, 96, 5));
    assert_eq!(p.unchecked_sub_i32(Vec3::new(3, 21, 4)).into_u32(), Vec3::new(0, 63, 0));
    assert_eq!(p.unchecked_add_u32(Vec3::new(1, 12, 1)).into_u32(), Vec3::new(4, 96, 5));
    assert_eq!(p.unchecked_sub_u32(Vec3::new(3, 20, 4)).into_u32(), Vec3::new(0, 64, 0));
}

#[test]
fn vector_round_trip() {
    let p = pos(7, 9, 30, 11);
    let v = p.into_u32();
    assert_eq!(v, Vec3::new(7, 11 * CHUNK_SIZE as u32 + 9, 30));
    assert_eq!(ChunkPosition::try_from_u32(v), Ok(p));
    assert_eq!(ChunkPosition::try_from_u32(Vec3::new(0, 512, 0)), Err(()));
    assert_eq!(ChunkPosition::try_from_u32(Vec3::new(32, 0, 0)), Err(()));
}

#[test]
fn from_global_position() {
    let g = GlobalVecU::from(Vec3::new(5, 3 * 32 + 7, -2));
    let p = ChunkPosition::try_from_global(g).unwrap();
    assert_eq!(p.chunk_part_index(), 3);
    assert_eq!(p.into_u32(), Vec3::new(5, 103, 30));
    let below = GlobalVecU::from(Vec3::new(0, -1, 0));
    assert_eq!(ChunkPosition::try_from_global(below), Err(()));
    let above = GlobalVecU::from(Vec3::new(0, 16 * 32, 0));
    assert_eq!(ChunkPosition::try_from_global(above), Err(()));
}

#[test]
fn add_then_sub_i32_round_trips_within_a_part() {
    let p = pos(3, 10, 7, 5);
    let r = p.checked_add_i32(Vec3::new(1, 5, 1)).unwrap();
    let s = r.checked_sub_i32(Vec3::new(1, 5, 1)).unwrap();
    assert_eq!(s.into_u32(), p.into_u32());

    // An offset that crosses into the next part does not come back: the way back wraps
    // below the part and raises the part index instead.
    let v = Vec3::new(2, 40, -3);
    let q = p.checked_add_i32(v).unwrap();
    assert_eq!(q.chunk_part_index(), 6);
    assert_eq!(q.into_u32(), Vec3::new(5, 6 * 32 + 18, 4));
    let back = q.checked_sub_i32(v).unwrap();
    assert_eq!(back.into_u32(), Vec3::new(3, 7 * 32 + 10, 7));
}
