use voxel_core::global_vector::GlobalVecU;
use voxel_core::vector::{div_rem_euclid_i32, Vec3};

#[test]
fn from_splits_into_chunk_and_local() {
    let g = GlobalVecU::from(Vec3::new(-1, 64, 33));
    assert_eq!(g.chunk, Vec3::new(-1, 2, 1));
    assert_eq!(g.local(), Vec3::new(31, 0, 1));
}

#[test]
fn add_then_sub_is_identity() {
    let g = GlobalVecU::from(Vec3::new(100, -70, 5));
    let v = Vec3::new(-250, 1000, 31);
    let h = g.add(v);
    assert_eq!(h, GlobalVecU::from(Vec3::new(-150, 930, 36)));
    assert_eq!(h.sub(v), g);
    let mut m = g;
    m.add_assign(v);
    m.sub_assign(v);
    assert_eq!(m, g);
}

#[test]
fn in_bounds_checks_the_vertical_chunk() {
    assert!(!GlobalVecU::from(Vec3::new(0, 0, 0)).in_bounds());
    assert!(GlobalVecU::from(Vec3::new(0, 32, 0)).in_bounds());
    assert!(GlobalVecU::from(Vec3::new(0, 31 * 32 + 5, 0)).in_bounds());
    assert!(!GlobalVecU::from(Vec3::new(0, 32 * 32, 0)).in_bounds());
}

#[test]
fn apply_invariants_keeps_world_position() {
    let mut g = GlobalVecU::from(Vec3::new(0, 0, 0));
    g.chunk = Vec3::new(2, -3, 0);
    g.apply_invariants();
    assert_eq!(g.chunk, Vec3::new(2, -3, 0));
    assert_eq!(g.local(), Vec3::new(0, 0, 0));
}

#[test]
fn euclidean_division() {
    assert_eq!(div_rem_euclid_i32(-1, 32), (-1, 31));
    assert_eq!(div_rem_euclid_i32(-32, 32), (-1, 0));
    assert_eq!(div_rem_euclid_i32(65, 32), (2, 1));
    assert_eq!(div_rem_euclid_i32(i32::MIN, 32), (-67108864, 0));
}
