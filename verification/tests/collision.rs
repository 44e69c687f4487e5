use voxel_core::collision::box_offsets;
use voxel_core::vector::Vec3;

#[test]
fn box_offsets_walk_layers_rows_then_x() {
    let o = box_offsets(Vec3::new(2, 2, 3));
    assert_eq!(o.len(), 12);
    assert_eq!(o[0], Vec3::new(0, 0, 0));
    assert_eq!(o[1], Vec3::new(1, 0, 0));
    assert_eq!(o[2], Vec3::new(0, 0, 1));
    assert_eq!(o[5], Vec3::new(1, 0, 2));
    assert_eq!(o[6], Vec3::new(0, 1, 0));
    assert_eq!(o[11], Vec3::new(1, 1, 2));
}

#[test]
fn empty_or_inverted_boxes_have_no_blocks() {
    assert!(box_offsets(Vec3::new(0, 3, 3)).is_empty());
    assert!(box_offsets(Vec3::new(3, -1, 3)).is_empty());
    assert!(box_offsets(Vec3::new(-2, -2, 3)).is_empty());
}
