use voxel_core::block::light::{LightLevel, LightNode, LIGHT_LEVEL_BITS, LIGHT_LEVEL_MAX_VALUE};

#[test]
fn new_packs_block_low_and_sky_high() {
    let l = LightLevel::new(3, 12).unwrap();
    assert_eq!(l.get_block(), 3);
    assert_eq!(l.get_sky(), 12);
    assert_eq!(l.to_u8(), 3 | (12 << LIGHT_LEVEL_BITS));
    assert_eq!(l.to_u8(), 0xC3);
}

#[test]
fn new_rejects_levels_above_max() {
    assert!(LightLevel::new(16, 0).is_none());
    assert!(LightLevel::new(0, 16).is_none());
    assert!(LightLevel::new(255, 255).is_none());
    assert!(LightLevel::new(LIGHT_LEVEL_MAX_VALUE, LIGHT_LEVEL_MAX_VALUE).is_some());
}

#[test]
fn set_block_keeps_sky() {
    let mut l = LightLevel::new(1, 9).unwrap();
    l.set_block(14);
    assert_eq!(l.get_block(), 14);
    assert_eq!(l.get_sky(), 9);
}

#[test]
fn set_sky_keeps_block() {
    let mut l = LightLevel::new(7, 2).unwrap();
    l.set_sky(15);
    assert_eq!(l.get_sky(), 15);
    assert_eq!(l.get_block(), 7);
    assert_eq!(l.to_u8(), 0xF7);
}

#[test]
fn saturating_setters_clamp_to_max() {
    let mut l = LightLevel::new(0, 0).unwrap();
    l.set_block_saturate(200);
    l.set_sky_saturate(16);
    assert_eq!(l.get_block(), 15);
    assert_eq!(l.get_sky(), 15);
    l.set_block_saturate(4);
    assert_eq!(l.get_block(), 4);
    assert_eq!(l.get_sky(), 15);
}

#[test]
fn light_node_keeps_fields() {
    let n = LightNode::new(-3, 300, 7, 11);
    assert_eq!((n.x, n.y, n.z, n.level), (-3, 300, 7, 11));
}
