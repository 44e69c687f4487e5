use voxel_core::block::light::LIGHT_LEVEL_MAX_VALUE;
use voxel_core::block::{
    bool_false, bool_true, light_level_max_value, none, u8_0, AlphaMode, FaceDirection,
    LightAttenuation, LightAttenuationDeserialize, Properties, PropertiesDeserialize,
    PropertiesOptional,
};
use voxel_core::vector::Vec3;

fn dirs() -> [Vec3<i32>; 6] {
    [
        Vec3::new(1, 0, 0),
        Vec3::new(-1, 0, 0),
        Vec3::new(0, 0, 1),
        Vec3::new(0, 0, -1),
        Vec3::new(0, 1, 0),
        Vec3::new(0, -1, 0),
    ]
}

#[test]
fn deserialized_attenuation_is_read_back_per_direction() {
    let d = LightAttenuationDeserialize { px: 1, nx: 2, pz: 3, nz: 4, py: 5, ny: 6 };
    let a = d.into();
    assert_eq!(a.x_axis, 1 | (2 << 4));
    let got: Vec<Option<u8>> = dirs().iter().map(|v| a.from_direction(*v)).collect();
    assert_eq!(got, vec![Some(1), Some(2), Some(3), Some(4), Some(5), Some(6)]);
}

#[test]
fn from_direction_rejects_non_unit_vectors() {
    let a = LightAttenuation::opaque();
    assert_eq!(a.from_direction(Vec3::new(1, 1, 0)), None);
    assert_eq!(a.from_direction(Vec3::new(0, 0, 0)), None);
    assert_eq!(a.from_direction(Vec3::new(2, 0, 0)), None);
}

#[test]
fn every_face_normal_has_an_attenuation() {
    let a = LightAttenuation { x_axis: 0x21, z_axis: 0x43, y_axis: 0x65 };
    for i in 0..6 {
        let d = FaceDirection::from_index(i);
        assert_eq!(a.from_direction(d.normal_i32()), Some((i as u8) + 1));
    }
}

#[test]
fn opaque_attenuation_is_not_reported_opaque() {
    // `opaque` fills every byte with 255 while `is_opaque` looks for 15.
    let a = LightAttenuation::opaque();
    assert!(!a.is_opaque());
    assert!(!a.is_transparent());
    assert_eq!(a.from_direction(Vec3::new(1, 0, 0)), Some(15));
    assert_eq!(a.from_direction(Vec3::new(-1, 0, 0)), Some(15));
    let b = LightAttenuation { x_axis: 15, z_axis: 15, y_axis: 15 };
    assert!(b.is_opaque());
    let c = LightAttenuation { x_axis: 0, z_axis: 0, y_axis: 0 };
    assert!(c.is_transparent());
}

#[test]
fn default_properties() {
    let p = Properties::default();
    assert_eq!(p.alpha_mode, AlphaMode::Opaque);
    assert!(p.targetable && !p.replaceable && p.collideable);
    assert_eq!(p.light_attenuation, LightAttenuation::opaque());
    assert_eq!(p.emitted_light, 0);
    assert!(p.alpha_mode.is_opaque());
    assert!(!AlphaMode::Translucent.is_opaque());
    assert_eq!(AlphaMode::default(), AlphaMode::Opaque);
}

#[test]
fn join_optional_overrides_only_what_is_set() {
    let mut p = Properties::default();
    let mut o = PropertiesOptional::default();
    p.join_optional(o);
    assert_eq!(p, Properties::default());
    o.emitted_light = Some(14);
    o.alpha_mode = Some(AlphaMode::Transparent);
    o.collideable = Some(false);
    p.join_optional(o);
    assert_eq!(p.emitted_light, 14);
    assert_eq!(p.alpha_mode, AlphaMode::Transparent);
    assert!(!p.collideable);
    assert!(p.targetable);
    let again = p;
    p.join_optional(o);
    assert_eq!(p, again);
}

#[test]
fn properties_deserialize_default_and_into() {
    let d = PropertiesDeserialize::default();
    let p = d.into();
    assert_eq!(p.light_attenuation.x_axis, 0xFF);
    assert_eq!(p.light_attenuation, LightAttenuation::opaque());
    assert_eq!(p.emitted_light, 0);
}

#[test]
fn default_helpers() {
    assert!(bool_true());
    assert!(!bool_false());
    assert_eq!(none::<u8>(), None);
    assert_eq!(u8_0(), 0);
    assert_eq!(light_level_max_value(), LIGHT_LEVEL_MAX_VALUE);
    assert!(voxel_core::utils::bool_true());
    assert!(!voxel_core::utils::bool_false());
    assert_eq!(voxel_core::utils::none::<i32>(), None);
}

#[test]
fn face_directions_in_declaration_order() {
    assert_eq!(FaceDirection::from_index(0), FaceDirection::PositiveX);
    assert_eq!(FaceDirection::from_index(3), FaceDirection::NegativeZ);
    assert_eq!(FaceDirection::from_index(5), FaceDirection::NegativeY);
    assert_eq!(FaceDirection::NegativeY.normal_i32(), Vec3::new(0, -1, 0));
    assert_eq!(FaceDirection::PositiveZ.normal_i32(), Vec3::new(0, 0, 1));
}
