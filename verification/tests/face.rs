use voxel_core::block::light::LightLevel;
use voxel_core::block::model::{Face, ModelTexture};

#[test]
fn pack_places_every_field() {
    let l = |b, s| LightLevel::new(b, s).unwrap();
    let face = Face {
        lighting: [l(1, 2), l(3, 4), l(5, 6), l(7, 8)],
        block_position: [31, 0, 0b1_0101],
        texture_index: 0xBEEF,
        quad_index: 0x1234,
    };
    let v = face.pack().0;
    assert_eq!(v & 0xff, 0x21);
    assert_eq!((v >> 8) & 0xff, 0x43);
    assert_eq!((v >> 16) & 0xff, 0x65);
    assert_eq!((v >> 24) & 0xff, 0x87);
    assert_eq!((v >> 32) & 31, 31);
    assert_eq!((v >> 37) & 31, 0);
    assert_eq!((v >> 42) & 31, 0b1_0101);
    assert_eq!((v >> 48) & 0xffff, 0xBEEF);
    assert_eq!(v >> 64, 0x1234);
}

#[test]
fn pack_keeps_five_bits_of_positions() {
    let l = LightLevel::new(0, 0).unwrap();
    let face = Face { lighting: [l; 4], block_position: [0xff, 33, 64], texture_index: 0, quad_index: 0 };
    let v = face.pack().0;
    assert_eq!((v >> 32) & 31, 31);
    assert_eq!((v >> 37) & 31, 1);
    assert_eq!((v >> 42) & 31, 0);
    assert_eq!(v >> 48, 0);
    assert_eq!(Face::INDICES_PER_FACE, 6);
    assert_eq!(Face::VERTICES_PER_FACE, 4);
}

#[test]
fn model_textures_compare_by_content() {
    assert_eq!(ModelTexture::Placeholder("side".to_string()), ModelTexture::Placeholder("side".to_string()));
    assert_ne!(ModelTexture::Index(1), ModelTexture::Index(2));
}

#[test]
fn quad_index_list_draws_two_triangles_per_quad() {
    use_index_list();
}

fn use_index_list() {
    let l = voxel_core::block::model::quad_index_list(3);
    assert_eq!(l, vec![0, 1, 2, 1, 3, 2, 4, 5, 6, 5, 7, 6, 8, 9, 10, 9, 11, 10]);
    assert!(voxel_core::block::model::quad_index_list(0).is_empty());
}
