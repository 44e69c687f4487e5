use voxel_core::block::asset_loader::register_quads;
use voxel_core::block::model::cuboid_block_model::{CuboidBlockModelDeserialize, CuboidDeserialize, CuboidFaceDeserialize, TextureOverrides};
use voxel_core::block::model::ModelTexture;
use voxel_core::vector::{Vec2, Vec3};

fn v3(x: i32, y: i32, z: i32) -> Vec3<i32> {
    Vec3 { x, y, z }
}

fn face(index: u16, culling: bool) -> CuboidFaceDeserialize<Vec2<i32>> {
    CuboidFaceDeserialize {
        uv_start: Vec2 { x: 1, y: 2 },
        uv_end: Vec2 { x: 3, y: 4 },
        texture: ModelTexture::Index(index),
        culling,
    }
}

fn model_with(cuboids: Vec<CuboidDeserialize<Vec3<i32>, Vec2<i32>>>) -> CuboidBlockModelDeserialize<Vec3<i32>, Vec2<i32>> {
    CuboidBlockModelDeserialize { parent_model: None, texture_overrides: TextureOverrides::new(), cuboids }
}

#[test]
fn bake_builds_one_quad_per_present_face() {
    let a = CuboidDeserialize {
        start: v3(0, 0, 0),
        end: v3(16, 8, 4),
        faces: [Some(face(1, true)), None, None, None, Some(face(2, false)), Some(face(3, true))],
    };
    let b = CuboidDeserialize {
        start: v3(2, 2, 2),
        end: v3(4, 4, 4),
        faces: [Some(face(5, false)), Some(face(6, true)), None, None, None, None],
    };
    let baked = model_with(vec![a, b]).try_into().unwrap().bake();
    assert_eq!(baked.quads_per_face[0].len(), 2);
    assert_eq!(baked.quads_per_face[1].len(), 1);
    assert_eq!(baked.quads_per_face[2].len(), 0);
    assert_eq!(&*baked.texture_indices_per_face[0], &[1u16, 5][..]);
    assert_eq!(&*baked.quad_culling_per_face[0], &[true, false][..]);
    assert_eq!(&*baked.texture_indices_per_face[5], &[3u16][..]);

    // +x face of the first cuboid.
    let q = baked.quads_per_face[0][0];
    assert_eq!(q.normal, v3(1, 0, 0));
    assert_eq!(q.vertex_positions, [v3(16, 0, 4), v3(16, 0, 0), v3(16, 8, 4), v3(16, 8, 0)]);
    assert_eq!(q.uv, [Vec2 { x: 1, y: 2 }, Vec2 { x: 3, y: 2 }, Vec2 { x: 1, y: 4 }, Vec2 { x: 3, y: 4 }]);

    // +y face of the first cuboid.
    let q = baked.quads_per_face[4][0];
    assert_eq!(q.normal, v3(0, 1, 0));
    assert_eq!(q.vertex_positions, [v3(0, 8, 0), v3(0, 8, 4), v3(16, 8, 0), v3(16, 8, 4)]);

    // -y face of the first cuboid.
    let q = baked.quads_per_face[5][0];
    assert_eq!(q.normal, v3(0, -1, 0));
    assert_eq!(q.vertex_positions, [v3(0, 0, 4), v3(0, 0, 0), v3(16, 0, 4), v3(16, 0, 0)]);

    // -x face of the second cuboid.
    let q = baked.quads_per_face[1][0];
    assert_eq!(q.normal, v3(-1, 0, 0));
    assert_eq!(q.vertex_positions, [v3(2, 2, 2), v3(2, 2, 4), v3(2, 4, 2), v3(2, 4, 4)]);
}

#[test]
fn bake_z_faces_and_empty_model() {
    let c = CuboidDeserialize {
        start: v3(0, 0, 0),
        end: v3(1, 2, 3),
        faces: [None, None, Some(face(7, true)), Some(face(8, true)), None, None],
    };
    let baked = model_with(vec![c]).try_into().unwrap().bake();
    let q = baked.quads_per_face[2][0];
    assert_eq!(q.normal, v3(0, 0, 1));
    assert_eq!(q.vertex_positions, [v3(0, 0, 3), v3(1, 0, 3), v3(0, 2, 3), v3(1, 2, 3)]);
    let q = baked.quads_per_face[3][0];
    assert_eq!(q.normal, v3(0, 0, -1));
    assert_eq!(q.vertex_positions, [v3(1, 0, 0), v3(0, 0, 0), v3(1, 2, 0), v3(0, 2, 0)]);

    let empty = model_with(vec![]).try_into().unwrap().bake();
    for d in 0..6 {
        assert!(empty.quads_per_face[d].is_empty());
        assert!(empty.texture_indices_per_face[d].is_empty());
        assert!(empty.quad_culling_per_face[d].is_empty());
    }
}

#[test]
fn register_quads_appends_and_numbers_by_direction() {
    let mut quads: Vec<char> = vec!['x', 'y'];
    let faces: [Box<[char]>; 6] = [
        vec!['a', 'b'].into_boxed_slice(),
        vec![].into_boxed_slice(),
        vec!['c'].into_boxed_slice(),
        vec![].into_boxed_slice(),
        vec!['d', 'e', 'f'].into_boxed_slice(),
        vec![].into_boxed_slice(),
    ];
    let indices = register_quads(&mut quads, faces);
    assert_eq!(quads, vec!['x', 'y', 'a', 'b', 'c', 'd', 'e', 'f']);
    assert_eq!(&*indices[0], &[2u16, 3][..]);
    assert!(indices[1].is_empty());
    assert_eq!(&*indices[2], &[4u16][..]);
    assert!(indices[3].is_empty());
    assert_eq!(&*indices[4], &[5u16, 6, 7][..]);
    assert!(indices[5].is_empty());
}
