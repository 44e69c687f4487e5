use voxel_core::block::model::cuboid_block_model::{
    CuboidBlockModelDeserialize, CuboidDeserialize, CuboidFaceDeserialize, DeserializedCuboidModels,
    TextureOverrides,
};
use voxel_core::block::model::ModelTexture;

type P = [i32; 3];
type U = [i32; 2];

fn placeholder(name: &str) -> ModelTexture {
    ModelTexture::Placeholder(name.to_string())
}

fn face(texture: ModelTexture, culling: bool) -> CuboidFaceDeserialize<U> {
    CuboidFaceDeserialize { uv_start: [0, 0], uv_end: [16, 16], texture, culling }
}

fn cube(start: P, end: P, texture: ModelTexture) -> CuboidDeserialize<P, U> {
    CuboidDeserialize {
        start,
        end,
        faces: [
            Some(face(texture.clone(), true)),
            Some(face(texture.clone(), true)),
            None,
            Some(face(texture.clone(), false)),
            Some(face(texture.clone(), true)),
            Some(face(texture, true)),
        ],
    }
}

fn overrides(pairs: &[(ModelTexture, ModelTexture)]) -> TextureOverrides {
    let mut o = TextureOverrides::new();
    for (from, to) in pairs {
        o.insert(from.clone(), to.clone());
    }
    o
}

fn model(
    parent: Option<&str>,
    renames: &[(ModelTexture, ModelTexture)],
    cuboids: Vec<CuboidDeserialize<P, U>>,
) -> CuboidBlockModelDeserialize<P, U> {
    CuboidBlockModelDeserialize {
        parent_model: parent.map(|p| p.to_string()),
        texture_overrides: overrides(renames),
        cuboids,
    }
}

#[test]
fn texture_overrides_replace_and_clear() {
    let mut o = TextureOverrides::new();
    o.insert(placeholder("a"), ModelTexture::Index(1));
    o.insert(placeholder("a"), ModelTexture::Index(2));
    o.insert(placeholder("b"), ModelTexture::Index(3));
    assert_eq!(o.get(&placeholder("a")), Some(&ModelTexture::Index(2)));
    assert_eq!(o.get(&placeholder("b")), Some(&ModelTexture::Index(3)));
    assert_eq!(o.get(&placeholder("c")), None);
    o.clear();
    assert_eq!(o.get(&placeholder("a")), None);
}

#[test]
fn override_textures_renames_faces_and_drops_renamings() {
    let mut m = model(
        None,
        &[(placeholder("side"), ModelTexture::Index(7))],
        vec![cube([0, 0, 0], [16, 16, 16], placeholder("side"))],
    );
    m.override_textures();
    let faces = &m.cuboids[0].faces;
    assert_eq!(faces[0].as_ref().unwrap().texture, ModelTexture::Index(7));
    assert!(faces[2].is_none());
    assert_eq!(m.texture_overrides.get(&placeholder("side")), None);
}

#[test]
fn combine_appends_other_cuboids() {
    let mut a = model(None, &[], vec![cube([0, 0, 0], [8, 8, 8], ModelTexture::Index(1))]);
    let b = model(None, &[], vec![cube([8, 8, 8], [16, 16, 16], ModelTexture::Index(2))]);
    a.combine(&b);
    assert_eq!(a.cuboids.len(), 2);
    assert_eq!(a.cuboids[1].start, [8, 8, 8]);
    assert_eq!(a.cuboids[1].faces[0].as_ref().unwrap().texture, ModelTexture::Index(2));
}

#[test]
fn try_into_bakes_indexed_model() {
    let m = model(None, &[], vec![cube([0, 0, 0], [16, 16, 16], ModelTexture::Index(4))]);
    let baked = m.try_into().unwrap();
    assert_eq!(baked.cuboids.len(), 1);
    let f = baked.cuboids[0].faces[3].unwrap();
    assert_eq!(f.texture_index, 4);
    assert!(!f.culling);
    assert_eq!(f.uv_end, [16, 16]);
    assert!(baked.cuboids[0].faces[2].is_none());
}

#[test]
fn try_into_refuses_placeholder_and_parent() {
    let m = model(None, &[], vec![cube([0, 0, 0], [16, 16, 16], placeholder("x"))]);
    assert!(m.try_into().is_err());
    let m = model(Some("base"), &[], vec![]);
    assert!(m.try_into().is_err());
}

#[test]
fn try_into_applies_own_renamings_first() {
    let m = model(
        None,
        &[(placeholder("x"), ModelTexture::Index(9))],
        vec![cube([0, 0, 0], [16, 16, 16], placeholder("x"))],
    );
    let baked = m.try_into().unwrap();
    assert_eq!(baked.cuboids[0].faces[0].unwrap().texture_index, 9);
}

#[test]
fn texture_indices_and_culling_are_appended_per_face() {
    let m = model(None, &[], vec![cube([0, 0, 0], [16, 16, 16], ModelTexture::Index(5))]);
    let baked = m.try_into().unwrap();
    let mut indices: [Vec<u16>; 6] = Default::default();
    let mut culling: [Vec<bool>; 6] = Default::default();
    baked.cuboids[0].append_texture_indices(&mut indices);
    baked.cuboids[0].append_quad_culling(&mut culling);
    assert_eq!(indices[0], vec![5]);
    assert!(indices[2].is_empty());
    assert_eq!(culling[3], vec![false]);
    assert_eq!(culling[4], vec![true]);
}

#[test]
fn inheritance_chain_resolves_and_renames() {
    let mut models = DeserializedCuboidModels::new();
    models.insert(
        "cube".to_string(),
        model(None, &[], vec![cube([0, 0, 0], [16, 16, 16], placeholder("all"))]),
    );
    models.insert(
        "stone".to_string(),
        model(Some("cube"), &[(placeholder("all"), ModelTexture::Index(3))], vec![]),
    );
    models.insert(
        "slab_on_stone".to_string(),
        model(
            Some("stone"),
            &[],
            vec![cube([0, 16, 0], [16, 24, 16], ModelTexture::Index(8))],
        ),
    );
    let base = models.to_base_cuboid_models();
    // "cube" keeps its placeholder and is dropped.
    assert!(base.get("cube").is_none());
    let stone = base.get("stone").unwrap();
    assert_eq!(stone.cuboids.len(), 1);
    assert_eq!(stone.cuboids[0].faces[0].unwrap().texture_index, 3);
    let slab = base.get("slab_on_stone").unwrap();
    assert_eq!(slab.cuboids.len(), 2);
    assert_eq!(slab.cuboids[0].faces[0].unwrap().texture_index, 8);
    assert_eq!(slab.cuboids[1].faces[0].unwrap().texture_index, 3);
    assert_eq!(base.len(), 2);
}

#[test]
fn missing_parent_and_cycles_are_dropped() {
    let mut models = DeserializedCuboidModels::new();
    models.insert(
        "orphan".to_string(),
        model(Some("nowhere"), &[], vec![cube([0, 0, 0], [1, 1, 1], ModelTexture::Index(1))]),
    );
    models.insert(
        "a".to_string(),
        model(Some("b"), &[], vec![cube([0, 0, 0], [1, 1, 1], ModelTexture::Index(1))]),
    );
    models.insert(
        "b".to_string(),
        model(Some("a"), &[], vec![cube([0, 0, 0], [1, 1, 1], ModelTexture::Index(1))]),
    );
    models.insert(
        "ok".to_string(),
        model(None, &[], vec![cube([0, 0, 0], [1, 1, 1], ModelTexture::Index(2))]),
    );
    let base = models.to_base_cuboid_models();
    assert_eq!(base.len(), 1);
    assert!(base.get("ok").is_some());
    assert!(base.get("orphan").is_none());
    assert!(base.get("a").is_none());
    let names = base.model_names();
    assert_eq!(names, vec!["ok".to_string()]);
}

#[test]
fn child_renaming_reaches_inherited_cuboids_only_when_unrenamed_by_parent() {
    let mut models = DeserializedCuboidModels::new();
    models.insert(
        "base".to_string(),
        model(
            None,
            &[(placeholder("top"), ModelTexture::Index(1))],
            vec![cube([0, 0, 0], [16, 16, 16], placeholder("top"))],
        ),
    );
    models.insert(
        "child".to_string(),
        model(Some("base"), &[(placeholder("top"), ModelTexture::Index(2))], vec![]),
    );
    let base = models.to_base_cuboid_models();
    // The parent renamed its own faces before the child inherited them.
    assert_eq!(base.get("base").unwrap().cuboids[0].faces[0].unwrap().texture_index, 1);
    assert_eq!(base.get("child").unwrap().cuboids[0].faces[0].unwrap().texture_index, 1);
}

#[test]
fn texture_overrides_entries_list_each_source_once() {
    let o = overrides(&[
        (placeholder("a"), ModelTexture::Index(1)),
        (placeholder("a"), ModelTexture::Index(2)),
        (ModelTexture::Index(3), placeholder("b")),
    ]);
    let e = o.entries();
    assert_eq!(e.len(), 2);
    assert!(e.contains(&(placeholder("a"), ModelTexture::Index(2))));
    assert!(e.contains(&(ModelTexture::Index(3), placeholder("b"))));
}
