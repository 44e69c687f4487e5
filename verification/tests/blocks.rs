use voxel_core::block::asset_loader::{BlockList, BlockMap, BlockRegistry};
use voxel_core::block::block_pallet::{BlockPallet, BlockPalletItem};
use voxel_core::block::block_state::{state_eq, value_eq, BlockState, JsonNumber, Value};
use voxel_core::block::model::block_model_variant::{BlockModelVariant, BlockModelVariants};
use voxel_core::block::{AlphaMode, Block, BlockInformation, Properties, PropertiesOptional};

fn empty_faces<T>() -> [Box<[T]>; 6] {
    [Box::new([]), Box::new([]), Box::new([]), Box::new([]), Box::new([]), Box::new([])]
}

fn variant(tag: u16, required: Vec<(String, Value)>, compound: bool, emitted: Option<u8>) -> BlockModelVariant {
    let mut quads = empty_faces::<u16>();
    quads[0] = Box::new([tag]);
    let mut properties = PropertiesOptional::default();
    properties.emitted_light = emitted;
    BlockModelVariant {
        parent_model: format!("model{}", tag),
        quad_indices_per_face: quads,
        texture_indices_per_face: empty_faces(),
        quad_culling_per_face: empty_faces(),
        required_state: required,
        compound,
        properties,
    }
}

fn text(s: &str) -> Value {
    Value::String(s.to_string())
}

fn state(entries: &[(&str, Value)]) -> BlockState {
    let mut st = BlockState::new();
    for (k, v) in entries {
        st.insert(k.to_string(), v.clone());
    }
    st
}

fn registry() -> (BlockList, BlockModelVariants) {
    let mut list = BlockList::new();
    let mut base = Properties::default();
    base.emitted_light = 1;
    list.push(BlockInformation::new(0, "air", BlockState::new(), Properties::default()));
    list.push(BlockInformation::new(1, "torch", state(&[("lit", Value::Bool(true))]), base));
    let mut variants = BlockModelVariants::new();
    variants.insert("air".to_string(), vec![variant(0, vec![], false, None)].into_boxed_slice());
    variants.insert(
        "torch".to_string(),
        vec![
            variant(1, vec![("lit".to_string(), Value::Bool(false))], false, Some(0)),
            variant(2, vec![("lit".to_string(), Value::Bool(true))], false, Some(14)),
            variant(3, vec![], true, None),
        ]
        .into_boxed_slice(),
    );
    (list, variants)
}

#[test]
fn block_state_get_and_insert_replace() {
    let mut st = BlockState::new();
    assert!(st.get("facing").is_none());
    st.insert("facing".to_string(), text("north"));
    st.insert("lit".to_string(), Value::Bool(true));
    st.insert("facing".to_string(), text("south"));
    assert!(value_eq(st.get("facing").unwrap(), &text("south")));
    assert!(value_eq(st.get("lit").unwrap(), &Value::Bool(true)));
}

#[test]
fn state_equality_ignores_insertion_order() {
    let a = state(&[("a", Value::Number(JsonNumber::PosInt(1))), ("b", text("x"))]);
    let b = state(&[("b", text("x")), ("a", Value::Number(JsonNumber::PosInt(1)))]);
    let c = state(&[("b", text("y")), ("a", Value::Number(JsonNumber::PosInt(1)))]);
    let d = state(&[("a", Value::Number(JsonNumber::PosInt(1)))]);
    assert!(state_eq(&a, &b));
    assert!(!state_eq(&a, &c));
    assert!(!state_eq(&a, &d));
    let nested_a = Value::Struct(a.clone());
    let nested_b = Value::Struct(b);
    assert!(value_eq(&nested_a, &nested_b));
    assert!(!value_eq(&nested_a, &Value::Struct(d)));
    assert!(!value_eq(&Value::Number(JsonNumber::PosInt(1)), &Value::Number(JsonNumber::NegInt(-1))));
    assert!(!value_eq(&Value::Bool(true), &text("true")));
}

#[test]
fn block_takes_properties_of_the_selected_variant() {
    let (list, variants) = registry();
    let lit = Block::new(1, "torch", state(&[("lit", Value::Bool(true))]), &list, &variants);
    assert_eq!(lit.properties().emitted_light, 14);
    assert_eq!(lit.name(), "torch");
    assert_eq!(lit.id(), 1);
    let unlit = Block::new(1, "torch", state(&[("lit", Value::Bool(false))]), &list, &variants);
    assert_eq!(unlit.properties().emitted_light, 0);
    let plain = Block::new(1, "torch", BlockState::new(), &list, &variants);
    assert_eq!(plain.properties().emitted_light, 1);
    assert!(!plain.is_air(0));
    let info = list.get(1).unwrap().clone_information();
    let from_info = info.into(&list, &variants);
    assert_eq!(from_info.properties().emitted_light, 14);
    assert!(from_info.same_as(&lit));
    assert!(!from_info.same_as(&unlit));
    assert_eq!(from_info.properties().alpha_mode, AlphaMode::Opaque);
}

#[test]
fn variant_selection() {
    let (_, variants) = registry();
    let (list, _) = registry();
    let lit = Block::new(1, "torch", state(&[("lit", Value::Bool(true))]), &list, &variants);
    let chosen = variants.get_model_variants(&lit).unwrap();
    assert_eq!(chosen.len(), 1);
    assert_eq!(chosen[0].parent_model, "model2");
    let models = variants.get_quad_block_models(&lit).unwrap();
    assert_eq!(models.len(), 1);
    assert_eq!(models[0].quad_indices_per_face[0][0], 2);
    let plain = Block::new(1, "torch", BlockState::new(), &list, &variants);
    assert_eq!(variants.get_model_variants(&plain).unwrap().len(), 0);
    let models = variants.get_quad_block_models(&plain).unwrap();
    assert_eq!(models.len(), 1);
    assert_eq!(models[0].quad_indices_per_face[0][0], 3);
}

#[test]
fn compound_variants_add_up() {
    let (list, _) = registry();
    let mut variants = BlockModelVariants::new();
    variants.insert(
        "torch".to_string(),
        vec![
            variant(1, vec![("lit".to_string(), Value::Bool(true)), ("wall".to_string(), Value::Bool(true))], true, None),
            variant(2, vec![], true, None),
            variant(3, vec![("lit".to_string(), Value::Bool(false))], false, None),
        ]
        .into_boxed_slice(),
    );
    let b = Block::new(1, "torch", state(&[("lit", Value::Bool(true)), ("wall", Value::Bool(true))]), &list, &variants);
    let models = variants.get_quad_block_models(&b).unwrap();
    let tags: Vec<u16> = models.iter().map(|m| m.quad_indices_per_face[0][0]).collect();
    assert_eq!(tags, vec![1, 1, 2]);
    let mut other = BlockModelVariants::new();
    other.insert("stone".to_string(), Vec::new().into_boxed_slice());
    assert!(other.get_quad_block_models(&b).is_none());
    assert!(other.get_model_variants(&b).is_none());
}

#[test]
fn block_map_and_list() {
    let mut map = BlockMap::new();
    map.insert("stone".to_string(), BlockInformation::new(4, "stone", BlockState::new(), Properties::default()));
    assert_eq!(*map.get("stone").unwrap().id(), 4);
    assert!(map.get("dirt").is_none());
    let (list, _) = registry();
    assert_eq!(list.len(), 2);
    assert_eq!(list.index(1).name(), "torch");
    assert!(list.get(2).is_none());
}

#[test]
fn pallet_reuses_ids_and_finds_blocks() {
    let (list, variants) = registry();
    let mut pallet = BlockPallet::new_air(&list, &variants);
    assert_eq!(pallet.get(&0).unwrap().count, 32 * 32 * 32 + 1);
    assert_eq!(pallet.max_key(), Some(0));
    let torch = Block::new(1, "torch", BlockState::new(), &list, &variants);
    let id = pallet.insert_block(torch.clone_block());
    assert_eq!(id, 1);
    assert_eq!(pallet.insert_block(torch.clone_block()), 1);
    assert_eq!(pallet.get_block_pallet_id(&torch), Some(1));
    let lit = Block::new(1, "torch", state(&[("lit", Value::Bool(true))]), &list, &variants);
    assert_eq!(pallet.get_block_pallet_id(&lit), None);
    assert_eq!(pallet.insert_count(lit.clone_block(), 5), 2);
    assert_eq!(pallet.ids(), vec![0, 1, 2]);
    let removed = pallet.remove(&1).unwrap();
    assert!(removed.block.same_as(&torch));
    assert!(pallet.get(&1).is_none());
    assert_eq!(pallet.ids(), vec![0, 2]);
    assert_eq!(pallet.insert_block_pallet_item(BlockPalletItem { block: torch.clone_block(), count: 3 }), 1);
    let (found_id, found) = pallet.find_item(&lit).unwrap();
    assert_eq!((found_id, found.count), (2, 5));
    assert_eq!(pallet.values().len(), 3);
    assert_eq!(pallet.iter().len(), 3);
}

#[test]
fn clean_up_drops_unused_entries() {
    let (list, variants) = registry();
    let mut pallet = BlockPallet::new_air(&list, &variants);
    let torch = Block::new(1, "torch", BlockState::new(), &list, &variants);
    let lit = Block::new(1, "torch", state(&[("lit", Value::Bool(true))]), &list, &variants);
    pallet.insert_count(torch, 0);
    pallet.insert_count(lit, 0);
    pallet.insert_count(Block::new(0, "air", BlockState::new(), &list, &variants), 2);
    pallet.insert_count(Block::new(1, "torch", state(&[("lit", Value::Bool(false))]), &list, &variants), 0);
    pallet.clean_up();
    assert_eq!(pallet.ids(), vec![0, 3]);
    assert_eq!(pallet.max_key(), Some(3));
    assert!(pallet.get(&4).is_none());
    assert_eq!(pallet.remove(&3).unwrap().count, 2);
    assert_eq!(pallet.max_key(), Some(0));
}

#[test]
fn pallet_entries_can_be_changed_in_place() {
    let (list, variants) = registry();
    let mut pallet = BlockPallet::new_air(&list, &variants);
    let torch = Block::new(1, "torch", BlockState::new(), &list, &variants);
    pallet.insert_count(torch.clone_block(), 4);
    pallet.get_mut(&1).unwrap().count += 2;
    assert_eq!(pallet.get(&1).unwrap().count, 6);
    assert!(pallet.get_mut(&7).is_none());
    let (id, item) = pallet.find_item_mut(&torch).unwrap();
    assert_eq!(id, 1);
    item.count = 1;
    assert_eq!(pallet.get(&1).unwrap().count, 1);
    let lit = Block::new(1, "torch", state(&[("lit", Value::Bool(true))]), &list, &variants);
    assert!(pallet.find_item_mut(&lit).is_none());
}

#[test]
fn block_state_entries_list_each_name_once() {
    let mut s = state(&[("facing", text("north")), ("lit", Value::Bool(true))]);
    s.insert("facing".to_string(), text("south"));
    let mut names: Vec<&str> = s.entries().iter().map(|(n, _)| n.as_str()).collect();
    names.sort();
    assert_eq!(names, vec!["facing", "lit"]);
    let facing = s.entries().iter().find(|(n, _)| n == "facing").unwrap();
    assert!(matches!(&facing.1, Value::String(v) if v == "south"));
}

#[test]
fn registry_assigns_ids_in_order_and_keeps_map_and_list_in_step() {
    let mut reg = BlockRegistry::new();
    let air = reg.register_block("air".to_string(), BlockState::new(), Properties::default(), vec![variant(0, vec![], false, None)].into_boxed_slice());
    let mut base = Properties::default();
    base.emitted_light = 3;
    let torch = reg.register_block(
        "torch".to_string(),
        state(&[("lit", Value::Bool(true))]),
        base,
        vec![variant(1, vec![], false, None)].into_boxed_slice(),
    );
    assert_eq!((air, torch), (0, 1));
    assert_eq!(reg.block_list.len(), 2);
    assert_eq!(reg.block_list.index(1).name(), "torch");
    assert_eq!(*reg.block_map.get("torch").unwrap().id(), 1);
    assert_eq!(reg.block_map.get("torch").unwrap().base_properties().emitted_light, 3);
    assert!(reg.block_map.get("stone").is_none());
    let b = Block::new(1, "torch", BlockState::new(), &reg.block_list, &reg.block_model_variants);
    assert_eq!(b.properties().emitted_light, 3);
}
