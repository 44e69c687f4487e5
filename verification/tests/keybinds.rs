use voxel_core::keybinds::{KeyAction, Keybinds};

#[test]
fn default_bindings_move_jump_crouch_sprint() {
    let k = Keybinds::default();
    assert_eq!(k.get("KeyW"), Some(KeyAction::Forward));
    assert_eq!(k.get("KeyS"), Some(KeyAction::Backward));
    assert_eq!(k.get("KeyA"), Some(KeyAction::Left));
    assert_eq!(k.get("KeyD"), Some(KeyAction::Right));
    assert_eq!(k.get("Space"), Some(KeyAction::Jump));
    assert_eq!(k.get("ShiftLeft"), Some(KeyAction::Crouch));
    assert_eq!(k.get("ControlLeft"), Some(KeyAction::Sprint));
    assert_eq!(k.get("KeyQ"), None);
}

#[test]
fn insert_rebinds_a_key() {
    let mut k = Keybinds::new();
    assert_eq!(k.get("KeyW"), None);
    k.insert("KeyW".to_string(), KeyAction::Jump);
    k.insert("KeyW".to_string(), KeyAction::Sprint);
    assert_eq!(k.get("KeyW"), Some(KeyAction::Sprint));
}
