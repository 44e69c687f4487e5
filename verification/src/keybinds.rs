//! The actions that keys are bound to. A key is named as the window system names its key
//! code (`"KeyW"`, `"Space"`, `"ShiftLeft"`, ...).
use vstd::prelude::*;

use crate::name_map::NameMap;

verus! {

/// A movement action of the player.
#[derive(Clone, Copy, PartialEq, Eq, Structural, Debug)]
pub enum KeyAction {
    Forward,
    Backward,
    Left,
    Right,
    Jump,
    Crouch,
    Sprint,
}

/// The action bound to each key, by the key's name.
pub struct Keybinds {
    inner: NameMap<KeyAction>,
}

impl View for Keybinds {
    type V = Map<Seq<char>, KeyAction>;

    closed spec fn view(&self) -> Map<Seq<char>, KeyAction> {
        self.inner@
    }
}

/// The bindings a player starts with: W, S, A, D to move, space to jump, left shift to
/// crouch and left control to sprint.
pub open spec fn default_keybinds() -> Map<Seq<char>, KeyAction> {
    Map::empty()
        .insert("KeyW"@, KeyAction::Forward)
        .insert("KeyS"@, KeyAction::Backward)
        .insert("KeyA"@, KeyAction::Left)
        .insert("KeyD"@, KeyAction::Right)
        .insert("Space"@, KeyAction::Jump)
        .insert("ShiftLeft"@, KeyAction::Crouch)
        .insert("ControlLeft"@, KeyAction::Sprint)
}

impl Keybinds {
    /// No bindings.
    pub fn new() -> (r: Self)
        ensures
            r@ == Map::<Seq<char>, KeyAction>::empty(),
    {
        Self { inner: NameMap::new() }
    }

    /// Binds the key named `key_code` to `key_action`, replacing its earlier binding.
    pub fn insert(&mut self, key_code: String, key_action: KeyAction)
        ensures
            final(self)@ == old(self)@.insert(key_code@, key_action),
    {
        self.inner.insert(key_code, key_action);
    }

    /// The action bound to the key named `key_code`, if any.
    pub fn get(&self, key_code: &str) -> (r: Option<KeyAction>)
        ensures
            r is Some <==> self@.dom().contains(key_code@),
            r matches Some(a) ==> a == self@[key_code@],
    {
        match self.inner.get(key_code) {
            Some(a) => Some(*a),
            None => None,
        }
    }
}

impl Default for Keybinds {
    fn default() -> (r: Self)
        ensures
            r@ == default_keybinds(),
    {
        let mut keybinds = Self::new();
        keybinds.insert(String::from_str("KeyW"), KeyAction::Forward);
        keybinds.insert(String::from_str("KeyS"), KeyAction::Backward);
        keybinds.insert(String::from_str("KeyA"), KeyAction::Left);
        keybinds.insert(String::from_str("KeyD"), KeyAction::Right);
        keybinds.insert(String::from_str("Space"), KeyAction::Jump);
        keybinds.insert(String::from_str("ShiftLeft"), KeyAction::Crouch);
        keybinds.insert(String::from_str("ControlLeft"), KeyAction::Sprint);
        keybinds
    }
}

} // verus!
