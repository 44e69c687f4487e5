//! Blocks, their properties and their faces.
use vstd::prelude::*;

use crate::vector::Vec3;
use asset_loader::BlockList;
use block_state::{state_eq, BlockState, ValueView};
use model::block_model_variant::{
    lemma_compound_variants_draw_together, lemma_standalone_variant_draws_alone, model_variant_selection,
    variant_applies, BlockModelVariant, BlockModelVariants,
};
use light::{lemma_pack_unpack, pack_levels, LIGHT_LEVEL_MAX_VALUE};

pub mod asset_loader;
pub mod block_pallet;
pub mod block_state;
pub mod light;
pub mod model;

verus! {

/// Number of face directions of a block.
pub const FACE_DIRECTIONS_NUM: usize = 6;

/// Identifier of a block type.
pub type BlockId = u16;

/// The low nibble of a byte.
pub open spec fn positive_nibble(b: u8) -> u8 {
    b & 15u8
}

/// The high nibble of a byte.
pub open spec fn negative_nibble(b: u8) -> u8 {
    b >> 4u8
}

/// Light attenuation per direction, one byte per axis: the positive direction in the low
/// nibble, the negative direction in the high nibble.
#[derive(Clone, Copy, PartialEq, Eq, Structural, Debug)]
pub struct LightAttenuation {
    pub x_axis: u8,
    pub z_axis: u8,
    pub y_axis: u8,
}

impl LightAttenuation {
    /// The attenuation toward a unit direction, or `None` for any other vector.
    pub open spec fn toward(self, direction: Vec3<i32>) -> Option<u8> {
        if direction == (Vec3 { x: 1i32, y: 0i32, z: 0i32 }) {
            Some(positive_nibble(self.x_axis))
        } else if direction == (Vec3 { x: -1i32, y: 0i32, z: 0i32 }) {
            Some(negative_nibble(self.x_axis))
        } else if direction == (Vec3 { x: 0i32, y: 0i32, z: 1i32 }) {
            Some(positive_nibble(self.z_axis))
        } else if direction == (Vec3 { x: 0i32, y: 0i32, z: -1i32 }) {
            Some(negative_nibble(self.z_axis))
        } else if direction == (Vec3 { x: 0i32, y: 1i32, z: 0i32 }) {
            Some(positive_nibble(self.y_axis))
        } else if direction == (Vec3 { x: 0i32, y: -1i32, z: 0i32 }) {
            Some(negative_nibble(self.y_axis))
        } else {
            None
        }
    }

    /// Every byte set to `u8::MAX`.
    pub fn opaque() -> (r: Self)
        ensures
            r.x_axis == u8::MAX && r.z_axis == u8::MAX && r.y_axis == u8::MAX,
    {
        Self { x_axis: u8::MAX, z_axis: u8::MAX, y_axis: u8::MAX }
    }

    /// Whether every packed byte equals `LIGHT_LEVEL_MAX_VALUE`.
    pub fn is_opaque(&self) -> (r: bool)
        ensures
            r == (self.x_axis == LIGHT_LEVEL_MAX_VALUE && self.z_axis == LIGHT_LEVEL_MAX_VALUE
                && self.y_axis == LIGHT_LEVEL_MAX_VALUE),
    {
        self.x_axis == LIGHT_LEVEL_MAX_VALUE && self.z_axis == LIGHT_LEVEL_MAX_VALUE && self.y_axis
            == LIGHT_LEVEL_MAX_VALUE
    }

    /// Whether every packed byte is zero.
    pub fn is_transparent(&self) -> (r: bool)
        ensures
            r == (self.x_axis == 0 && self.z_axis == 0 && self.y_axis == 0),
    {
        self.x_axis == 0 && self.z_axis == 0 && self.y_axis == 0
    }

    /// The attenuation toward a unit direction; `None` for any other vector.
    pub fn from_direction(&self, direction: Vec3<i32>) -> (r: Option<u8>)
        ensures
            r == self.toward(direction),
    {
        if direction.x == 1 && direction.y == 0 && direction.z == 0 {
            Some(self.x_axis & LIGHT_LEVEL_MAX_VALUE)
        } else if direction.x == -1 && direction.y == 0 && direction.z == 0 {
            Some(self.x_axis >> 4u32)
        } else if direction.x == 0 && direction.y == 0 && direction.z == 1 {
            Some(self.z_axis & LIGHT_LEVEL_MAX_VALUE)
        } else if direction.x == 0 && direction.y == 0 && direction.z == -1 {
            Some(self.z_axis >> 4u32)
        } else if direction.x == 0 && direction.y == 1 && direction.z == 0 {
            Some(self.y_axis & LIGHT_LEVEL_MAX_VALUE)
        } else if direction.x == 0 && direction.y == -1 && direction.z == 0 {
            Some(self.y_axis >> 4u32)
        } else {
            None
        }
    }
}

/// The largest light level, as a default attenuation.
pub fn light_level_max_value() -> (r: u8)
    ensures
        r == LIGHT_LEVEL_MAX_VALUE,
{
    LIGHT_LEVEL_MAX_VALUE
}

/// The light attenuation of a block as written in its description: one level per direction.
pub struct LightAttenuationDeserialize {
    pub px: u8,
    pub nx: u8,
    pub pz: u8,
    pub nz: u8,
    pub py: u8,
    pub ny: u8,
}

impl LightAttenuationDeserialize {
    /// Packs the six levels by axis; every level must fit in a nibble.
    pub fn into(self) -> (r: LightAttenuation)
        requires
            self.px <= LIGHT_LEVEL_MAX_VALUE,
            self.nx <= LIGHT_LEVEL_MAX_VALUE,
            self.pz <= LIGHT_LEVEL_MAX_VALUE,
            self.nz <= LIGHT_LEVEL_MAX_VALUE,
            self.py <= LIGHT_LEVEL_MAX_VALUE,
            self.ny <= LIGHT_LEVEL_MAX_VALUE,
        ensures
            r.x_axis == pack_levels(self.px, self.nx),
            r.z_axis == pack_levels(self.pz, self.nz),
            r.y_axis == pack_levels(self.py, self.ny),
            r.toward(Vec3 { x: 1i32, y: 0i32, z: 0i32 }) == Some(self.px),
            r.toward(Vec3 { x: -1i32, y: 0i32, z: 0i32 }) == Some(self.nx),
            r.toward(Vec3 { x: 0i32, y: 0i32, z: 1i32 }) == Some(self.pz),
            r.toward(Vec3 { x: 0i32, y: 0i32, z: -1i32 }) == Some(self.nz),
            r.toward(Vec3 { x: 0i32, y: 1i32, z: 0i32 }) == Some(self.py),
            r.toward(Vec3 { x: 0i32, y: -1i32, z: 0i32 }) == Some(self.ny),
    {
        proof {
            lemma_pack_unpack(self.px, self.nx);
            lemma_pack_unpack(self.pz, self.nz);
            lemma_pack_unpack(self.py, self.ny);
        }
        LightAttenuation {
            x_axis: self.px | (self.nx << 4u32),
            z_axis: self.pz | (self.nz << 4u32),
            y_axis: self.py | (self.ny << 4u32),
        }
    }
}

/// How a block's texture is blended.
#[derive(PartialEq, Eq, Structural, Clone, Copy, Debug)]
pub enum AlphaMode {
    Opaque,
    Transparent,
    Translucent,
}

impl Default for AlphaMode {
    fn default() -> (r: Self)
        ensures
            r == AlphaMode::Opaque,
    {
        AlphaMode::Opaque
    }
}

impl AlphaMode {
    /// Whether the mode is `Opaque`.
    pub fn is_opaque(&self) -> (r: bool)
        ensures
            r == (*self == AlphaMode::Opaque),
    {
        *self == AlphaMode::Opaque
    }
}

/// The properties of a block.
#[derive(PartialEq, Eq, Structural, Clone, Copy, Debug)]
pub struct Properties {
    pub alpha_mode: AlphaMode,
    pub targetable: bool,
    pub replaceable: bool,
    pub collideable: bool,
    pub light_attenuation: LightAttenuation,
    pub emitted_light: u8,
}

/// The properties that a block has unless something overrides them.
pub open spec fn default_properties() -> Properties {
    Properties {
        alpha_mode: AlphaMode::Opaque,
        targetable: true,
        replaceable: false,
        collideable: true,
        light_attenuation: LightAttenuation { x_axis: 255u8, z_axis: 255u8, y_axis: 255u8 },
        emitted_light: 0u8,
    }
}

impl Default for Properties {
    fn default() -> (r: Self)
        ensures
            r == default_properties(),
    {
        Self {
            alpha_mode: AlphaMode::Opaque,
            targetable: true,
            replaceable: false,
            collideable: true,
            light_attenuation: LightAttenuation::opaque(),
            emitted_light: 0,
        }
    }
}

/// The value of an override, or the current value where there is none.
pub open spec fn override_with<T>(current: T, over: Option<T>) -> T {
    match over {
        Some(v) => v,
        None => current,
    }
}

/// `props` with every field that `optional` sets replaced by its value.
pub open spec fn joined(props: Properties, optional: PropertiesOptional) -> Properties {
    Properties {
        alpha_mode: override_with(props.alpha_mode, optional.alpha_mode),
        targetable: override_with(props.targetable, optional.targetable),
        replaceable: override_with(props.replaceable, optional.replaceable),
        collideable: override_with(props.collideable, optional.collideable),
        light_attenuation: override_with(props.light_attenuation, optional.light_attenuation),
        emitted_light: override_with(props.emitted_light, optional.emitted_light),
    }
}

impl Properties {
    /// Overrides every field that `optional` sets.
    pub fn join_optional(&mut self, optional: PropertiesOptional)
        ensures
            *final(self) == joined(*old(self), optional),
    {
        self.alpha_mode = match optional.alpha_mode {
            Some(v) => v,
            None => self.alpha_mode,
        };
        self.targetable = match optional.targetable {
            Some(v) => v,
            None => self.targetable,
        };
        self.replaceable = match optional.replaceable {
            Some(v) => v,
            None => self.replaceable,
        };
        self.collideable = match optional.collideable {
            Some(v) => v,
            None => self.collideable,
        };
        self.light_attenuation = match optional.light_attenuation {
            Some(v) => v,
            None => self.light_attenuation,
        };
        self.emitted_light = match optional.emitted_light {
            Some(v) => v,
            None => self.emitted_light,
        };
    }
}

/// Properties as written in a block description, before the attenuation is packed.
pub struct PropertiesDeserialize {
    pub alpha_mode: AlphaMode,
    pub targetable: bool,
    pub replaceable: bool,
    pub collideable: bool,
    pub light_attenuation: LightAttenuationDeserialize,
    pub emitted_light: u8,
}

impl Default for PropertiesDeserialize {
    fn default() -> (r: Self)
        ensures
            r.alpha_mode == AlphaMode::Opaque,
            r.targetable,
            !r.replaceable,
            r.collideable,
            r.light_attenuation.px == LIGHT_LEVEL_MAX_VALUE,
            r.light_attenuation.nx == LIGHT_LEVEL_MAX_VALUE,
            r.light_attenuation.pz == LIGHT_LEVEL_MAX_VALUE,
            r.light_attenuation.nz == LIGHT_LEVEL_MAX_VALUE,
            r.light_attenuation.py == LIGHT_LEVEL_MAX_VALUE,
            r.light_attenuation.ny == LIGHT_LEVEL_MAX_VALUE,
            r.emitted_light == 0,
    {
        Self {
            alpha_mode: AlphaMode::Opaque,
            targetable: true,
            replaceable: false,
            collideable: true,
            light_attenuation: LightAttenuationDeserialize {
                px: LIGHT_LEVEL_MAX_VALUE,
                nx: LIGHT_LEVEL_MAX_VALUE,
                py: LIGHT_LEVEL_MAX_VALUE,
                ny: LIGHT_LEVEL_MAX_VALUE,
                pz: LIGHT_LEVEL_MAX_VALUE,
                nz: LIGHT_LEVEL_MAX_VALUE,
            },
            emitted_light: 0,
        }
    }
}

impl PropertiesDeserialize {
    /// The properties with the attenuation packed; every attenuation level must fit in a nibble.
    pub fn into(self) -> (r: Properties)
        requires
            self.light_attenuation.px <= LIGHT_LEVEL_MAX_VALUE,
            self.light_attenuation.nx <= LIGHT_LEVEL_MAX_VALUE,
            self.light_attenuation.pz <= LIGHT_LEVEL_MAX_VALUE,
            self.light_attenuation.nz <= LIGHT_LEVEL_MAX_VALUE,
            self.light_attenuation.py <= LIGHT_LEVEL_MAX_VALUE,
            self.light_attenuation.ny <= LIGHT_LEVEL_MAX_VALUE,
        ensures
            r.alpha_mode == self.alpha_mode,
            r.targetable == self.targetable,
            r.replaceable == self.replaceable,
            r.collideable == self.collideable,
            r.emitted_light == self.emitted_light,
            r.light_attenuation.x_axis == pack_levels(
                self.light_attenuation.px,
                self.light_attenuation.nx,
            ),
            r.light_attenuation.z_axis == pack_levels(
                self.light_attenuation.pz,
                self.light_attenuation.nz,
            ),
            r.light_attenuation.y_axis == pack_levels(
                self.light_attenuation.py,
                self.light_attenuation.ny,
            ),
    {
        Properties {
            alpha_mode: self.alpha_mode,
            targetable: self.targetable,
            replaceable: self.replaceable,
            collideable: self.collideable,
            light_attenuation: self.light_attenuation.into(),
            emitted_light: self.emitted_light,
        }
    }
}

/// Overrides for some of a block's properties.
#[derive(PartialEq, Eq, Structural, Clone, Copy, Debug)]
pub struct PropertiesOptional {
    pub alpha_mode: Option<AlphaMode>,
    pub targetable: Option<bool>,
    pub replaceable: Option<bool>,
    pub collideable: Option<bool>,
    pub light_attenuation: Option<LightAttenuation>,
    pub emitted_light: Option<u8>,
}

impl Default for PropertiesOptional {
    fn default() -> (r: Self)
        ensures
            r.alpha_mode is None,
            r.targetable is None,
            r.replaceable is None,
            r.collideable is None,
            r.light_attenuation is None,
            r.emitted_light is None,
    {
        Self {
            alpha_mode: None,
            targetable: None,
            replaceable: None,
            collideable: None,
            emitted_light: None,
            light_attenuation: None,
        }
    }
}

/// Always `true`, the default of a boolean property that is on.
pub fn bool_true() -> (r: bool)
    ensures
        r,
{
    true
}

/// Always `false`, the default of a boolean property that is off.
pub fn bool_false() -> (r: bool)
    ensures
        !r,
{
    false
}

/// Always `None`, the default of an absent override.
pub fn none<T>() -> (r: Option<T>)
    ensures
        r is None,
{
    None
}

/// Always `0`, the default emitted light.
pub fn u8_0() -> (r: u8)
    ensures
        r == 0,
{
    0
}

/// The six directions a block face can point to.
#[derive(Debug, Clone, Copy, PartialEq, Eq, Structural)]
pub enum FaceDirection {
    PositiveX,
    NegativeX,
    PositiveZ,
    NegativeZ,
    PositiveY,
    NegativeY,
}

/// The face direction at position `i` of the order `+x, -x, +z, -z, +y, -y`.
pub open spec fn face_direction_at(i: int) -> FaceDirection {
    if i == 0 {
        FaceDirection::PositiveX
    } else if i == 1 {
        FaceDirection::NegativeX
    } else if i == 2 {
        FaceDirection::PositiveZ
    } else if i == 3 {
        FaceDirection::NegativeZ
    } else if i == 4 {
        FaceDirection::PositiveY
    } else {
        FaceDirection::NegativeY
    }
}

impl FaceDirection {
    /// The unit normal of the face.
    pub open spec fn normal(self) -> Vec3<i32> {
        match self {
            FaceDirection::PositiveX => Vec3 { x: 1i32, y: 0i32, z: 0i32 },
            FaceDirection::NegativeX => Vec3 { x: -1i32, y: 0i32, z: 0i32 },
            FaceDirection::PositiveZ => Vec3 { x: 0i32, y: 0i32, z: 1i32 },
            FaceDirection::NegativeZ => Vec3 { x: 0i32, y: 0i32, z: -1i32 },
            FaceDirection::PositiveY => Vec3 { x: 0i32, y: 1i32, z: 0i32 },
            FaceDirection::NegativeY => Vec3 { x: 0i32, y: -1i32, z: 0i32 },
        }
    }

    /// The integer unit normal of the face.
    pub fn normal_i32(&self) -> (r: Vec3<i32>)
        ensures
            r == self.normal(),
    {
        match self {
            Self::PositiveX => Vec3 { x: 1, y: 0, z: 0 },
            Self::NegativeX => Vec3 { x: -1, y: 0, z: 0 },
            Self::PositiveZ => Vec3 { x: 0, y: 0, z: 1 },
            Self::NegativeZ => Vec3 { x: 0, y: 0, z: -1 },
            Self::PositiveY => Vec3 { x: 0, y: 1, z: 0 },
            Self::NegativeY => Vec3 { x: 0, y: -1, z: 0 },
        }
    }

    /// The direction at position `index` of the declaration order.
    pub fn from_index(index: usize) -> (r: Self)
        requires
            index < FACE_DIRECTIONS_NUM,
        ensures
            r == face_direction_at(index as int),
    {
        if index == 0 {
            Self::PositiveX
        } else if index == 1 {
            Self::NegativeX
        } else if index == 2 {
            Self::PositiveZ
        } else if index == 3 {
            Self::NegativeZ
        } else if index == 4 {
            Self::PositiveY
        } else {
            Self::NegativeY
        }
    }
}

/// The normal of every face direction is a unit direction, so an attenuation is defined toward
/// every face.
pub proof fn lemma_attenuation_toward_face(a: LightAttenuation, d: FaceDirection)
    ensures
        a.toward(d.normal()) is Some,
{
}

/// A block: its type, its state and the properties that its type and state give it.
pub struct Block {
    id: BlockId,
    name: String,
    pub block_state: BlockState,
    properties: Properties,
}

/// What a block is: its type's id and name, its state, and its properties.
pub type BlockView = (BlockId, Seq<char>, Map<Seq<char>, ValueView>, Properties);

impl View for Block {
    type V = BlockView;

    closed spec fn view(&self) -> BlockView {
        (self.id, self.name@, self.block_state@, self.properties)
    }
}

/// `base` with the overrides of every variant in `variants` applied in order.
pub open spec fn join_all(base: Properties, variants: Seq<BlockModelVariant>) -> Properties
    decreases variants.len(),
{
    if variants.len() == 0 {
        base
    } else {
        joined(join_all(base, variants.drop_last()), variants[variants.len() - 1].properties)
    }
}

/// The properties of a block of type `id` named `name` in state `state`: the base properties
/// that `block_list` gives the type, with the overrides of the model variant that the state
/// selects, if one does.
pub open spec fn block_properties(
    block_list: BlockList,
    variants: BlockModelVariants,
    id: BlockId,
    name: Seq<char>,
    state: Map<Seq<char>, ValueView>,
) -> Properties {
    let vs = variants@[name]@;
    join_all(
        block_list@[id as int].spec_base_properties(),
        model_variant_selection(vs, state).map_values(|i: int| vs[i]),
    )
}

/// Joining overrides sets every field that the overrides set to their value and keeps every
/// other field.
pub proof fn lemma_join_overrides(props: Properties, optional: PropertiesOptional)
    ensures
        optional.alpha_mode matches Some(v) ==> joined(props, optional).alpha_mode == v,
        optional.alpha_mode is None ==> joined(props, optional).alpha_mode == props.alpha_mode,
        optional.targetable matches Some(v) ==> joined(props, optional).targetable == v,
        optional.targetable is None ==> joined(props, optional).targetable == props.targetable,
        optional.replaceable matches Some(v) ==> joined(props, optional).replaceable == v,
        optional.replaceable is None ==> joined(props, optional).replaceable == props.replaceable,
        optional.collideable matches Some(v) ==> joined(props, optional).collideable == v,
        optional.collideable is None ==> joined(props, optional).collideable == props.collideable,
        optional.light_attenuation matches Some(v) ==> joined(props, optional).light_attenuation == v,
        optional.light_attenuation is None ==> joined(props, optional).light_attenuation == props.light_attenuation,
        optional.emitted_light matches Some(v) ==> joined(props, optional).emitted_light == v,
        optional.emitted_light is None ==> joined(props, optional).emitted_light == props.emitted_light,
{
}

/// A block in a state to which a stand-alone model variant applies (the first such one in
/// declaration order) has the base properties of its type with the fields that this variant
/// overrides replaced by the variant's values.
pub proof fn lemma_block_properties_standalone(
    block_list: BlockList,
    variants: BlockModelVariants,
    id: BlockId,
    name: Seq<char>,
    state: Map<Seq<char>, ValueView>,
    k: int,
)
    requires
        0 <= k < variants@[name]@.len(),
        !variants@[name]@[k].compound,
        variant_applies(variants@[name]@[k], state),
        forall|j: int|
            0 <= j < k ==> (#[trigger] variants@[name]@[j]).compound || !variant_applies(variants@[name]@[j], state),
    ensures
        variants@[name]@[k].properties.alpha_mode matches Some(v) ==> block_properties(block_list, variants, id, name, state).alpha_mode == v,
        variants@[name]@[k].properties.alpha_mode is None ==> block_properties(block_list, variants, id, name, state).alpha_mode
            == block_list@[id as int].spec_base_properties().alpha_mode,
        variants@[name]@[k].properties.targetable matches Some(v) ==> block_properties(block_list, variants, id, name, state).targetable == v,
        variants@[name]@[k].properties.targetable is None ==> block_properties(block_list, variants, id, name, state).targetable
            == block_list@[id as int].spec_base_properties().targetable,
        variants@[name]@[k].properties.replaceable matches Some(v) ==> block_properties(block_list, variants, id, name, state).replaceable == v,
        variants@[name]@[k].properties.replaceable is None ==> block_properties(block_list, variants, id, name, state).replaceable
            == block_list@[id as int].spec_base_properties().replaceable,
        variants@[name]@[k].properties.collideable matches Some(v) ==> block_properties(block_list, variants, id, name, state).collideable == v,
        variants@[name]@[k].properties.collideable is None ==> block_properties(block_list, variants, id, name, state).collideable
            == block_list@[id as int].spec_base_properties().collideable,
        variants@[name]@[k].properties.light_attenuation matches Some(v) ==> block_properties(block_list, variants, id, name, state).light_attenuation == v,
        variants@[name]@[k].properties.light_attenuation is None ==> block_properties(block_list, variants, id, name, state).light_attenuation
            == block_list@[id as int].spec_base_properties().light_attenuation,
        variants@[name]@[k].properties.emitted_light matches Some(v) ==> block_properties(block_list, variants, id, name, state).emitted_light == v,
        variants@[name]@[k].properties.emitted_light is None ==> block_properties(block_list, variants, id, name, state).emitted_light
            == block_list@[id as int].spec_base_properties().emitted_light,
{
    let vs = variants@[name]@;
    lemma_standalone_variant_draws_alone(vs, state, k);
    let chosen = model_variant_selection(vs, state).map_values(|i: int| vs[i]);
    assert(chosen =~= seq![vs[k]]);
    assert(chosen.drop_last() =~= Seq::<BlockModelVariant>::empty());
    let base = block_list@[id as int].spec_base_properties();
    assert(chosen.len() == 1 && chosen[0] == vs[k]);
    assert(join_all(base, chosen.drop_last()) == base);
    assert(join_all(base, chosen) == joined(join_all(base, chosen.drop_last()), chosen[0].properties));
    lemma_join_overrides(base, vs[k].properties);
}

/// A block in a state to which no stand-alone model variant applies has exactly the base
/// properties of its type.
pub proof fn lemma_block_properties_without_standalone(
    block_list: BlockList,
    variants: BlockModelVariants,
    id: BlockId,
    name: Seq<char>,
    state: Map<Seq<char>, ValueView>,
)
    requires
        forall|j: int|
            0 <= j < variants@[name]@.len() ==> (#[trigger] variants@[name]@[j]).compound || !variant_applies(
                variants@[name]@[j],
                state,
            ),
    ensures
        block_properties(block_list, variants, id, name, state) == block_list@[id as int].spec_base_properties(),
{
    let vs = variants@[name]@;
    lemma_compound_variants_draw_together(vs, state);
    assert(model_variant_selection(vs, state).map_values(|i: int| vs[i]) =~= Seq::<BlockModelVariant>::empty());
}

impl Block {
    /// The id of the block's type.
    pub closed spec fn spec_id(self) -> BlockId {
        self.id
    }

    /// A block of type `id` named `name` in state `block_state`, with the properties that the
    /// registry gives it; the registry must know the id and the name.
    pub fn new(
        id: BlockId,
        name: &str,
        block_state: BlockState,
        block_list: &BlockList,
        block_model_variants: &BlockModelVariants,
    ) -> (r: Self)
        requires
            id < block_list@.len(),
            block_model_variants@.dom().contains(name@),
        ensures
            r@ == (id, name@, block_state@, block_properties(
                *block_list,
                *block_model_variants,
                id,
                name@,
                block_state@,
            )),
    {
        let mut block = Self {
            id,
            name: name.to_owned(),
            block_state,
            properties: Properties::default(),
        };
        block.properties = Self::registry_properties(&block, block_list, block_model_variants);
        block
    }

    /// The properties that the registry gives `block`.
    fn registry_properties(
        block: &Block,
        block_list: &BlockList,
        block_model_variants: &BlockModelVariants,
    ) -> (r: Properties)
        requires
            block.id < block_list@.len(),
            block_model_variants@.dom().contains(block.name@),
        ensures
            r == block_properties(
                *block_list,
                *block_model_variants,
                block.id,
                block.name@,
                block.block_state@,
            ),
    {
        let mut properties = *block_list.get(block.id).unwrap().base_properties();
        let selected = block_model_variants.get_model_variants(block).unwrap();
        let ghost vs = block_model_variants@[block.name@]@;
        let ghost sel = model_variant_selection(vs, block.block_state@).map_values(|i: int| vs[i]);
        let mut i: usize = 0;
        while i < selected.len()
            invariant
                i <= selected@.len(),
                selected@.len() == sel.len(),
                forall|k: int| 0 <= k < sel.len() ==> *selected@[k] == sel[k],
                properties == join_all(block_list@[block.id as int].spec_base_properties(), sel.take(i as int)),
            decreases selected@.len() - i,
        {
            properties.join_optional(selected[i].properties);
            proof {
                assert(sel.take(i + 1).drop_last() =~= sel.take(i as int));
            }
            i += 1;
        }
        proof {
            assert(sel.take(sel.len() as int) =~= sel);
        }
        properties
    }

    /// The name of the block's type.
    pub fn name(&self) -> (r: &str)
        ensures
            r@ == self@.1,
    {
        self.name.as_str()
    }

    /// The id of the block's type.
    pub fn id(&self) -> (r: BlockId)
        ensures
            r == self@.0,
    {
        self.id
    }

    /// The block's properties.
    pub fn properties(&self) -> (r: Properties)
        ensures
            r == self@.3,
    {
        self.properties
    }

    /// Whether the block's type is `air_id`, the id that the registry gave to air.
    pub fn is_air(&self, air_id: BlockId) -> (r: bool)
        ensures
            r == (self@.0 == air_id),
    {
        self.id == air_id
    }

    /// A copy with the same type, name, state and properties.
    pub fn clone_block(&self) -> (r: Self)
        ensures
            r@ == self@,
    {
        Block {
            id: self.id,
            name: self.name.clone(),
            block_state: self.block_state.clone(),
            properties: self.properties,
        }
    }

    /// Whether two blocks have the same type, name, state and properties.
    pub fn same_as(&self, other: &Block) -> (r: bool)
        ensures
            r == (self@ == other@),
    {
        self.id == other.id && self.name == other.name && state_eq(
            &self.block_state,
            &other.block_state,
        ) && self.properties == other.properties
    }
}

/// What the registry knows of a block type.
pub struct BlockInformation {
    id: BlockId,
    name: String,
    default_state: BlockState,
    base_properties: Properties,
}

impl BlockInformation {
    /// The id of the type.
    pub closed spec fn spec_id(self) -> BlockId {
        self.id
    }

    /// The name of the type.
    pub closed spec fn spec_name(self) -> Seq<char> {
        self.name@
    }

    /// The state a block of this type starts in.
    pub closed spec fn spec_default_state(self) -> Map<Seq<char>, ValueView> {
        self.default_state@
    }

    /// The properties of the type before any model variant overrides them.
    pub closed spec fn spec_base_properties(self) -> Properties {
        self.base_properties
    }

    /// The information with the given fields.
    pub fn new(id: BlockId, name: &str, default_state: BlockState, base_properties: Properties) -> (r: Self)
        ensures
            r.spec_id() == id,
            r.spec_name() == name@,
            r.spec_default_state() == default_state@,
            r.spec_base_properties() == base_properties,
    {
        Self { id, name: name.to_owned(), default_state, base_properties }
    }

    /// The name of the type.
    pub fn name(&self) -> (r: &str)
        ensures
            r@ == self.spec_name(),
    {
        self.name.as_str()
    }

    /// The id of the type.
    pub fn id(&self) -> (r: &BlockId)
        ensures
            *r == self.spec_id(),
    {
        &self.id
    }

    /// The state a block of this type starts in.
    pub fn default_state(&self) -> (r: &BlockState)
        ensures
            r@ == self.spec_default_state(),
    {
        &self.default_state
    }

    /// The properties of the type before any model variant overrides them.
    pub fn base_properties(&self) -> (r: &Properties)
        ensures
            *r == self.spec_base_properties(),
    {
        &self.base_properties
    }

    /// A copy with the same fields.
    pub fn clone_information(&self) -> (r: Self)
        ensures
            r.spec_id() == self.spec_id(),
            r.spec_name() == self.spec_name(),
            r.spec_default_state() == self.spec_default_state(),
            r.spec_base_properties() == self.spec_base_properties(),
    {
        Self {
            id: self.id,
            name: self.name.clone(),
            default_state: self.default_state.clone(),
            base_properties: self.base_properties,
        }
    }

    /// A block of this type in its default state, with the properties that the registry gives
    /// it; the registry must know the id and the name.
    pub fn into(self, block_list: &BlockList, block_model_variants: &BlockModelVariants) -> (r: Block)
        requires
            self.spec_id() < block_list@.len(),
            block_model_variants@.dom().contains(self.spec_name()),
        ensures
            r@ == (self.spec_id(), self.spec_name(), self.spec_default_state(), block_properties(
                *block_list,
                *block_model_variants,
                self.spec_id(),
                self.spec_name(),
                self.spec_default_state(),
            )),
    {
        let mut block = Block {
            id: self.id,
            name: self.name.clone(),
            block_state: self.default_state.clone(),
            properties: Properties::default(),
        };
        block.properties = Block::registry_properties(&block, block_list, block_model_variants);
        block
    }
}

} // verus!
