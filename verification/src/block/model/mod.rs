//! Block models as the renderer consumes them: packed faces and quad indices.
use vstd::prelude::*;

use super::light::LightLevel;
use crate::vector::{Vec2, Vec3};

pub mod block_model_variant;
pub mod cuboid_block_model;
pub mod quad_block_model;

verus! {

/// A texture as a model names it: a placeholder to be overridden, or an index in the atlas.
#[derive(Clone, PartialEq, Eq, Debug, Hash)]
pub enum ModelTexture {
    Placeholder(String),
    Index(u16),
}

/// What a model texture names.
pub enum TextureView {
    Placeholder(Seq<char>),
    Index(u16),
}

impl View for ModelTexture {
    type V = TextureView;

    closed spec fn view(&self) -> TextureView {
        match self {
            ModelTexture::Placeholder(s) => TextureView::Placeholder(s@),
            ModelTexture::Index(i) => TextureView::Index(*i),
        }
    }
}

/// A copy of a texture name.
pub fn clone_texture(t: &ModelTexture) -> (r: ModelTexture)
    ensures
        r@ == t@,
{
    match t {
        ModelTexture::Placeholder(s) => ModelTexture::Placeholder(s.clone()),
        ModelTexture::Index(i) => ModelTexture::Index(*i),
    }
}

/// A texture naming an index in the atlas.
pub fn index_texture(index: u16) -> (r: ModelTexture)
    ensures
        r@ == TextureView::Index(index),
{
    ModelTexture::Index(index)
}

/// A placeholder texture.
pub fn placeholder_texture(name: String) -> (r: ModelTexture)
    ensures
        r@ == TextureView::Placeholder(name@),
{
    ModelTexture::Placeholder(name)
}

/// The atlas index that a texture names, if it names one.
pub fn texture_index(t: &ModelTexture) -> (r: Option<u16>)
    ensures
        r == (match t@ {
            TextureView::Index(i) => Some(i),
            TextureView::Placeholder(_) => None,
        }),
{
    match t {
        ModelTexture::Index(i) => Some(*i),
        ModelTexture::Placeholder(_) => None,
    }
}

/// Whether two textures name the same thing.
pub fn texture_eq(a: &ModelTexture, b: &ModelTexture) -> (r: bool)
    ensures
        r == (a@ == b@),
{
    match (a, b) {
        (ModelTexture::Placeholder(x), ModelTexture::Placeholder(y)) => x.eq(y),
        (ModelTexture::Index(x), ModelTexture::Index(y)) => *x == *y,
        _ => false,
    }
}

/// A quad of a block model: four corners, the normal of the face it lies on, and the texture
/// coordinates of the corners.
#[derive(Clone, Copy, Debug)]
pub struct Quad<T, V> {
    pub vertex_positions: [Vec3<T>; 4],
    pub normal: Vec3<i32>,
    pub uv: [Vec2<V>; 4],
}

/// What a quad is: its corners, its normal and its texture coordinates.
pub type QuadView<T, V> = (Seq<Vec3<T>>, Vec3<i32>, Seq<Vec2<V>>);

/// The meaning of a quad.
pub open spec fn quad_view<T, V>(q: Quad<T, V>) -> QuadView<T, V> {
    (q.vertex_positions@, q.normal, q.uv@)
}

/// One visible face of a block, before packing.
pub struct Face {
    /// Light at the four corners, each a packed block/sky byte.
    pub lighting: [LightLevel; 4],
    /// Position of the block inside its chunk part, five bits per axis.
    pub block_position: [u8; 3],
    pub texture_index: u16,
    pub quad_index: u16,
}

/// A face packed into one integer for the GPU.
#[derive(Clone, Copy)]
pub struct FacePacked(pub u128);

/// The packing of a face's fields: four light bytes from bit 0, three five-bit positions from
/// bit 32, the texture index from bit 48 and the quad index from bit 64.
pub open spec fn packed_face(
    l0: u8,
    l1: u8,
    l2: u8,
    l3: u8,
    p0: u8,
    p1: u8,
    p2: u8,
    texture: u16,
    quad: u16,
) -> u128 {
    (l0 as u128) | ((l1 as u128) << 8u128) | ((l2 as u128) << 16u128) | ((l3 as u128) << 24u128) | (((
    p0 & 31u8) as u128) << 32u128) | (((p1 & 31u8) as u128) << 37u128) | (((p2 & 31u8) as u128)
        << 42u128) | ((texture as u128) << 48u128) | ((quad as u128) << 64u128)
}

/// Every field of a face can be read back from its packing.
pub proof fn lemma_unpack_face(
    l0: u8,
    l1: u8,
    l2: u8,
    l3: u8,
    p0: u8,
    p1: u8,
    p2: u8,
    texture: u16,
    quad: u16,
)
    ensures
        ({
            let v = packed_face(l0, l1, l2, l3, p0, p1, p2, texture, quad);
            &&& v & 0xffu128 == l0 as u128
            &&& (v >> 8u128) & 0xffu128 == l1 as u128
            &&& (v >> 16u128) & 0xffu128 == l2 as u128
            &&& (v >> 24u128) & 0xffu128 == l3 as u128
            &&& (v >> 32u128) & 31u128 == (p0 & 31u8) as u128
            &&& (v >> 37u128) & 31u128 == (p1 & 31u8) as u128
            &&& (v >> 42u128) & 31u128 == (p2 & 31u8) as u128
            &&& (v >> 48u128) & 0xffffu128 == texture as u128
            &&& v >> 64u128 == quad as u128
        }),
{
    let v = packed_face(l0, l1, l2, l3, p0, p1, p2, texture, quad);
    let a0 = l0 as u128;
    let a1 = l1 as u128;
    let a2 = l2 as u128;
    let a3 = l3 as u128;
    let b0 = (p0 & 31u8) as u128;
    let b1 = (p1 & 31u8) as u128;
    let b2 = (p2 & 31u8) as u128;
    let t = texture as u128;
    let q = quad as u128;
    assert(b0 < 32 && b1 < 32 && b2 < 32) by (bit_vector)
        requires
            b0 == (p0 & 31u8) as u128,
            b1 == (p1 & 31u8) as u128,
            b2 == (p2 & 31u8) as u128,
    ;
    assert({
        let w = a0 | (a1 << 8u128) | (a2 << 16u128) | (a3 << 24u128) | (b0 << 32u128) | (b1
            << 37u128) | (b2 << 42u128) | (t << 48u128) | (q << 64u128);
        &&& w & 0xffu128 == a0
        &&& (w >> 8u128) & 0xffu128 == a1
        &&& (w >> 16u128) & 0xffu128 == a2
        &&& (w >> 24u128) & 0xffu128 == a3
        &&& (w >> 32u128) & 31u128 == b0
        &&& (w >> 37u128) & 31u128 == b1
        &&& (w >> 42u128) & 31u128 == b2
        &&& (w >> 48u128) & 0xffffu128 == t
        &&& w >> 64u128 == q
    }) by (bit_vector)
        requires
            a0 < 256,
            a1 < 256,
            a2 < 256,
            a3 < 256,
            b0 < 32,
            b1 < 32,
            b2 < 32,
            t < 65536,
            q < 65536,
    ;
}

impl Face {
    /// Quad indices drawn per face.
    pub const INDICES_PER_FACE: usize = 6;

    /// Vertices per face.
    pub const VERTICES_PER_FACE: usize = 4;

    /// Packs the face into one integer, keeping five bits of each position coordinate.
    pub fn pack(&self) -> (r: FacePacked)
        ensures
            r.0 == packed_face(
                self.lighting[0].raw(),
                self.lighting[1].raw(),
                self.lighting[2].raw(),
                self.lighting[3].raw(),
                self.block_position[0],
                self.block_position[1],
                self.block_position[2],
                self.texture_index,
                self.quad_index,
            ),
    {
        let l0 = self.lighting[0].to_u8() as u128;
        let l1 = self.lighting[1].to_u8() as u128;
        let l2 = self.lighting[2].to_u8() as u128;
        let l3 = self.lighting[3].to_u8() as u128;
        let p0 = (self.block_position[0] & 0b11111) as u128;
        let p1 = (self.block_position[1] & 0b11111) as u128;
        let p2 = (self.block_position[2] & 0b11111) as u128;
        let t = self.texture_index as u128;
        let q = self.quad_index as u128;
        FacePacked(
            l0 | (l1 << 8u32) | (l2 << 16u32) | (l3 << 24u32) | (p0 << 32u32) | (p1 << 37u32) | (p2
                << 42u32) | (t << 48u32) | (q << 64u32),
        )
    }
}

/// The corner that the `k`-th index of a quad names: two triangles, corners 0, 1, 2 and
/// 1, 3, 2.
pub open spec fn quad_corner(k: int) -> int {
    if k == 0 {
        0
    } else if k == 1 {
        1
    } else if k == 2 {
        2
    } else if k == 3 {
        1
    } else if k == 4 {
        3
    } else {
        2
    }
}

/// The index list that draws `quad_count` quads whose four corners are stored one quad after
/// the other: six indices per quad, two triangles each.
pub fn quad_index_list(quad_count: u32) -> (r: Vec<u32>)
    requires
        4 * quad_count <= u32::MAX + 1,
        6 * quad_count <= usize::MAX,
    ensures
        r@.len() == 6 * quad_count,
        forall|j: int| 0 <= j < r@.len() ==> #[trigger] r@[j] == 4 * (j / 6) + quad_corner(j % 6),
{
    let mut indices: Vec<u32> = Vec::new();
    let mut i: u32 = 0;
    while i < quad_count
        invariant
            i <= quad_count,
            4 * quad_count <= u32::MAX + 1,
            6 * quad_count <= usize::MAX,
            indices@.len() == 6 * i,
            forall|j: int| 0 <= j < indices@.len() ==> #[trigger] indices@[j] == 4 * (j / 6) + quad_corner(j % 6),
        decreases quad_count - i,
    {
        let base = i * 4;
        let ghost before = indices@.len() as int;
        indices.push(base);
        indices.push(base + 1);
        indices.push(base + 2);
        indices.push(base + 1);
        indices.push(base + 3);
        indices.push(base + 2);
        proof {
            assert forall|k: int| 0 <= k < 6 implies #[trigger] indices@[before + k] == 4 * ((before + k) / 6) + quad_corner((before + k) % 6) by {
                vstd::arithmetic::div_mod::lemma_fundamental_div_mod_converse(before + k, 6, i as int, k);
            }
            assert forall|j: int| 0 <= j < indices@.len() implies #[trigger] indices@[j] == 4 * (j / 6) + quad_corner(j % 6) by {
                if j >= before {
                    assert(indices@[before + (j - before)] == indices@[j]);
                }
            }
        }
        i += 1;
    }
    indices
}

} // verus!
