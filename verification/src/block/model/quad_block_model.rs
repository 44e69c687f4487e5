//! Block models as lists of quad indices per face direction.
use vstd::prelude::*;

use super::Quad;
use crate::block::FACE_DIRECTIONS_NUM;

verus! {

/// The quads of a block model by face direction, with the atlas index and culling flag of
/// each quad at the same position.
#[derive(Clone, Debug)]
pub struct QuadBlockModel<T, V> {
    pub quads_per_face: [Box<[Quad<T, V>]>; FACE_DIRECTIONS_NUM],
    pub texture_indices_per_face: [Box<[u16]>; FACE_DIRECTIONS_NUM],
    pub quad_culling_per_face: [Box<[bool]>; FACE_DIRECTIONS_NUM],
}

/// The quads of a block model, by face direction, as indices into the global quad list.
#[derive(Clone, Debug)]
pub struct QuadIndexBlockModel {
    pub quad_indices_per_face: [Box<[u16]>; FACE_DIRECTIONS_NUM],
    pub texture_indices_per_face: [Box<[u16]>; FACE_DIRECTIONS_NUM],
    pub quad_culling_per_face: [Box<[bool]>; FACE_DIRECTIONS_NUM],
}

/// A borrowed view of a `QuadIndexBlockModel`.
#[derive(Clone, Copy)]
pub struct QuadIndexBlockModelRef<'a> {
    pub quad_indices_per_face: &'a [Box<[u16]>; FACE_DIRECTIONS_NUM],
    pub texture_indices_per_face: &'a [Box<[u16]>; FACE_DIRECTIONS_NUM],
    pub quad_culling_per_face: &'a [Box<[bool]>; FACE_DIRECTIONS_NUM],
}

} // verus!
