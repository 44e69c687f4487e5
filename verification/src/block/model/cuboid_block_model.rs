//! Block models made of cuboids, as described in model files: models may inherit the cuboids
//! of a parent model and rename its textures.
use vstd::prelude::*;

use super::{clone_texture, quad_view, texture_eq, texture_index, ModelTexture, Quad, QuadView, TextureView};
use crate::block::{face_direction_at, FaceDirection, FACE_DIRECTIONS_NUM};
use super::quad_block_model::QuadBlockModel;
use crate::name_map::NameMap;
use crate::utils::vec_into_boxed_slice;
use crate::vector::{Vec2, Vec3};

verus! {

/// The map that a list of texture renamings spells; a later entry wins over an earlier one.
pub open spec fn overrides_map(entries: Seq<(ModelTexture, ModelTexture)>) -> Map<
    TextureView,
    TextureView,
>
    decreases entries.len(),
{
    if entries.len() == 0 {
        Map::empty()
    } else {
        overrides_map(entries.drop_last()).insert(
            entries[entries.len() - 1].0@,
            entries[entries.len() - 1].1@,
        )
    }
}

/// No two renamings share a source texture.
pub open spec fn sources_unique(entries: Seq<(ModelTexture, ModelTexture)>) -> bool {
    forall|i: int, j: int|
        0 <= i < entries.len() && 0 <= j < entries.len() && i != j ==> #[trigger] entries[i].0@
            != #[trigger] entries[j].0@
}

proof fn lemma_overrides_map(entries: Seq<(ModelTexture, ModelTexture)>)
    requires
        sources_unique(entries),
    ensures
        overrides_map(entries).dom().finite(),
        overrides_map(entries).dom().len() == entries.len(),
        forall|i: int|
            0 <= i < entries.len() ==> #[trigger] overrides_map(entries).dom().contains(
                entries[i].0@,
            ) && overrides_map(entries)[entries[i].0@] == entries[i].1@,
        forall|k: TextureView|
            #[trigger] overrides_map(entries).dom().contains(k) ==> exists|i: int|
                0 <= i < entries.len() && (#[trigger] entries[i]).0@ == k,
    decreases entries.len(),
{
    if entries.len() > 0 {
        let prefix = entries.drop_last();
        let last = entries[entries.len() - 1];
        assert(sources_unique(prefix)) by {
            assert forall|i: int, j: int|
                0 <= i < prefix.len() && 0 <= j < prefix.len() && i != j implies #[trigger] prefix[i].0@
                    != #[trigger] prefix[j].0@ by {
                assert(prefix[i] == entries[i] && prefix[j] == entries[j]);
            }
        }
        lemma_overrides_map(prefix);
        let m = overrides_map(prefix);
        assert(!m.dom().contains(last.0@)) by {
            if m.dom().contains(last.0@) {
                let i = choose|i: int| 0 <= i < prefix.len() && (#[trigger] prefix[i]).0@ == last.0@;
                assert(entries[i].0@ == entries[entries.len() - 1].0@);
            }
        }
        assert forall|i: int| 0 <= i < entries.len() implies #[trigger] overrides_map(
            entries,
        ).dom().contains(entries[i].0@) && overrides_map(entries)[entries[i].0@]
            == entries[i].1@ by {
            if i < entries.len() - 1 {
                assert(entries[i] == prefix[i]);
                assert(entries[i].0@ != last.0@);
            }
        }
        assert forall|k: TextureView| #[trigger] overrides_map(entries).dom().contains(
            k,
        ) implies exists|i: int| 0 <= i < entries.len() && (#[trigger] entries[i]).0@ == k by {
            if k != last.0@ {
                let i = choose|i: int| 0 <= i < prefix.len() && (#[trigger] prefix[i]).0@ == k;
                assert(entries[i] == prefix[i]);
            } else {
                assert(entries[entries.len() - 1].0@ == k);
            }
        }
    }
}

/// The position of the renaming of `texture`, if any.
fn find_source(entries: &Vec<(ModelTexture, ModelTexture)>, texture: &ModelTexture) -> (r: Option<
    usize,
>)
    ensures
        r matches Some(i) ==> i < entries@.len() && entries@[i as int].0@ == texture@,
        r is None ==> forall|i: int| 0 <= i < entries@.len() ==> #[trigger] entries@[i].0@ != texture@,
{
    let mut i: usize = 0;
    while i < entries.len()
        invariant
            i <= entries@.len(),
            forall|j: int| 0 <= j < i ==> #[trigger] entries@[j].0@ != texture@,
        decreases entries@.len() - i,
    {
        if texture_eq(&entries[i].0, texture) {
            return Some(i);
        }
        i += 1;
    }
    None
}

/// Texture renamings: each source texture at most once.
pub struct TextureOverrides {
    entries: Vec<(ModelTexture, ModelTexture)>,
}

impl View for TextureOverrides {
    type V = Map<TextureView, TextureView>;

    closed spec fn view(&self) -> Map<TextureView, TextureView> {
        overrides_map(self.entries@)
    }
}

impl TextureOverrides {
    #[verifier::type_invariant]
    closed spec fn inv(self) -> bool {
        sources_unique(self.entries@)
    }

    /// The renamings, each source texture once.
    pub fn entries(&self) -> (r: &[(ModelTexture, ModelTexture)])
        ensures
            forall|i: int|
                0 <= i < r@.len() ==> #[trigger] self@.dom().contains(r@[i].0@) && self@[r@[i].0@] == r@[i].1@,
            forall|k: TextureView| #[trigger] self@.dom().contains(k) ==> exists|i: int| 0 <= i < r@.len() && (#[trigger] r@[i]).0@ == k,
            sources_unique(r@),
    {
        proof {
            use_type_invariant(self);
            lemma_overrides_map(self.entries@);
        }
        self.entries.as_slice()
    }

    /// No renamings.
    pub fn new() -> (r: Self)
        ensures
            r@ == Map::<TextureView, TextureView>::empty(),
    {
        let r = Self { entries: Vec::new() };
        proof {
            assert(r@ =~= Map::<TextureView, TextureView>::empty());
        }
        r
    }

    /// Renames `from` to `to`, replacing an earlier renaming of `from`.
    pub fn insert(&mut self, from: ModelTexture, to: ModelTexture)
        ensures
            final(self)@ == old(self)@.insert(from@, to@),
    {
        proof {
            use_type_invariant(&*self);
            lemma_overrides_map(self.entries@);
        }
        let ghost old_entries = self.entries@;
        let ghost key = from@;
        let ghost val = to@;
        let mut entries: Vec<(ModelTexture, ModelTexture)> = Vec::new();
        std::mem::swap(&mut entries, &mut self.entries);
        match find_source(&entries, &from) {
            Some(i) => {
                entries.set(i, (from, to));
                proof {
                    assert forall|a: int, b: int|
                        0 <= a < entries@.len() && 0 <= b < entries@.len() && a != b implies #[trigger] entries@[a].0@
                            != #[trigger] entries@[b].0@ by {
                        if a != i {
                            assert(entries@[a] == old_entries[a]);
                        }
                        if b != i {
                            assert(entries@[b] == old_entries[b]);
                        }
                    }
                    lemma_overrides_map(entries@);
                    assert(entries@[i as int].0@ == key);
                    assert(old_entries[i as int].0@ == key);
                    let target = overrides_map(old_entries).insert(key, val);
                    assert forall|k: TextureView| #[trigger]
                        overrides_map(entries@).dom().contains(k) <==> target.dom().contains(k) by {
                        if overrides_map(entries@).dom().contains(k) {
                            let j = choose|j: int|
                                0 <= j < entries@.len() && (#[trigger] entries@[j]).0@ == k;
                            if j != i {
                                assert(entries@[j] == old_entries[j]);
                            }
                        }
                        if overrides_map(old_entries).dom().contains(k) {
                            let j = choose|j: int|
                                0 <= j < old_entries.len() && (#[trigger] old_entries[j]).0@ == k;
                            if j != i {
                                assert(entries@[j] == old_entries[j]);
                            } else {
                                assert(entries@[i as int].0@ == k);
                            }
                        }
                    }
                    assert forall|k: TextureView| #[trigger]
                        overrides_map(entries@).dom().contains(k) implies overrides_map(
                        entries@,
                    )[k] == target[k] by {
                        let j = choose|j: int|
                            0 <= j < entries@.len() && (#[trigger] entries@[j]).0@ == k;
                        if j != i {
                            assert(entries@[j] == old_entries[j]);
                        }
                    }
                    assert(overrides_map(entries@) =~= target);
                }
            },
            None => {
                entries.push((from, to));
                proof {
                    assert(entries@.drop_last() =~= old_entries);
                    assert forall|a: int, b: int|
                        0 <= a < entries@.len() && 0 <= b < entries@.len() && a != b implies #[trigger] entries@[a].0@
                            != #[trigger] entries@[b].0@ by {
                        if a < old_entries.len() {
                            assert(entries@[a] == old_entries[a]);
                        }
                        if b < old_entries.len() {
                            assert(entries@[b] == old_entries[b]);
                        }
                    }
                }
            },
        }
        self.entries = entries;
    }

    /// The texture that `texture` is renamed to, if any.
    pub fn get(&self, texture: &ModelTexture) -> (r: Option<&ModelTexture>)
        ensures
            r is Some <==> self@.dom().contains(texture@),
            r matches Some(t) ==> t@ == self@[texture@],
    {
        proof {
            use_type_invariant(self);
            lemma_overrides_map(self.entries@);
        }
        match find_source(&self.entries, texture) {
            Some(i) => {
                proof {
                    assert(overrides_map(self.entries@).dom().contains(self.entries@[i as int].0@));
                }
                Some(&self.entries[i].1)
            },
            None => {
                proof {
                    if self@.dom().contains(texture@) {
                        let j = choose|j: int|
                            0 <= j < self.entries@.len() && (#[trigger] self.entries@[j]).0@
                                == texture@;
                        assert(self.entries@[j].0@ != texture@);
                    }
                }
                None
            },
        }
    }

    /// Drops every renaming.
    pub fn clear(&mut self)
        ensures
            final(self)@ == Map::<TextureView, TextureView>::empty(),
    {
        self.entries = Vec::new();
        proof {
            assert(self@ =~= Map::<TextureView, TextureView>::empty());
        }
    }
}

/// A face of a cuboid as a model file describes it: texture coordinates, a texture name, and
/// whether the face may be culled against a neighbour.
pub struct CuboidFaceDeserialize<U> {
    pub uv_start: U,
    pub uv_end: U,
    pub texture: ModelTexture,
    pub culling: bool,
}

/// A cuboid as a model file describes it: two corners and up to one face per direction.
pub struct CuboidDeserialize<P, U> {
    pub start: P,
    pub end: P,
    pub faces: [Option<CuboidFaceDeserialize<U>>; FACE_DIRECTIONS_NUM],
}

/// What a face is: its texture coordinates, texture and culling flag.
pub type FaceView<U> = (U, U, TextureView, bool);

/// What a cuboid is: its corners and its faces by direction.
pub type CuboidView<P, U> = (P, P, Seq<Option<FaceView<U>>>);

/// The meaning of a face slot.
pub open spec fn face_slot_view<U>(f: Option<CuboidFaceDeserialize<U>>) -> Option<FaceView<U>> {
    match f {
        Some(x) => Some((x.uv_start, x.uv_end, x.texture@, x.culling)),
        None => None,
    }
}

/// The meaning of a cuboid.
pub open spec fn cuboid_view<P, U>(c: CuboidDeserialize<P, U>) -> CuboidView<P, U> {
    (c.start, c.end, c.faces@.map_values(|f: Option<CuboidFaceDeserialize<U>>| face_slot_view(f)))
}

/// The meaning of a list of cuboids.
pub open spec fn cuboids_view<P, U>(cs: Seq<CuboidDeserialize<P, U>>) -> Seq<CuboidView<P, U>> {
    cs.map_values(|c: CuboidDeserialize<P, U>| cuboid_view(c))
}

/// A texture after renaming.
pub open spec fn override_texture(ov: Map<TextureView, TextureView>, t: TextureView) -> TextureView {
    if ov.dom().contains(t) {
        ov[t]
    } else {
        t
    }
}

/// A face slot with its texture renamed.
pub open spec fn override_face<U>(ov: Map<TextureView, TextureView>, f: Option<FaceView<U>>) -> Option<
    FaceView<U>,
> {
    match f {
        Some(x) => Some((x.0, x.1, override_texture(ov, x.2), x.3)),
        None => None,
    }
}

/// A cuboid with every face texture renamed.
pub open spec fn override_one<P, U>(ov: Map<TextureView, TextureView>, c: CuboidView<P, U>) -> CuboidView<
    P,
    U,
> {
    (c.0, c.1, c.2.map_values(|f: Option<FaceView<U>>| override_face(ov, f)))
}

/// Cuboids with every face texture renamed.
pub open spec fn override_cuboids<P, U>(
    ov: Map<TextureView, TextureView>,
    cs: Seq<CuboidView<P, U>>,
) -> Seq<CuboidView<P, U>> {
    cs.map_values(|c: CuboidView<P, U>| override_one(ov, c))
}

/// A copy of a face slot.
fn clone_face<U: Copy>(f: &Option<CuboidFaceDeserialize<U>>, ov: &TextureOverrides) -> (r: Option<
    CuboidFaceDeserialize<U>,
>)
    ensures
        face_slot_view(r) == override_face(ov@, face_slot_view(*f)),
{
    match f {
        Some(face) => {
            let texture = match ov.get(&face.texture) {
                Some(t) => clone_texture(t),
                None => clone_texture(&face.texture),
            };
            Some(
                CuboidFaceDeserialize {
                    uv_start: face.uv_start,
                    uv_end: face.uv_end,
                    texture,
                    culling: face.culling,
                },
            )
        },
        None => None,
    }
}

/// A copy of a cuboid with its textures renamed by `ov`.
fn override_cuboid<P: Copy, U: Copy>(c: &CuboidDeserialize<P, U>, ov: &TextureOverrides) -> (r:
    CuboidDeserialize<P, U>)
    ensures
        cuboid_view(r) == override_one(ov@, cuboid_view(*c)),
{
    let r = CuboidDeserialize {
        start: c.start,
        end: c.end,
        faces: [
            clone_face(&c.faces[0], ov),
            clone_face(&c.faces[1], ov),
            clone_face(&c.faces[2], ov),
            clone_face(&c.faces[3], ov),
            clone_face(&c.faces[4], ov),
            clone_face(&c.faces[5], ov),
        ],
    };
    proof {
        assert(cuboid_view(r).2 =~= cuboid_view(*c).2.map_values(
            |f: Option<FaceView<U>>| override_face(ov@, f),
        ));
    }
    r
}

/// A model as a model file describes it.
pub struct CuboidBlockModelDeserialize<P, U> {
    pub parent_model: Option<String>,
    pub texture_overrides: TextureOverrides,
    pub cuboids: Vec<CuboidDeserialize<P, U>>,
}

/// What a described model is: its parent's name, its renamings and its cuboids.
pub type ModelView<P, U> = (Option<Seq<char>>, Map<TextureView, TextureView>, Seq<CuboidView<P, U>>);

/// The meaning of a described model.
pub open spec fn model_view<P, U>(m: CuboidBlockModelDeserialize<P, U>) -> ModelView<P, U> {
    (
        match m.parent_model {
            Some(p) => Some(p@),
            None => None,
        },
        m.texture_overrides@,
        cuboids_view(m.cuboids@),
    )
}

impl<P: Copy, U: Copy> CuboidBlockModelDeserialize<P, U> {
    /// Renames the textures of every face by the model's renamings, then drops the renamings.
    pub fn override_textures(&mut self)
        ensures
            final(self).parent_model == old(self).parent_model,
            final(self).texture_overrides@ == Map::<TextureView, TextureView>::empty(),
            cuboids_view(final(self).cuboids@) == override_cuboids(
                old(self).texture_overrides@,
                cuboids_view(old(self).cuboids@),
            ),
    {
        let mut cuboids: Vec<CuboidDeserialize<P, U>> = Vec::new();
        let mut i: usize = 0;
        while i < self.cuboids.len()
            invariant
                i <= self.cuboids@.len(),
                self.cuboids@ == old(self).cuboids@,
                self.texture_overrides@ == old(self).texture_overrides@,
                self.parent_model == old(self).parent_model,
                cuboids@.len() == i,
                forall|k: int|
                    0 <= k < i ==> cuboid_view(#[trigger] cuboids@[k]) == override_one(
                        self.texture_overrides@,
                        cuboid_view(self.cuboids@[k]),
                    ),
            decreases self.cuboids@.len() - i,
        {
            let c = override_cuboid(&self.cuboids[i], &self.texture_overrides);
            cuboids.push(c);
            i += 1;
        }
        proof {
            assert(cuboids_view(cuboids@) =~= override_cuboids(
                self.texture_overrides@,
                cuboids_view(self.cuboids@),
            ));
        }
        self.cuboids = cuboids;
        self.texture_overrides.clear();
    }

    /// Appends copies of the cuboids of `other`.
    pub fn combine(&mut self, other: &Self)
        ensures
            final(self).parent_model == old(self).parent_model,
            final(self).texture_overrides@ == old(self).texture_overrides@,
            cuboids_view(final(self).cuboids@) == cuboids_view(old(self).cuboids@) + cuboids_view(
                other.cuboids@,
            ),
    {
        let empty = TextureOverrides::new();
        let mut i: usize = 0;
        while i < other.cuboids.len()
            invariant
                i <= other.cuboids@.len(),
                empty@ == Map::<TextureView, TextureView>::empty(),
                self.parent_model == old(self).parent_model,
                self.texture_overrides@ == old(self).texture_overrides@,
                self.cuboids@.len() == old(self).cuboids@.len() + i,
                forall|k: int|
                    0 <= k < old(self).cuboids@.len() ==> #[trigger] self.cuboids@[k] == old(
                        self,
                    ).cuboids@[k],
                forall|k: int|
                    0 <= k < i ==> cuboid_view(#[trigger] self.cuboids@[old(self).cuboids@.len() + k])
                        == cuboid_view(other.cuboids@[k]),
            decreases other.cuboids@.len() - i,
        {
            let c = override_cuboid(&other.cuboids[i], &empty);
            proof {
                lemma_no_override(cuboid_view(other.cuboids@[i as int]).2);
            }
            self.cuboids.push(c);
            i += 1;
        }
        proof {
            let n = old(self).cuboids@.len() as int;
            assert forall|k: int| 0 <= k < self.cuboids@.len() implies cuboids_view(self.cuboids@)[k] == (cuboids_view(old(self).cuboids@) + cuboids_view(other.cuboids@))[k] by {
                if k >= n {
                    assert(self.cuboids@[n + (k - n)] == self.cuboids@[k]);
                }
            }
            assert(cuboids_view(self.cuboids@) =~= cuboids_view(old(self).cuboids@) + cuboids_view(
                other.cuboids@,
            ));
        }
    }
}

proof fn lemma_no_override<U>(faces: Seq<Option<FaceView<U>>>)
    ensures
        faces.map_values(|f: Option<FaceView<U>>| override_face(Map::empty(), f)) == faces,
{
    assert(faces.map_values(|f: Option<FaceView<U>>| override_face(Map::empty(), f)) =~= faces);
}

/// A face of a baked cuboid: texture coordinates, an atlas index and a culling flag.
#[derive(Clone, Copy)]
pub struct CuboidFace<U> {
    pub uv_start: U,
    pub uv_end: U,
    pub texture_index: u16,
    pub culling: bool,
}

/// A cuboid whose faces name atlas indices.
pub struct Cuboid<P, U> {
    pub start: P,
    pub end: P,
    pub faces: [Option<CuboidFace<U>>; FACE_DIRECTIONS_NUM],
}

/// A model whose cuboids name atlas indices.
pub struct CuboidBlockModel<P, U> {
    pub cuboids: Vec<Cuboid<P, U>>,
}

/// What a baked face is.
pub type BakedFaceView<U> = (U, U, u16, bool);

/// What a baked cuboid is.
pub type BakedCuboidView<P, U> = (P, P, Seq<Option<BakedFaceView<U>>>);

/// The meaning of a baked face slot.
pub open spec fn baked_face_view<U>(f: Option<CuboidFace<U>>) -> Option<BakedFaceView<U>> {
    match f {
        Some(x) => Some((x.uv_start, x.uv_end, x.texture_index, x.culling)),
        None => None,
    }
}

/// The meaning of a baked cuboid.
pub open spec fn baked_cuboid_view<P, U>(c: Cuboid<P, U>) -> BakedCuboidView<P, U> {
    (c.start, c.end, c.faces@.map_values(|f: Option<CuboidFace<U>>| baked_face_view(f)))
}

/// The meaning of a baked model.
pub open spec fn baked_model_view<P, U>(m: CuboidBlockModel<P, U>) -> Seq<BakedCuboidView<P, U>> {
    m.cuboids@.map_values(|c: Cuboid<P, U>| baked_cuboid_view(c))
}

/// Whether a face slot is empty or names an atlas index.
pub open spec fn face_indexed<U>(f: Option<FaceView<U>>) -> bool {
    match f {
        Some(x) => x.2 is Index,
        None => true,
    }
}

/// Whether every face of every cuboid is empty or names an atlas index.
pub open spec fn all_indexed<P, U>(cs: Seq<CuboidView<P, U>>) -> bool {
    forall|i: int, j: int|
        0 <= i < cs.len() && 0 <= j < cs[i].2.len() ==> face_indexed(#[trigger] cs[i].2[j])
}

/// A face slot with its texture replaced by the atlas index it names.
pub open spec fn index_face<U>(f: Option<FaceView<U>>) -> Option<BakedFaceView<U>> {
    match f {
        Some(x) => match x.2 {
            TextureView::Index(i) => Some((x.0, x.1, i, x.3)),
            TextureView::Placeholder(_) => None,
        },
        None => None,
    }
}

/// A cuboid with its textures replaced by the atlas indices they name.
pub open spec fn index_cuboid<P, U>(c: CuboidView<P, U>) -> BakedCuboidView<P, U> {
    (c.0, c.1, c.2.map_values(|f: Option<FaceView<U>>| index_face(f)))
}

/// Cuboids with their textures replaced by the atlas indices they name.
pub open spec fn index_cuboids<P, U>(cs: Seq<CuboidView<P, U>>) -> Seq<BakedCuboidView<P, U>> {
    cs.map_values(|c: CuboidView<P, U>| index_cuboid(c))
}

impl<U: Copy> CuboidFaceDeserialize<U> {
    /// The face with its atlas index, or `Err(())` when its texture is a placeholder.
    pub fn try_into(&self) -> (r: Result<CuboidFace<U>, ()>)
        ensures
            r is Ok <==> self.texture@ is Index,
            r matches Ok(f) ==> Some((f.uv_start, f.uv_end, f.texture_index, f.culling)) == index_face(
                face_slot_view(Some(*self)),
            ),
    {
        match texture_index(&self.texture) {
            Some(texture_index) => Ok(
                CuboidFace {
                    uv_start: self.uv_start,
                    uv_end: self.uv_end,
                    texture_index,
                    culling: self.culling,
                },
            ),
            None => Err(()),
        }
    }
}

fn try_face<U: Copy>(f: &Option<CuboidFaceDeserialize<U>>) -> (r: Result<Option<CuboidFace<U>>, ()>)
    ensures
        r is Ok <==> face_indexed(face_slot_view(*f)),
        r matches Ok(x) ==> baked_face_view(x) == index_face(face_slot_view(*f)),
{
    match f {
        Some(face) => match CuboidFaceDeserialize::try_into(face) {
            Ok(x) => Ok(Some(x)),
            Err(()) => Err(()),
        },
        None => Ok(None),
    }
}

impl<P: Copy, U: Copy> CuboidDeserialize<P, U> {
    /// The cuboid with atlas indices, or `Err(())` when a face names a placeholder.
    pub fn try_into(&self) -> (r: Result<Cuboid<P, U>, ()>)
        ensures
            r is Ok <==> forall|j: int| 0 <= j < 6 ==> face_indexed(#[trigger] cuboid_view(*self).2[j]),
            r matches Ok(c) ==> baked_cuboid_view(c) == index_cuboid(cuboid_view(*self)),
    {
        let f0 = try_face(&self.faces[0]);
        let f1 = try_face(&self.faces[1]);
        let f2 = try_face(&self.faces[2]);
        let f3 = try_face(&self.faces[3]);
        let f4 = try_face(&self.faces[4]);
        let f5 = try_face(&self.faces[5]);
        proof {
            let v = cuboid_view(*self).2;
            assert(v[0] == face_slot_view(self.faces[0]));
            assert(v[1] == face_slot_view(self.faces[1]));
            assert(v[2] == face_slot_view(self.faces[2]));
            assert(v[3] == face_slot_view(self.faces[3]));
            assert(v[4] == face_slot_view(self.faces[4]));
            assert(v[5] == face_slot_view(self.faces[5]));
        }
        match (f0, f1, f2, f3, f4, f5) {
            (Ok(a), Ok(b), Ok(c), Ok(d), Ok(e), Ok(f)) => {
                let r = Cuboid { start: self.start, end: self.end, faces: [a, b, c, d, e, f] };
                proof {
                    assert(baked_cuboid_view(r).2 =~= index_cuboid(cuboid_view(*self)).2);
                }
                Ok(r)
            },
            _ => Err(()),
        }
    }
}

impl<P: Copy, U: Copy> CuboidBlockModelDeserialize<P, U> {
    /// The baked model, or `Err(())` when the model still has a parent or a face names a
    /// placeholder after renaming.
    pub fn try_into(self) -> (r: Result<CuboidBlockModel<P, U>, ()>)
        ensures
            r is Ok <==> (self.parent_model is None && all_indexed(
                override_cuboids(self.texture_overrides@, cuboids_view(self.cuboids@)),
            )),
            r matches Ok(m) ==> baked_model_view(m) == index_cuboids(
                override_cuboids(self.texture_overrides@, cuboids_view(self.cuboids@)),
            ),
    {
        let mut model = self;
        if model.parent_model.is_some() {
            return Err(());
        }
        model.override_textures();
        let ghost cs = cuboids_view(model.cuboids@);
        let mut cuboids: Vec<Cuboid<P, U>> = Vec::new();
        let mut i: usize = 0;
        while i < model.cuboids.len()
            invariant
                i <= model.cuboids@.len(),
                cs == cuboids_view(model.cuboids@),
                cs == override_cuboids(self.texture_overrides@, cuboids_view(self.cuboids@)),
                self.parent_model is None,
                cuboids@.len() == i,
                forall|k: int| 0 <= k < i ==> baked_cuboid_view(#[trigger] cuboids@[k]) == index_cuboid(cs[k]),
                forall|k: int, j: int| 0 <= k < i && 0 <= j < cs[k].2.len() ==> face_indexed(#[trigger] cs[k].2[j]),
            decreases model.cuboids@.len() - i,
        {
            match CuboidDeserialize::try_into(&model.cuboids[i]) {
                Ok(c) => {
                    cuboids.push(c);
                },
                Err(()) => {
                    proof {
                        let j = choose|j: int| 0 <= j < 6 && !face_indexed(#[trigger] cuboid_view(model.cuboids@[i as int]).2[j]);
                        assert(cs[i as int] == cuboid_view(model.cuboids@[i as int]));
                        assert(cs[i as int].2.len() == 6);
                        assert(!face_indexed(cs[i as int].2[j]));
                        assert(!all_indexed(cs));
                    }
                    return Err(());
                },
            }
            proof {
                assert(cs[i as int] == cuboid_view(model.cuboids@[i as int]));
                assert forall|j: int| 0 <= j < cs[i as int].2.len() implies face_indexed(#[trigger] cs[i as int].2[j]) by {
                    assert(cs[i as int].2.len() == 6);
                }
            }
            i += 1;
        }
        let r = CuboidBlockModel { cuboids };
        proof {
            assert(baked_model_view(r) =~= index_cuboids(cs));
        }
        Ok(r)
    }
}

impl<P, U> Cuboid<P, U> {
    /// Appends the atlas index of each face to the list of its direction.
    pub fn append_texture_indices(&self, texture_indices_per_face: &mut [Vec<u16>; FACE_DIRECTIONS_NUM])
        ensures
            forall|d: int|
                0 <= d < 6 ==> (#[trigger] final(texture_indices_per_face)@[d])@ == (match self.faces@[d] {
                    Some(f) => old(texture_indices_per_face)@[d]@.push(f.texture_index),
                    None => old(texture_indices_per_face)@[d]@,
                }),
    {
        let mut face_num: usize = 0;
        while face_num < FACE_DIRECTIONS_NUM
            invariant
                face_num <= 6,
                forall|d: int|
                    0 <= d < face_num ==> (#[trigger] texture_indices_per_face@[d])@ == (match self.faces@[d] {
                        Some(f) => old(texture_indices_per_face)@[d]@.push(f.texture_index),
                        None => old(texture_indices_per_face)@[d]@,
                    }),
                forall|d: int| face_num <= d < 6 ==> #[trigger] texture_indices_per_face@[d] == old(texture_indices_per_face)@[d],
            decreases 6 - face_num,
        {
            match &self.faces[face_num] {
                Some(face) => {
                    texture_indices_per_face[face_num].push(face.texture_index);
                },
                None => {},
            }
            face_num += 1;
        }
    }

    /// Appends the culling flag of each face to the list of its direction.
    pub fn append_quad_culling(&self, quad_culling_per_face: &mut [Vec<bool>; FACE_DIRECTIONS_NUM])
        ensures
            forall|d: int|
                0 <= d < 6 ==> (#[trigger] final(quad_culling_per_face)@[d])@ == (match self.faces@[d] {
                    Some(f) => old(quad_culling_per_face)@[d]@.push(f.culling),
                    None => old(quad_culling_per_face)@[d]@,
                }),
    {
        let mut face_num: usize = 0;
        while face_num < FACE_DIRECTIONS_NUM
            invariant
                face_num <= 6,
                forall|d: int|
                    0 <= d < face_num ==> (#[trigger] quad_culling_per_face@[d])@ == (match self.faces@[d] {
                        Some(f) => old(quad_culling_per_face)@[d]@.push(f.culling),
                        None => old(quad_culling_per_face)@[d]@,
                    }),
                forall|d: int| face_num <= d < 6 ==> #[trigger] quad_culling_per_face@[d] == old(quad_culling_per_face)@[d],
            decreases 6 - face_num,
        {
            match &self.faces[face_num] {
                Some(face) => {
                    quad_culling_per_face[face_num].push(face.culling);
                },
                None => {},
            }
            face_num += 1;
        }
    }
}

/// The corner of the box spanned by `start` and `end` that takes each coordinate from `end`
/// where its flag is set and from `start` where it is not.
pub open spec fn box_corner<T>(start: Vec3<T>, end: Vec3<T>, x: bool, y: bool, z: bool) -> Vec3<T> {
    Vec3 {
        x: if x { end.x } else { start.x },
        y: if y { end.y } else { start.y },
        z: if z { end.z } else { start.z },
    }
}

/// The four corners of the side of the box facing `d`, in drawing order.
pub open spec fn face_corners<T>(start: Vec3<T>, end: Vec3<T>, d: FaceDirection) -> Seq<Vec3<T>> {
    let c = |x: bool, y: bool, z: bool| box_corner(start, end, x, y, z);
    match d {
        FaceDirection::PositiveX => seq![c(true, false, true), c(true, false, false), c(true, true, true), c(true, true, false)],
        FaceDirection::NegativeX => seq![c(false, false, false), c(false, false, true), c(false, true, false), c(false, true, true)],
        FaceDirection::PositiveZ => seq![c(false, false, true), c(true, false, true), c(false, true, true), c(true, true, true)],
        FaceDirection::NegativeZ => seq![c(true, false, false), c(false, false, false), c(true, true, false), c(false, true, false)],
        FaceDirection::PositiveY => seq![c(false, true, false), c(false, true, true), c(true, true, false), c(true, true, true)],
        FaceDirection::NegativeY => seq![c(false, false, true), c(false, false, false), c(true, false, true), c(true, false, false)],
    }
}

/// The texture coordinates of the four corners of a face, in drawing order.
pub open spec fn face_uvs<V>(uv_start: Vec2<V>, uv_end: Vec2<V>) -> Seq<Vec2<V>> {
    seq![uv_start, Vec2 { x: uv_end.x, y: uv_start.y }, Vec2 { x: uv_start.x, y: uv_end.y }, uv_end]
}

/// The quad that a cuboid spanned by `start` and `end` shows for its face `f` in direction `d`.
pub open spec fn face_quad<T, V>(start: Vec3<T>, end: Vec3<T>, d: FaceDirection, f: CuboidFace<Vec2<V>>) -> QuadView<T, V> {
    (face_corners(start, end, d), d.normal(), face_uvs(f.uv_start, f.uv_end))
}

/// The faces in direction `d` of the cuboids, in order, each with the corners of its cuboid;
/// cuboids without such a face contribute nothing.
pub open spec fn present_faces<P, U>(cs: Seq<Cuboid<P, U>>, d: int) -> Seq<(P, P, CuboidFace<U>)>
    decreases cs.len(),
{
    if cs.len() == 0 {
        Seq::empty()
    } else {
        let c = cs.last();
        match c.faces@[d] {
            Some(f) => present_faces(cs.drop_last(), d).push((c.start, c.end, f)),
            None => present_faces(cs.drop_last(), d),
        }
    }
}

/// The quads of the faces in direction `d`.
pub open spec fn face_quads<T, V>(faces: Seq<(Vec3<T>, Vec3<T>, CuboidFace<Vec2<V>>)>, d: int) -> Seq<QuadView<T, V>> {
    faces.map_values(|t: (Vec3<T>, Vec3<T>, CuboidFace<Vec2<V>>)| face_quad(t.0, t.1, face_direction_at(d), t.2))
}

/// The atlas indices of faces.
pub open spec fn face_texture_indices<P, U>(faces: Seq<(P, P, CuboidFace<U>)>) -> Seq<u16> {
    faces.map_values(|t: (P, P, CuboidFace<U>)| t.2.texture_index)
}

/// The culling flags of faces.
pub open spec fn face_culling<P, U>(faces: Seq<(P, P, CuboidFace<U>)>) -> Seq<bool> {
    faces.map_values(|t: (P, P, CuboidFace<U>)| t.2.culling)
}

/// The corners of the side of the box facing `direction`, in drawing order.
fn face_vertex_positions<T: Copy>(start: Vec3<T>, end: Vec3<T>, direction: &FaceDirection) -> (r: [Vec3<T>; 4])
    ensures
        r@ == face_corners(start, end, *direction),
{
    let r = match direction {
        FaceDirection::PositiveX => [
            Vec3 { x: end.x, y: start.y, z: end.z },
            Vec3 { x: end.x, y: start.y, z: start.z },
            end,
            Vec3 { x: end.x, y: end.y, z: start.z },
        ],
        FaceDirection::NegativeX => [
            start,
            Vec3 { x: start.x, y: start.y, z: end.z },
            Vec3 { x: start.x, y: end.y, z: start.z },
            Vec3 { x: start.x, y: end.y, z: end.z },
        ],
        FaceDirection::PositiveZ => [
            Vec3 { x: start.x, y: start.y, z: end.z },
            Vec3 { x: end.x, y: start.y, z: end.z },
            Vec3 { x: start.x, y: end.y, z: end.z },
            end,
        ],
        FaceDirection::NegativeZ => [
            Vec3 { x: end.x, y: start.y, z: start.z },
            start,
            Vec3 { x: end.x, y: end.y, z: start.z },
            Vec3 { x: start.x, y: end.y, z: start.z },
        ],
        FaceDirection::PositiveY => [
            Vec3 { x: start.x, y: end.y, z: start.z },
            Vec3 { x: start.x, y: end.y, z: end.z },
            Vec3 { x: end.x, y: end.y, z: start.z },
            end,
        ],
        FaceDirection::NegativeY => [
            Vec3 { x: start.x, y: start.y, z: end.z },
            start,
            Vec3 { x: end.x, y: start.y, z: end.z },
            Vec3 { x: end.x, y: start.y, z: start.z },
        ],
    };
    proof {
        assert(r@ =~= face_corners(start, end, *direction));
    }
    r
}

impl<T: Copy, V: Copy> Cuboid<Vec3<T>, Vec2<V>> {
    /// Appends the quad of each face to the list of its direction.
    pub fn append_quads(&self, quads_per_face: &mut [Vec<Quad<T, V>>; FACE_DIRECTIONS_NUM])
        ensures
            forall|d: int|
                0 <= d < 6 ==> (#[trigger] final(quads_per_face)@[d])@.map_values(|q: Quad<T, V>| quad_view(q)) == (match self.faces@[d] {
                    Some(f) => old(quads_per_face)@[d]@.map_values(|q: Quad<T, V>| quad_view(q)).push(
                        face_quad(self.start, self.end, face_direction_at(d), f),
                    ),
                    None => old(quads_per_face)@[d]@.map_values(|q: Quad<T, V>| quad_view(q)),
                }),
    {
        let mut face_num: usize = 0;
        while face_num < FACE_DIRECTIONS_NUM
            invariant
                face_num <= 6,
                forall|d: int|
                    0 <= d < face_num ==> (#[trigger] quads_per_face@[d])@.map_values(|q: Quad<T, V>| quad_view(q)) == (match self.faces@[d] {
                        Some(f) => old(quads_per_face)@[d]@.map_values(|q: Quad<T, V>| quad_view(q)).push(
                            face_quad(self.start, self.end, face_direction_at(d), f),
                        ),
                        None => old(quads_per_face)@[d]@.map_values(|q: Quad<T, V>| quad_view(q)),
                    }),
                forall|d: int| face_num <= d < 6 ==> #[trigger] quads_per_face@[d] == old(quads_per_face)@[d],
            decreases 6 - face_num,
        {
            match &self.faces[face_num] {
                Some(face) => {
                    let direction = FaceDirection::from_index(face_num);
                    let quad = Quad {
                        vertex_positions: face_vertex_positions(self.start, self.end, &direction),
                        normal: direction.normal_i32(),
                        uv: [
                            face.uv_start,
                            Vec2 { x: face.uv_end.x, y: face.uv_start.y },
                            Vec2 { x: face.uv_start.x, y: face.uv_end.y },
                            face.uv_end,
                        ],
                    };
                    proof {
                        assert(quad.uv@ =~= face_uvs(face.uv_start, face.uv_end));
                    }
                    let ghost before = quads_per_face@[face_num as int]@;
                    quads_per_face[face_num].push(quad);
                    proof {
                        assert(quads_per_face@[face_num as int]@.map_values(|q: Quad<T, V>| quad_view(q)) =~= before.map_values(|q: Quad<T, V>| quad_view(q)).push(quad_view(quad)));
                    }
                },
                None => {},
            }
            face_num += 1;
        }
    }
}


proof fn lemma_present_faces_step<P, U>(cs: Seq<Cuboid<P, U>>, i: int, d: int)
    requires
        0 <= i < cs.len(),
    ensures
        present_faces(cs.take(i + 1), d) == (match cs[i].faces@[d] {
            Some(f) => present_faces(cs.take(i), d).push((cs[i].start, cs[i].end, f)),
            None => present_faces(cs.take(i), d),
        }),
{
    assert(cs.take(i + 1).drop_last() =~= cs.take(i));
}

/// Turns each list of a per-direction array into a boxed slice with the same elements.
fn boxed_per_face<X>(lists: [Vec<X>; FACE_DIRECTIONS_NUM]) -> (r: [Box<[X]>; FACE_DIRECTIONS_NUM])
    ensures
        forall|d: int| 0 <= d < 6 ==> (#[trigger] r@[d])@ == lists@[d]@,
{
    let ghost old_lists = lists;
    let mut lists = lists;
    let mut a: Vec<X> = Vec::new();
    let mut b: Vec<X> = Vec::new();
    let mut c: Vec<X> = Vec::new();
    let mut d: Vec<X> = Vec::new();
    let mut e: Vec<X> = Vec::new();
    let mut f: Vec<X> = Vec::new();
    std::mem::swap(&mut a, &mut lists[0]);
    std::mem::swap(&mut b, &mut lists[1]);
    std::mem::swap(&mut c, &mut lists[2]);
    std::mem::swap(&mut d, &mut lists[3]);
    std::mem::swap(&mut e, &mut lists[4]);
    std::mem::swap(&mut f, &mut lists[5]);
    let r = [
        vec_into_boxed_slice(a),
        vec_into_boxed_slice(b),
        vec_into_boxed_slice(c),
        vec_into_boxed_slice(d),
        vec_into_boxed_slice(e),
        vec_into_boxed_slice(f),
    ];
    proof {
        assert forall|k: int| 0 <= k < 6 implies (#[trigger] r@[k])@ == old_lists@[k]@ by {
            assert(k == 0 || k == 1 || k == 2 || k == 3 || k == 4 || k == 5);
        }
    }
    r
}

/// The three per-direction lists of a baked model agree with the faces in direction `d`.
spec fn baked_lists_match<T, V>(
    quads: Seq<Quad<T, V>>,
    texture_indices: Seq<u16>,
    culling: Seq<bool>,
    faces: Seq<(Vec3<T>, Vec3<T>, CuboidFace<Vec2<V>>)>,
    d: int,
) -> bool {
    &&& quads.map_values(|q: Quad<T, V>| quad_view(q)) == face_quads(faces, d)
    &&& texture_indices == face_texture_indices(faces)
    &&& culling == face_culling(faces)
}

impl<T: Copy, V: Copy> CuboidBlockModel<Vec3<T>, Vec2<V>> {
    /// The quads of the model by face direction, with their atlas indices and culling flags:
    /// for each direction, one quad per cuboid that has a face there, in cuboid order.
    pub fn bake(&self) -> (r: QuadBlockModel<T, V>)
        ensures
            forall|d: int|
                0 <= d < 6 ==> (#[trigger] r.quads_per_face@[d])@.map_values(|q: Quad<T, V>| quad_view(q)) == face_quads(
                    present_faces(self.cuboids@, d),
                    d,
                ),
            forall|d: int|
                0 <= d < 6 ==> (#[trigger] r.texture_indices_per_face@[d])@ == face_texture_indices(
                    present_faces(self.cuboids@, d),
                ),
            forall|d: int|
                0 <= d < 6 ==> (#[trigger] r.quad_culling_per_face@[d])@ == face_culling(
                    present_faces(self.cuboids@, d),
                ),
    {
        let mut quads_per_face: [Vec<Quad<T, V>>; FACE_DIRECTIONS_NUM] = [Vec::new(), Vec::new(), Vec::new(), Vec::new(), Vec::new(), Vec::new()];
        let mut texture_indices_per_face: [Vec<u16>; FACE_DIRECTIONS_NUM] = [Vec::new(), Vec::new(), Vec::new(), Vec::new(), Vec::new(), Vec::new()];
        let mut quad_culling_per_face: [Vec<bool>; FACE_DIRECTIONS_NUM] = [Vec::new(), Vec::new(), Vec::new(), Vec::new(), Vec::new(), Vec::new()];
        let ghost cs = self.cuboids@;
        proof {
            assert forall|d: int| 0 <= d < 6 implies present_faces(#[trigger] cs.take(0), d) == Seq::<(Vec3<T>, Vec3<T>, CuboidFace<Vec2<V>>)>::empty() by {
                assert(cs.take(0).len() == 0);
            }
        }
        let mut i: usize = 0;
        while i < self.cuboids.len()
            invariant
                i <= cs.len(),
                cs == self.cuboids@,
                forall|d: int|
                    0 <= d < 6 ==> (#[trigger] quads_per_face@[d])@.map_values(|q: Quad<T, V>| quad_view(q)) == face_quads(
                        present_faces(cs.take(i as int), d),
                        d,
                    ),
                forall|d: int|
                    0 <= d < 6 ==> (#[trigger] texture_indices_per_face@[d])@ == face_texture_indices(
                        present_faces(cs.take(i as int), d),
                    ),
                forall|d: int|
                    0 <= d < 6 ==> (#[trigger] quad_culling_per_face@[d])@ == face_culling(
                        present_faces(cs.take(i as int), d),
                    ),
            decreases cs.len() - i,
        {
            let cuboid = &self.cuboids[i];
            cuboid.append_quads(&mut quads_per_face);
            cuboid.append_texture_indices(&mut texture_indices_per_face);
            cuboid.append_quad_culling(&mut quad_culling_per_face);
            proof {
                assert forall|d: int| 0 <= d < 6 implies #[trigger] baked_lists_match(
                    quads_per_face@[d]@,
                    texture_indices_per_face@[d]@,
                    quad_culling_per_face@[d]@,
                    present_faces(cs.take(i + 1), d),
                    d,
                ) by {
                    lemma_present_faces_step(cs, i as int, d);
                    let prev = present_faces(cs.take(i as int), d);
                    match cs[i as int].faces@[d] {
                        Some(f) => {
                            let t = (cs[i as int].start, cs[i as int].end, f);
                            assert(face_quads(prev.push(t), d) =~= face_quads(prev, d).push(face_quad(t.0, t.1, face_direction_at(d), f)));
                            assert(face_texture_indices(prev.push(t)) =~= face_texture_indices(prev).push(f.texture_index));
                            assert(face_culling(prev.push(t)) =~= face_culling(prev).push(f.culling));
                        },
                        None => {},
                    }
                }
                assert forall|d: int| 0 <= d < 6 implies (#[trigger] quads_per_face@[d])@.map_values(|q: Quad<T, V>| quad_view(q)) == face_quads(
                    present_faces(cs.take(i + 1), d),
                    d,
                ) by {
                    assert(baked_lists_match(quads_per_face@[d]@, texture_indices_per_face@[d]@, quad_culling_per_face@[d]@, present_faces(cs.take(i + 1), d), d));
                }
                assert forall|d: int| 0 <= d < 6 implies (#[trigger] texture_indices_per_face@[d])@ == face_texture_indices(
                    present_faces(cs.take(i + 1), d),
                ) by {
                    assert(baked_lists_match(quads_per_face@[d]@, texture_indices_per_face@[d]@, quad_culling_per_face@[d]@, present_faces(cs.take(i + 1), d), d));
                }
                assert forall|d: int| 0 <= d < 6 implies (#[trigger] quad_culling_per_face@[d])@ == face_culling(
                    present_faces(cs.take(i + 1), d),
                ) by {
                    assert(baked_lists_match(quads_per_face@[d]@, texture_indices_per_face@[d]@, quad_culling_per_face@[d]@, present_faces(cs.take(i + 1), d), d));
                }
            }
            i += 1;
        }
        proof {
            assert(cs.take(cs.len() as int) =~= cs);
        }
        QuadBlockModel {
            quads_per_face: boxed_per_face(quads_per_face),
            texture_indices_per_face: boxed_per_face(texture_indices_per_face),
            quad_culling_per_face: boxed_per_face(quad_culling_per_face),
        }
    }
}

/// The cuboids of model `name` with everything it inherits, found by following parents at
/// most `fuel` times: its own cuboids and then those its parent resolves to, with the model's
/// renamings applied to all of them; `None` when a parent is missing or `fuel` runs out.
pub open spec fn resolve<P, U>(
    models: Map<Seq<char>, ModelView<P, U>>,
    name: Seq<char>,
    fuel: nat,
) -> Option<Seq<CuboidView<P, U>>>
    decreases fuel,
{
    if fuel == 0 || !models.dom().contains(name) {
        None
    } else {
        let m = models[name];
        match m.0 {
            None => Some(override_cuboids(m.1, m.2)),
            Some(parent) => match resolve(models, parent, (fuel - 1) as nat) {
                Some(inherited) => Some(override_cuboids(m.1, m.2 + inherited)),
                None => None,
            },
        }
    }
}

/// Whether following parents from `name` ends at a model without a parent.
pub open spec fn resolvable<P, U>(models: Map<Seq<char>, ModelView<P, U>>, name: Seq<char>) -> bool {
    exists|f: nat| #[trigger] resolve(models, name, f) is Some
}

/// The cuboids that a resolvable model resolves to.
pub open spec fn resolution<P, U>(models: Map<Seq<char>, ModelView<P, U>>, name: Seq<char>) -> Seq<
    CuboidView<P, U>,
> {
    resolve(models, name, choose|f: nat| #[trigger] resolve(models, name, f) is Some).unwrap()
}

/// Resolving with more fuel than needed gives the same cuboids.
pub proof fn lemma_resolve_deterministic<P, U>(
    models: Map<Seq<char>, ModelView<P, U>>,
    name: Seq<char>,
    f1: nat,
    f2: nat,
)
    requires
        resolve(models, name, f1) is Some,
        resolve(models, name, f2) is Some,
    ensures
        resolve(models, name, f1) == resolve(models, name, f2),
    decreases f1,
{
    let m = models[name];
    if let Some(parent) = m.0 {
        lemma_resolve_deterministic(models, parent, (f1 - 1) as nat, (f2 - 1) as nat);
    }
}

proof fn lemma_resolution<P, U>(
    models: Map<Seq<char>, ModelView<P, U>>,
    name: Seq<char>,
    f: nat,
    c: Seq<CuboidView<P, U>>,
)
    requires
        resolve(models, name, f) == Some(c),
    ensures
        resolvable(models, name),
        resolution(models, name) == c,
{
    let g = choose|g: nat| #[trigger] resolve(models, name, g) is Some;
    lemma_resolve_deterministic(models, name, f, g);
}

/// When every model still unresolved has a parent that is not resolved either, every model
/// that can be resolved already is.
proof fn lemma_complete<P, U>(
    models: Map<Seq<char>, ModelView<P, U>>,
    pending: Set<Seq<char>>,
    done: Set<Seq<char>>,
    name: Seq<char>,
    f: nat,
)
    requires
        forall|n: Seq<char>| #[trigger] models.dom().contains(n) ==> pending.contains(n) || done.contains(n),
        forall|n: Seq<char>|
            #[trigger] pending.contains(n) ==> models.dom().contains(n) && models[n].0 is Some
                && !done.contains(models[n].0.unwrap()),
        resolve(models, name, f) is Some,
    ensures
        done.contains(name),
    decreases f,
{
    let m = models[name];
    if let Some(parent) = m.0 {
        lemma_complete(models, pending, done, parent, (f - 1) as nat);
    }
}

proof fn lemma_override_empty<P, U>(cs: Seq<CuboidView<P, U>>)
    ensures
        override_cuboids(Map::<TextureView, TextureView>::empty(), cs) == cs,
{
    assert forall|i: int| 0 <= i < cs.len() implies #[trigger] override_cuboids(
        Map::<TextureView, TextureView>::empty(),
        cs,
    )[i] == cs[i] by {
        lemma_no_override(cs[i].2);
    }
    assert(override_cuboids(Map::<TextureView, TextureView>::empty(), cs) =~= cs);
}

/// Described models by name, before parents are resolved.
pub struct DeserializedCuboidModels<P, U> {
    inner: NameMap<CuboidBlockModelDeserialize<P, U>>,
}

impl<P, U> View for DeserializedCuboidModels<P, U> {
    type V = Map<Seq<char>, ModelView<P, U>>;

    closed spec fn view(&self) -> Map<Seq<char>, ModelView<P, U>> {
        self.inner@.map_values(|m: CuboidBlockModelDeserialize<P, U>| model_view(m))
    }
}

/// Baked models by name.
pub struct BaseCuboidBlockModels<P, U>(NameMap<CuboidBlockModel<P, U>>);

impl<P, U> View for BaseCuboidBlockModels<P, U> {
    type V = Map<Seq<char>, Seq<BakedCuboidView<P, U>>>;

    closed spec fn view(&self) -> Map<Seq<char>, Seq<BakedCuboidView<P, U>>> {
        self.0@.map_values(|m: CuboidBlockModel<P, U>| baked_model_view(m))
    }
}

impl<P, U> BaseCuboidBlockModels<P, U> {
    /// No models.
    pub fn new() -> (r: Self)
        ensures
            r@ == Map::<Seq<char>, Seq<BakedCuboidView<P, U>>>::empty(),
    {
        let r = Self(NameMap::new());
        proof {
            assert(r@ =~= Map::<Seq<char>, Seq<BakedCuboidView<P, U>>>::empty());
        }
        r
    }

    /// Registers `model` under `model_name`, replacing an earlier model of that name.
    pub fn insert(&mut self, model_name: String, model: CuboidBlockModel<P, U>)
        ensures
            final(self)@ == old(self)@.insert(model_name@, baked_model_view(model)),
    {
        let ghost m = baked_model_view(model);
        self.0.insert(model_name, model);
        proof {
            assert(self@ =~= old(self)@.insert(model_name@, m));
        }
    }

    /// The model named `model_name`, if any.
    pub fn get(&self, model_name: &str) -> (r: Option<&CuboidBlockModel<P, U>>)
        ensures
            r is Some <==> self@.dom().contains(model_name@),
            r matches Some(m) ==> baked_model_view(*m) == self@[model_name@],
    {
        self.0.get(model_name)
    }

    /// The number of models.
    pub fn len(&self) -> (r: usize)
        ensures
            r == self@.dom().len(),
    {
        proof {
            assert(self@.dom() =~= self.0@.dom());
        }
        self.0.len()
    }

    /// The names of the models, each once.
    pub fn model_names(&self) -> (r: Vec<String>)
        ensures
            forall|i: int| 0 <= i < r@.len() ==> self@.dom().contains(#[trigger] r@[i]@),
            forall|k: Seq<char>| #[trigger] self@.dom().contains(k) ==> exists|i: int| 0 <= i < r@.len() && (#[trigger] r@[i])@ == k,
    {
        self.0.keys()
    }
}

impl<P: Copy, U: Copy> DeserializedCuboidModels<P, U> {
    /// No models.
    pub fn new() -> (r: Self)
        ensures
            r@ == Map::<Seq<char>, ModelView<P, U>>::empty(),
    {
        let r = Self { inner: NameMap::new() };
        proof {
            assert(r@ =~= Map::<Seq<char>, ModelView<P, U>>::empty());
        }
        r
    }

    /// Registers `model` under `name`, replacing an earlier model of that name.
    pub fn insert(&mut self, name: String, model: CuboidBlockModelDeserialize<P, U>)
        ensures
            final(self)@ == old(self)@.insert(name@, model_view(model)),
    {
        let ghost m = model_view(model);
        self.inner.insert(name, model);
        proof {
            assert(self@ =~= old(self)@.insert(name@, m));
        }
    }

    /// Resolves every model that inherits, directly or not, from a model without a parent,
    /// and bakes those whose faces all name atlas indices; other models are dropped.
    pub fn to_base_cuboid_models(self) -> (r: BaseCuboidBlockModels<P, U>)
        ensures
            forall|n: Seq<char>|
                #[trigger] r@.dom().contains(n) <==> (self@.dom().contains(n) && resolvable(self@, n)
                    && all_indexed(resolution(self@, n))),
            forall|n: Seq<char>|
                #[trigger] r@.dom().contains(n) ==> r@[n] == index_cuboids(resolution(self@, n)),
    {
        let ghost orig = self@;
        let mut inner = self.inner;
        let mut resolved: NameMap<CuboidBlockModelDeserialize<P, U>> = NameMap::new();
        let names = inner.keys();
        let mut k: usize = 0;
        while k < names.len()
            invariant
                k <= names@.len(),
                forall|i: int| 0 <= i < names@.len() ==> orig.dom().contains(#[trigger] names@[i]@),
                forall|n: Seq<char>| #[trigger] orig.dom().contains(n) ==> exists|i: int| 0 <= i < names@.len() && (#[trigger] names@[i])@ == n,
                forall|i: int, j: int| 0 <= i < names@.len() && 0 <= j < names@.len() && i != j ==> (#[trigger] names@[i])@ != (#[trigger] names@[j])@,
                forall|n: Seq<char>| #[trigger] orig.dom().contains(n) <==> (inner@.dom().contains(n) || resolved@.dom().contains(n)),
                forall|n: Seq<char>| !(#[trigger] inner@.dom().contains(n) && resolved@.dom().contains(n)),
                forall|n: Seq<char>| #[trigger] inner@.dom().contains(n) ==> model_view(inner@[n]) == orig[n],
                forall|n: Seq<char>| #[trigger] resolved@.dom().contains(n) ==> resolved@[n].parent_model is None
                    && resolved@[n].texture_overrides@ == Map::<TextureView, TextureView>::empty()
                    && resolve(orig, n, 1) == Some(cuboids_view(resolved@[n].cuboids@)),
                forall|i: int| 0 <= i < k && #[trigger] inner@.dom().contains(names@[i]@) ==> orig[names@[i]@].0 is Some,
            decreases names@.len() - k,
        {
            let name = &names[k];
            let parentless = match inner.get(name.as_str()) {
                Some(m) => m.parent_model.is_none(),
                None => false,
            };
            if parentless {
                let mut model = inner.remove(name.as_str()).unwrap();
                let ghost mv = model_view(model);
                model.override_textures();
                proof {
                    assert(resolve(orig, name@, 1) == Some(cuboids_view(model.cuboids@)));
                }
                resolved.insert(name.clone(), model);
            }
            proof {
                assert forall|i: int| 0 <= i < k + 1 && #[trigger] inner@.dom().contains(names@[i]@) implies orig[names@[i]@].0 is Some by {
                    if i == k {
                    }
                }
            }
            k += 1;
        }
        proof {
            assert forall|n: Seq<char>| #[trigger] inner@.dom().contains(n) implies orig[n].0 is Some by {
                assert(orig.dom().contains(n));
                let i = choose|i: int| 0 <= i < names@.len() && (#[trigger] names@[i])@ == n;
                assert(inner@.dom().contains(names@[i]@));
            }
        }
        loop
            invariant
                forall|n: Seq<char>| #[trigger] orig.dom().contains(n) <==> (inner@.dom().contains(n) || resolved@.dom().contains(n)),
                forall|n: Seq<char>| !(#[trigger] inner@.dom().contains(n) && resolved@.dom().contains(n)),
                forall|n: Seq<char>| #[trigger] inner@.dom().contains(n) ==> model_view(inner@[n]) == orig[n] && orig[n].0 is Some,
                forall|n: Seq<char>| #[trigger] resolved@.dom().contains(n) ==> resolved@[n].parent_model is None
                    && resolved@[n].texture_overrides@ == Map::<TextureView, TextureView>::empty()
                    && exists|f: nat| #[trigger] resolve(orig, n, f) == Some(cuboids_view(resolved@[n].cuboids@)),
            ensures
                forall|n: Seq<char>| #[trigger] orig.dom().contains(n) <==> (inner@.dom().contains(n) || resolved@.dom().contains(n)),
                forall|n: Seq<char>| !(#[trigger] inner@.dom().contains(n) && resolved@.dom().contains(n)),
                forall|n: Seq<char>| #[trigger] inner@.dom().contains(n) ==> orig[n].0 is Some && !resolved@.dom().contains(orig[n].0.unwrap()),
                forall|n: Seq<char>| #[trigger] resolved@.dom().contains(n) ==> resolved@[n].parent_model is None
                    && resolved@[n].texture_overrides@ == Map::<TextureView, TextureView>::empty()
                    && exists|f: nat| #[trigger] resolve(orig, n, f) == Some(cuboids_view(resolved@[n].cuboids@)),
            decreases inner.size(),
        {
            let names = inner.keys();
            let mut next: Vec<String> = Vec::new();
            let mut k: usize = 0;
            while k < names.len()
                invariant
                    k <= names@.len(),
                    forall|i: int| 0 <= i < names@.len() ==> inner@.dom().contains(#[trigger] names@[i]@),
                    forall|n: Seq<char>| #[trigger] inner@.dom().contains(n) ==> exists|i: int| 0 <= i < names@.len() && (#[trigger] names@[i])@ == n,
                    forall|i: int, j: int| 0 <= i < names@.len() && 0 <= j < names@.len() && i != j ==> (#[trigger] names@[i])@ != (#[trigger] names@[j])@,
                    forall|n: Seq<char>| #[trigger] inner@.dom().contains(n) ==> model_view(inner@[n]) == orig[n] && orig[n].0 is Some,
                    next@.len() <= k,
                    forall|j: int| 0 <= j < next@.len() ==> exists|i: int| 0 <= i < k && (#[trigger] names@[i])@ == (#[trigger] next@[j])@,
                    forall|j: int| 0 <= j < next@.len() ==> #[trigger] inner@.dom().contains(next@[j]@) && resolved@.dom().contains(orig[next@[j]@].0.unwrap()),
                    forall|a: int, b: int| 0 <= a < next@.len() && 0 <= b < next@.len() && a != b ==> (#[trigger] next@[a])@ != (#[trigger] next@[b])@,
                    forall|i: int| 0 <= i < k && resolved@.dom().contains(#[trigger] orig[names@[i]@].0.unwrap()) ==> exists|j: int| 0 <= j < next@.len() && (#[trigger] next@[j])@ == names@[i]@,
                decreases names@.len() - k,
            {
                let m = inner.get(names[k].as_str()).unwrap();
                let parent = m.parent_model.as_ref().unwrap();
                let ghost before = next@;
                if resolved.contains_key(parent.as_str()) {
                    next.push(names[k].clone());
                    proof {
                        assert forall|a: int, b: int| 0 <= a < next@.len() && 0 <= b < next@.len() && a != b implies (#[trigger] next@[a])@ != (#[trigger] next@[b])@ by {
                            if a < before.len() && b < before.len() {
                            } else if a < before.len() {
                                let i = choose|i: int| 0 <= i < k && (#[trigger] names@[i])@ == before[a]@;
                                assert(names@[i]@ != names@[k as int]@);
                            } else {
                                let i = choose|i: int| 0 <= i < k && (#[trigger] names@[i])@ == before[b]@;
                                assert(names@[i]@ != names@[k as int]@);
                            }
                        }
                    }
                }
                proof {
                    assert forall|j: int| 0 <= j < next@.len() implies exists|i: int| 0 <= i < k + 1 && (#[trigger] names@[i])@ == (#[trigger] next@[j])@ by {
                        if j < before.len() {
                            let i = choose|i: int| 0 <= i < k && (#[trigger] names@[i])@ == before[j]@;
                            assert(next@[j] == before[j]);
                        } else {
                            assert(names@[k as int]@ == next@[j]@);
                        }
                    }
                    assert forall|i: int| 0 <= i < k + 1 && resolved@.dom().contains(#[trigger] orig[names@[i]@].0.unwrap()) implies exists|j: int| 0 <= j < next@.len() && (#[trigger] next@[j])@ == names@[i]@ by {
                        if i < k {
                            let j = choose|j: int| 0 <= j < before.len() && (#[trigger] before[j])@ == names@[i]@;
                            assert(next@[j] == before[j]);
                        } else {
                            assert(next@[next@.len() - 1]@ == names@[k as int]@);
                        }
                    }
                }
                k += 1;
            }
            if next.len() == 0 {
                proof {
                    assert forall|n: Seq<char>| #[trigger] inner@.dom().contains(n) implies orig[n].0 is Some && !resolved@.dom().contains(orig[n].0.unwrap()) by {
                        let i = choose|i: int| 0 <= i < names@.len() && (#[trigger] names@[i])@ == n;
                        if resolved@.dom().contains(orig[n].0.unwrap()) {
                            assert(resolved@.dom().contains(orig[names@[i]@].0.unwrap()));
                        }
                    }
                }
                break;
            }
            let ghost size_before = inner.size();
            let mut k: usize = 0;
            while k < next.len()
                invariant
                    k <= next@.len(),
                    next@.len() > 0,
                    k > 0 ==> inner.size() < size_before,
                    k == 0 ==> inner.size() == size_before,
                    forall|j: int| k <= j < next@.len() ==> #[trigger] inner@.dom().contains(next@[j]@),
                    forall|j: int| k <= j < next@.len() ==> #[trigger] resolved@.dom().contains(orig[next@[j]@].0.unwrap()),
                    forall|a: int, b: int| 0 <= a < next@.len() && 0 <= b < next@.len() && a != b ==> (#[trigger] next@[a])@ != (#[trigger] next@[b])@,
                    forall|n: Seq<char>| #[trigger] orig.dom().contains(n) <==> (inner@.dom().contains(n) || resolved@.dom().contains(n)),
                    forall|n: Seq<char>| !(#[trigger] inner@.dom().contains(n) && resolved@.dom().contains(n)),
                    forall|n: Seq<char>| #[trigger] inner@.dom().contains(n) ==> model_view(inner@[n]) == orig[n] && orig[n].0 is Some,
                    forall|n: Seq<char>| #[trigger] resolved@.dom().contains(n) ==> resolved@[n].parent_model is None
                        && resolved@[n].texture_overrides@ == Map::<TextureView, TextureView>::empty()
                        && exists|f: nat| #[trigger] resolve(orig, n, f) == Some(cuboids_view(resolved@[n].cuboids@)),
                decreases next@.len() - k,
            {
                let name = &next[k];
                let ghost inner_before = inner@;
                let ghost resolved_before = resolved@;
                let mut model = inner.remove(name.as_str()).unwrap();
                let ghost mv = model_view(model);
                let parent_name = model.parent_model.as_ref().unwrap();
                let parent = resolved.get(parent_name.as_str()).unwrap();
                let ghost pv = cuboids_view(parent.cuboids@);
                proof {
                    let pn = orig[name@].0.unwrap();
                    assert(parent_name@ == pn);
                    let f = choose|f: nat| #[trigger] resolve(orig, pn, f) == Some(pv);
                    assert(resolve(orig, name@, f + 1) == Some(override_cuboids(mv.1, mv.2 + pv)));
                }
                model.combine(parent);
                model.override_textures();
                model.parent_model = None;
                proof {
                    let pn = orig[name@].0.unwrap();
                    let f = choose|f: nat| #[trigger] resolve(orig, pn, f) == Some(pv);
                    assert(resolve(orig, name@, f + 1) == Some(cuboids_view(model.cuboids@)));
                }
                resolved.insert(name.clone(), model);
                proof {
                    assert(inner@ == inner_before.remove(name@));
                    assert(resolved@ == resolved_before.insert(name@, model));
                    assert forall|j: int| k + 1 <= j < next@.len() implies #[trigger] inner@.dom().contains(next@[j]@) by {
                        assert(next@[j]@ != next@[k as int]@);
                        assert(inner_before.dom().contains(next@[j]@));
                    }
                    assert forall|j: int| k + 1 <= j < next@.len() implies #[trigger] resolved@.dom().contains(orig[next@[j]@].0.unwrap()) by {
                        assert(resolved_before.dom().contains(orig[next@[j]@].0.unwrap()));
                    }
                }
                k += 1;
            }
        }
        proof {
            assert forall|n: Seq<char>| #[trigger] orig.dom().contains(n) && resolvable(orig, n) implies resolved@.dom().contains(n) by {
                let f = choose|f: nat| #[trigger] resolve(orig, n, f) is Some;
                lemma_complete(orig, inner@.dom(), resolved@.dom(), n, f);
            }
        }
        let ghost done = resolved@;
        let mut base: BaseCuboidBlockModels<P, U> = BaseCuboidBlockModels::new();
        let names = resolved.keys();
        let mut k: usize = 0;
        while k < names.len()
            invariant
                k <= names@.len(),
                forall|i: int| 0 <= i < names@.len() ==> done.dom().contains(#[trigger] names@[i]@),
                forall|n: Seq<char>| #[trigger] done.dom().contains(n) ==> exists|i: int| 0 <= i < names@.len() && (#[trigger] names@[i])@ == n,
                forall|i: int, j: int| 0 <= i < names@.len() && 0 <= j < names@.len() && i != j ==> (#[trigger] names@[i])@ != (#[trigger] names@[j])@,
                forall|i: int| k <= i < names@.len() ==> #[trigger] resolved@.dom().contains(names@[i]@) && resolved@[names@[i]@] == done[names@[i]@],
                forall|n: Seq<char>|
                    #[trigger] base@.dom().contains(n) <==> (exists|i: int| 0 <= i < k && (#[trigger] names@[i])@ == n) && all_indexed(cuboids_view(done[n].cuboids@)),
                forall|n: Seq<char>| #[trigger] base@.dom().contains(n) ==> base@[n] == index_cuboids(cuboids_view(done[n].cuboids@)),
                forall|n: Seq<char>| #[trigger] done.dom().contains(n) ==> done[n].parent_model is None
                    && done[n].texture_overrides@ == Map::<TextureView, TextureView>::empty(),
            decreases names@.len() - k,
        {
            let name = &names[k];
            let model = resolved.remove(name.as_str()).unwrap();
            proof {
                lemma_override_empty(cuboids_view(model.cuboids@));
            }
            let ghost before = base@;
            match model.try_into() {
                Ok(m) => {
                    base.insert(name.clone(), m);
                },
                Err(()) => {},
            }
            proof {
                assert forall|n: Seq<char>| #[trigger] base@.dom().contains(n) <==> (exists|i: int| 0 <= i < k + 1 && (#[trigger] names@[i])@ == n) && all_indexed(cuboids_view(done[n].cuboids@)) by {
                    if exists|i: int| 0 <= i < k + 1 && (#[trigger] names@[i])@ == n {
                        let i = choose|i: int| 0 <= i < k + 1 && (#[trigger] names@[i])@ == n;
                        if i < k {
                            assert(exists|i: int| 0 <= i < k && (#[trigger] names@[i])@ == n);
                        }
                    }
                    if exists|i: int| 0 <= i < k && (#[trigger] names@[i])@ == n {
                        let i = choose|i: int| 0 <= i < k && (#[trigger] names@[i])@ == n;
                        assert(exists|i: int| 0 <= i < k + 1 && (#[trigger] names@[i])@ == n);
                    }
                }
                assert forall|i: int| k + 1 <= i < names@.len() implies #[trigger] resolved@.dom().contains(names@[i]@) && resolved@[names@[i]@] == done[names@[i]@] by {
                    assert(names@[i]@ != names@[k as int]@);
                }
            }
            k += 1;
        }
        proof {
            assert forall|n: Seq<char>| #[trigger] base@.dom().contains(n) <==> (orig.dom().contains(n) && resolvable(orig, n) && all_indexed(resolution(orig, n))) by {
                if done.dom().contains(n) {
                    let f = choose|f: nat| #[trigger] resolve(orig, n, f) == Some(cuboids_view(done[n].cuboids@));
                    lemma_resolution(orig, n, f, cuboids_view(done[n].cuboids@));
                    let i = choose|i: int| 0 <= i < names@.len() && (#[trigger] names@[i])@ == n;
                }
            }
            assert forall|n: Seq<char>| #[trigger] base@.dom().contains(n) implies base@[n] == index_cuboids(resolution(orig, n)) by {
                let i = choose|i: int| 0 <= i < k && (#[trigger] names@[i])@ == n;
                let f = choose|f: nat| #[trigger] resolve(orig, n, f) == Some(cuboids_view(done[n].cuboids@));
                lemma_resolution(orig, n, f, cuboids_view(done[n].cuboids@));
            }
        }
        base
    }
}

} // verus!
