//! The block registry: block types by id and by name.
use vstd::prelude::*;

use super::block_state::{BlockState, ValueView};
use super::model::block_model_variant::{BlockModelVariant, BlockModelVariants};
use super::{BlockId, BlockInformation, Properties, FACE_DIRECTIONS_NUM};
use crate::name_map::NameMap;
use crate::utils::vec_into_boxed_slice;

verus! {

/// Block types by name.
pub struct BlockMap(NameMap<BlockInformation>);

impl View for BlockMap {
    type V = Map<Seq<char>, BlockInformation>;

    closed spec fn view(&self) -> Map<Seq<char>, BlockInformation> {
        self.0@
    }
}

impl BlockMap {
    /// An empty map.
    pub fn new() -> (r: Self)
        ensures
            r@ == Map::<Seq<char>, BlockInformation>::empty(),
    {
        Self(NameMap::new())
    }

    /// Registers `block` under `block_name`, replacing any earlier type of that name.
    pub fn insert(&mut self, block_name: String, block: BlockInformation)
        ensures
            final(self)@ == old(self)@.insert(block_name@, block),
    {
        self.0.insert(block_name, block);
    }

    /// The type named `block_name`, if any.
    pub fn get(&self, block_name: &str) -> (r: Option<&BlockInformation>)
        ensures
            r is Some <==> self@.dom().contains(block_name@),
            r matches Some(b) ==> *b == self@[block_name@],
    {
        self.0.get(block_name)
    }
}

/// Block types by id: the type with id `i` stands at position `i`.
pub struct BlockList(Vec<BlockInformation>);

impl View for BlockList {
    type V = Seq<BlockInformation>;

    closed spec fn view(&self) -> Seq<BlockInformation> {
        self.0@
    }
}

impl BlockList {
    /// An empty list.
    pub fn new() -> (r: Self)
        ensures
            r@ == Seq::<BlockInformation>::empty(),
    {
        Self(Vec::new())
    }

    /// Appends a type.
    pub fn push(&mut self, block: BlockInformation)
        ensures
            final(self)@ == old(self)@.push(block),
    {
        self.0.push(block);
    }

    /// The type at position `id`, if any.
    pub fn get(&self, id: BlockId) -> (r: Option<&BlockInformation>)
        ensures
            r is Some <==> (id as int) < self@.len(),
            r matches Some(b) ==> *b == self@[id as int],
    {
        if (id as usize) < self.0.len() {
            Some(&self.0[id as usize])
        } else {
            None
        }
    }

    /// The number of types.
    pub fn len(&self) -> (r: usize)
        ensures
            r == self@.len(),
    {
        self.0.len()
    }

    /// The type at position `index`, which must exist.
    pub fn index(&self, index: BlockId) -> (r: &BlockInformation)
        requires
            (index as int) < self@.len(),
        ensures
            *r == self@[index as int],
    {
        &self.0[index as usize]
    }
}

/// What a block type is: its id, name, default state and base properties.
pub open spec fn information_view(i: BlockInformation) -> (BlockId, Seq<char>, Map<Seq<char>, ValueView>, Properties) {
    (i.spec_id(), i.spec_name(), i.spec_default_state(), i.spec_base_properties())
}

/// The block types by name and by id, with their model variants.
pub struct BlockRegistry {
    pub block_map: BlockMap,
    pub block_list: BlockList,
    pub block_model_variants: BlockModelVariants,
}

impl BlockRegistry {
    /// No block types.
    pub fn new() -> (r: Self)
        ensures
            r.block_map@ == Map::<Seq<char>, BlockInformation>::empty(),
            r.block_list@ == Seq::<BlockInformation>::empty(),
            r.block_model_variants@ == Map::<Seq<char>, Box<[BlockModelVariant]>>::empty(),
    {
        BlockRegistry { block_map: BlockMap::new(), block_list: BlockList::new(), block_model_variants: BlockModelVariants::new() }
    }

    /// Registers a block type under the next id, which is the number of types registered
    /// before it: it is appended to the list, put in the map under its name, and its model
    /// variants are put under its name too. A later type of the same name replaces the
    /// earlier one in the map and the variants, but both keep their places in the list.
    pub fn register_block(
        &mut self,
        name: String,
        default_state: BlockState,
        base_properties: Properties,
        variants: Box<[BlockModelVariant]>,
    ) -> (r: BlockId)
        requires
            old(self).block_list@.len() < u16::MAX,
        ensures
            r as int == old(self).block_list@.len(),
            final(self).block_list@.len() == old(self).block_list@.len() + 1,
            forall|i: int| 0 <= i < old(self).block_list@.len() ==> #[trigger] final(self).block_list@[i] == old(self).block_list@[i],
            information_view(final(self).block_list@[r as int]) == (r, name@, default_state@, base_properties),
            final(self).block_map@.dom() == old(self).block_map@.dom().insert(name@),
            forall|k: Seq<char>| k != name@ && #[trigger] old(self).block_map@.dom().contains(k) ==> final(self).block_map@[k] == old(self).block_map@[k],
            information_view(final(self).block_map@[name@]) == (r, name@, default_state@, base_properties),
            final(self).block_model_variants@ == old(self).block_model_variants@.insert(name@, variants),
    {
        let id = self.block_list.len() as BlockId;
        let info = BlockInformation::new(id, name.as_str(), default_state, base_properties);
        self.block_map.insert(name.clone(), info.clone_information());
        self.block_model_variants.insert(name, variants);
        self.block_list.push(info);
        id
    }
}

/// The lists of `faces`, one after the other.
pub open spec fn concat_faces<Q>(faces: Seq<Seq<Q>>) -> Seq<Q>
    decreases faces.len(),
{
    if faces.len() == 0 {
        Seq::empty()
    } else {
        concat_faces(faces.drop_last()) + faces.last()
    }
}

/// The quads of a model by face direction.
pub open spec fn faces_view<Q>(quads_per_face: [Box<[Q]>; FACE_DIRECTIONS_NUM]) -> Seq<Seq<Q>> {
    Seq::new(6, |d: int| quads_per_face@[d]@)
}

/// The positions `start`, `start + 1`, ... of `len` consecutive quads.
pub open spec fn index_run(start: nat, len: nat) -> Seq<u16> {
    Seq::new(len, |j: int| (start + j) as u16)
}

/// Appends the quads of a model to the global quad list, direction by direction, and returns
/// for each direction the positions that its quads took there.
pub fn register_quads<Q>(quads: &mut Vec<Q>, quads_per_face: [Box<[Q]>; FACE_DIRECTIONS_NUM]) -> (r: [Box<[u16]>; FACE_DIRECTIONS_NUM])
    requires
        old(quads)@.len() + concat_faces(faces_view(quads_per_face)).len() < u16::MAX,
    ensures
        final(quads)@ == old(quads)@ + concat_faces(faces_view(quads_per_face)),
        forall|d: int|
            0 <= d < 6 ==> (#[trigger] r@[d])@ == index_run(
                old(quads)@.len() + concat_faces(faces_view(quads_per_face).take(d)).len(),
                quads_per_face@[d]@.len(),
            ),
{
    let ghost faces = faces_view(quads_per_face);
    let ghost base = quads@.len();
    let mut remaining = quads_per_face;
    let mut indices: [Box<[u16]>; FACE_DIRECTIONS_NUM] = [
        vec_into_boxed_slice(Vec::new()),
        vec_into_boxed_slice(Vec::new()),
        vec_into_boxed_slice(Vec::new()),
        vec_into_boxed_slice(Vec::new()),
        vec_into_boxed_slice(Vec::new()),
        vec_into_boxed_slice(Vec::new()),
    ];
    proof {
        assert(faces.take(0) =~= Seq::<Seq<Q>>::empty());
        assert(faces.take(6) =~= faces);
        lemma_concat_faces_prefix(faces, 6);
    }
    let mut d: usize = 0;
    while d < FACE_DIRECTIONS_NUM
        invariant
            d <= 6,
            faces.len() == 6,
            forall|e: int| d <= e < 6 ==> (#[trigger] remaining@[e])@ == faces[e],
            quads@ == old(quads)@ + concat_faces(faces.take(d as int)),
            base == old(quads)@.len(),
            base + concat_faces(faces).len() < u16::MAX,
            concat_faces(faces.take(d as int)).len() <= concat_faces(faces).len(),
            forall|k: int| 0 <= k <= 6 ==> concat_faces(#[trigger] faces.take(k)).len() <= concat_faces(faces).len(),
            forall|e: int|
                0 <= e < d ==> (#[trigger] indices@[e])@ == index_run(
                    base + concat_faces(faces.take(e)).len(),
                    faces[e].len(),
                ),
        decreases 6 - d,
    {
        let mut taken: Box<[Q]> = vec_into_boxed_slice(Vec::new());
        std::mem::swap(&mut taken, &mut remaining[d]);
        let mut face_quads = taken.into_vec();
        let start = quads.len();
        proof {
            assert(faces.take(d as int + 1).drop_last() =~= faces.take(d as int));
            assert(concat_faces(faces.take(d as int + 1)) == concat_faces(faces.take(d as int)) + faces[d as int]);
            assert(concat_faces(faces.take(d as int + 1)).len() <= concat_faces(faces).len());
        }
        quads.append(&mut face_quads);
        let end = quads.len();
        let mut run: Vec<u16> = Vec::new();
        let mut i: usize = start;
        while i < end
            invariant
                start <= i <= end,
                end < u16::MAX,
                run@ == index_run(start as nat, (i - start) as nat),
            decreases end - i,
        {
            proof {
                assert(run@.push(i as u16) =~= index_run(start as nat, (i + 1 - start) as nat));
            }
            run.push(i as u16);
            i += 1;
        }
        indices[d] = vec_into_boxed_slice(run);
        proof {
            assert(quads@ =~= old(quads)@ + concat_faces(faces.take(d as int + 1)));
        }
        d += 1;
    }
    indices
}

proof fn lemma_concat_faces_prefix<Q>(faces: Seq<Seq<Q>>, n: int)
    requires
        0 <= n <= faces.len(),
    ensures
        forall|k: int| 0 <= k <= n ==> concat_faces(#[trigger] faces.take(k)).len() <= concat_faces(faces.take(n)).len(),
    decreases n,
{
    if n > 0 {
        lemma_concat_faces_prefix(faces, n - 1);
        assert(faces.take(n).drop_last() =~= faces.take(n - 1));
    }
}

} // verus!
