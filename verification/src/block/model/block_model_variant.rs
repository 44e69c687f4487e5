//! The model variants of each block type, and which of them a block's state selects.
use vstd::prelude::*;

use super::quad_block_model::QuadIndexBlockModelRef;
use crate::block::block_state::{value_eq, Value, ValueView};
use crate::block::{Block, PropertiesOptional, FACE_DIRECTIONS_NUM};
use crate::name_map::NameMap;
use crate::utils::vec_into_boxed_slice;

verus! {

/// One model variant of a block type: its quads by face, the state entries that select it,
/// whether it adds to other variants (`compound`) or stands alone, and the property
/// overrides it brings.
pub struct BlockModelVariant {
    pub parent_model: String,
    pub quad_indices_per_face: [Box<[u16]>; FACE_DIRECTIONS_NUM],
    pub texture_indices_per_face: [Box<[u16]>; FACE_DIRECTIONS_NUM],
    pub quad_culling_per_face: [Box<[bool]>; FACE_DIRECTIONS_NUM],
    pub required_state: Vec<(String, Value)>,
    pub compound: bool,
    pub properties: PropertiesOptional,
}

/// Whether a state gives the entry's name the entry's value.
pub open spec fn entry_matches(state: Map<Seq<char>, ValueView>, entry: (String, Value)) -> bool {
    state.dom().contains(entry.0@) && state[entry.0@] == entry.1@
}

/// The number of entries of `required` that `state` matches.
pub open spec fn match_count(state: Map<Seq<char>, ValueView>, required: Seq<(String, Value)>) -> nat
    decreases required.len(),
{
    if required.len() == 0 {
        0
    } else {
        match_count(state, required.drop_last()) + if entry_matches(
            state,
            required[required.len() - 1],
        ) {
            1nat
        } else {
            0nat
        }
    }
}

/// Whether a variant applies to a state: it requires nothing, or the state matches one of
/// its required entries.
pub open spec fn variant_applies(variant: BlockModelVariant, state: Map<Seq<char>, ValueView>) -> bool {
    variant.required_state@.len() == 0 || match_count(state, variant.required_state@) > 0
}

/// The position of the first variant that stands alone and applies to the state.
pub open spec fn first_standalone(
    variants: Seq<BlockModelVariant>,
    state: Map<Seq<char>, ValueView>,
) -> Option<int>
    decreases variants.len(),
{
    if variants.len() == 0 {
        None
    } else {
        match first_standalone(variants.drop_last(), state) {
            Some(i) => Some(i),
            None => {
                let last = variants[variants.len() - 1];
                if !last.compound && variant_applies(last, state) {
                    Some(variants.len() - 1)
                } else {
                    None
                }
            },
        }
    }
}

/// The positions that the compound variants contribute, in order: a compound variant that
/// requires nothing once, and any other as many times as the state matches its entries.
pub open spec fn compound_copies(
    variants: Seq<BlockModelVariant>,
    state: Map<Seq<char>, ValueView>,
) -> Seq<int>
    decreases variants.len(),
{
    if variants.len() == 0 {
        Seq::empty()
    } else {
        let i = variants.len() - 1;
        let last = variants[i];
        compound_copies(variants.drop_last(), state) + if !last.compound {
            Seq::<int>::empty()
        } else if last.required_state@.len() == 0 {
            seq![i]
        } else {
            Seq::new(match_count(state, last.required_state@), |k: int| i)
        }
    }
}

/// The positions of the variants whose quads a block in `state` is drawn with: the first
/// applying stand-alone variant alone, or else the contributions of the compound variants.
pub open spec fn quad_model_selection(
    variants: Seq<BlockModelVariant>,
    state: Map<Seq<char>, ValueView>,
) -> Seq<int> {
    match first_standalone(variants, state) {
        Some(k) => seq![k],
        None => compound_copies(variants, state),
    }
}

/// The positions of the variants whose properties a block in `state` takes: the first
/// applying stand-alone variant, or none.
pub open spec fn model_variant_selection(
    variants: Seq<BlockModelVariant>,
    state: Map<Seq<char>, ValueView>,
) -> Seq<int> {
    match first_standalone(variants, state) {
        Some(k) => seq![k],
        None => Seq::empty(),
    }
}

/// Whether a borrowed quad model shows the quads of `variant`.
pub open spec fn refers_to(model: QuadIndexBlockModelRef, variant: BlockModelVariant) -> bool {
    &&& *model.quad_indices_per_face == variant.quad_indices_per_face
    &&& *model.texture_indices_per_face == variant.texture_indices_per_face
    &&& *model.quad_culling_per_face == variant.quad_culling_per_face
}

/// The model variants of each block type, by the type's name.
pub struct BlockModelVariants {
    models: NameMap<Box<[BlockModelVariant]>>,
}

impl View for BlockModelVariants {
    type V = Map<Seq<char>, Box<[BlockModelVariant]>>;

    closed spec fn view(&self) -> Map<Seq<char>, Box<[BlockModelVariant]>> {
        self.models@
    }
}

/// Counts the entries of `required` that `block` matches, stopping at the first match when
/// `stop_at_first` is set.
fn count_matches(block: &Block, required: &Vec<(String, Value)>, stop_at_first: bool) -> (r: usize)
    ensures
        stop_at_first ==> (r > 0 <==> match_count(block@.2, required@) > 0),
        !stop_at_first ==> r == match_count(block@.2, required@),
{
    let mut count: usize = 0;
    let mut j: usize = 0;
    while j < required.len()
        invariant
            j <= required@.len(),
            count == match_count(block@.2, required@.take(j as int)),
            count <= j,
            stop_at_first ==> count == 0,
        decreases required@.len() - j,
    {
        proof {
            assert(required@.take(j + 1).drop_last() =~= required@.take(j as int));
        }
        let entry = &required[j];
        match block.block_state.get(entry.0.as_str()) {
            Some(value) => {
                if value_eq(value, &entry.1) {
                    count = count + 1;
                    if stop_at_first {
                        proof {
                            lemma_match_count_monotone(block@.2, required@, j + 1);
                        }
                        return count;
                    }
                }
            },
            None => {},
        }
        j += 1;
    }
    proof {
        assert(required@.take(required@.len() as int) =~= required@);
    }
    count
}

proof fn lemma_match_count_monotone(
    state: Map<Seq<char>, ValueView>,
    required: Seq<(String, Value)>,
    n: int,
)
    requires
        0 <= n <= required.len(),
    ensures
        match_count(state, required.take(n)) <= match_count(state, required),
    decreases required.len() - n,
{
    if n < required.len() {
        lemma_match_count_monotone(state, required, n + 1);
        assert(required.take(n + 1).drop_last() =~= required.take(n));
    } else {
        assert(required.take(n) =~= required);
    }
}

impl BlockModelVariants {
    /// An empty registry.
    pub fn new() -> (r: Self)
        ensures
            r@ == Map::<Seq<char>, Box<[BlockModelVariant]>>::empty(),
    {
        Self { models: NameMap::new() }
    }

    /// Registers the variants of the type `block_name`, replacing earlier ones.
    pub fn insert(&mut self, block_name: String, model_variants: Box<[BlockModelVariant]>)
        ensures
            final(self)@ == old(self)@.insert(block_name@, model_variants),
    {
        self.models.insert(block_name, model_variants);
    }

    /// The variants whose quads draw `block`, or `None` when its type has no variants.
    pub fn get_quad_block_models<'a>(&'a self, block: &Block) -> (r: Option<
        Box<[QuadIndexBlockModelRef<'a>]>,
    >)
        ensures
            r is Some <==> self@.dom().contains(block@.1),
            r matches Some(models) ==> {
                let vs = self@[block@.1]@;
                let sel = quad_model_selection(vs, block@.2);
                &&& models@.len() == sel.len()
                &&& forall|k: int|
                    0 <= k < sel.len() ==> 0 <= sel[k] < vs.len() && refers_to(
                        #[trigger] models@[k],
                        vs[sel[k]],
                    )
            },
    {
        let variants = match self.models.get(block.name()) {
            Some(v) => v,
            None => {
                return None;
            },
        };
        let ghost vs = variants@;
        let ghost state = block@.2;
        let mut models: Vec<QuadIndexBlockModelRef<'a>> = Vec::new();
        let mut i: usize = 0;
        while i < variants.len()
            invariant
                i <= vs.len(),
                vs == variants@,
                vs == self@[block@.1]@,
                self@.dom().contains(block@.1),
                state == block@.2,
                first_standalone(vs.take(i as int), state) is None,
                models@.len() == compound_copies(vs.take(i as int), state).len(),
                forall|k: int|
                    0 <= k < models@.len() ==> 0 <= #[trigger] compound_copies(
                        vs.take(i as int),
                        state,
                    )[k] < i && refers_to(
                        models@[k],
                        vs[compound_copies(vs.take(i as int), state)[k]],
                    ),
            decreases vs.len() - i,
        {
            let variant = &variants[i];
            let model = QuadIndexBlockModelRef {
                quad_indices_per_face: &variant.quad_indices_per_face,
                texture_indices_per_face: &variant.texture_indices_per_face,
                quad_culling_per_face: &variant.quad_culling_per_face,
            };
            proof {
                assert(vs.take(i + 1).drop_last() =~= vs.take(i as int));
                assert(vs.take(i + 1)[i as int] == vs[i as int]);
            }
            if variant.required_state.len() == 0 || !variant.compound {
                let applies = variant.required_state.len() == 0 || count_matches(
                    block,
                    &variant.required_state,
                    true,
                ) > 0;
                if applies && !variant.compound {
                    proof {
                        lemma_first_standalone_prefix(vs, state, i as int);
                    }
                    let mut single: Vec<QuadIndexBlockModelRef<'a>> = Vec::new();
                    single.push(model);
                    return Some(vec_into_boxed_slice(single));
                }
                if applies {
                    models.push(model);
                }
            } else {
                let count = count_matches(block, &variant.required_state, false);
                let ghost before = models@;
                let mut c: usize = 0;
                while c < count
                    invariant
                        c <= count,
                        models@.len() == before.len() + c,
                        forall|k: int| 0 <= k < before.len() ==> models@[k] == before[k],
                        forall|k: int|
                            before.len() <= k < models@.len() ==> #[trigger] models@[k] == model,
                    decreases count - c,
                {
                    models.push(model);
                    c += 1;
                }
            }
            proof {
                let prev = compound_copies(vs.take(i as int), state);
                let next = compound_copies(vs.take(i + 1), state);
                assert forall|k: int| 0 <= k < models@.len() implies 0 <= #[trigger] next[k] < i + 1
                    && refers_to(models@[k], vs[next[k]]) by {
                    if k < prev.len() {
                        assert(next[k] == prev[k]);
                    } else {
                        assert(next[k] == i);
                    }
                }
            }
            i += 1;
        }
        proof {
            assert(vs.take(vs.len() as int) =~= vs);
        }
        Some(vec_into_boxed_slice(models))
    }

    /// The variant whose properties `block` takes, if any, as a list of at most one; `None`
    /// when its type has no variants.
    pub fn get_model_variants<'a>(&'a self, block: &Block) -> (r: Option<
        Box<[&'a BlockModelVariant]>,
    >)
        ensures
            r is Some <==> self@.dom().contains(block@.1),
            r matches Some(selected) ==> {
                let vs = self@[block@.1]@;
                let sel = model_variant_selection(vs, block@.2);
                &&& selected@.len() == sel.len()
                &&& forall|k: int|
                    0 <= k < sel.len() ==> 0 <= sel[k] < vs.len() && *#[trigger] selected@[k]
                        == vs[sel[k]]
            },
    {
        let variants = match self.models.get(block.name()) {
            Some(v) => v,
            None => {
                return None;
            },
        };
        let ghost vs = variants@;
        let ghost state = block@.2;
        let mut i: usize = 0;
        while i < variants.len()
            invariant
                i <= vs.len(),
                vs == variants@,
                vs == self@[block@.1]@,
                self@.dom().contains(block@.1),
                state == block@.2,
                first_standalone(vs.take(i as int), state) is None,
            decreases vs.len() - i,
        {
            let variant = &variants[i];
            proof {
                assert(vs.take(i + 1).drop_last() =~= vs.take(i as int));
                assert(vs.take(i + 1)[i as int] == vs[i as int]);
            }
            if !variant.compound {
                let applies = variant.required_state.len() == 0 || count_matches(
                    block,
                    &variant.required_state,
                    true,
                ) > 0;
                if applies {
                    proof {
                        lemma_first_standalone_prefix(vs, state, i as int);
                    }
                    let mut single: Vec<&'a BlockModelVariant> = Vec::new();
                    single.push(variant);
                    return Some(vec_into_boxed_slice(single));
                }
            }
            i += 1;
        }
        proof {
            assert(vs.take(vs.len() as int) =~= vs);
        }
        Some(vec_into_boxed_slice(Vec::new()))
    }
}

/// When no variant before `i` stands alone and applies, and variant `i` does, it is the first.
proof fn lemma_first_standalone_prefix(
    variants: Seq<BlockModelVariant>,
    state: Map<Seq<char>, ValueView>,
    i: int,
)
    requires
        0 <= i < variants.len(),
        first_standalone(variants.take(i), state) is None,
        !variants[i].compound,
        variant_applies(variants[i], state),
    ensures
        first_standalone(variants, state) == Some(i),
    decreases variants.len() - i,
{
    assert(variants.take(i + 1).drop_last() =~= variants.take(i));
    assert(first_standalone(variants.take(i + 1), state) == Some(i));
    lemma_first_standalone_extends(variants, state, i + 1);
}

proof fn lemma_first_standalone_extends(
    variants: Seq<BlockModelVariant>,
    state: Map<Seq<char>, ValueView>,
    n: int,
)
    requires
        0 <= n <= variants.len(),
        first_standalone(variants.take(n), state) is Some,
    ensures
        first_standalone(variants, state) == first_standalone(variants.take(n), state),
    decreases variants.len() - n,
{
    if n < variants.len() {
        assert(variants.take(n + 1).drop_last() =~= variants.take(n));
        lemma_first_standalone_extends(variants, state, n + 1);
    } else {
        assert(variants.take(n) =~= variants);
    }
}

/// Whether a variant stands alone and applies to the state.
pub open spec fn standalone_applies(variant: BlockModelVariant, state: Map<Seq<char>, ValueView>) -> bool {
    !variant.compound && variant_applies(variant, state)
}

proof fn lemma_first_standalone_is_first(variants: Seq<BlockModelVariant>, state: Map<Seq<char>, ValueView>)
    ensures
        first_standalone(variants, state) matches Some(k) ==> 0 <= k < variants.len()
            && standalone_applies(variants[k], state)
            && forall|j: int| 0 <= j < k ==> !standalone_applies(#[trigger] variants[j], state),
        first_standalone(variants, state) is None ==> forall|j: int|
            0 <= j < variants.len() ==> !standalone_applies(#[trigger] variants[j], state),
    decreases variants.len(),
{
    if variants.len() > 0 {
        let prefix = variants.drop_last();
        lemma_first_standalone_is_first(prefix, state);
        assert forall|j: int| 0 <= j < prefix.len() implies prefix[j] == variants[j] by {}
    }
}

proof fn lemma_compound_copies(variants: Seq<BlockModelVariant>, state: Map<Seq<char>, ValueView>)
    ensures
        forall|k: int|
            0 <= k < compound_copies(variants, state).len() ==> 0 <= #[trigger] compound_copies(variants, state)[k]
                < variants.len() && variants[compound_copies(variants, state)[k]].compound && variant_applies(
                variants[compound_copies(variants, state)[k]],
                state,
            ),
        forall|a: int, b: int|
            0 <= a <= b < compound_copies(variants, state).len() ==> #[trigger] compound_copies(variants, state)[a]
                <= #[trigger] compound_copies(variants, state)[b],
        forall|j: int|
            0 <= j < variants.len() && (#[trigger] variants[j]).compound && variant_applies(variants[j], state)
                ==> compound_copies(variants, state).contains(j),
    decreases variants.len(),
{
    if variants.len() > 0 {
        let i = variants.len() - 1;
        let prefix = variants.drop_last();
        let last = variants[i];
        lemma_compound_copies(prefix, state);
        let prev = compound_copies(prefix, state);
        let add = if !last.compound {
            Seq::<int>::empty()
        } else if last.required_state@.len() == 0 {
            seq![i]
        } else {
            Seq::new(match_count(state, last.required_state@), |k: int| i)
        };
        let all = compound_copies(variants, state);
        assert(all == prev + add);
        assert forall|j: int| 0 <= j < prefix.len() implies prefix[j] == variants[j] by {}
        assert forall|k: int| 0 <= k < add.len() implies add[k] == i by {}
        assert forall|k: int| 0 <= k < all.len() implies 0 <= #[trigger] all[k] < variants.len()
            && variants[all[k]].compound && variant_applies(variants[all[k]], state) by {
            if k < prev.len() {
                assert(all[k] == prev[k]);
            } else {
                assert(all[k] == add[k - prev.len()]);
                if !(last.required_state@.len() == 0) {
                    assert(add.len() == match_count(state, last.required_state@));
                }
            }
        }
        assert forall|a: int, b: int| 0 <= a <= b < all.len() implies #[trigger] all[a] <= #[trigger] all[b] by {
            if b < prev.len() {
                assert(all[a] == prev[a] && all[b] == prev[b]);
            } else if a < prev.len() {
                assert(all[a] == prev[a]);
                assert(all[b] == add[b - prev.len()]);
            } else {
                assert(all[a] == add[a - prev.len()] && all[b] == add[b - prev.len()]);
            }
        }
        assert forall|j: int|
            0 <= j < variants.len() && (#[trigger] variants[j]).compound && variant_applies(variants[j], state)
                implies all.contains(j) by {
            if j < i {
                assert(prefix[j] == variants[j]);
                let k = choose|k: int| 0 <= k < prev.len() && prev[k] == j;
                assert(all[k] == j);
            } else {
                assert(add.len() > 0);
                assert(all[prev.len() as int] == add[0]);
            }
        }
    }
}

/// When a stand-alone variant applies to the state, the block is drawn with that variant
/// alone, the first such one in declaration order, and takes its properties from it alone;
/// no compound variant contributes.
pub proof fn lemma_standalone_variant_draws_alone(
    variants: Seq<BlockModelVariant>,
    state: Map<Seq<char>, ValueView>,
    k: int,
)
    requires
        0 <= k < variants.len(),
        !variants[k].compound,
        variant_applies(variants[k], state),
        forall|j: int| 0 <= j < k ==> (#[trigger] variants[j]).compound || !variant_applies(variants[j], state),
    ensures
        quad_model_selection(variants, state) == seq![k],
        model_variant_selection(variants, state) == seq![k],
{
    lemma_first_standalone_is_first(variants, state);
    match first_standalone(variants, state) {
        Some(m) => {
            if m < k {
                assert(standalone_applies(variants[m], state));
            } else if m > k {
                assert(!standalone_applies(variants[k], state));
            }
        },
        None => {
            assert(!standalone_applies(variants[k], state));
        },
    }
}

/// When no stand-alone variant applies to the state, the block takes no variant's properties
/// and is drawn with the compound variants that apply, in declaration order: each selected
/// variant is compound and applies, and every compound variant that applies is selected.
pub proof fn lemma_compound_variants_draw_together(
    variants: Seq<BlockModelVariant>,
    state: Map<Seq<char>, ValueView>,
)
    requires
        forall|j: int| 0 <= j < variants.len() ==> (#[trigger] variants[j]).compound || !variant_applies(variants[j], state),
    ensures
        model_variant_selection(variants, state) == Seq::<int>::empty(),
        forall|k: int|
            0 <= k < quad_model_selection(variants, state).len() ==> 0 <= #[trigger] quad_model_selection(variants, state)[k]
                < variants.len() && variants[quad_model_selection(variants, state)[k]].compound && variant_applies(
                variants[quad_model_selection(variants, state)[k]],
                state,
            ),
        forall|a: int, b: int|
            0 <= a <= b < quad_model_selection(variants, state).len() ==> #[trigger] quad_model_selection(variants, state)[a]
                <= #[trigger] quad_model_selection(variants, state)[b],
        forall|j: int|
            0 <= j < variants.len() && (#[trigger] variants[j]).compound && variant_applies(variants[j], state)
                ==> quad_model_selection(variants, state).contains(j),
{
    lemma_first_standalone_is_first(variants, state);
    if first_standalone(variants, state) is Some {
        let m = first_standalone(variants, state).unwrap();
        assert(standalone_applies(variants[m], state));
        assert(variants[m].compound || !variant_applies(variants[m], state));
    }
    lemma_compound_copies(variants, state);
}

} // verus!
