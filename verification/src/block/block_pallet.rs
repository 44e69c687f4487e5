//! The palette of a chunk part: the distinct blocks it holds, each with a use count, under
//! small ids that are reused once freed.
use vstd::prelude::*;

use super::asset_loader::BlockList;
use super::block_state::{BlockState, ValueView};
use super::model::block_model_variant::BlockModelVariants;
use super::{block_properties, Block, BlockView};
use crate::chunk_position::CHUNK_SIZE;

verus! {

/// The id of an entry of a palette.
pub type BlockPalletItemId = u16;

/// A block and the number of positions that use it.
pub struct BlockPalletItem {
    pub block: Block,
    pub count: BlockPalletItemId,
}

/// What an entry is: the block and its count.
pub open spec fn item_view(item: BlockPalletItem) -> (BlockView, u16) {
    (item.block@, item.count)
}

/// What a slot is: empty, or an entry.
pub open spec fn slot_view(slot: Option<BlockPalletItem>) -> Option<(BlockView, u16)> {
    match slot {
        Some(item) => Some(item_view(item)),
        None => None,
    }
}

/// Slots by id; an empty slot is free for reuse.
pub struct BlockPallet {
    items: Vec<Option<BlockPalletItem>>,
}

impl View for BlockPallet {
    type V = Seq<Option<(BlockView, u16)>>;

    closed spec fn view(&self) -> Seq<Option<(BlockView, u16)>> {
        self.items@.map_values(|slot: Option<BlockPalletItem>| slot_view(slot))
    }
}

/// Whether a slot holds an entry with a block equal to `block`.
pub open spec fn holds_block(slot: Option<(BlockView, u16)>, block: BlockView) -> bool {
    match slot {
        Some(e) => e.0 == block,
        None => false,
    }
}

/// Whether a slot holds an entry whose count is zero.
pub open spec fn zero_count(slot: Option<(BlockView, u16)>) -> bool {
    match slot {
        Some(e) => e.1 == 0,
        None => false,
    }
}

/// The first free slot, if any.
pub open spec fn first_free(slots: Seq<Option<(BlockView, u16)>>) -> Option<int> {
    if exists|i: int| 0 <= i < slots.len() && slots[i] is None {
        Some(choose|i: int| 0 <= i < slots.len() && slots[i] is None && forall|j: int| 0 <= j < i ==> slots[j] is Some)
    } else {
        None
    }
}

/// Whether the palette can take one more entry without running out of ids.
pub open spec fn has_room(slots: Seq<Option<(BlockView, u16)>>) -> bool {
    first_free(slots) is Some || slots.len() + 1 < u16::MAX
}

/// The id that the next new entry gets: the first free slot, or a slot appended at the end.
pub open spec fn next_id(slots: Seq<Option<(BlockView, u16)>>) -> int {
    match first_free(slots) {
        Some(i) => i,
        None => slots.len() as int,
    }
}

/// The slots after storing `item` under `next_id`.
pub open spec fn with_new_entry(slots: Seq<Option<(BlockView, u16)>>, item: (BlockView, u16)) -> Seq<
    Option<(BlockView, u16)>,
> {
    match first_free(slots) {
        Some(i) => slots.update(i, Some(item)),
        None => slots.push(Some(item)),
    }
}

/// The first id whose entry holds a block equal to `block`.
pub open spec fn find_block(slots: Seq<Option<(BlockView, u16)>>, block: BlockView) -> Option<int> {
    if exists|i: int| 0 <= i < slots.len() && holds_block(slots[i], block) {
        Some(
            choose|i: int|
                0 <= i < slots.len() && holds_block(slots[i], block) && forall|j: int|
                    0 <= j < i ==> !holds_block(slots[j], block),
        )
    } else {
        None
    }
}

/// The slots after dropping every entry whose count is zero: such an entry in the last slot
/// is removed with its slot, any other one leaves its slot free.
pub open spec fn cleaned(slots: Seq<Option<(BlockView, u16)>>) -> Seq<Option<(BlockView, u16)>> {
    let freed = slots.map_values(
        |s: Option<(BlockView, u16)>|
            if zero_count(s) {
                None
            } else {
                s
            },
    );
    if slots.len() > 0 && zero_count(slots[slots.len() - 1]) {
        freed.drop_last()
    } else {
        freed
    }
}

proof fn lemma_first_free(slots: Seq<Option<(BlockView, u16)>>)
    ensures
        first_free(slots) matches Some(i) ==> 0 <= i < slots.len() && slots[i] is None && forall|
            j: int,
        | 0 <= j < i ==> slots[j] is Some,
        first_free(slots) is None ==> forall|j: int| 0 <= j < slots.len() ==> slots[j] is Some,
{
    if exists|i: int| 0 <= i < slots.len() && slots[i] is None {
        let i = choose|i: int| 0 <= i < slots.len() && slots[i] is None;
        lemma_least_free(slots, i);
    }
}

proof fn lemma_least_free(slots: Seq<Option<(BlockView, u16)>>, i: int)
    requires
        0 <= i < slots.len(),
        slots[i] is None,
    ensures
        exists|k: int| 0 <= k < slots.len() && slots[k] is None && forall|j: int| 0 <= j < k ==> slots[j] is Some,
    decreases i,
{
    if exists|k: int| 0 <= k < i && slots[k] is None {
        let k = choose|k: int| 0 <= k < i && slots[k] is None;
        lemma_least_free(slots, k);
    } else {
        assert(forall|j: int| 0 <= j < i ==> slots[j] is Some);
    }
}

proof fn lemma_first_free_is_first(slots: Seq<Option<(BlockView, u16)>>, i: int)
    requires
        0 <= i < slots.len(),
        slots[i] is None,
        forall|j: int| 0 <= j < i ==> slots[j] is Some,
    ensures
        first_free(slots) == Some(i),
{
    let k = choose|k: int| 0 <= k < slots.len() && slots[k] is None && forall|j: int| 0 <= j < k ==> slots[j] is Some;
    assert(exists|k: int| 0 <= k < slots.len() && slots[k] is None && forall|j: int| 0 <= j < k ==> slots[j] is Some);
    if k < i {
        assert(slots[k] is Some);
    } else if k > i {
        assert(slots[i] is Some);
    }
}

proof fn lemma_first_holder_exists(slots: Seq<Option<(BlockView, u16)>>, block: BlockView, n: int)
    requires
        0 <= n <= slots.len(),
        exists|i: int| 0 <= i < n && holds_block(slots[i], block),
    ensures
        exists|i: int|
            0 <= i < n && holds_block(slots[i], block) && forall|j: int| 0 <= j < i ==> !holds_block(slots[j], block),
    decreases n,
{
    if exists|i: int| 0 <= i < n - 1 && holds_block(slots[i], block) {
        lemma_first_holder_exists(slots, block, n - 1);
    } else {
        assert(holds_block(slots[n - 1], block));
        assert(forall|j: int| 0 <= j < n - 1 ==> !holds_block(slots[j], block));
    }
}

proof fn lemma_find_block_holds(slots: Seq<Option<(BlockView, u16)>>, block: BlockView)
    ensures
        find_block(slots, block) matches Some(i) ==> 0 <= i < slots.len() && holds_block(slots[i], block),
{
    if exists|i: int| 0 <= i < slots.len() && holds_block(slots[i], block) {
        lemma_first_holder_exists(slots, block, slots.len() as int);
    }
}

proof fn lemma_find_block_is_first(slots: Seq<Option<(BlockView, u16)>>, block: BlockView, i: int)
    requires
        0 <= i < slots.len(),
        holds_block(slots[i], block),
        forall|j: int| 0 <= j < i ==> !holds_block(slots[j], block),
    ensures
        find_block(slots, block) == Some(i),
{
    let k = choose|k: int|
        0 <= k < slots.len() && holds_block(slots[k], block) && forall|j: int|
            0 <= j < k ==> !holds_block(slots[j], block);
    assert(exists|k: int|
        0 <= k < slots.len() && holds_block(slots[k], block) && forall|j: int|
            0 <= j < k ==> !holds_block(slots[j], block));
    if k < i {
        assert(!holds_block(slots[k], block));
    } else if k > i {
        assert(!holds_block(slots[i], block));
    }
}

impl BlockPallet {
    #[verifier::type_invariant]
    closed spec fn inv(self) -> bool {
        self.items@.len() < u16::MAX
    }

    /// A palette whose only entry is air, used by every position of a part and one more.
    pub fn new_air(block_list: &BlockList, block_model_variants: &BlockModelVariants) -> (r: Self)
        requires
            0 < block_list@.len(),
            block_model_variants@.dom().contains("air"@),
        ensures
            r@ == seq![
                Some(
                    (
                        (0u16, "air"@, Map::<Seq<char>, ValueView>::empty(), block_properties(
                            *block_list,
                            *block_model_variants,
                            0u16,
                            "air"@,
                            Map::<Seq<char>, ValueView>::empty(),
                        )),
                        (CHUNK_SIZE * CHUNK_SIZE * CHUNK_SIZE + 1) as u16,
                    ),
                ),
            ],
    {
        let mut items: Vec<Option<BlockPalletItem>> = Vec::new();
        items.push(
            Some(
                BlockPalletItem {
                    block: Block::new(0, "air", BlockState::new(), block_list, block_model_variants),
                    count: (CHUNK_SIZE * CHUNK_SIZE * CHUNK_SIZE + 1) as BlockPalletItemId,
                },
            ),
        );
        let r = Self { items };
        proof {
            assert(r@[0] == slot_view(items@[0]));
            assert(r@ =~= seq![r@[0]]);
        }
        r
    }

    /// The first free slot, appending one when every slot is taken.
    fn get_lowest_free_id(&mut self) -> (r: BlockPalletItemId)
        requires
            has_room(old(self)@),
        ensures
            r == next_id(old(self)@),
            final(self)@ == (if first_free(old(self)@) is Some {
                old(self)@
            } else {
                old(self)@.push(None)
            }),
    {
        proof {
            use_type_invariant(&*self);
        }
        let mut i: usize = 0;
        while i < self.items.len()
            invariant
                i <= self.items@.len(),
                self.items@.len() < u16::MAX,
                forall|j: int| 0 <= j < i ==> #[trigger] self.items@[j] is Some,
            decreases self.items@.len() - i,
        {
            if self.items[i].is_none() {
                proof {
                    assert forall|j: int| 0 <= j < i implies #[trigger] self@[j] is Some by {
                        assert(self@[j] == slot_view(self.items@[j]));
                    }
                    assert(self@[i as int] == slot_view(self.items@[i as int]));
                    lemma_first_free_is_first(self@, i as int);
                }
                return i as BlockPalletItemId;
            }
            i += 1;
        }
        proof {
            if first_free(self@) is Some {
                let k = first_free(self@).unwrap();
                assert(self@[k] == slot_view(self.items@[k]));
            }
        }
        let block_pallet_id = self.items.len() as BlockPalletItemId;
        let mut items: Vec<Option<BlockPalletItem>> = Vec::new();
        std::mem::swap(&mut items, &mut self.items);
        items.push(None);
        proof {
            assert(items@.map_values(|slot: Option<BlockPalletItem>| slot_view(slot)) =~= old(
                self,
            )@.push(None));
        }
        self.items = items;
        block_pallet_id
    }

    /// Stores `item` under the first free id, appending a slot when every slot is taken.
    pub fn insert_block_pallet_item(&mut self, block_pallet_item: BlockPalletItem) -> (r:
        BlockPalletItemId)
        requires
            has_room(old(self)@),
        ensures
            r == next_id(old(self)@),
            final(self)@ == with_new_entry(old(self)@, item_view(block_pallet_item)),
    {
        let ghost item = item_view(block_pallet_item);
        proof {
            lemma_first_free(self@);
        }
        let block_pallet_id = self.get_lowest_free_id();
        proof {
            use_type_invariant(&*self);
            assert(self@.len() == self.items@.len());
        }
        let ghost mid = self@;
        let mut items: Vec<Option<BlockPalletItem>> = Vec::new();
        std::mem::swap(&mut items, &mut self.items);
        items.set(block_pallet_id as usize, Some(block_pallet_item));
        proof {
            assert(items@.map_values(|slot: Option<BlockPalletItem>| slot_view(slot)) =~= mid.update(
                block_pallet_id as int,
                Some(item),
            ));
            if first_free(old(self)@) is None {
                assert(mid.update(block_pallet_id as int, Some(item)) =~= old(self)@.push(Some(item)));
            }
        }
        self.items = items;
        block_pallet_id
    }

    /// The id of an entry holding a block equal to `block`; a new entry with count `1` under
    /// the first free id when there is none.
    pub fn insert_block(&mut self, block: Block) -> (r: BlockPalletItemId)
        requires
            find_block(old(self)@, block@) is Some || has_room(old(self)@),
        ensures
            find_block(old(self)@, block@) matches Some(i) ==> r == i && final(self)@ == old(
                self,
            )@,
            find_block(old(self)@, block@) is None ==> r == next_id(old(self)@) && final(self)@
                == with_new_entry(old(self)@, (block@, 1u16)),
    {
        if let Some(block_pallet_id) = self.get_block_pallet_id(&block) {
            return block_pallet_id;
        }
        self.insert_block_pallet_item(BlockPalletItem { block, count: 1 })
    }

    /// Stores `block` with `count` under the first free id, appending a slot when every slot is
    /// taken.
    pub fn insert_count(&mut self, block: Block, count: BlockPalletItemId) -> (r: BlockPalletItemId)
        requires
            has_room(old(self)@),
        ensures
            r == next_id(old(self)@),
            final(self)@ == with_new_entry(old(self)@, (block@, count)),
    {
        self.insert_block_pallet_item(BlockPalletItem { block, count })
    }

    /// Takes the entry under `block_pallet_id` out: the last slot is removed, any other slot is
    /// left free.
    pub fn remove(&mut self, block_pallet_id: &BlockPalletItemId) -> (r: Option<BlockPalletItem>)
        requires
            (*block_pallet_id as int) < old(self)@.len(),
        ensures
            slot_view(r) == old(self)@[*block_pallet_id as int],
            *block_pallet_id as int == old(self)@.len() - 1 ==> final(self)@ == old(
                self,
            )@.drop_last(),
            *block_pallet_id as int != old(self)@.len() - 1 ==> final(self)@ == old(self)@.update(
                *block_pallet_id as int,
                None,
            ),
    {
        proof {
            use_type_invariant(&*self);
        }
        let id = *block_pallet_id as usize;
        let mut items: Vec<Option<BlockPalletItem>> = Vec::new();
        std::mem::swap(&mut items, &mut self.items);
        let r = if id + 1 == items.len() {
            match items.pop() {
                Some(slot) => slot,
                None => None,
            }
        } else {
            let mut slot: Option<BlockPalletItem> = None;
            items.set_and_swap(id, &mut slot);
            slot
        };
        proof {
            assert(slot_view(r) == old(self)@[id as int]);
            if id + 1 == old(self).items@.len() {
                assert(items@.map_values(|slot: Option<BlockPalletItem>| slot_view(slot)) =~= old(
                    self,
                )@.drop_last());
            } else {
                assert(items@.map_values(|slot: Option<BlockPalletItem>| slot_view(slot)) =~= old(
                    self,
                )@.update(id as int, None));
            }
        }
        self.items = items;
        r
    }

    /// Drops every entry whose count is zero.
    pub fn clean_up(&mut self)
        ensures
            final(self)@ == cleaned(old(self)@),
    {
        proof {
            use_type_invariant(&*self);
        }
        let ghost old_view = self@;
        let mut items: Vec<Option<BlockPalletItem>> = Vec::new();
        std::mem::swap(&mut items, &mut self.items);
        let ghost old_items = items@;
        let len = items.len();
        let mut last_zero = false;
        let mut j: usize = 0;
        while j < len
            invariant
                j <= len,
                len == old_items.len(),
                items@.len() == len,
                old_view == old_items.map_values(|slot: Option<BlockPalletItem>| slot_view(slot)),
                forall|m: int| j <= m < len ==> #[trigger] items@[m] == old_items[m],
                forall|m: int|
                    0 <= m < j ==> slot_view(#[trigger] items@[m]) == (if zero_count(old_view[m]) {
                        None
                    } else {
                        old_view[m]
                    }),
                last_zero <==> (len > 0 && j == len && zero_count(old_view[len - 1])),
            decreases len - j,
        {
            proof {
                assert(old_view[j as int] == slot_view(old_items[j as int]));
            }
            let zero = match &items[j] {
                Some(item) => item.count == 0,
                None => false,
            };
            if zero {
                items.set(j, None);
                if j + 1 == len {
                    last_zero = true;
                }
            }
            j += 1;
        }
        if last_zero {
            items.pop();
        }
        proof {
            let freed = old_view.map_values(
                |s: Option<(BlockView, u16)>|
                    if zero_count(s) {
                        None
                    } else {
                        s
                    },
            );
            if last_zero {
                assert(items@.map_values(|slot: Option<BlockPalletItem>| slot_view(slot))
                    =~= freed.drop_last());
            } else {
                assert(items@.map_values(|slot: Option<BlockPalletItem>| slot_view(slot))
                    =~= freed);
            }
        }
        self.items = items;
    }

    /// The id of the first entry holding a block equal to `block`.
    pub fn get_block_pallet_id(&self, block: &Block) -> (r: Option<BlockPalletItemId>)
        ensures
            r matches Some(i) ==> find_block(self@, block@) == Some(i as int),
            r is None ==> find_block(self@, block@) is None,
    {
        match self.find_item(block) {
            Some((id, _)) => Some(id),
            None => None,
        }
    }

    /// The entry under `block_pallet_id`, if that slot exists and holds one.
    pub fn get(&self, block_pallet_id: &BlockPalletItemId) -> (r: Option<&BlockPalletItem>)
        ensures
            r is Some <==> ((*block_pallet_id as int) < self@.len() && self@[*block_pallet_id as int] is Some),
            r matches Some(item) ==> Some(item_view(*item)) == self@[*block_pallet_id as int],
    {
        let id = *block_pallet_id as usize;
        if id < self.items.len() {
            proof {
                assert(self@[id as int] == slot_view(self.items@[id as int]));
            }
            match &self.items[id] {
                Some(item) => Some(item),
                None => None,
            }
        } else {
            None
        }
    }

    /// The entry under `block_pallet_id` for changing, if that slot exists and holds one.
    pub fn get_mut(&mut self, block_pallet_id: &BlockPalletItemId) -> (r: Option<&mut BlockPalletItem>)
        ensures
            r is Some <==> ((*block_pallet_id as int) < old(self)@.len() && old(self)@[*block_pallet_id as int] is Some),
            r matches Some(item) ==> Some(item_view(*item)) == old(self)@[*block_pallet_id as int]
                && final(self)@ == old(self)@.update(*block_pallet_id as int, Some(item_view(*final(item)))),
            r is None ==> final(self)@ == old(self)@,
    {
        proof {
            use_type_invariant(&*self);
        }
        let id = *block_pallet_id as usize;
        if id < self.items.len() {
            match &mut self.items[id] {
                Some(item) => Some(item),
                None => None,
            }
        } else {
            None
        }
    }

    /// The first entry holding a block equal to `block`, with its id.
    pub fn find_item(&self, block: &Block) -> (r: Option<(BlockPalletItemId, &BlockPalletItem)>)
        ensures
            r matches Some((i, item)) ==> find_block(self@, block@) == Some(i as int) && Some(
                item_view(*item),
            ) == self@[i as int],
            r is None ==> find_block(self@, block@) is None,
    {
        proof {
            use_type_invariant(self);
        }
        let mut i: usize = 0;
        while i < self.items.len()
            invariant
                i <= self.items@.len(),
                self.items@.len() < u16::MAX,
                forall|j: int| 0 <= j < i ==> !holds_block(#[trigger] self@[j], block@),
            decreases self.items@.len() - i,
        {
            proof {
                assert(self@[i as int] == slot_view(self.items@[i as int]));
            }
            match &self.items[i] {
                Some(item) => {
                    if item.block.same_as(block) {
                        proof {
                            lemma_find_block_is_first(self@, block@, i as int);
                        }
                        return Some((i as BlockPalletItemId, item));
                    }
                },
                None => {},
            }
            i += 1;
        }
        proof {
            if find_block(self@, block@) is Some {
                let k = find_block(self@, block@).unwrap();
                assert(!holds_block(self@[k], block@));
            }
        }
        None
    }

    /// The first entry holding a block equal to `block`, with its id, for changing.
    pub fn find_item_mut(&mut self, block: &Block) -> (r: Option<(BlockPalletItemId, &mut BlockPalletItem)>)
        ensures
            r matches Some((i, item)) ==> find_block(old(self)@, block@) == Some(i as int)
                && Some(item_view(*item)) == old(self)@[i as int]
                && final(self)@ == old(self)@.update(i as int, Some(item_view(*final(item)))),
            r is None ==> find_block(old(self)@, block@) is None && final(self)@ == old(self)@,
    {
        match self.get_block_pallet_id(block) {
            Some(id) => {
                proof {
                    lemma_find_block_holds(self@, block@);
                }
                match self.get_mut(&id) {
                    Some(item) => Some((id, item)),
                    None => None,
                }
            },
            None => None,
        }
    }

    /// The largest id that holds an entry.
    pub fn max_key(&self) -> (r: Option<BlockPalletItemId>)
        ensures
            r matches Some(i) ==> (i as int) < self@.len() && self@[i as int] is Some && forall|j: int|
                i < j < self@.len() ==> self@[j] is None,
            r is None ==> forall|j: int| 0 <= j < self@.len() ==> self@[j] is None,
    {
        proof {
            use_type_invariant(self);
        }
        let mut i: usize = self.items.len();
        while i > 0
            invariant
                i <= self.items@.len(),
                self.items@.len() < u16::MAX,
                forall|j: int| i <= j < self@.len() ==> #[trigger] self@[j] is None,
            decreases i,
        {
            proof {
                assert(self@[i - 1] == slot_view(self.items@[i - 1]));
            }
            if self.items[i - 1].is_some() {
                return Some((i - 1) as BlockPalletItemId);
            }
            i -= 1;
        }
        None
    }

    /// The entries, with their ids, in increasing order of id.
    pub fn iter(&self) -> (r: Vec<(BlockPalletItemId, &BlockPalletItem)>)
        ensures
            forall|k: int|
                0 <= k < r@.len() ==> (#[trigger] r@[k]).0 < self@.len() && self@[r@[k].0 as int]
                    == Some(item_view(*r@[k].1)),
            forall|k: int, l: int| 0 <= k < l < r@.len() ==> r@[k].0 < r@[l].0,
            forall|j: int|
                0 <= j < self@.len() && self@[j] is Some ==> exists|k: int|
                    0 <= k < r@.len() && (#[trigger] r@[k]).0 == j,
    {
        proof {
            use_type_invariant(self);
        }
        let mut out: Vec<(BlockPalletItemId, &BlockPalletItem)> = Vec::new();
        let mut i: usize = 0;
        while i < self.items.len()
            invariant
                i <= self.items@.len(),
                self.items@.len() < u16::MAX,
                forall|k: int|
                    0 <= k < out@.len() ==> (#[trigger] out@[k]).0 < i && self@[out@[k].0 as int]
                        == Some(item_view(*out@[k].1)),
                forall|k: int, l: int| 0 <= k < l < out@.len() ==> out@[k].0 < out@[l].0,
                forall|j: int|
                    0 <= j < i && self@[j] is Some ==> exists|k: int|
                        0 <= k < out@.len() && (#[trigger] out@[k]).0 == j,
            decreases self.items@.len() - i,
        {
            proof {
                assert(self@[i as int] == slot_view(self.items@[i as int]));
            }
            let ghost before = out@;
            match &self.items[i] {
                Some(item) => {
                    out.push((i as BlockPalletItemId, item));
                },
                None => {},
            }
            proof {
                assert forall|j: int| 0 <= j < i + 1 && self@[j] is Some implies exists|k: int|
                    0 <= k < out@.len() && (#[trigger] out@[k]).0 == j by {
                    if j < i {
                        let m = choose|m: int| 0 <= m < before.len() && (#[trigger] before[m]).0 == j;
                        assert(out@[m] == before[m]);
                    } else {
                        assert(out@[out@.len() - 1].0 == i);
                    }
                }
            }
            i += 1;
        }
        out
    }

    /// The entries, in increasing order of id.
    pub fn values(&self) -> (r: Vec<&BlockPalletItem>)
        ensures
            r@.len() == self@.filter(|s: Option<(BlockView, u16)>| s is Some).len(),
            forall|k: int|
                0 <= k < r@.len() ==> Some(item_view(*#[trigger] r@[k])) == self@.filter(
                    |s: Option<(BlockView, u16)>| s is Some,
                )[k],
    {
        let mut out: Vec<&BlockPalletItem> = Vec::new();
        let mut i: usize = 0;
        while i < self.items.len()
            invariant
                i <= self.items@.len(),
                out@.len() == self@.take(i as int).filter(|s: Option<(BlockView, u16)>| s is Some).len(),
                forall|k: int|
                    0 <= k < out@.len() ==> Some(item_view(*#[trigger] out@[k])) == self@.take(
                        i as int,
                    ).filter(|s: Option<(BlockView, u16)>| s is Some)[k],
            decreases self.items@.len() - i,
        {
            proof {
                assert(self@[i as int] == slot_view(self.items@[i as int]));
                assert(self@.take(i + 1).drop_last() =~= self@.take(i as int));
                self@.take(i as int).lemma_filter_push(self@[i as int], |s: Option<(BlockView, u16)>| s is Some);
                assert(self@.take(i as int).push(self@[i as int]) =~= self@.take(i + 1));
            }
            match &self.items[i] {
                Some(item) => {
                    out.push(item);
                },
                None => {},
            }
            i += 1;
        }
        proof {
            assert(self@.take(self@.len() as int) =~= self@);
        }
        out
    }

    /// The ids that hold an entry, in increasing order.
    pub fn ids(&self) -> (r: Vec<BlockPalletItemId>)
        ensures
            forall|k: int| 0 <= k < r@.len() ==> (#[trigger] r@[k] as int) < self@.len() && self@[r@[k] as int] is Some,
            forall|k: int, l: int| 0 <= k < l < r@.len() ==> r@[k] < r@[l],
            forall|j: int| 0 <= j < self@.len() && self@[j] is Some ==> r@.contains(j as u16),
    {
        proof {
            use_type_invariant(self);
        }
        let mut out: Vec<BlockPalletItemId> = Vec::new();
        let mut i: usize = 0;
        while i < self.items.len()
            invariant
                i <= self.items@.len(),
                self.items@.len() < u16::MAX,
                forall|k: int| 0 <= k < out@.len() ==> (#[trigger] out@[k] as int) < i && self@[out@[k] as int] is Some,
                forall|k: int, l: int| 0 <= k < l < out@.len() ==> out@[k] < out@[l],
                forall|j: int| 0 <= j < i && self@[j] is Some ==> out@.contains(j as u16),
            decreases self.items@.len() - i,
        {
            proof {
                assert(self@[i as int] == slot_view(self.items@[i as int]));
            }
            let ghost before = out@;
            if self.items[i].is_some() {
                out.push(i as BlockPalletItemId);
                proof {
                    assert(out@[out@.len() - 1] == i as u16);
                }
            }
            proof {
                assert forall|j: int| 0 <= j < i + 1 && self@[j] is Some implies out@.contains(
                    j as u16,
                ) by {
                    if j < i {
                        let m = choose|m: int| 0 <= m < before.len() && before[m] == j as u16;
                        assert(out@[m] == before[m]);
                    } else {
                        assert(out@[out@.len() - 1] == i as u16);
                    }
                }
            }
            i += 1;
        }
        out
    }
}

/// A block that the palette did not hold is, once inserted, found under the id that the
/// insertion returned, with the count it was inserted with.
pub proof fn lemma_inserted_block_is_found(slots: Seq<Option<(BlockView, u16)>>, block: BlockView, count: u16)
    requires
        find_block(slots, block) is None,
    ensures
        with_new_entry(slots, (block, count))[next_id(slots)] == Some((block, count)),
        find_block(with_new_entry(slots, (block, count)), block) == Some(next_id(slots)),
{
    lemma_first_free(slots);
    let after = with_new_entry(slots, (block, count));
    let n = next_id(slots);
    assert forall|j: int| 0 <= j < n implies !holds_block(#[trigger] after[j], block) by {
        assert(after[j] == slots[j]);
        if holds_block(slots[j], block) {
            assert(exists|i: int| 0 <= i < slots.len() && holds_block(slots[i], block));
        }
    }
    lemma_find_block_is_first(after, block, n);
}

/// An id freed by removing its entry is taken again by the next insertion, or a lower one is.
pub proof fn lemma_freed_id_is_reused(slots: Seq<Option<(BlockView, u16)>>, id: int)
    requires
        0 <= id < slots.len(),
        slots[id] is None,
    ensures
        next_id(slots) <= id,
{
    lemma_first_free(slots);
}

/// Cleaning up leaves no entry whose count is zero, keeps every other entry under its id,
/// and drops at most the last slot.
pub proof fn lemma_clean_up_keeps_used_entries(slots: Seq<Option<(BlockView, u16)>>)
    ensures
        forall|i: int| 0 <= i < cleaned(slots).len() ==> !zero_count(#[trigger] cleaned(slots)[i]),
        forall|i: int|
            0 <= i < slots.len() && slots[i] is Some && !zero_count(slots[i]) ==> i < cleaned(slots).len()
                && #[trigger] cleaned(slots)[i] == slots[i],
        cleaned(slots).len() == slots.len() || cleaned(slots).len() + 1 == slots.len(),
{
}

} // verus!
