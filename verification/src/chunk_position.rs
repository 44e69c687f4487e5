//! Positions of blocks inside one chunk column, split into a part index and a
//! position inside that part.
use vstd::prelude::*;

use crate::vector::{div_rem_euclid_i32, int_of_i32, int_of_u32, minus, plus, Vec3};

verus! {

/// Edge length of a chunk part, in blocks.
pub const CHUNK_SIZE: usize = 32;

/// `CHUNK_SIZE` as a signed integer.
pub const CHUNK_SIZE_I32: i32 = 32;

/// `CHUNK_SIZE` as an unsigned 32-bit integer.
pub const CHUNK_SIZE_U32: u32 = 32;

/// Number of parts stacked in one chunk column.
pub const PARTS_PER_CHUNK: usize = 16;

/// Height of a chunk column, in blocks.
pub open spec fn chunk_height() -> int {
    (PARTS_PER_CHUNK * CHUNK_SIZE) as int
}

/// Whether every coordinate lies inside one chunk part.
pub open spec fn in_part(v: Vec3<int>) -> bool {
    0 <= v.x < CHUNK_SIZE && 0 <= v.y < CHUNK_SIZE && 0 <= v.z < CHUNK_SIZE
}

/// Whether a block position lies inside one chunk column.
pub open spec fn in_chunk(v: Vec3<int>) -> bool {
    0 <= v.x < CHUNK_SIZE && 0 <= v.y < chunk_height() && 0 <= v.z < CHUNK_SIZE
}

/// A block position inside one chunk part.
#[derive(Clone, Copy, PartialEq, Eq, Structural, Debug)]
pub struct ChunkPartPosition {
    x: u8,
    y: u8,
    z: u8,
}

impl View for ChunkPartPosition {
    type V = Vec3<int>;

    closed spec fn view(&self) -> Vec3<int> {
        Vec3 { x: self.x as int, y: self.y as int, z: self.z as int }
    }
}

impl ChunkPartPosition {
    #[verifier::type_invariant]
    closed spec fn inv(self) -> bool {
        self.x < 32 && self.y < 32 && self.z < 32
    }

    /// A valid position: every coordinate inside the part.
    pub open spec fn wf(self) -> bool {
        in_part(self@)
    }

    /// The position with the given coordinates, or `None` when one is not below `CHUNK_SIZE`.
    pub fn new(position: Vec3<u32>) -> (r: Option<Self>)
        ensures
            r is Some <==> in_part(int_of_u32(position)),
            r matches Some(p) ==> p@ == int_of_u32(position) && p.wf(),
    {
        if position.x < CHUNK_SIZE_U32 && position.y < CHUNK_SIZE_U32 && position.z
            < CHUNK_SIZE_U32 {
            Some(ChunkPartPosition { x: position.x as u8, y: position.y as u8, z: position.z as u8 })
        } else {
            None
        }
    }

    /// The position with the given coordinates, which must lie inside the part.
    pub fn new_unchecked(position: Vec3<u32>) -> (r: Self)
        requires
            in_part(int_of_u32(position)),
        ensures
            r@ == int_of_u32(position),
            r.wf(),
    {
        ChunkPartPosition { x: position.x as u8, y: position.y as u8, z: position.z as u8 }
    }

    /// The corner of the part.
    pub fn zero() -> (r: Self)
        ensures
            r@ == (Vec3 { x: 0int, y: 0int, z: 0int }),
            r.wf(),
    {
        ChunkPartPosition { x: 0, y: 0, z: 0 }
    }

    /// The x coordinate.
    pub fn x(&self) -> (r: u8)
        ensures
            r == self@.x,
            r < CHUNK_SIZE,
    {
        proof {
            use_type_invariant(self);
        }
        self.x
    }

    /// The y coordinate.
    pub fn y(&self) -> (r: u8)
        ensures
            r == self@.y,
            r < CHUNK_SIZE,
    {
        proof {
            use_type_invariant(self);
        }
        self.y
    }

    /// The z coordinate.
    pub fn z(&self) -> (r: u8)
        ensures
            r == self@.z,
            r < CHUNK_SIZE,
    {
        proof {
            use_type_invariant(self);
        }
        self.z
    }
}

/// A block position in a chunk column: the index of the part and the position inside it.
#[derive(Clone, Copy, PartialEq, Eq, Structural, Debug)]
pub struct ChunkPosition {
    chunk_part_index: u8,
    chunk_part_position: ChunkPartPosition,
}

impl View for ChunkPosition {
    type V = Vec3<int>;

    /// The position of the block in the column.
    open spec fn view(&self) -> Vec3<int> {
        Vec3 {
            x: self.local().x,
            y: self.index() * CHUNK_SIZE + self.local().y,
            z: self.local().z,
        }
    }
}

impl ChunkPosition {
    #[verifier::type_invariant]
    closed spec fn inv(self) -> bool {
        self.chunk_part_index < PARTS_PER_CHUNK
    }

    /// The index of the part.
    pub closed spec fn index(self) -> int {
        self.chunk_part_index as int
    }

    /// The position inside the part.
    pub closed spec fn local(self) -> Vec3<int> {
        self.chunk_part_position@
    }

    /// A valid position: a part of the column and a position inside that part.
    pub open spec fn wf(self) -> bool {
        0 <= self.index() < PARTS_PER_CHUNK && in_part(self.local())
    }

    /// The position of part `chunk_part_index` at `chunk_part_position`; `None` when the index
    /// is not below `PARTS_PER_CHUNK` or the position lies outside the part.
    pub fn new(chunk_part_position: Vec3<u32>, chunk_part_index: usize) -> (r: Option<Self>)
        ensures
            r is Some <==> (chunk_part_index < PARTS_PER_CHUNK && in_part(
                int_of_u32(chunk_part_position),
            )),
            r matches Some(p) ==> p.wf() && p.index() == chunk_part_index && p.local()
                == int_of_u32(chunk_part_position),
    {
        if chunk_part_index >= PARTS_PER_CHUNK {
            return None;
        }
        let position = match ChunkPartPosition::new(chunk_part_position) {
            Some(p) => p,
            None => {
                return None;
            },
        };
        Some(Self { chunk_part_index: chunk_part_index as u8, chunk_part_position: position })
    }

    /// The position of part `chunk_part_index` at `chunk_part_position`, which must be valid.
    pub fn new_unchecked(chunk_part_position: Vec3<u32>, chunk_part_index: usize) -> (r: Self)
        requires
            chunk_part_index < PARTS_PER_CHUNK,
            in_part(int_of_u32(chunk_part_position)),
        ensures
            r.wf(),
            r.index() == chunk_part_index,
            r.local() == int_of_u32(chunk_part_position),
    {
        Self {
            chunk_part_index: chunk_part_index as u8,
            chunk_part_position: ChunkPartPosition::new_unchecked(chunk_part_position),
        }
    }

    /// The index of the part.
    pub fn chunk_part_index(&self) -> (r: usize)
        ensures
            r == self.index(),
            r < PARTS_PER_CHUNK,
    {
        proof {
            use_type_invariant(self);
        }
        self.chunk_part_index as usize
    }

    /// The position inside the part.
    pub fn chunk_part_position(&self) -> (r: ChunkPartPosition)
        ensures
            r@ == self.local(),
            r.wf(),
    {
        proof {
            use_type_invariant(&self.chunk_part_position);
        }
        self.chunk_part_position
    }

    /// The position moved by `value`, or `None` when it leaves the column.
    pub fn checked_add_i32(self, value: Vec3<i32>) -> (r: Option<Self>)
        requires
            self.local().x + value.x <= i32::MAX,
            self.local().y + value.y <= i32::MAX,
            self.local().z + value.z <= i32::MAX,
        ensures
            r is Some <==> in_chunk(plus(self@, int_of_i32(value))),
            r matches Some(p) ==> p.wf() && p@ == plus(self@, int_of_i32(value)),
    {
        proof {
            use_type_invariant(&self);
            use_type_invariant(&self.chunk_part_position);
        }
        let pos = self.chunk_part_position;
        let x = pos.x as i32 + value.x;
        if !(0 <= x && x < CHUNK_SIZE_I32) {
            return None;
        }
        let z = pos.z as i32 + value.z;
        if !(0 <= z && z < CHUNK_SIZE_I32) {
            return None;
        }
        let (div_y, rem_y) = div_rem_euclid_i32(pos.y as i32 + value.y, CHUNK_SIZE_I32);
        let chunk_part_index = self.chunk_part_index as i32 + div_y;
        if !(0 <= chunk_part_index && chunk_part_index < PARTS_PER_CHUNK as i32) {
            return None;
        }
        Some(
            Self {
                chunk_part_index: chunk_part_index as u8,
                chunk_part_position: ChunkPartPosition { x: x as u8, y: rem_y as u8, z: z as u8 },
            },
        )
    }

    /// The position with `value` taken off its part coordinates: x and z are subtracted, the y
    /// coordinate inside the part is wrapped into the part, and the part index is decreased by
    /// the number of parts that the wrap crossed (so a wrap downward raises the index).
    pub fn checked_sub_i32(self, value: Vec3<i32>) -> (r: Option<Self>)
        requires
            self.local().x - value.x <= i32::MAX,
            self.local().y - value.y <= i32::MAX,
            self.local().z - value.z <= i32::MAX,
        ensures
            ({
                let t = self.local().y - value.y;
                let new_index = self.index() - t / CHUNK_SIZE as int;
                &&& r is Some <==> (0 <= self.local().x - value.x < CHUNK_SIZE && 0 <= self.local().z
                    - value.z < CHUNK_SIZE && 0 <= new_index < PARTS_PER_CHUNK)
                &&& r matches Some(p) ==> p.wf() && p.index() == new_index && p.local() == (Vec3 {
                    x: self.local().x - value.x,
                    y: t % CHUNK_SIZE as int,
                    z: self.local().z - value.z,
                })
            }),
    {
        proof {
            use_type_invariant(&self);
            use_type_invariant(&self.chunk_part_position);
        }
        let pos = self.chunk_part_position;
        let x = pos.x as i32 - value.x;
        if !(0 <= x && x < CHUNK_SIZE_I32) {
            return None;
        }
        let z = pos.z as i32 - value.z;
        if !(0 <= z && z < CHUNK_SIZE_I32) {
            return None;
        }
        let (div_y, rem_y) = div_rem_euclid_i32(pos.y as i32 - value.y, CHUNK_SIZE_I32);
        let chunk_part_index = self.chunk_part_index as i32 - div_y;
        if !(0 <= chunk_part_index && chunk_part_index < PARTS_PER_CHUNK as i32) {
            return None;
        }
        Some(
            Self {
                chunk_part_index: chunk_part_index as u8,
                chunk_part_position: ChunkPartPosition { x: x as u8, y: rem_y as u8, z: z as u8 },
            },
        )
    }

    /// The position moved by `value`, or `None` when it leaves the column.
    pub fn checked_add_u32(self, value: Vec3<u32>) -> (r: Option<Self>)
        requires
            self.local().x + value.x <= u32::MAX,
            self.local().y + value.y <= u32::MAX,
            self.local().z + value.z <= u32::MAX,
        ensures
            r is Some <==> in_chunk(plus(self@, int_of_u32(value))),
            r matches Some(p) ==> p.wf() && p@ == plus(self@, int_of_u32(value)),
    {
        proof {
            use_type_invariant(&self);
            use_type_invariant(&self.chunk_part_position);
        }
        let pos = self.chunk_part_position;
        let x = pos.x as u32 + value.x;
        if x >= CHUNK_SIZE_U32 {
            return None;
        }
        let z = pos.z as u32 + value.z;
        if z >= CHUNK_SIZE_U32 {
            return None;
        }
        let y = pos.y as u32 + value.y;
        let div_y = y / CHUNK_SIZE_U32;
        let rem_y = y % CHUNK_SIZE_U32;
        let chunk_part_index = self.chunk_part_index as u32 + div_y;
        if chunk_part_index >= PARTS_PER_CHUNK as u32 {
            return None;
        }
        Some(
            Self {
                chunk_part_index: chunk_part_index as u8,
                chunk_part_position: ChunkPartPosition { x: x as u8, y: rem_y as u8, z: z as u8 },
            },
        )
    }

    /// The position moved back by `value`, or `None` when it leaves the column; the y component
    /// is taken as the `i32` that its bits spell.
    pub fn checked_sub_u32(self, value: Vec3<u32>) -> (r: Option<Self>)
        requires
            self.local().y - (value.y as i32) <= i32::MAX,
        ensures
            ({
                let moved = Vec3 {
                    x: self@.x - value.x,
                    y: self@.y - (value.y as i32),
                    z: self@.z - value.z,
                };
                &&& r is Some <==> in_chunk(moved)
                &&& r matches Some(p) ==> p.wf() && p@ == moved
            }),
    {
        proof {
            use_type_invariant(&self);
            use_type_invariant(&self.chunk_part_position);
        }
        let pos = self.chunk_part_position;
        let x = match (pos.x as u32).checked_sub(value.x) {
            Some(x) => x,
            None => {
                return None;
            },
        };
        let z = match (pos.z as u32).checked_sub(value.z) {
            Some(z) => z,
            None => {
                return None;
            },
        };
        let (div_y, rem_y) = div_rem_euclid_i32(pos.y as i32 - value.y as i32, CHUNK_SIZE_I32);
        let chunk_part_index = self.chunk_part_index as i32 + div_y;
        if chunk_part_index < 0 || chunk_part_index >= PARTS_PER_CHUNK as i32 {
            return None;
        }
        Some(
            Self {
                chunk_part_index: chunk_part_index as u8,
                chunk_part_position: ChunkPartPosition { x: x as u8, y: rem_y as u8, z: z as u8 },
            },
        )
    }

    /// The position moved by `value`, which must stay inside the column.
    pub fn unchecked_add_i32(self, value: Vec3<i32>) -> (r: Self)
        requires
            in_chunk(plus(self@, int_of_i32(value))),
        ensures
            r.wf(),
            r@ == plus(self@, int_of_i32(value)),
    {
        proof {
            use_type_invariant(&self);
            use_type_invariant(&self.chunk_part_position);
        }
        let pos = self.chunk_part_position;
        let new_x = pos.x as i32 + value.x;
        let new_y = pos.y as i32 + value.y;
        let new_z = pos.z as i32 + value.z;
        let (div_y, rem_y) = div_rem_euclid_i32(new_y, CHUNK_SIZE_I32);
        let chunk_part_index = (self.chunk_part_index as i32 + div_y) as u8;
        Self {
            chunk_part_index,
            chunk_part_position: ChunkPartPosition::new_unchecked(
                Vec3 { x: new_x as u32, y: rem_y as u32, z: new_z as u32 },
            ),
        }
    }

    /// The position moved back by `value`, which must stay inside the column.
    pub fn unchecked_sub_i32(self, value: Vec3<i32>) -> (r: Self)
        requires
            in_chunk(minus(self@, int_of_i32(value))),
        ensures
            r.wf(),
            r@ == minus(self@, int_of_i32(value)),
    {
        proof {
            use_type_invariant(&self);
            use_type_invariant(&self.chunk_part_position);
        }
        let pos = self.chunk_part_position;
        let new_x = pos.x as i32 - value.x;
        let new_y = pos.y as i32 - value.y;
        let new_z = pos.z as i32 - value.z;
        let (div_y, rem_y) = div_rem_euclid_i32(new_y, CHUNK_SIZE_I32);
        let chunk_part_index = (self.chunk_part_index as i32 + div_y) as u8;
        Self {
            chunk_part_index,
            chunk_part_position: ChunkPartPosition::new_unchecked(
                Vec3 { x: new_x as u32, y: rem_y as u32, z: new_z as u32 },
            ),
        }
    }

    /// The position moved by `value`, which must stay inside the column.
    pub fn unchecked_add_u32(self, value: Vec3<u32>) -> (r: Self)
        requires
            in_chunk(plus(self@, int_of_u32(value))),
        ensures
            r.wf(),
            r@ == plus(self@, int_of_u32(value)),
    {
        proof {
            use_type_invariant(&self);
            use_type_invariant(&self.chunk_part_position);
        }
        let pos = self.chunk_part_position;
        let new_x = pos.x as u32 + value.x;
        let new_y = pos.y as u32 + value.y;
        let new_z = pos.z as u32 + value.z;
        let div_y = new_y / CHUNK_SIZE_U32;
        let rem_y = new_y % CHUNK_SIZE_U32;
        let chunk_part_index = (self.chunk_part_index as u32 + div_y) as u8;
        Self {
            chunk_part_index,
            chunk_part_position: ChunkPartPosition::new_unchecked(
                Vec3 { x: new_x, y: rem_y, z: new_z },
            ),
        }
    }

    /// The position moved back by `value`, which may not exceed the coordinates inside the part.
    pub fn unchecked_sub_u32(self, value: Vec3<u32>) -> (r: Self)
        requires
            value.x <= self.local().x,
            value.y <= self.local().y,
            value.z <= self.local().z,
        ensures
            r.wf(),
            r@ == minus(self@, int_of_u32(value)),
            r.index() == self.index(),
    {
        proof {
            use_type_invariant(&self);
            use_type_invariant(&self.chunk_part_position);
        }
        let pos = self.chunk_part_position;
        let new_x = pos.x as u32 - value.x;
        let new_y = pos.y as u32 - value.y;
        let new_z = pos.z as u32 - value.z;
        let div_y = new_y / CHUNK_SIZE_U32;
        let rem_y = new_y % CHUNK_SIZE_U32;
        let chunk_part_index = (self.chunk_part_index as u32 + div_y) as u8;
        Self {
            chunk_part_index,
            chunk_part_position: ChunkPartPosition::new_unchecked(
                Vec3 { x: new_x, y: rem_y, z: new_z },
            ),
        }
    }

    /// The position at `value` in the column, or `Err(())` when it lies outside.
    pub fn try_from_u32(value: Vec3<u32>) -> (r: Result<Self, ()>)
        ensures
            r is Ok <==> in_chunk(int_of_u32(value)),
            r matches Ok(p) ==> p.wf() && p@ == int_of_u32(value),
    {
        let out = Self { chunk_part_index: 0, chunk_part_position: ChunkPartPosition::zero() };
        match out.checked_add_u32(value) {
            Some(p) => Ok(p),
            None => Err(()),
        }
    }

    /// The position in the column as an unsigned vector.
    pub fn into_u32(self) -> (r: Vec3<u32>)
        ensures
            int_of_u32(r) == self@,
    {
        proof {
            use_type_invariant(&self);
            use_type_invariant(&self.chunk_part_position);
        }
        let pos = self.chunk_part_position;
        Vec3 {
            x: pos.x as u32,
            y: pos.y as u32 + self.chunk_part_index as u32 * CHUNK_SIZE_U32,
            z: pos.z as u32,
        }
    }
}

/// Two positions inside a part at the same place are the same position.
pub proof fn lemma_part_view_injective(p: ChunkPartPosition, q: ChunkPartPosition)
    requires
        p@ == q@,
    ensures
        p == q,
{
}

/// A valid chunk position lies inside its column.
pub proof fn lemma_valid_in_chunk(p: ChunkPosition)
    requires
        p.wf(),
    ensures
        in_chunk(p@),
{
}

/// Two valid chunk positions at the same place in the column are the same position.
pub proof fn lemma_view_injective(p: ChunkPosition, q: ChunkPosition)
    requires
        p.wf(),
        q.wf(),
        p@ == q@,
    ensures
        p == q,
{
    assert(p.index() == q.index()) by (nonlinear_arith)
        requires
            p.index() * 32 + p.local().y == q.index() * 32 + q.local().y,
            0 <= p.local().y < 32,
            0 <= q.local().y < 32,
    ;
    assert(p.chunk_part_index == q.chunk_part_index);
    assert(p.chunk_part_position@ == q.chunk_part_position@);
    assert(p.chunk_part_position == q.chunk_part_position);
}

/// Moving a valid position up by an unsigned offset and back down by the same offset
/// gives back a place in the column, namely the starting one.
pub proof fn lemma_add_then_sub_u32(p: ChunkPosition, q: ChunkPosition, value: Vec3<u32>)
    requires
        p.wf(),
        q.wf(),
        q@ == plus(p@, int_of_u32(value)),
        value.y <= i32::MAX,
    ensures
        value.x <= q.local().x,
        value.z <= q.local().z,
        q.local().y - (value.y as i32) <= i32::MAX,
        ({
            let moved = Vec3 {
                x: q@.x - value.x,
                y: q@.y - (value.y as i32),
                z: q@.z - value.z,
            };
            in_chunk(moved) && moved == p@
        }),
{
}

/// Moving a valid position by a signed offset and back by the same offset gives back the
/// starting position, as long as the way back does not wrap out of the part it starts in.
pub proof fn lemma_add_then_sub_i32(p: ChunkPosition, q: ChunkPosition, value: Vec3<i32>)
    requires
        p.wf(),
        q.wf(),
        q@ == plus(p@, int_of_i32(value)),
        0 <= q.local().y - value.y < CHUNK_SIZE,
    ensures
        ({
            let t = q.local().y - value.y;
            &&& 0 <= q.local().x - value.x < CHUNK_SIZE
            &&& 0 <= q.local().z - value.z < CHUNK_SIZE
            &&& q.index() - t / CHUNK_SIZE as int == p.index()
            &&& (Vec3 { x: q.local().x - value.x, y: t % CHUNK_SIZE as int, z: q.local().z - value.z })
                == p.local()
        }),
{
    let t = q.local().y - value.y;
    assert(q.index() * 32 + t == p.index() * 32 + p.local().y);
    assert(p.index() == q.index()) by (nonlinear_arith)
        requires
            q.index() * 32 + t == p.index() * 32 + p.local().y,
            0 <= t < 32,
            0 <= p.local().y < 32,
    ;
    assert(t / 32 == 0 && t % 32 == t);
}

} // verus!
