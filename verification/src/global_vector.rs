//! Integer block positions in the world: a chunk coordinate and a position inside the chunk.
use vstd::prelude::*;

use crate::chunk_position::{in_part, ChunkPosition, CHUNK_SIZE, CHUNK_SIZE_I32, PARTS_PER_CHUNK};
use crate::vector::{div_rem_euclid_i32, int_of_i32, int_of_u32, minus, plus, Vec3};

verus! {

/// The coordinate in the world of `local` inside chunk `chunk` along one axis.
pub open spec fn world_coordinate(chunk: i32, local: i32) -> int {
    chunk * CHUNK_SIZE + local
}

/// A block position as a chunk coordinate and a position inside that chunk.
#[derive(Debug, Clone, Copy, PartialEq, Eq, Structural, Hash)]
pub struct GlobalVecU {
    local: Vec3<i32>,
    pub chunk: Vec3<i32>,
}

impl View for GlobalVecU {
    type V = Vec3<int>;

    /// The position in the world.
    open spec fn view(&self) -> Vec3<int> {
        Vec3 {
            x: world_coordinate(self.chunk_coord().x, self.local_part().x),
            y: world_coordinate(self.chunk_coord().y, self.local_part().y),
            z: world_coordinate(self.chunk_coord().z, self.local_part().z),
        }
    }
}

/// Whether moving a chunk coordinate by the chunks that `local` spans stays in `i32`.
pub open spec fn carry_fits(chunk: i32, local: i32) -> bool {
    i32::MIN <= chunk + local as int / CHUNK_SIZE as int <= i32::MAX
}

impl GlobalVecU {
    /// The position inside the chunk.
    pub closed spec fn local_part(self) -> Vec3<i32> {
        self.local
    }

    /// The position inside the chunk with each coordinate cast to `u32`.
    pub open spec fn local_u32(self) -> Vec3<u32> {
        Vec3 {
            x: self.local_part().x as u32,
            y: self.local_part().y as u32,
            z: self.local_part().z as u32,
        }
    }

    /// The chunk coordinate.
    pub closed spec fn chunk_coord(self) -> Vec3<i32> {
        self.chunk
    }

    /// A normalized position: the position inside the chunk lies in `0..CHUNK_SIZE`.
    pub open spec fn wf(self) -> bool {
        in_part(int_of_i32(self.local_part()))
    }

    /// Whether normalizing keeps every chunk coordinate in `i32`.
    pub open spec fn normalizable(self) -> bool {
        &&& carry_fits(self.chunk_coord().x, self.local_part().x)
        &&& carry_fits(self.chunk_coord().y, self.local_part().y)
        &&& carry_fits(self.chunk_coord().z, self.local_part().z)
    }

    /// A position made of `local` inside chunk `chunk`, taken as given: `local` need not lie
    /// inside the chunk.
    pub fn from_parts(local: Vec3<i32>, chunk: Vec3<i32>) -> (r: Self)
        ensures
            r.local_part() == local,
            r.chunk_coord() == chunk,
    {
        Self { local, chunk }
    }

    /// The position inside the chunk, each coordinate cast to `u32`.
    pub fn local(&self) -> (r: Vec3<u32>)
        ensures
            r == self.local_u32(),
            self.wf() ==> int_of_u32(r) == int_of_i32(self.local_part()),
    {
        Vec3 { x: self.local.x as u32, y: self.local.y as u32, z: self.local.z as u32 }
    }

    /// Moves whole chunks out of the position inside the chunk, so that it lies in
    /// `0..CHUNK_SIZE`; the position in the world stays the same.
    pub fn apply_invariants(&mut self)
        requires
            old(self).normalizable(),
        ensures
            final(self).wf(),
            final(self)@ == old(self)@,
            final(self).local_part().x == old(self).local_part().x as int % CHUNK_SIZE as int,
            final(self).local_part().y == old(self).local_part().y as int % CHUNK_SIZE as int,
            final(self).local_part().z == old(self).local_part().z as int % CHUNK_SIZE as int,
            final(self).chunk_coord().x == old(self).chunk_coord().x + old(self).local_part().x as int / CHUNK_SIZE as int,
            final(self).chunk_coord().y == old(self).chunk_coord().y + old(self).local_part().y as int / CHUNK_SIZE as int,
            final(self).chunk_coord().z == old(self).chunk_coord().z + old(self).local_part().z as int / CHUNK_SIZE as int,
    {
        let (div_x, rem_x) = div_rem_euclid_i32(self.local.x, CHUNK_SIZE_I32);
        let (div_y, rem_y) = div_rem_euclid_i32(self.local.y, CHUNK_SIZE_I32);
        let (div_z, rem_z) = div_rem_euclid_i32(self.local.z, CHUNK_SIZE_I32);

        self.local = Vec3 { x: rem_x, y: rem_y, z: rem_z };

        self.chunk.x = self.chunk.x + div_x;
        self.chunk.y = self.chunk.y + div_y;
        self.chunk.z = self.chunk.z + div_z;
    }

    /// Whether the chunk's vertical coordinate lies strictly between `0` and `CHUNK_SIZE`.
    pub fn in_bounds(&self) -> (r: bool)
        ensures
            r == (self.chunk_coord().y > 0 && self.chunk_coord().y < CHUNK_SIZE),
    {
        self.chunk.y > 0 && self.chunk.y < CHUNK_SIZE_I32
    }

    /// The position moved by `rhs`.
    pub fn add(self, rhs: Vec3<i32>) -> (r: Self)
        requires
            self.wf(),
            self.local_part().x + rhs.x <= i32::MAX,
            self.local_part().y + rhs.y <= i32::MAX,
            self.local_part().z + rhs.z <= i32::MAX,
            plus(self@, int_of_i32(rhs)).x < (i32::MAX as int + 1) * CHUNK_SIZE,
            plus(self@, int_of_i32(rhs)).y < (i32::MAX as int + 1) * CHUNK_SIZE,
            plus(self@, int_of_i32(rhs)).z < (i32::MAX as int + 1) * CHUNK_SIZE,
            plus(self@, int_of_i32(rhs)).x >= i32::MIN as int * CHUNK_SIZE,
            plus(self@, int_of_i32(rhs)).y >= i32::MIN as int * CHUNK_SIZE,
            plus(self@, int_of_i32(rhs)).z >= i32::MIN as int * CHUNK_SIZE,
        ensures
            r.wf(),
            r@ == plus(self@, int_of_i32(rhs)),
    {
        let mut out = self;
        out.add_assign(rhs);
        out
    }

    /// Moves the position by `rhs`.
    pub fn add_assign(&mut self, rhs: Vec3<i32>)
        requires
            old(self).wf(),
            old(self).local_part().x + rhs.x <= i32::MAX,
            old(self).local_part().y + rhs.y <= i32::MAX,
            old(self).local_part().z + rhs.z <= i32::MAX,
            plus(old(self)@, int_of_i32(rhs)).x < (i32::MAX as int + 1) * CHUNK_SIZE,
            plus(old(self)@, int_of_i32(rhs)).y < (i32::MAX as int + 1) * CHUNK_SIZE,
            plus(old(self)@, int_of_i32(rhs)).z < (i32::MAX as int + 1) * CHUNK_SIZE,
            plus(old(self)@, int_of_i32(rhs)).x >= i32::MIN as int * CHUNK_SIZE,
            plus(old(self)@, int_of_i32(rhs)).y >= i32::MIN as int * CHUNK_SIZE,
            plus(old(self)@, int_of_i32(rhs)).z >= i32::MIN as int * CHUNK_SIZE,
        ensures
            final(self).wf(),
            final(self)@ == plus(old(self)@, int_of_i32(rhs)),
    {
        self.local = Vec3 {
            x: self.local.x + rhs.x,
            y: self.local.y + rhs.y,
            z: self.local.z + rhs.z,
        };
        self.apply_invariants();
    }

    /// The position moved back by `rhs`.
    pub fn sub(self, rhs: Vec3<i32>) -> (r: Self)
        requires
            self.wf(),
            self.local_part().x - rhs.x <= i32::MAX,
            self.local_part().y - rhs.y <= i32::MAX,
            self.local_part().z - rhs.z <= i32::MAX,
            minus(self@, int_of_i32(rhs)).x < (i32::MAX as int + 1) * CHUNK_SIZE,
            minus(self@, int_of_i32(rhs)).y < (i32::MAX as int + 1) * CHUNK_SIZE,
            minus(self@, int_of_i32(rhs)).z < (i32::MAX as int + 1) * CHUNK_SIZE,
            minus(self@, int_of_i32(rhs)).x >= i32::MIN as int * CHUNK_SIZE,
            minus(self@, int_of_i32(rhs)).y >= i32::MIN as int * CHUNK_SIZE,
            minus(self@, int_of_i32(rhs)).z >= i32::MIN as int * CHUNK_SIZE,
        ensures
            r.wf(),
            r@ == minus(self@, int_of_i32(rhs)),
    {
        let mut out = self;
        out.sub_assign(rhs);
        out
    }

    /// Moves the position back by `rhs`.
    pub fn sub_assign(&mut self, rhs: Vec3<i32>)
        requires
            old(self).wf(),
            old(self).local_part().x - rhs.x <= i32::MAX,
            old(self).local_part().y - rhs.y <= i32::MAX,
            old(self).local_part().z - rhs.z <= i32::MAX,
            minus(old(self)@, int_of_i32(rhs)).x < (i32::MAX as int + 1) * CHUNK_SIZE,
            minus(old(self)@, int_of_i32(rhs)).y < (i32::MAX as int + 1) * CHUNK_SIZE,
            minus(old(self)@, int_of_i32(rhs)).z < (i32::MAX as int + 1) * CHUNK_SIZE,
            minus(old(self)@, int_of_i32(rhs)).x >= i32::MIN as int * CHUNK_SIZE,
            minus(old(self)@, int_of_i32(rhs)).y >= i32::MIN as int * CHUNK_SIZE,
            minus(old(self)@, int_of_i32(rhs)).z >= i32::MIN as int * CHUNK_SIZE,
        ensures
            final(self).wf(),
            final(self)@ == minus(old(self)@, int_of_i32(rhs)),
    {
        self.local = Vec3 {
            x: self.local.x - rhs.x,
            y: self.local.y - rhs.y,
            z: self.local.z - rhs.z,
        };
        self.apply_invariants();
    }

    /// The position `value` blocks away from the origin of chunk `(0, 0, 0)`.
    pub fn from(value: Vec3<i32>) -> (r: Self)
        ensures
            r.wf(),
            r@ == int_of_i32(value),
    {
        let mut out = Self { chunk: Vec3 { x: 0, y: 0, z: 0 }, local: Vec3 { x: 0, y: 0, z: 0 } };
        out.add_assign(value);
        out
    }
}

impl ChunkPosition {
    /// The position inside its chunk column of a world position, or `Err(())` when its chunk
    /// lies below the column or above its top part, or the position inside the chunk is not
    /// normalized.
    pub fn try_from_global(value: GlobalVecU) -> (r: Result<Self, ()>)
        ensures
            r is Ok <==> (0 <= value.chunk_coord().y < PARTS_PER_CHUNK && in_part(
                int_of_u32(value.local_u32()),
            )),
            r matches Ok(p) ==> p.wf() && p.index() == value.chunk_coord().y && p.local() == int_of_u32(value.local_u32()),
    {
        if value.chunk.y < 0 {
            return Err(());
        }
        match ChunkPosition::new(value.local(), value.chunk.y as usize) {
            Some(p) => Ok(p),
            None => Err(()),
        }
    }
}

/// Two normalized positions at the same place in the world are the same position.
pub proof fn lemma_view_injective(a: GlobalVecU, b: GlobalVecU)
    requires
        a.wf(),
        b.wf(),
        a@ == b@,
    ensures
        a == b,
{
    assert(a.chunk.x == b.chunk.x && a.chunk.y == b.chunk.y && a.chunk.z == b.chunk.z)
        by (nonlinear_arith)
        requires
            a.chunk.x * 32 + a.local.x == b.chunk.x * 32 + b.local.x,
            a.chunk.y * 32 + a.local.y == b.chunk.y * 32 + b.local.y,
            a.chunk.z * 32 + a.local.z == b.chunk.z * 32 + b.local.z,
            0 <= a.local.x < 32,
            0 <= a.local.y < 32,
            0 <= a.local.z < 32,
            0 <= b.local.x < 32,
            0 <= b.local.y < 32,
            0 <= b.local.z < 32,
    ;
    assert(a.local == b.local);
    assert(a.chunk == b.chunk);
}

/// Moving a normalized position by an offset and back by the same offset gives back the
/// starting position.
pub proof fn lemma_add_then_sub(a: GlobalVecU, b: GlobalVecU, c: GlobalVecU, offset: Vec3<i32>)
    requires
        a.wf(),
        b.wf(),
        c.wf(),
        b@ == plus(a@, int_of_i32(offset)),
        c@ == minus(b@, int_of_i32(offset)),
    ensures
        c == a,
{
    lemma_view_injective(a, c);
}

} // verus!
