//! Packed light levels: a block-light nibble and a sky-light nibble in one byte.
use vstd::prelude::*;

verus! {

/// Number of bits that one light level occupies.
pub const LIGHT_LEVEL_BITS: u32 = 4;

/// The largest light level that fits in `LIGHT_LEVEL_BITS` bits.
pub const LIGHT_LEVEL_MAX_VALUE: u8 = 15;

/// A block-light level in the low nibble and a sky-light level in the high nibble.
#[derive(Clone, Copy, PartialEq, Eq, Structural, Debug)]
pub struct LightLevel(u8);

/// The block-light nibble of a packed byte.
pub open spec fn block_nibble(raw: u8) -> u8 {
    raw & 15u8
}

/// The sky-light nibble of a packed byte.
pub open spec fn sky_nibble(raw: u8) -> u8 {
    raw >> 4u8
}

/// The byte that packs a block level and a sky level.
pub open spec fn pack_levels(block: u8, sky: u8) -> u8 {
    block | ((sky << 4u8) as u8)
}

pub proof fn lemma_pack_unpack(block: u8, sky: u8)
    requires
        block <= 15,
        sky <= 15,
    ensures
        block_nibble(pack_levels(block, sky)) == block,
        sky_nibble(pack_levels(block, sky)) == sky,
{
    assert(((block | ((sky << 4u8) as u8)) & 15u8) == block && ((block | ((sky << 4u8) as u8)) >> 4u8)
        == sky) by (bit_vector)
        requires
            block <= 15,
            sky <= 15,
    ;
}

/// Every byte is the packing of its own two nibbles, and both nibbles are at most 15.
pub proof fn lemma_nibbles(raw: u8)
    ensures
        pack_levels(block_nibble(raw), sky_nibble(raw)) == raw,
        block_nibble(raw) <= 15,
        sky_nibble(raw) <= 15,
{
    assert(((raw & 15u8) | ((((raw >> 4u8) << 4u8)) as u8)) == raw && (raw & 15u8) <= 15 && (raw
        >> 4u8) <= 15) by (bit_vector);
}

proof fn lemma_replace_block(raw: u8, level: u8)
    requires
        level <= 15,
    ensures
        block_nibble((raw & 0xf0u8) | level) == level,
        sky_nibble((raw & 0xf0u8) | level) == sky_nibble(raw),
{
    assert(((raw & 0xf0u8) | level) & 15u8 == level && (((raw & 0xf0u8) | level) >> 4u8) == (raw
        >> 4u8)) by (bit_vector)
        requires
            level <= 15,
    ;
}

proof fn lemma_replace_sky(raw: u8, level: u8, shifted: u8)
    requires
        level <= 15,
        shifted == level << 4u32,
    ensures
        block_nibble((raw & 15u8) | shifted) == block_nibble(raw),
        sky_nibble((raw & 15u8) | shifted) == level,
{
    assert(((raw & 15u8) | shifted) & 15u8 == (raw & 15u8) && (((raw & 15u8) | shifted) >> 4u8)
        == level) by (bit_vector)
        requires
            level <= 15,
            shifted == level << 4u32,
    ;
}

impl LightLevel {
    /// The packed byte.
    pub closed spec fn raw(self) -> u8 {
        self.0
    }

    /// The block-light level.
    pub open spec fn block(self) -> u8 {
        block_nibble(self.raw())
    }

    /// The sky-light level.
    pub open spec fn sky(self) -> u8 {
        sky_nibble(self.raw())
    }

    /// Whether a level fits in a nibble.
    fn invariants_satisfied(level: u8) -> (r: bool)
        ensures
            r == (level <= LIGHT_LEVEL_MAX_VALUE),
    {
        level <= LIGHT_LEVEL_MAX_VALUE
    }

    /// Packs two levels; `None` when either exceeds `LIGHT_LEVEL_MAX_VALUE`.
    pub fn new(block_level: u8, sky_level: u8) -> (r: Option<Self>)
        ensures
            r is Some <==> (block_level <= LIGHT_LEVEL_MAX_VALUE && sky_level
                <= LIGHT_LEVEL_MAX_VALUE),
            r matches Some(l) ==> l.block() == block_level && l.sky() == sky_level && l.raw()
                == pack_levels(block_level, sky_level),
    {
        if !Self::invariants_satisfied(block_level) || !Self::invariants_satisfied(sky_level) {
            return None;
        }
        proof {
            lemma_pack_unpack(block_level, sky_level);
        }
        Some(LightLevel(block_level | (sky_level << LIGHT_LEVEL_BITS)))
    }

    /// Replaces the block level, keeping the sky level.
    pub fn set_block(&mut self, level: u8)
        requires
            level <= LIGHT_LEVEL_MAX_VALUE,
        ensures
            final(self).block() == level,
            final(self).sky() == old(self).sky(),
    {
        let ghost old_raw = self.0;
        let mask: u8 = LIGHT_LEVEL_MAX_VALUE << LIGHT_LEVEL_BITS;
        assert(mask == 0xf0u8) by (bit_vector)
            requires
                mask == 15u8 << 4u32,
        ;
        self.0 &= mask;
        self.0 |= level;
        proof {
            lemma_replace_block(old_raw, level);
        }
    }

    /// Replaces the block level with `min(level, LIGHT_LEVEL_MAX_VALUE)`, keeping the sky level.
    pub fn set_block_saturate(&mut self, level: u8)
        ensures
            final(self).block() == (if level <= LIGHT_LEVEL_MAX_VALUE {
                level
            } else {
                LIGHT_LEVEL_MAX_VALUE
            }),
            final(self).sky() == old(self).sky(),
    {
        let level = if level < LIGHT_LEVEL_MAX_VALUE {
            level
        } else {
            LIGHT_LEVEL_MAX_VALUE
        };
        self.set_block(level);
    }

    /// The block level.
    pub fn get_block(&self) -> (r: u8)
        ensures
            r == self.block(),
            r <= LIGHT_LEVEL_MAX_VALUE,
    {
        proof {
            lemma_nibbles(self.0);
        }
        self.0 & LIGHT_LEVEL_MAX_VALUE
    }

    /// Replaces the sky level, keeping the block level.
    pub fn set_sky(&mut self, level: u8)
        requires
            level <= LIGHT_LEVEL_MAX_VALUE,
        ensures
            final(self).sky() == level,
            final(self).block() == old(self).block(),
    {
        let ghost old_raw = self.0;
        self.0 &= LIGHT_LEVEL_MAX_VALUE;
        let shifted: u8 = level << LIGHT_LEVEL_BITS;
        self.0 |= shifted;
        proof {
            lemma_replace_sky(old_raw, level, shifted);
        }
    }

    /// Replaces the sky level with `min(level, LIGHT_LEVEL_MAX_VALUE)`, keeping the block level.
    pub fn set_sky_saturate(&mut self, level: u8)
        ensures
            final(self).sky() == (if level <= LIGHT_LEVEL_MAX_VALUE {
                level
            } else {
                LIGHT_LEVEL_MAX_VALUE
            }),
            final(self).block() == old(self).block(),
    {
        let level = if level < LIGHT_LEVEL_MAX_VALUE {
            level
        } else {
            LIGHT_LEVEL_MAX_VALUE
        };
        self.set_sky(level);
    }

    /// The sky level.
    pub fn get_sky(&self) -> (r: u8)
        ensures
            r == self.sky(),
            r <= LIGHT_LEVEL_MAX_VALUE,
    {
        proof {
            lemma_nibbles(self.0);
        }
        self.0 >> LIGHT_LEVEL_BITS
    }

    /// The packed byte: the block level in the low nibble, the sky level in the high one.
    pub fn to_u8(&self) -> (r: u8)
        ensures
            r == self.raw(),
            r == pack_levels(self.block(), self.sky()),
    {
        proof {
            lemma_nibbles(self.0);
        }
        self.0
    }
}

/// A pending light update at a position inside a chunk.
#[derive(Clone, Copy)]
pub struct LightNode {
    pub x: i8,
    pub y: i16,
    pub z: i8,
    pub level: u8,
}

impl LightNode {
    /// A node with the given fields.
    pub fn new(x: i8, y: i16, z: i8, level: u8) -> (r: Self)
        ensures
            r.x == x && r.y == y && r.z == z && r.level == level,
    {
        Self { x, y, z, level }
    }
}

} // verus!
