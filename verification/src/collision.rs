//! The blocks that a box covers, as integer offsets from its lowest corner.
use vstd::prelude::*;

use crate::vector::Vec3;

verus! {

/// The number of blocks in a box of `size` blocks along each axis; an empty or inverted box
/// has none.
pub open spec fn box_volume(size: Vec3<i32>) -> int {
    if size.x > 0 && size.y > 0 && size.z > 0 {
        size.x * size.y * size.z
    } else {
        0
    }
}

/// The offset of the `i`-th block of a box of `size` blocks, walking the box layer by layer
/// upward, each layer row by row along z, and each row along x.
pub open spec fn box_offset(size: Vec3<i32>, i: int) -> Vec3<int> {
    Vec3 { x: i % size.x as int, y: i / (size.x * size.z), z: (i / size.x as int) % size.z as int }
}

proof fn lemma_box_offset(size: Vec3<i32>, dx: int, dy: int, dz: int)
    requires
        size.x > 0,
        size.z > 0,
        0 <= dx < size.x,
        0 <= dz < size.z,
        0 <= dy,
    ensures
        box_offset(size, (dy * size.z + dz) * size.x + dx) == (Vec3 { x: dx, y: dy, z: dz }),
{
    let sx = size.x as int;
    let sz = size.z as int;
    let k = (dy * sz + dz) * sx + dx;
    vstd::arithmetic::div_mod::lemma_fundamental_div_mod_converse(k, sx, dy * sz + dz, dx);
    vstd::arithmetic::div_mod::lemma_fundamental_div_mod_converse(dy * sz + dz, sz, dy, dz);
    assert(k == dy * (sx * sz) + (dz * sx + dx) && 0 <= dz * sx + dx < sx * sz) by (nonlinear_arith)
        requires
            k == (dy * sz + dz) * sx + dx,
            0 <= dx < sx,
            0 <= dz < sz,
    ;
    vstd::arithmetic::div_mod::lemma_fundamental_div_mod_converse(k, sx * sz, dy, dz * sx + dx);
}

/// The offsets of the blocks of a box of `size` blocks, layer by layer upward, each layer row
/// by row along z, each row along x.
pub fn box_offsets(size: Vec3<i32>) -> (r: Vec<Vec3<i32>>)
    requires
        i32::MIN <= size.x * size.y * size.z <= i32::MAX,
    ensures
        r@.len() == box_volume(size),
        forall|i: int| 0 <= i < r@.len() ==> #[trigger] r@[i].x == box_offset(size, i).x && r@[i].y
            == box_offset(size, i).y && r@[i].z == box_offset(size, i).z,
{
    let mut out: Vec<Vec3<i32>> = Vec::new();
    if size.x <= 0 || size.y <= 0 || size.z <= 0 {
        return out;
    }
    let ghost sx = size.x as int;
    let ghost sz = size.z as int;
    proof {
        assert(sx * size.y * sz == size.x * size.y * size.z) by (nonlinear_arith)
            requires
                sx == size.x,
                sz == size.z,
        ;
    }
    let mut dy: i32 = 0;
    assert(dy * sz * sx == 0) by (nonlinear_arith)
        requires
            dy == 0,
    ;
    while dy < size.y
        invariant
            0 <= dy <= size.y,
            size.x > 0 && size.y > 0 && size.z > 0,
            sx == size.x,
            sz == size.z,
            size.x * size.y * size.z <= i32::MAX,
            out@.len() == dy * sz * sx,
            forall|i: int| 0 <= i < out@.len() ==> #[trigger] out@[i].x == box_offset(size, i).x
                && out@[i].y == box_offset(size, i).y && out@[i].z == box_offset(size, i).z,
        decreases size.y - dy,
    {
        let mut dz: i32 = 0;
        while dz < size.z
            invariant
                0 <= dy < size.y,
                0 <= dz <= size.z,
                size.x > 0 && size.y > 0 && size.z > 0,
                sx == size.x,
                sz == size.z,
                size.x * size.y * size.z <= i32::MAX,
                out@.len() == (dy * sz + dz) * sx,
                forall|i: int| 0 <= i < out@.len() ==> #[trigger] out@[i].x == box_offset(size, i).x
                    && out@[i].y == box_offset(size, i).y && out@[i].z == box_offset(size, i).z,
            decreases size.z - dz,
        {
            let mut dx: i32 = 0;
            while dx < size.x
                invariant
                    0 <= dy < size.y,
                    0 <= dz < size.z,
                    0 <= dx <= size.x,
                    size.x > 0 && size.y > 0 && size.z > 0,
                    sx == size.x,
                    sz == size.z,
                    size.x * size.y * size.z <= i32::MAX,
                    out@.len() == (dy * sz + dz) * sx + dx,
                    forall|i: int| 0 <= i < out@.len() ==> #[trigger] out@[i].x == box_offset(size, i).x
                        && out@[i].y == box_offset(size, i).y && out@[i].z == box_offset(size, i).z,
                decreases size.x - dx,
            {
                proof {
                    lemma_box_offset(size, dx as int, dy as int, dz as int);
                }
                out.push(Vec3 { x: dx, y: dy, z: dz });
                dx += 1;
            }
            proof {
                assert((dy * sz + dz) * sx + sx == (dy * sz + dz + 1) * sx) by (nonlinear_arith);
            }
            dz += 1;
        }
        proof {
            assert((dy * sz + sz) * sx == (dy + 1) * sz * sx) by (nonlinear_arith);
        }
        dy += 1;
    }
    proof {
        assert(size.y * sz * sx == size.x * size.y * size.z) by (nonlinear_arith)
            requires
                sx == size.x,
                sz == size.z,
        ;
    }
    out
}

} // verus!
