//! A plain three-component vector, the library's own stand-in for a math crate's vector.
use vstd::prelude::*;

verus! {

/// Three components `x`, `y`, `z`.
#[derive(Clone, Copy, PartialEq, Eq, Structural, Debug, Hash)]
pub struct Vec3<T> {
    pub x: T,
    pub y: T,
    pub z: T,
}

impl<T> Vec3<T> {
    /// A vector with the given components.
    pub fn new(x: T, y: T, z: T) -> (r: Self)
        ensures
            r.x == x && r.y == y && r.z == z,
    {
        Vec3 { x, y, z }
    }
}

/// Two components `x`, `y`.
#[derive(Clone, Copy, PartialEq, Eq, Structural, Debug, Hash)]
pub struct Vec2<T> {
    pub x: T,
    pub y: T,
}

impl<T> Vec2<T> {
    /// A vector with the given components.
    pub fn new(x: T, y: T) -> (r: Self)
        ensures
            r.x == x && r.y == y,
    {
        Vec2 { x, y }
    }
}

/// The components of a signed vector as integers.
pub open spec fn int_of_i32(v: Vec3<i32>) -> Vec3<int> {
    Vec3 { x: v.x as int, y: v.y as int, z: v.z as int }
}

/// The components of an unsigned vector as integers.
pub open spec fn int_of_u32(v: Vec3<u32>) -> Vec3<int> {
    Vec3 { x: v.x as int, y: v.y as int, z: v.z as int }
}

/// Componentwise sum.
pub open spec fn plus(a: Vec3<int>, b: Vec3<int>) -> Vec3<int> {
    Vec3 { x: a.x + b.x, y: a.y + b.y, z: a.z + b.z }
}

/// Componentwise difference.
pub open spec fn minus(a: Vec3<int>, b: Vec3<int>) -> Vec3<int> {
    Vec3 { x: a.x - b.x, y: a.y - b.y, z: a.z - b.z }
}

/// Euclidean quotient and remainder of `a` by a positive `b`: the remainder lies in `0..b`.
pub fn div_rem_euclid_i32(a: i32, b: i32) -> (r: (i32, i32))
    requires
        b > 0,
    ensures
        r.0 == a / b,
        r.1 == a % b,
        0 <= r.1 < b,
        r.0 * b + r.1 == a,
{
    proof {
        vstd::arithmetic::div_mod::lemma_fundamental_div_mod(a as int, b as int);
        vstd::arithmetic::div_mod::lemma_mod_bound(a as int, b as int);
        let q = a / b;
        let m = a % b;
        assert(q * b + m == a && i32::MIN <= q <= i32::MAX) by (nonlinear_arith)
            requires
                a == b * q + m,
                0 <= m < b,
                b >= 1,
                i32::MIN <= a <= i32::MAX,
        ;
    }
    let q = a.checked_div_euclid(b).unwrap();
    let m = a.checked_rem_euclid(b).unwrap();
    (q, m)
}

} // verus!
