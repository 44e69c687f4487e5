//! Small helpers: the constants that descriptions fall back to, and boxing a vector.
use vstd::prelude::*;

verus! {

/// Always `None`.
pub fn none<T>() -> (r: Option<T>)
    ensures
        r is None,
{
    None
}

/// Always `true`.
pub fn bool_true() -> (r: bool)
    ensures
        r,
{
    true
}

/// Always `false`.
pub fn bool_false() -> (r: bool)
    ensures
        !r,
{
    false
}

/// Calls `Vec::into_boxed_slice`, which the standard library documents as keeping the
/// elements and their order; the contract claims exactly that.
#[verifier::external_body]
pub(crate) fn vec_into_boxed_slice<T>(v: Vec<T>) -> (r: Box<[T]>)
    ensures
        r@ == v@,
{
    v.into_boxed_slice()
}

} // verus!
