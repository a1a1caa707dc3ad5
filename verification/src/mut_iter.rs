//! The one call into std that vstd leaves unspecified: `iter_mut` on a slice.
use vstd::prelude::*;

use std::slice::IterMut;

verus! {

/// `std::slice::IterMut`, the iterator that hands out mutable references.
#[verifier::external_type_specification]
#[verifier::external_body]
#[verifier::reject_recursive_types(T)]
pub struct ExIterMut<'a, T: 'a>(IterMut<'a, T>);

/// Calls std's `<[T]>::iter_mut` on the elements of `v` (reached through `Vec`'s
/// `DerefMut`). Claimed: the call does not unwind, and whatever is later written
/// through the iterator, `v` keeps its length (a slice cannot change its length).
/// Not claimed: which values the iterator hands out or what is written through it.
#[verifier::external_body]
pub(crate) fn vec_iter_mut<'a, T>(v: &'a mut Vec<T>) -> (it: IterMut<'a, T>)
    ensures
        final(v)@.len() == old(v)@.len(),
    no_unwind
{
    v.iter_mut()
}

} // verus!
