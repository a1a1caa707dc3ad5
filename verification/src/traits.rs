//! Standard conversions and accessors of [`StackVec`].
use vstd::prelude::*;

use core::ops::{Deref, Index};
use std::slice::{Iter, IterMut};

use crate::model::clones_of;
use crate::stack_vec::StackVec;

verus! {

impl<T, const CAP: usize> Default for StackVec<T, CAP> {
    /// An empty vector, as [`StackVec::new`].
    fn default() -> (v: Self)
        ensures
            v@ == Seq::<T>::empty(),
    {
        Self::new()
    }
}

impl<T: Clone, const CAP: usize> Clone for StackVec<T, CAP> {
    /// A vector of clones of the elements, in order.
    fn clone(&self) -> (v: Self)
        ensures
            clones_of(self@, v@),
    {
        let mut out = Self::new();
        let n = self.len();
        let mut i: usize = 0;
        while i < n
            invariant
                n == self@.len(),
                n <= CAP,
                i <= n,
                out@.len() == i,
                forall|j: int| 0 <= j < i ==> cloned::<T>(self@[j], #[trigger] out@[j]),
            decreases n - i,
        {
            let item = self.index(i).clone();
            out.push(item);
            i = i + 1;
        }
        out
    }
}

impl<T, const CAP: usize> Deref for StackVec<T, CAP> {
    type Target = [T];

    /// The elements as a slice, as [`StackVec::as_slice`].
    fn deref(&self) -> (s: &[T])
        ensures
            s@ == self@,
    {
        self.as_slice()
    }
}

impl<'a, T, const CAP: usize> IntoIterator for &'a StackVec<T, CAP> {
    type Item = &'a T;

    type IntoIter = Iter<'a, T>;

    /// An iterator over references to the elements, as [`StackVec::iter`].
    fn into_iter(self) -> (it: Iter<'a, T>)
        ensures
            vstd::std_specs::slice::into_iter_elts(it) == self@,
    {
        self.iter()
    }
}

impl<'a, T, const CAP: usize> IntoIterator for &'a mut StackVec<T, CAP> {
    type Item = &'a mut T;

    type IntoIter = IterMut<'a, T>;

    /// An iterator over mutable references to the elements, as [`StackVec::iter_mut`].
    fn into_iter(self) -> (it: IterMut<'a, T>)
        ensures
            final(self)@.len() == old(self)@.len(),
    {
        self.iter_mut()
    }
}

impl<T, const CAP: usize> AsRef<[T]> for StackVec<T, CAP> {
    /// The elements as a slice, as [`StackVec::as_slice`].
    fn as_ref(&self) -> (s: &[T])
        ensures
            s@ == self@,
    {
        self.as_slice()
    }
}

impl<T, const CAP: usize> Index<usize> for StackVec<T, CAP> {
    type Output = T;

    /// The element at `index`, as [`StackVec::index`].
    fn index(&self, index: usize) -> (r: &T)
        ensures
            *r == self@[index as int],
    {
        StackVec::index(self, index)
    }
}

impl<T, const CAP: usize> vstd::std_specs::core::IndexSpecImpl<usize> for StackVec<T, CAP> {
    open spec fn index_req(&self, index: &usize) -> bool {
        *index < self@.len()
    }
}

impl<T: Clone, const CAP: usize> TryFrom<&[T]> for StackVec<T, CAP> {
    type Error = &'static str;

    /// A vector of clones of the elements of `slice`, or an error when they do not fit.
    fn try_from(slice: &[T]) -> (r: Result<Self, &'static str>)
        ensures
            slice@.len() <= CAP ==> (r matches Ok(v) && clones_of(slice@, v@)),
            slice@.len() > CAP ==> r == Err::<Self, &'static str>("value length exceeds capacity"),
    {
        if slice.len() > CAP {
            return Err("value length exceeds capacity");
        }
        let mut v = Self::new();
        v.extend_from_slice(slice);
        proof {
            assert(v@.subrange(0, 0) =~= Seq::<T>::empty());
            assert(v@.subrange(0, v@.len() as int) =~= v@);
        }
        Ok(v)
    }
}

/// Cloning need not give values equal to the originals, so no single result is
/// named here: what a call gives is stated by the `ensures` of `try_from` above.
impl<T: Clone, const CAP: usize> vstd::std_specs::convert::TryFromSpecImpl<&[T]> for StackVec<T, CAP> {
    open spec fn obeys_try_from_spec() -> bool {
        false
    }

    open spec fn try_from_spec(slice: &[T]) -> Result<Self, &'static str> {
        arbitrary()
    }
}

} // verus!
