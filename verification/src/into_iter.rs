use vstd::prelude::*;

use std::collections::VecDeque;

use crate::model::take_one;
use crate::stack_vec::{into_deque, StackVec};

verus! {

/// An owning iterator over the elements of a [`StackVec`], usable from both ends.
///
/// Its view is the sequence of elements not yet handed out, front to back.
/// The elements left when it is dropped are dropped with it.
pub struct IntoIter<T, const CAP: usize> {
    /// The elements not yet handed out.
    rest: VecDeque<T>,
}

impl<T, const CAP: usize> View for IntoIter<T, CAP> {
    type V = Seq<T>;

    closed spec fn view(&self) -> Seq<T> {
        self.rest@
    }
}

impl<T, const CAP: usize> StackVec<T, CAP> {
    /// Turns the vector into an iterator that hands out its elements by value.
    pub fn into_iter(self) -> (it: IntoIter<T, CAP>)
        ensures
            it@ == self@,
    {
        IntoIter { rest: into_deque(self.into_vec()) }
    }
}

impl<T, const CAP: usize> IntoIter<T, CAP> {
    /// Hands out the front element, or `None` when none are left.
    pub fn next(&mut self) -> (r: Option<T>)
        ensures
            old(self)@.len() > 0 ==> r == Some(old(self)@[0]) && final(self)@ == old(self)@.drop_first(),
            (final(self)@, r) == take_one(old(self)@, false),
            old(self)@.len() == 0 ==> r is None && final(self)@ == old(self)@,
    {
        let r = self.rest.pop_front();
        proof {
            if old(self)@.len() > 0 {
                assert(self.rest@ =~= old(self)@.drop_first());
            }
        }
        r
    }

    /// Hands out the back element, or `None` when none are left.
    pub fn next_back(&mut self) -> (r: Option<T>)
        ensures
            old(self)@.len() > 0 ==> r == Some(old(self)@.last()) && final(self)@ == old(self)@.drop_last(),
            (final(self)@, r) == take_one(old(self)@, true),
            old(self)@.len() == 0 ==> r is None && final(self)@ == old(self)@,
    {
        let r = self.rest.pop_back();
        proof {
            if old(self)@.len() > 0 {
                assert(self.rest@ =~= old(self)@.drop_last());
            }
        }
        r
    }

    /// The number of elements left, as exact lower and upper bounds.
    pub fn size_hint(&self) -> (r: (usize, Option<usize>))
        ensures
            r.0 == self@.len(),
            r.1 == Some(self@.len() as usize),
    {
        let n = self.rest.len();
        (n, Some(n))
    }

    /// The number of elements left.
    pub fn len(&self) -> (n: usize)
        ensures
            n == self@.len(),
    {
        self.rest.len()
    }
}

} // verus!
