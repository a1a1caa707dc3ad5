use vstd::prelude::*;

use std::collections::VecDeque;
use std::slice::{Iter, IterMut};

use crate::mut_iter::vec_iter_mut;
use crate::model::{extended_by_clones, kept, lemma_kept_push, swap_removed};
use vstd::std_specs::iter::IteratorSpec;

verus! {

/// A vector with a fixed capacity `CAP`: it never holds more than `CAP` elements.
///
/// Its view is the sequence of its elements, front to back.
#[derive(Debug, Hash, Eq, Ord)]
pub struct StackVec<T, const CAP: usize> {
    /// The stored elements, front to back. Allocated once with room for `CAP`.
    data: Vec<T>,
}

impl<T, const CAP: usize> View for StackVec<T, CAP> {
    type V = Seq<T>;

    closed spec fn view(&self) -> Seq<T> {
        self.data@
    }
}

/// Moves the elements of `v`, in order, into a double-ended queue.
pub(crate) fn into_deque<T>(v: Vec<T>) -> (d: VecDeque<T>)
    ensures
        d@ == v@,
{
    let mut v = v;
    let ghost all = v@;
    let mut d: VecDeque<T> = VecDeque::new();
    while v.len() > 0
        invariant
            v@ + d@ == all,
        decreases v@.len(),
    {
        let ghost before_v = v@;
        let ghost before_d = d@;
        let x = v.pop().unwrap();
        d.push_front(x);
        assert(v@ + d@ =~= before_v + before_d);
    }
    assert(d@ =~= all);
    d
}

impl<T, const CAP: usize> StackVec<T, CAP> {
    /// The length never exceeds the capacity.
    #[verifier::type_invariant]
    spec fn within_capacity(self) -> bool {
        self.data@.len() <= CAP
    }

    /// Moves the elements out, leaving the vector empty.
    fn take_data(&mut self) -> (data: Vec<T>)
        ensures
            data@ == old(self)@,
            data@.len() <= CAP,
            final(self)@ == Seq::<T>::empty(),
    {
        proof {
            use_type_invariant(&*self);
        }
        let mut data = Vec::new();
        core::mem::swap(&mut data, &mut self.data);
        data
    }

    /// Replaces the elements with `data`.
    fn put_data(&mut self, data: Vec<T>)
        requires
            data@.len() <= CAP,
        ensures
            final(self)@ == data@,
    {
        self.data = data;
    }

    /// Gives up the elements as a `Vec`, in order.
    pub(crate) fn into_vec(self) -> (v: Vec<T>)
        ensures
            v@ == self@,
            v@.len() <= CAP,
    {
        proof {
            use_type_invariant(&self);
        }
        let StackVec { data } = self;
        data
    }

    /// Creates an empty vector.
    pub fn new() -> (v: Self)
        ensures
            v@ == Seq::<T>::empty(),
    {
        StackVec { data: Vec::with_capacity(CAP) }
    }

    /// Removes all elements, dropping them.
    pub fn clear(&mut self)
        ensures
            final(self)@ == Seq::<T>::empty(),
    {
        let mut data = self.take_data();
        data.clear();
        self.put_data(data);
    }

    /// The number of elements; never more than the capacity.
    pub fn len(&self) -> (n: usize)
        ensures
            n == self@.len(),
            n <= CAP,
    {
        proof {
            use_type_invariant(self);
        }
        self.data.len()
    }

    /// The capacity `CAP`.
    pub fn capacity(&self) -> (c: usize)
        ensures
            c == CAP,
    {
        CAP
    }

    /// How many more elements fit.
    pub fn remaining_capacity(&self) -> (r: usize)
        ensures
            r == CAP - self@.len(),
            r + self@.len() == CAP,
    {
        proof {
            use_type_invariant(self);
        }
        CAP - self.data.len()
    }

    /// Whether there are no elements.
    pub fn is_empty(&self) -> (b: bool)
        ensures
            b <==> self@.len() == 0,
    {
        self.data.len() == 0
    }

    /// Whether the vector holds `CAP` elements.
    pub fn is_full(&self) -> (b: bool)
        ensures
            b <==> self@.len() == CAP,
    {
        proof {
            use_type_invariant(self);
        }
        self.data.len() >= CAP
    }

    /// Keeps the first `len` elements and drops the rest; does nothing when
    /// `len` is at least the current length.
    pub fn truncate(&mut self, len: usize)
        ensures
            len <= old(self)@.len() ==> final(self)@ == old(self)@.subrange(0, len as int),
            len > old(self)@.len() ==> final(self)@ == old(self)@,
    {
        let mut data = self.take_data();
        data.truncate(len);
        self.put_data(data);
    }

    /// The elements as a slice.
    pub fn as_slice(&self) -> (s: &[T])
        ensures
            s@ == self@,
    {
        self.data.as_slice()
    }

    /// An iterator over references to the elements, front to back.
    pub fn iter(&self) -> (it: Iter<'_, T>)
        ensures
            vstd::std_specs::slice::into_iter_elts(it) == self@,
            IteratorSpec::decrease(&it) is Some,
            IteratorSpec::initial_value_relation(&it, &it),
    {
        let it = self.data.as_slice().iter();
        it
    }

    /// An iterator over mutable references to the elements, front to back.
    /// Writing through it may change elements but never the length.
    pub fn iter_mut(&mut self) -> (it: IterMut<'_, T>)
        ensures
            final(self)@.len() == old(self)@.len(),
    {
        proof {
            use_type_invariant(&*self);
        }
        vec_iter_mut(&mut self.data)
    }

    /// Calls `f` once on each element, front to back; keeps, in their order, the
    /// elements for which it returned `true` and drops the others.
    pub fn retain<F>(&mut self, f: F) where F: FnMut(&T) -> bool
        requires
            forall|i: int| 0 <= i < old(self)@.len() ==> call_requires(f, (&old(self)@[i],)),
        ensures
            exists|keep: Seq<bool>|
                #![trigger kept(old(self)@, keep)]
                {
                    &&& keep.len() == old(self)@.len()
                    &&& forall|i: int|
                        0 <= i < keep.len() ==> call_ensures(f, (&old(self)@[i],), #[trigger] keep[i])
                    &&& final(self)@ == kept(old(self)@, keep)
                },
    {
        broadcast use vstd::function::group_function_axioms;

        let data = self.take_data();
        let ghost all = data@;
        let n = data.len();
        let mut rest = into_deque(data);
        let mut out: Vec<T> = Vec::with_capacity(CAP);
        let mut g = f;
        let ghost mut keep: Seq<bool> = Seq::empty();
        while rest.len() > 0
            invariant
                g == f,
                n == all.len(),
                n <= CAP,
                all == old(self)@,
                forall|i: int| 0 <= i < all.len() ==> call_requires(f, (&all[i],)),
                rest@.len() <= n,
                rest@ == all.subrange(n - rest@.len(), n as int),
                keep.len() == n - rest@.len(),
                forall|i: int| 0 <= i < keep.len() ==> call_ensures(f, (&all[i],), #[trigger] keep[i]),
                out@ == kept(all.subrange(0, keep.len() as int), keep),
                out@.len() <= keep.len(),
            decreases rest@.len(),
        {
            let ghost done: int = keep.len() as int;
            let x = rest.pop_front().unwrap();
            assert(x == all[done]);
            let b = g(&x);
            proof {
                let before = keep;
                keep = keep.push(b);
                assert(all.subrange(0, done + 1) =~= all.subrange(0, done).push(x));
                lemma_kept_push(all.subrange(0, done), before, x, b);
            }
            if b {
                out.push(x);
            }
        }
        assert(all.subrange(0, n as int) =~= all);
        self.put_data(out);
    }

    /// A reference to the element at `index`.
    pub fn index(&self, index: usize) -> (r: &T)
        requires
            index < self@.len(),
        ensures
            *r == self@[index as int],
    {
        &self.data[index]
    }

    /// A reference to the element at `index`; the caller guarantees the index is in bounds.
    pub fn get_unchecked(&self, index: usize) -> (r: &T)
        requires
            index < self@.len(),
        ensures
            *r == self@[index as int],
    {
        &self.data[index]
    }

    /// A reference to the element at `index`, or `None` when out of bounds.
    pub fn get(&self, index: usize) -> (r: Option<&T>)
        ensures
            index < self@.len() ==> r == Some(&self@[index as int]),
            index >= self@.len() ==> r is None,
    {
        if index < self.data.len() {
            Some(&self.data[index])
        } else {
            None
        }
    }

    /// A mutable reference to the element at `index`.
    pub fn index_mut(&mut self, index: usize) -> (r: &mut T)
        requires
            index < old(self)@.len(),
        ensures
            *r == old(self)@[index as int],
            final(self)@ == old(self)@.update(index as int, *final(r)),
    {
        proof {
            use_type_invariant(&*self);
        }
        &mut self.data[index]
    }

    /// A mutable reference to the element at `index`; the caller guarantees the index is in bounds.
    pub fn get_unchecked_mut(&mut self, index: usize) -> (r: &mut T)
        requires
            index < old(self)@.len(),
        ensures
            *r == old(self)@[index as int],
            final(self)@ == old(self)@.update(index as int, *final(r)),
    {
        proof {
            use_type_invariant(&*self);
        }
        &mut self.data[index]
    }

    /// A mutable reference to the element at `index`, or `None` when out of bounds.
    pub fn get_mut(&mut self, index: usize) -> (r: Option<&mut T>)
        ensures
            index < old(self)@.len() ==> r is Some && *r.unwrap() == old(self)@[index as int]
                && final(self)@ == old(self)@.update(index as int, *final(r.unwrap())),
            index >= old(self)@.len() ==> r is None && final(self)@ == old(self)@,
    {
        proof {
            use_type_invariant(&*self);
        }
        if index < self.data.len() {
            Some(&mut self.data[index])
        } else {
            None
        }
    }

    /// Removes and returns the last element.
    pub fn pop(&mut self) -> (r: T)
        requires
            old(self)@.len() > 0,
        ensures
            r == old(self)@.last(),
            final(self)@ == old(self)@.drop_last(),
    {
        self.pop_unchecked()
    }

    /// Removes and returns the last element; the caller guarantees the vector is not empty.
    pub fn pop_unchecked(&mut self) -> (r: T)
        requires
            old(self)@.len() > 0,
        ensures
            r == old(self)@.last(),
            final(self)@ == old(self)@.drop_last(),
    {
        let mut data = self.take_data();
        let r = data.pop().unwrap();
        self.put_data(data);
        r
    }

    /// Removes and returns the last element, or `None` when empty.
    pub fn try_pop(&mut self) -> (r: Option<T>)
        ensures
            old(self)@.len() > 0 ==> r == Some(old(self)@.last()) && final(self)@
                == old(self)@.drop_last(),
            old(self)@.len() == 0 ==> r is None && final(self)@ == old(self)@,
    {
        if self.is_empty() {
            None
        } else {
            Some(self.pop_unchecked())
        }
    }

    /// Appends `value` at the back.
    pub fn push(&mut self, value: T)
        requires
            old(self)@.len() < CAP,
        ensures
            final(self)@ == old(self)@.push(value),
    {
        self.push_unchecked(value)
    }

    /// Appends `value` at the back; the caller guarantees the vector is not full.
    pub fn push_unchecked(&mut self, value: T)
        requires
            old(self)@.len() < CAP,
        ensures
            final(self)@ == old(self)@.push(value),
    {
        let mut data = self.take_data();
        data.push(value);
        self.put_data(data);
    }

    /// Appends `value` and returns `Some(())`, or returns `None` (dropping `value`)
    /// and leaves the vector unchanged when it is full.
    pub fn try_push(&mut self, value: T) -> (r: Option<()>)
        ensures
            old(self)@.len() < CAP ==> r is Some && final(self)@ == old(self)@.push(value),
            old(self)@.len() >= CAP ==> r is None && final(self)@ == old(self)@,
    {
        proof {
            use_type_invariant(&*self);
        }
        if self.is_full() {
            None
        } else {
            self.push_unchecked(value);
            Some(())
        }
    }

    /// Inserts `element` at `index`, shifting the later elements one place back.
    pub fn insert(&mut self, index: usize, element: T)
        requires
            index <= old(self)@.len(),
            old(self)@.len() < CAP,
        ensures
            final(self)@ == old(self)@.insert(index as int, element),
    {
        self.insert_unchecked(index, element)
    }

    /// Inserts `element` at `index`; the caller guarantees the index is at most the
    /// length and the vector is not full.
    pub fn insert_unchecked(&mut self, index: usize, element: T)
        requires
            index <= old(self)@.len(),
            old(self)@.len() < CAP,
        ensures
            final(self)@ == old(self)@.insert(index as int, element),
    {
        let mut data = self.take_data();
        data.insert(index, element);
        self.put_data(data);
    }

    /// Inserts `element` at `index` and returns `Some(())`, or returns `None` and leaves
    /// the vector unchanged when the index is past the end or the vector is full.
    pub fn try_insert(&mut self, index: usize, element: T) -> (r: Option<()>)
        ensures
            index <= old(self)@.len() && old(self)@.len() < CAP ==> r is Some && final(self)@
                == old(self)@.insert(index as int, element),
            !(index <= old(self)@.len() && old(self)@.len() < CAP) ==> r is None && final(self)@
                == old(self)@,
    {
        if index > self.len() || self.is_full() {
            None
        } else {
            self.insert_unchecked(index, element);
            Some(())
        }
    }

    /// Removes and returns the element at `index`, shifting the later elements one place forward.
    pub fn remove(&mut self, index: usize) -> (r: T)
        requires
            index < old(self)@.len(),
        ensures
            r == old(self)@[index as int],
            final(self)@ == old(self)@.remove(index as int),
    {
        self.remove_unchecked(index)
    }

    /// Removes and returns the element at `index`; the caller guarantees the index is in bounds.
    pub fn remove_unchecked(&mut self, index: usize) -> (r: T)
        requires
            index < old(self)@.len(),
        ensures
            r == old(self)@[index as int],
            final(self)@ == old(self)@.remove(index as int),
    {
        let mut data = self.take_data();
        let r = data.remove(index);
        self.put_data(data);
        r
    }

    /// Removes and returns the element at `index`, or returns `None` and leaves the
    /// vector unchanged when the index is out of bounds.
    pub fn try_remove(&mut self, index: usize) -> (r: Option<T>)
        ensures
            index < old(self)@.len() ==> r == Some(old(self)@[index as int]) && final(self)@
                == old(self)@.remove(index as int),
            index >= old(self)@.len() ==> r is None && final(self)@ == old(self)@,
    {
        if index < self.len() {
            Some(self.remove_unchecked(index))
        } else {
            None
        }
    }

    /// Removes and returns the element at `index`, moving the last element into its place.
    pub fn swap_remove(&mut self, index: usize) -> (r: T)
        requires
            index < old(self)@.len(),
        ensures
            r == old(self)@[index as int],
            final(self)@ == swap_removed(old(self)@, index as int),
    {
        self.swap_remove_unchecked(index)
    }

    /// Removes and returns the element at `index`, moving the last element into its place;
    /// the caller guarantees the index is in bounds.
    pub fn swap_remove_unchecked(&mut self, index: usize) -> (r: T)
        requires
            index < old(self)@.len(),
        ensures
            r == old(self)@[index as int],
            final(self)@ == swap_removed(old(self)@, index as int),
    {
        let mut data = self.take_data();
        let r = data.swap_remove(index);
        self.put_data(data);
        r
    }

    /// Swap-removes and returns the element at `index`, or returns `None` and leaves the
    /// vector unchanged when the index is out of bounds.
    pub fn try_swap_remove(&mut self, index: usize) -> (r: Option<T>)
        ensures
            index < old(self)@.len() ==> r == Some(old(self)@[index as int]) && final(self)@
                == swap_removed(old(self)@, index as int),
            index >= old(self)@.len() ==> r is None && final(self)@ == old(self)@,
    {
        if index < self.len() {
            Some(self.swap_remove_unchecked(index))
        } else {
            None
        }
    }
}

impl<T, const CAP: usize> StackVec<T, CAP> {
    /// Appends the items of `iter`, in the order it yields them. The items must fit.
    pub fn extend<I: Iterator<Item = T>>(&mut self, iter: I)
        requires
            iter.obeys_prophetic_iter_laws(),
            iter.decrease() is Some,
            old(self)@.len() + iter.remaining().len() <= CAP,
        ensures
            final(self)@ == old(self)@ + iter.remaining(),
    {
        let mut iter = iter;
        let ghost start = self@;
        let ghost items = iter.remaining();
        loop
            invariant_except_break
                iter.obeys_prophetic_iter_laws(),
                iter.decrease() is Some,
                self@ + iter.remaining() == start + items,
                self@.len() + iter.remaining().len() <= CAP,
            ensures
                self@ == start + items,
            decreases iter.decrease()->0,
        {
            let ghost before = iter.remaining();
            match iter.next() {
                Some(x) => {
                    proof {
                        assert(before =~= seq![x] + iter.remaining());
                        assert(self@.push(x) + iter.remaining() =~= self@ + before);
                    }
                    self.push(x);
                },
                None => {
                    assert(self@ =~= self@ + before);
                    break ;
                },
            }
        }
    }

    /// A vector of the items of `iter`, in the order it yields them. The items must fit.
    pub fn from_iter<I: Iterator<Item = T>>(iter: I) -> (v: Self)
        requires
            iter.obeys_prophetic_iter_laws(),
            iter.decrease() is Some,
            iter.remaining().len() <= CAP,
        ensures
            v@ == iter.remaining(),
    {
        let mut v = Self::new();
        proof {
            assert(v@ + iter.remaining() =~= iter.remaining());
        }
        v.extend(iter);
        v
    }
}

impl<T: Clone, const CAP: usize> StackVec<T, CAP> {
    /// Appends clones of the elements of `slice`, in order.
    pub fn extend_from_slice(&mut self, slice: &[T])
        requires
            old(self)@.len() + slice@.len() <= CAP,
        ensures
            extended_by_clones(old(self)@, slice@, final(self)@),
    {
        self.extend_from_slice_unchecked(slice)
    }

    /// Appends clones of the elements of `slice`; the caller guarantees they fit.
    pub fn extend_from_slice_unchecked(&mut self, slice: &[T])
        requires
            old(self)@.len() + slice@.len() <= CAP,
        ensures
            extended_by_clones(old(self)@, slice@, final(self)@),
    {
        let mut data = self.take_data();
        let ghost before = data@;
        data.extend_from_slice(slice);
        proof {
            let new = data@;
            assert(new.subrange(0, before.len() as int) =~= before);
            let tail = new.subrange(before.len() as int, new.len() as int);
            assert forall|i: int| 0 <= i < slice@.len() implies cloned::<T>(
                slice@[i],
                #[trigger] tail[i],
            ) by {
                assert(new[before.len() + i] == tail[i]);
            }
        }
        self.put_data(data);
    }

    /// Appends clones of the elements of `slice` and returns `Some(())`, or returns `None`
    /// and leaves the vector unchanged when they do not all fit.
    pub fn try_extend_from_slice(&mut self, slice: &[T]) -> (r: Option<()>)
        ensures
            old(self)@.len() + slice@.len() <= CAP ==> r is Some && extended_by_clones(
                old(self)@,
                slice@,
                final(self)@,
            ),
            old(self)@.len() + slice@.len() > CAP ==> r is None && final(self)@ == old(self)@,
    {
        if slice.len() > self.remaining_capacity() {
            None
        } else {
            self.extend_from_slice_unchecked(slice);
            Some(())
        }
    }
}

} // verus!
