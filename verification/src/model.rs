//! Mathematical descriptions of what the vector operations do to the
//! sequence of elements.
use vstd::prelude::*;

verus! {

/// The elements of `s` whose flag in `keep` is `true`, in their original order.
pub open spec fn kept<T>(s: Seq<T>, keep: Seq<bool>) -> Seq<T>
    decreases s.len(),
{
    if s.len() == 0 {
        Seq::empty()
    } else {
        let rest = kept(s.drop_first(), keep.drop_first());
        if keep[0] {
            seq![s[0]] + rest
        } else {
            rest
        }
    }
}

/// Filtering one more element: it is kept at the end exactly when its flag is `true`.
pub proof fn lemma_kept_push<T>(s: Seq<T>, keep: Seq<bool>, x: T, b: bool)
    requires
        keep.len() == s.len(),
    ensures
        kept(s.push(x), keep.push(b)) == if b {
            kept(s, keep).push(x)
        } else {
            kept(s, keep)
        },
    decreases s.len(),
{
    if s.len() == 0 {
        assert(s.push(x).drop_first() =~= Seq::<T>::empty());
        assert(kept(Seq::<T>::empty(), keep.push(b).drop_first()) =~= Seq::<T>::empty());
        assert(seq![x] + Seq::<T>::empty() =~= Seq::<T>::empty().push(x));
    } else {
        lemma_kept_push(s.drop_first(), keep.drop_first(), x, b);
        assert(s.push(x).drop_first() =~= s.drop_first().push(x));
        assert(keep.push(b).drop_first() =~= keep.drop_first().push(b));
        let rest = kept(s.drop_first(), keep.drop_first());
        if keep[0] {
            assert(seq![s[0]] + rest.push(x) =~= (seq![s[0]] + rest).push(x));
        }
    }
}

/// `s` with the element at `i` replaced by the last element, and the last slot dropped.
pub open spec fn swap_removed<T>(s: Seq<T>, i: int) -> Seq<T> {
    s.update(i, s.last()).drop_last()
}

/// `dst` holds, position by position, clones of the elements of `src`.
pub open spec fn clones_of<T: Clone>(src: Seq<T>, dst: Seq<T>) -> bool {
    &&& dst.len() == src.len()
    &&& forall|i: int| 0 <= i < src.len() ==> cloned::<T>(src[i], #[trigger] dst[i])
}

/// `new` is `old` followed by clones of the elements of `src`.
pub open spec fn extended_by_clones<T: Clone>(old: Seq<T>, src: Seq<T>, new: Seq<T>) -> bool {
    &&& new.len() == old.len() + src.len()
    &&& new.subrange(0, old.len() as int) == old
    &&& clones_of(src, new.subrange(old.len() as int, new.len() as int))
}

/// One call on an owning iterator whose remaining elements are `rest`: `next_back`
/// when `from_back`, else `next`. Gives the elements left and what the call returns.
pub open spec fn take_one<T>(rest: Seq<T>, from_back: bool) -> (Seq<T>, Option<T>) {
    if rest.len() == 0 {
        (rest, None)
    } else if from_back {
        (rest.drop_last(), Some(rest.last()))
    } else {
        (rest.drop_first(), Some(rest[0]))
    }
}

/// The calls `calls` (`true` for `next_back`, `false` for `next`) made in order on an
/// owning iterator over `s`: the elements left, and what each call returned.
pub open spec fn drain<T>(s: Seq<T>, calls: Seq<bool>) -> (Seq<T>, Seq<Option<T>>)
    decreases calls.len(),
{
    if calls.len() == 0 {
        (s, Seq::empty())
    } else {
        let before = drain(s, calls.drop_last());
        let step = take_one(before.0, calls.last());
        (step.0, before.1.push(step.1))
    }
}

/// The positions `[lo, hi)` of an `n`-element sequence that are left after the calls `calls`.
pub open spec fn window(n: int, calls: Seq<bool>) -> (int, int)
    decreases calls.len(),
{
    if calls.len() == 0 {
        (0, n)
    } else {
        let w = window(n, calls.drop_last());
        if w.0 < w.1 {
            if calls.last() {
                (w.0, w.1 - 1)
            } else {
                (w.0 + 1, w.1)
            }
        } else {
            w
        }
    }
}

/// The position that call number `j` of `calls` hands out, or `None` when it hands out nothing.
pub open spec fn handed_out(n: int, calls: Seq<bool>, j: int) -> Option<int> {
    let w = window(n, calls.take(j));
    if w.0 < w.1 {
        Some(
            if calls[j] {
                w.1 - 1
            } else {
                w.0
            },
        )
    } else {
        None
    }
}

/// Position `i` lies in the window `w`.
pub open spec fn in_window(w: (int, int), i: int) -> bool {
    w.0 <= i < w.1
}

/// Some call among the first `k` of `calls` hands out position `i`.
pub open spec fn handed_out_within(n: int, calls: Seq<bool>, k: int, i: int) -> bool {
    exists|j: int| 0 <= j < k && #[trigger] handed_out(n, calls, j) == Some(i)
}

/// The elements of `s` from position `i` on.
pub open spec fn suffix<T>(s: Seq<T>, i: usize) -> Seq<T> {
    s.subrange(i as int, s.len() as int)
}

} // verus!
