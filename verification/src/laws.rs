//! Properties that hold across the operations of [`crate::StackVec`], stated over
//! the sequences that the operations' contracts speak of.
use vstd::prelude::*;

use core::cmp::Ordering;
use vstd::std_specs::cmp::{PartialEqSpec, PartialOrdSpec};

use crate::lexicographic::{elementwise_eq, lex_order};
use crate::model::{
    clones_of, drain, extended_by_clones, handed_out, handed_out_within, in_window, kept,
    swap_removed, window,
};
use crate::stack_vec::StackVec;

verus! {

/// `pop` undoes `push`: pushing `v` and then popping gives back `v` and the
/// elements as they were.
pub proof fn law_pop_undoes_push<T>(s: Seq<T>, v: T)
    ensures
        s.push(v).last() == v,
        s.push(v).drop_last() == s,
{
    assert(s.push(v).drop_last() =~= s);
}

/// `remove` undoes `insert`: inserting `v` at `i` and then removing at `i` gives
/// back `v` and the elements as they were.
pub proof fn law_remove_undoes_insert<T>(s: Seq<T>, i: int, v: T)
    requires
        0 <= i <= s.len(),
    ensures
        s.insert(i, v)[i] == v,
        s.insert(i, v).remove(i) == s,
{
    assert(s.insert(i, v).remove(i) =~= s);
}

/// `swap_remove` takes out exactly one element: the others stay, as a multiset, and
/// only the last element moves (into the vacated slot). Swap-removing the last
/// element is popping it.
pub proof fn law_swap_remove_keeps_the_rest<T>(s: Seq<T>, i: int)
    requires
        0 <= i < s.len(),
    ensures
        swap_removed(s, i).len() == s.len() - 1,
        swap_removed(s, i).to_multiset().insert(s[i]) == s.to_multiset(),
        forall|j: int| 0 <= j < s.len() - 1 && j != i ==> #[trigger] swap_removed(s, i)[j] == s[j],
        i < s.len() - 1 ==> swap_removed(s, i)[i] == s.last(),
        i == s.len() - 1 ==> swap_removed(s, i) == s.drop_last(),
{
    broadcast use vstd::seq_lib::group_to_multiset_ensures;

    let last = s.len() - 1;
    let r = swap_removed(s, i);
    if i == last {
        assert(r =~= s.drop_last());
        assert(s =~= s.drop_last().push(s[i]));
    } else {
        let u = s.update(i, s.last());
        assert(u =~= r.push(s.last()));
        // Updating position i trades s[i] for s.last() in the multiset.
        s.to_multiset_ensures();
        vstd::seq_lib::lemma_multiset_commutative(r, seq![s.last()]);
        assert(r + seq![s.last()] =~= u);
        lemma_update_multiset(s, i, s.last());
        assert(u.to_multiset() =~= r.to_multiset().insert(s.last()));
        let a = r.to_multiset();
        let b = s.to_multiset().remove(s[i]);
        assert(a.insert(s.last()) == b.insert(s.last()));
        assert forall|x: T| a.count(x) == b.count(x) by {
            broadcast use vstd::multiset::group_multiset_axioms;

            assert(a.insert(s.last()).count(x) == b.insert(s.last()).count(x));
        }
        assert(a =~= b);
        assert(s.contains(s[i]));
        assert(s.to_multiset().count(s[i]) > 0);
        assert(r.to_multiset().insert(s[i]) =~= s.to_multiset());
    }
}

/// Replacing position `i` by `x` removes one `s[i]` from the multiset and adds `x`.
proof fn lemma_update_multiset<T>(s: Seq<T>, i: int, x: T)
    requires
        0 <= i < s.len(),
    ensures
        s.update(i, x).to_multiset() == s.to_multiset().remove(s[i]).insert(x),
    decreases s.len(),
{
    broadcast use vstd::seq_lib::group_to_multiset_ensures;

    let u = s.update(i, x);
    if i == s.len() - 1 {
        assert(u =~= s.drop_last().push(x));
        assert(s =~= s.drop_last().push(s[i]));
        assert(s.drop_last().to_multiset() =~= s.to_multiset().remove(s[i]));
    } else {
        lemma_update_multiset(s.drop_last(), i, x);
        assert(u =~= s.drop_last().update(i, x).push(s.last()));
        assert(s =~= s.drop_last().push(s.last()));
        assert(s.drop_last()[i] == s[i]);
        assert(u.to_multiset() =~= s.to_multiset().remove(s[i]).insert(x));
    }
}

/// `retain` never adds elements: what it keeps is at most what there was.
pub proof fn law_retain_never_grows<T>(s: Seq<T>, keep: Seq<bool>)
    requires
        keep.len() == s.len(),
    ensures
        kept(s, keep).len() <= s.len(),
    decreases s.len(),
{
    if s.len() > 0 {
        law_retain_never_grows(s.drop_first(), keep.drop_first());
    }
}

/// `x` stands in `s` at a position whose flag in `keep` is `true`.
pub open spec fn accepted_in<T>(s: Seq<T>, keep: Seq<bool>, x: T) -> bool {
    exists|i: int| 0 <= i < s.len() && keep[i] && s[i] == x
}

/// Every element that `retain` keeps was in the vector at a position whose
/// predicate answer was `true`.
pub proof fn law_retain_keeps_only_accepted<T>(s: Seq<T>, keep: Seq<bool>)
    requires
        keep.len() == s.len(),
    ensures
        forall|j: int| 0 <= j < kept(s, keep).len() ==> accepted_in(s, keep, #[trigger] kept(s, keep)[j]),
    decreases s.len(),
{
    if s.len() > 0 {
        let rest = s.drop_first();
        let rk = keep.drop_first();
        law_retain_keeps_only_accepted(rest, rk);
        assert forall|j: int| 0 <= j < kept(s, keep).len() implies accepted_in(
            s,
            keep,
            #[trigger] kept(s, keep)[j],
        ) by {
            if keep[0] {
                if j == 0 {
                    assert(keep[0] && s[0] == kept(s, keep)[j]);
                } else {
                    assert(kept(s, keep)[j] == kept(rest, rk)[j - 1]);
                    assert(accepted_in(rest, rk, kept(rest, rk)[j - 1]));
                    let i = choose|i: int| 0 <= i < rest.len() && rk[i] && rest[i] == kept(rest, rk)[j - 1];
                    assert(keep[i + 1] && s[i + 1] == kept(s, keep)[j]);
                }
            } else {
                assert(accepted_in(rest, rk, kept(rest, rk)[j]));
                let i = choose|i: int| 0 <= i < rest.len() && rk[i] && rest[i] == kept(rest, rk)[j];
                assert(keep[i + 1] && s[i + 1] == kept(s, keep)[j]);
            }
        }
    }
}

/// `retain` with a predicate that accepts everything leaves the vector unchanged.
pub proof fn law_retain_all_is_identity<T>(s: Seq<T>, keep: Seq<bool>)
    requires
        keep.len() == s.len(),
        forall|i: int| 0 <= i < keep.len() ==> #[trigger] keep[i],
    ensures
        kept(s, keep) == s,
    decreases s.len(),
{
    if s.len() > 0 {
        law_retain_all_is_identity(s.drop_first(), keep.drop_first());
        assert(keep[0]);
        assert(seq![s[0]] + s.drop_first() =~= s);
    }
}

/// `retain` with a predicate that rejects everything empties the vector.
pub proof fn law_retain_none_empties<T>(s: Seq<T>, keep: Seq<bool>)
    requires
        keep.len() == s.len(),
        forall|i: int| 0 <= i < keep.len() ==> !#[trigger] keep[i],
    ensures
        kept(s, keep) == Seq::<T>::empty(),
    decreases s.len(),
{
    if s.len() > 0 {
        law_retain_none_empties(s.drop_first(), keep.drop_first());
        assert(!keep[0]);
    }
}

/// A vector is `==` to one with the same elements, when each element is `==` to itself.
pub proof fn law_eq_reflexive<T: PartialEq>(s: Seq<T>)
    requires
        forall|i: int| 0 <= i < s.len() ==> (#[trigger] s[i]).eq_spec(&s[i]),
    ensures
        elementwise_eq(s, s),
{
}

/// A vector compares equal to one with the same elements, when each element
/// compares equal to itself.
pub proof fn law_order_reflexive<T: PartialOrd>(s: Seq<T>)
    requires
        forall|i: int| 0 <= i < s.len() ==> (#[trigger] s[i]).partial_cmp_spec(&s[i]) == Some(
            Ordering::Equal,
        ),
    ensures
        lex_order(s, s) == Some(Ordering::Equal),
    decreases s.len(),
{
    if s.len() > 0 {
        assert(s[0].partial_cmp_spec(&s[0]) == Some(Ordering::Equal));
        let rest = s.drop_first();
        assert forall|i: int| 0 <= i < rest.len() implies (#[trigger] rest[i]).partial_cmp_spec(
            &rest[i],
        ) == Some(Ordering::Equal) by {
            assert(rest[i] == s[i + 1]);
        }
        law_order_reflexive(rest);
    }
}

/// A proper prefix is less than the longer vector, when each element compares
/// equal to itself.
pub proof fn law_order_prefix_is_less<T: PartialOrd>(s: Seq<T>, t: Seq<T>)
    requires
        s.len() < t.len(),
        s.is_prefix_of(t),
        forall|i: int| 0 <= i < t.len() ==> (#[trigger] t[i]).partial_cmp_spec(&t[i]) == Some(
            Ordering::Equal,
        ),
    ensures
        lex_order(s, t) == Some(Ordering::Less),
    decreases s.len(),
{
    if s.len() > 0 {
        assert(s[0] == t[0]);
        assert(t[0].partial_cmp_spec(&t[0]) == Some(Ordering::Equal));
        let t1 = t.drop_first();
        assert(s.drop_first() =~= t1.subrange(0, s.len() - 1));
        assert forall|i: int| 0 <= i < t1.len() implies (#[trigger] t1[i]).partial_cmp_spec(
            &t1[i],
        ) == Some(Ordering::Equal) by {
            assert(t1[i] == t[i + 1]);
        }
        law_order_prefix_is_less(s.drop_first(), t1);
    }
}

/// The window left after `calls` lies within `[0, n)` and shrinks by one per call
/// until it is empty.
pub proof fn law_window_shrinks(n: int, calls: Seq<bool>)
    requires
        0 <= n,
    ensures
        0 <= window(n, calls).0 <= window(n, calls).1 <= n,
        window(n, calls).1 - window(n, calls).0 == if calls.len() <= n {
            n - calls.len()
        } else {
            0
        },
    decreases calls.len(),
{
    if calls.len() > 0 {
        law_window_shrinks(n, calls.drop_last());
    }
}

/// Windows only shrink: the window after the first `k2` calls lies within the window
/// after the first `k1 <= k2` calls.
proof fn lemma_window_nested(n: int, calls: Seq<bool>, k1: int, k2: int)
    requires
        0 <= n,
        0 <= k1 <= k2 <= calls.len(),
    ensures
        window(n, calls.take(k1)).0 <= window(n, calls.take(k2)).0,
        window(n, calls.take(k2)).1 <= window(n, calls.take(k1)).1,
    decreases k2 - k1,
{
    if k1 < k2 {
        lemma_window_nested(n, calls, k1, k2 - 1);
        assert(calls.take(k2).drop_last() =~= calls.take(k2 - 1));
    }
}

/// Call `j` hands out the position that leaves the window at that call.
proof fn lemma_handed_out_leaves(n: int, calls: Seq<bool>, j: int)
    requires
        0 <= n,
        0 <= j < calls.len(),
    ensures
        handed_out(n, calls, j) matches Some(i) ==> {
            &&& window(n, calls.take(j)).0 <= i < window(n, calls.take(j)).1
            &&& !(window(n, calls.take(j + 1)).0 <= i < window(n, calls.take(j + 1)).1)
        },
        handed_out(n, calls, j) is None ==> window(n, calls.take(j + 1)) == window(n, calls.take(j)),
        window(n, calls.take(j)).0 <= window(n, calls.take(j + 1)).0,
        window(n, calls.take(j + 1)).1 <= window(n, calls.take(j)).1,
        forall|i: int|
            #[trigger] in_window(window(n, calls.take(j)), i) && !in_window(window(n, calls.take(j + 1)), i)
                ==> handed_out(n, calls, j) == Some(i),
{
    assert(calls.take(j + 1).drop_last() =~= calls.take(j));
    assert(calls.take(j + 1).last() == calls[j]);
}

/// Running calls on the owning iterator of `s`: what is left is the window of `s`,
/// and call `j` returns the element at the position it hands out, or `None`.
pub proof fn law_drain_follows_window<T>(s: Seq<T>, calls: Seq<bool>)
    ensures
        drain(s, calls).0 == s.subrange(window(s.len() as int, calls).0, window(s.len() as int, calls).1),
        drain(s, calls).1.len() == calls.len(),
        forall|j: int|
            0 <= j < calls.len() ==> #[trigger] drain(s, calls).1[j] == match handed_out(
                s.len() as int,
                calls,
                j,
            ) {
                Some(i) => Some(s[i]),
                None => None,
            },
    decreases calls.len(),
{
    let n = s.len() as int;
    law_window_shrinks(n, calls);
    if calls.len() == 0 {
        assert(s.subrange(0, n) =~= s);
    } else {
        let front = calls.drop_last();
        law_drain_follows_window(s, front);
        law_window_shrinks(n, front);
        let w = window(n, front);
        let rest = drain(s, front).0;
        assert(rest == s.subrange(w.0, w.1));
        let last = calls.len() - 1;
        assert(calls.take(last) =~= front);
        if w.0 < w.1 {
            if calls.last() {
                assert(rest.drop_last() =~= s.subrange(w.0, w.1 - 1));
            } else {
                assert(rest.drop_first() =~= s.subrange(w.0 + 1, w.1));
            }
        }
        assert forall|j: int| 0 <= j < calls.len() implies #[trigger] drain(s, calls).1[j] == match handed_out(
            n,
            calls,
            j,
        ) {
            Some(i) => Some(s[i]),
            None => None,
        } by {
            if j < last {
                assert(calls.take(j) =~= front.take(j));
                assert(calls[j] == front[j]);
                assert(drain(s, calls).1[j] == drain(s, front).1[j]);
            }
        }
    }
}

/// The first `n` calls on the owning iterator of an `n`-element vector each hand out an
/// element, and every later call returns `None`.
pub proof fn law_first_n_calls_hand_out(n: int, calls: Seq<bool>, j: int)
    requires
        0 <= n,
        0 <= j < calls.len(),
    ensures
        handed_out(n, calls, j) is Some <==> j < n,
{
    law_window_shrinks(n, calls.take(j));
}

/// However `next` and `next_back` calls interleave, no position is handed out twice,
/// and once there have been at least `n` calls every position of an `n`-element vector
/// has been handed out.
pub proof fn law_each_position_once(n: int, calls: Seq<bool>)
    requires
        0 <= n,
    ensures
        forall|j1: int, j2: int|
            0 <= j1 < j2 < calls.len() && handed_out(n, calls, j1) is Some
                ==> #[trigger] handed_out(n, calls, j2) != #[trigger] handed_out(n, calls, j1),
        calls.len() >= n ==> forall|i: int| 0 <= i < n ==> #[trigger] handed_out_within(n, calls, calls.len() as int, i),
{
    assert forall|j1: int, j2: int|
        0 <= j1 < j2 < calls.len() && handed_out(n, calls, j1) is Some
            implies #[trigger] handed_out(n, calls, j2) != #[trigger] handed_out(n, calls, j1) by {
        lemma_handed_out_leaves(n, calls, j1);
        lemma_handed_out_leaves(n, calls, j2);
        lemma_window_nested(n, calls, j1 + 1, j2);
    }
    if calls.len() >= n {
        lemma_every_left_position_handed_out(n, calls, calls.len() as int);
        law_window_shrinks(n, calls);
        assert(calls.take(calls.len() as int) =~= calls);
    }
}

/// Every position that has left the window within the first `k` calls was handed out
/// by one of them.
proof fn lemma_every_left_position_handed_out(n: int, calls: Seq<bool>, k: int)
    requires
        0 <= n,
        0 <= k <= calls.len(),
    ensures
        forall|i: int|
            0 <= i < n && !in_window(window(n, calls.take(k)), i) ==> #[trigger] handed_out_within(n, calls, k, i),
    decreases k,
{
    if k == 0 {
        assert(calls.take(0) =~= Seq::<bool>::empty());
    } else {
        lemma_every_left_position_handed_out(n, calls, k - 1);
        lemma_handed_out_leaves(n, calls, k - 1);
        assert forall|i: int|
            0 <= i < n && !in_window(window(n, calls.take(k)), i) implies #[trigger] handed_out_within(n, calls, k, i) by {
            if in_window(window(n, calls.take(k - 1)), i) {
                assert(handed_out(n, calls, k - 1) == Some(i));
            } else {
                assert(handed_out_within(n, calls, k - 1, i));
                let j = choose|j: int| 0 <= j < k - 1 && #[trigger] handed_out(n, calls, j) == Some(i);
                assert(handed_out(n, calls, j) == Some(i));
            }
        }
    }
}

/// Calling only `next` on the owning iterator of `s` returns `s[0]`, `s[1]`, ... in
/// order, then `None` for every later call.
pub proof fn law_next_drains_in_order<T>(s: Seq<T>, calls: Seq<bool>)
    requires
        forall|j: int| 0 <= j < calls.len() ==> !#[trigger] calls[j],
    ensures
        drain(s, calls).1.len() == calls.len(),
        forall|j: int|
            0 <= j < calls.len() ==> #[trigger] drain(s, calls).1[j] == if j < s.len() {
                Some(s[j])
            } else {
                None
            },
{
    let n = s.len() as int;
    law_drain_follows_window(s, calls);
    assert forall|j: int| 0 <= j < calls.len() implies #[trigger] drain(s, calls).1[j] == if j < s.len() {
        Some(s[j])
    } else {
        None
    } by {
        lemma_front_window(n, calls, j);
        law_window_shrinks(n, calls.take(j));
    }
}

/// With only `next` calls, the window after `k` of them starts at `min(k, n)`.
proof fn lemma_front_window(n: int, calls: Seq<bool>, k: int)
    requires
        0 <= n,
        0 <= k <= calls.len(),
        forall|j: int| 0 <= j < calls.len() ==> !#[trigger] calls[j],
    ensures
        window(n, calls.take(k)) == (if k <= n { k } else { n }, n),
    decreases k,
{
    if k > 0 {
        lemma_front_window(n, calls, k - 1);
        assert(calls.take(k).drop_last() =~= calls.take(k - 1));
        assert(!calls[k - 1]);
    } else {
        assert(calls.take(0) =~= Seq::<bool>::empty());
    }
}

/// Vectors of different lengths are never `==`.
pub proof fn law_eq_needs_equal_length<T: PartialEq, const CAP: usize>(
    a: StackVec<T, CAP>,
    b: StackVec<T, CAP>,
)
    ensures
        a.eq_spec(&b) ==> a@.len() == b@.len(),
{
}

/// `==` on vectors holds exactly when they have the same length and the elements at
/// each position are `==`.
pub proof fn law_eq_is_position_by_position<T: PartialEq, const CAP: usize>(
    a: StackVec<T, CAP>,
    b: StackVec<T, CAP>,
)
    ensures
        a.eq_spec(&b) <==> (a@.len() == b@.len() && (forall|i: int|
            0 <= i < a@.len() ==> (#[trigger] a@[i]).eq_spec(&b@[i]))),
{
}

/// `==` on vectors is symmetric when `==` on their elements is.
pub proof fn law_eq_symmetric<T: PartialEq, const CAP: usize>(
    a: StackVec<T, CAP>,
    b: StackVec<T, CAP>,
)
    requires
        forall|i: int, j: int|
            #![trigger a@[i], b@[j]]
            0 <= i < a@.len() && 0 <= j < b@.len() ==> a@[i].eq_spec(&b@[j]) == b@[j].eq_spec(&a@[i]),
    ensures
        a.eq_spec(&b) == b.eq_spec(&a),
{
    if a.eq_spec(&b) {
        assert forall|i: int| 0 <= i < b@.len() implies (#[trigger] b@[i]).eq_spec(&a@[i]) by {
            assert(a@[i].eq_spec(&b@[i]));
        }
    }
    if b.eq_spec(&a) {
        assert forall|i: int| 0 <= i < a@.len() implies (#[trigger] a@[i]).eq_spec(&b@[i]) by {
            assert(b@[i].eq_spec(&a@[i]));
        }
    }
}

/// The first position, within both vectors, whose elements do not compare equal decides
/// the comparison of the vectors, whatever their lengths.
pub proof fn law_order_first_difference_decides<T: PartialOrd, const CAP: usize>(
    a: StackVec<T, CAP>,
    b: StackVec<T, CAP>,
    k: int,
)
    requires
        0 <= k,
        k < a@.len(),
        k < b@.len(),
        forall|j: int| 0 <= j < k ==> (#[trigger] a@[j]).partial_cmp_spec(&b@[j]) == Some(Ordering::Equal),
        a@[k].partial_cmp_spec(&b@[k]) != Some(Ordering::Equal),
    ensures
        a.partial_cmp_spec(&b) == a@[k].partial_cmp_spec(&b@[k]),
{
    lemma_lex_first_difference(a@, b@, k);
}

/// When all positions within both vectors compare equal, the shorter vector is less,
/// and vectors of the same length are equal.
pub proof fn law_order_common_prefix_compares_lengths<T: PartialOrd, const CAP: usize>(
    a: StackVec<T, CAP>,
    b: StackVec<T, CAP>,
)
    requires
        forall|j: int|
            0 <= j < a@.len() && j < b@.len() ==> (#[trigger] a@[j]).partial_cmp_spec(&b@[j]) == Some(
                Ordering::Equal,
            ),
    ensures
        a@.len() < b@.len() ==> a.partial_cmp_spec(&b) == Some(Ordering::Less),
        a@.len() == b@.len() ==> a.partial_cmp_spec(&b) == Some(Ordering::Equal),
        a@.len() > b@.len() ==> a.partial_cmp_spec(&b) == Some(Ordering::Greater),
{
    lemma_lex_common_prefix(a@, b@);
}

proof fn lemma_lex_first_difference<T: PartialOrd>(a: Seq<T>, b: Seq<T>, k: int)
    requires
        0 <= k,
        k < a.len(),
        k < b.len(),
        forall|j: int| 0 <= j < k ==> (#[trigger] a[j]).partial_cmp_spec(&b[j]) == Some(Ordering::Equal),
        a[k].partial_cmp_spec(&b[k]) != Some(Ordering::Equal),
    ensures
        lex_order(a, b) == a[k].partial_cmp_spec(&b[k]),
    decreases k,
{
    if k > 0 {
        assert(a[0].partial_cmp_spec(&b[0]) == Some(Ordering::Equal));
        let a1 = a.drop_first();
        let b1 = b.drop_first();
        assert forall|j: int| 0 <= j < k - 1 implies (#[trigger] a1[j]).partial_cmp_spec(&b1[j]) == Some(
            Ordering::Equal,
        ) by {
            assert(a1[j] == a[j + 1] && b1[j] == b[j + 1]);
        }
        assert(a1[k - 1] == a[k] && b1[k - 1] == b[k]);
        lemma_lex_first_difference(a1, b1, k - 1);
    }
}

proof fn lemma_lex_common_prefix<T: PartialOrd>(a: Seq<T>, b: Seq<T>)
    requires
        forall|j: int|
            0 <= j < a.len() && j < b.len() ==> (#[trigger] a[j]).partial_cmp_spec(&b[j]) == Some(
                Ordering::Equal,
            ),
    ensures
        a.len() < b.len() ==> lex_order(a, b) == Some(Ordering::Less),
        a.len() == b.len() ==> lex_order(a, b) == Some(Ordering::Equal),
        a.len() > b.len() ==> lex_order(a, b) == Some(Ordering::Greater),
    decreases a.len(),
{
    if a.len() > 0 && b.len() > 0 {
        assert(a[0].partial_cmp_spec(&b[0]) == Some(Ordering::Equal));
        let a1 = a.drop_first();
        let b1 = b.drop_first();
        assert forall|j: int| 0 <= j < a1.len() && j < b1.len() implies (#[trigger] a1[j]).partial_cmp_spec(
            &b1[j],
        ) == Some(Ordering::Equal) by {
            assert(a1[j] == a[j + 1] && b1[j] == b[j + 1]);
        }
        lemma_lex_common_prefix(a1, b1);
    }
}

/// A clone of a vector has the same length, and its element at each position is a
/// clone of the original's element at that same position.
pub proof fn law_clone_position_by_position<T: Clone>(src: Seq<T>, dst: Seq<T>)
    requires
        clones_of(src, dst),
    ensures
        dst.len() == src.len(),
        forall|i: int| 0 <= i < src.len() ==> cloned::<T>(src[i], #[trigger] dst[i]),
{
}

/// Building a vector of clones of a slice (`clone`, `try_from`) is the same as
/// extending an empty vector by that slice.
pub proof fn law_clone_is_extending_empty<T: Clone>(src: Seq<T>, dst: Seq<T>)
    ensures
        clones_of(src, dst) <==> extended_by_clones(Seq::<T>::empty(), src, dst),
{
    assert(dst.subrange(0, 0) =~= Seq::<T>::empty());
    assert(dst.subrange(0, dst.len() as int) =~= dst);
}

/// Extending by a slice keeps the old elements in place and puts, at position
/// `old.len() + i`, a clone of the slice's element `i`.
pub proof fn law_extend_position_by_position<T: Clone>(old: Seq<T>, src: Seq<T>, new: Seq<T>)
    requires
        extended_by_clones(old, src, new),
    ensures
        new.len() == old.len() + src.len(),
        forall|i: int| 0 <= i < old.len() ==> #[trigger] new[i] == old[i],
        forall|i: int| 0 <= i < src.len() ==> cloned::<T>(src[i], #[trigger] new[old.len() + i]),
{
    assert forall|i: int| 0 <= i < old.len() implies #[trigger] new[i] == old[i] by {
        assert(new.subrange(0, old.len() as int)[i] == new[i]);
    }
    assert forall|i: int| 0 <= i < src.len() implies cloned::<T>(src[i], #[trigger] new[old.len() + i]) by {
        assert(new.subrange(old.len() as int, new.len() as int)[i] == new[old.len() + i]);
    }
}

/// Extending by `s1` and then by `s2` is extending by `s1` followed by `s2`.
pub proof fn law_extend_twice<T: Clone>(a: Seq<T>, s1: Seq<T>, b: Seq<T>, s2: Seq<T>, c: Seq<T>)
    requires
        extended_by_clones(a, s1, b),
        extended_by_clones(b, s2, c),
    ensures
        extended_by_clones(a, s1 + s2, c),
{
    law_extend_position_by_position(a, s1, b);
    law_extend_position_by_position(b, s2, c);
    let s = s1 + s2;
    assert(c.subrange(0, a.len() as int) =~= a) by {
        assert forall|i: int| 0 <= i < a.len() implies c[i] == a[i] by {
            assert(c[i] == b[i]);
        }
    }
    let tail = c.subrange(a.len() as int, c.len() as int);
    assert forall|i: int| 0 <= i < s.len() implies cloned::<T>(s[i], #[trigger] tail[i]) by {
        assert(tail[i] == c[a.len() + i]);
        if i < s1.len() {
            assert(c[a.len() + i] == b[a.len() + i]);
            assert(cloned::<T>(s1[i], b[a.len() + i]));
        } else {
            assert(cloned::<T>(s2[i - s1.len()], c[b.len() + (i - s1.len())]));
            assert(b.len() + (i - s1.len()) == a.len() + i);
        }
    }
}

} // verus!
