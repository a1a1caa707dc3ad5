//! Element-wise equality and lexicographic order of [`StackVec`]s.
use vstd::prelude::*;

use core::cmp::Ordering;
use vstd::std_specs::cmp::{PartialEqSpec, PartialEqSpecImpl, PartialOrdSpec, PartialOrdSpecImpl};

use crate::model::suffix;
use crate::stack_vec::StackVec;

verus! {

/// The two sequences have the same length and are equal position by position.
pub open spec fn elementwise_eq<T: PartialEq>(a: Seq<T>, b: Seq<T>) -> bool {
    &&& a.len() == b.len()
    &&& forall|i: int| 0 <= i < a.len() ==> (#[trigger] a[i]).eq_spec(&b[i])
}

/// Lexicographic comparison: the first position where the elements do not compare
/// equal decides; when one sequence is a prefix of the other, the shorter is less.
pub open spec fn lex_order<T: PartialOrd>(a: Seq<T>, b: Seq<T>) -> Option<Ordering>
    decreases a.len(),
{
    if a.len() == 0 {
        if b.len() == 0 {
            Some(Ordering::Equal)
        } else {
            Some(Ordering::Less)
        }
    } else if b.len() == 0 {
        Some(Ordering::Greater)
    } else {
        match a[0].partial_cmp_spec(&b[0]) {
            Some(Ordering::Equal) => lex_order(a.drop_first(), b.drop_first()),
            decided => decided,
        }
    }
}

impl<T: PartialEq, const CAP: usize> PartialEq for StackVec<T, CAP> {
    /// Whether the two vectors have equal elements, position by position.
    fn eq(&self, other: &Self) -> (r: bool) {
        let a = self.as_slice();
        let b = other.as_slice();
        if a.len() != b.len() {
            return false;
        }
        let mut i: usize = 0;
        while i < a.len()
            invariant
                a@ == self@,
                b@ == other@,
                a@.len() == b@.len(),
                i <= a@.len(),
                T::obeys_eq_spec() ==> forall|j: int| 0 <= j < i ==> (#[trigger] a@[j]).eq_spec(&b@[j]),
            decreases a@.len() - i,
        {
            if !a[i].eq(&b[i]) {
                return false;
            }
            i = i + 1;
        }
        true
    }
}

impl<T: PartialEq, const CAP: usize> PartialEqSpecImpl for StackVec<T, CAP> {
    open spec fn obeys_eq_spec() -> bool {
        T::obeys_eq_spec()
    }

    open spec fn eq_spec(&self, other: &Self) -> bool {
        elementwise_eq(self@, other@)
    }
}

impl<T: PartialOrd, const CAP: usize> PartialOrd for StackVec<T, CAP> {
    /// Compares the two vectors lexicographically.
    fn partial_cmp(&self, other: &Self) -> (r: Option<Ordering>) {
        let a = self.as_slice();
        let b = other.as_slice();
        let mut i: usize = 0;
        proof {
            assert(suffix(self@, i) =~= self@);
            assert(suffix(other@, i) =~= other@);
        }
        while i < a.len() && i < b.len()
            invariant
                a@ == self@,
                b@ == other@,
                i <= a@.len(),
                i <= b@.len(),
                T::obeys_partial_cmp_spec() ==> lex_order(self@, other@) == lex_order(
                    suffix(self@, i),
                    suffix(other@, i),
                ),
            decreases a@.len() - i,
        {
            let c = a[i].partial_cmp(&b[i]);
            match c {
                Some(Ordering::Equal) => {},
                _ => {
                    return c;
                },
            }
            let ghost prev = i;
            i = i + 1;
            proof {
                assert(suffix(self@, prev).drop_first() =~= suffix(self@, i));
                assert(suffix(other@, prev).drop_first() =~= suffix(other@, i));
            }
        }
        proof {
            assert(suffix(self@, i).len() == 0 || suffix(other@, i).len() == 0);
        }
        if a.len() < b.len() {
            Some(Ordering::Less)
        } else if a.len() == b.len() {
            Some(Ordering::Equal)
        } else {
            Some(Ordering::Greater)
        }
    }
}

impl<T: PartialOrd, const CAP: usize> PartialOrdSpecImpl for StackVec<T, CAP> {
    open spec fn obeys_partial_cmp_spec() -> bool {
        T::obeys_partial_cmp_spec()
    }

    open spec fn partial_cmp_spec(&self, other: &Self) -> Option<Ordering> {
        lex_order(self@, other@)
    }
}

} // verus!
