use stack_collections::{IntoIter, StackVec};

use std::collections::hash_map::DefaultHasher;
use std::hash::{Hash, Hasher};
use std::sync::atomic::{AtomicUsize, Ordering};
use std::sync::Arc;

#[test]
fn insert_at_boundaries() {
    let mut vec = StackVec::<i32, 8>::new();

    vec.insert(0, 1_i32);
    assert_eq!(vec[0], 1_i32);

    vec.insert(0, 0_i32);
    assert_eq!(vec.as_slice(), &[0_i32, 1_i32]);

    vec.insert(2, 2);
    assert_eq!(vec.as_slice(), &[0_i32, 1_i32, 2_i32]);
}

#[test]
fn retain_with_drops() {
    struct DropCounter(i32, Arc<AtomicUsize>);
    impl Drop for DropCounter {
        fn drop(&mut self) {
            self.1.fetch_add(1, Ordering::SeqCst);
        }
    }

    let counter = Arc::new(AtomicUsize::new(0));
    let mut vec = StackVec::<DropCounter, 8>::new();
    vec.push(DropCounter(1, Arc::clone(&counter)));
    vec.push(DropCounter(2, Arc::clone(&counter)));
    vec.push(DropCounter(3, Arc::clone(&counter)));
    vec.push(DropCounter(4, Arc::clone(&counter)));

    vec.retain(|dc| (dc.0 & 1_i32) == 0);

    assert_eq!(vec.len(), 2);
    assert_eq!(counter.load(Ordering::SeqCst), 2);

    drop(vec);
    assert_eq!(counter.load(Ordering::SeqCst), 4);
}

#[test]
fn truncate_drop() {
    struct DropCounter(Arc<AtomicUsize>);
    impl Drop for DropCounter {
        fn drop(&mut self) {
            self.0.fetch_add(1, Ordering::SeqCst);
        }
    }

    let counter = Arc::new(AtomicUsize::new(0));
    let mut vec = StackVec::<DropCounter, 4>::new();
    vec.push(DropCounter(Arc::clone(&counter)));
    vec.push(DropCounter(Arc::clone(&counter)));
    vec.push(DropCounter(Arc::clone(&counter)));

    vec.truncate(1);
    assert_eq!(counter.load(Ordering::SeqCst), 2);

    vec.clear();
    assert_eq!(counter.load(Ordering::SeqCst), 3);
}

#[test]
fn main_drop() {
    struct DropCounter(Arc<AtomicUsize>);
    impl Drop for DropCounter {
        fn drop(&mut self) {
            self.0.fetch_add(1, Ordering::SeqCst);
        }
    }

    let counter = Arc::new(AtomicUsize::new(0));
    {
        let mut vec = StackVec::<DropCounter, 4>::new();
        vec.push(DropCounter(Arc::clone(&counter)));
        vec.push(DropCounter(Arc::clone(&counter)));
        vec.push(DropCounter(Arc::clone(&counter)));

        // At this point, nothing is dropped yet
        assert_eq!(counter.load(Ordering::SeqCst), 0);
    } // vec goes out of scope here
    assert_eq!(counter.load(Ordering::SeqCst), 3);
}

#[test]
fn into_iter_partial_drop() {
    struct DropCounter(Arc<AtomicUsize>);
    impl Drop for DropCounter {
        fn drop(&mut self) {
            self.0.fetch_add(1, Ordering::SeqCst);
        }
    }

    let counter = Arc::new(AtomicUsize::new(0));
    let mut vec = StackVec::<DropCounter, 8>::new();
    vec.push(DropCounter(Arc::clone(&counter)));
    vec.push(DropCounter(Arc::clone(&counter)));
    vec.push(DropCounter(Arc::clone(&counter)));

    let mut iter = vec.into_iter();
    iter.next();

    drop(iter);
    assert_eq!(counter.load(Ordering::SeqCst), 3);
}

fn from_slice<const CAP: usize>(items: &[i32]) -> StackVec<i32, CAP> {
    let mut v = StackVec::<i32, CAP>::new();
    v.extend_from_slice(items);
    v
}

#[test]
fn new_is_empty_with_capacity() {
    let vec = StackVec::<i32, 8>::new();
    assert_eq!(vec.len(), 0);
    assert_eq!(vec.capacity(), 8);
    assert!(vec.is_empty());
    assert!(!vec.is_full());
    assert_eq!(vec.as_slice(), &[] as &[i32]);

    let d: StackVec<i32, 8> = StackVec::default();
    assert!(d.is_empty());
    assert_eq!(d.capacity(), 8);
}

#[test]
fn clear_empties() {
    let mut vec = StackVec::<i32, 8>::new();
    vec.push(1);
    vec.push(2);
    vec.clear();
    assert_eq!(vec.len(), 0);
    assert!(vec.is_empty());
}

#[test]
fn len_counts_pushes() {
    let mut vec = StackVec::<i32, 8>::new();
    assert_eq!(vec.len(), 0);
    vec.push(1);
    assert_eq!(vec.len(), 1);
}

#[test]
fn remaining_capacity_plus_len_is_capacity() {
    let mut vec = StackVec::<i32, 5>::new();
    assert_eq!(vec.remaining_capacity(), 5);
    vec.push(1);
    vec.push(2);
    assert_eq!(vec.remaining_capacity(), 3);
    assert_eq!(vec.remaining_capacity() + vec.len(), vec.capacity());
    vec.extend_from_slice(&[3, 4, 5]);
    assert_eq!(vec.remaining_capacity(), 0);
    assert!(vec.is_full());
}

#[test]
fn is_full_at_capacity() {
    let mut vec = StackVec::<i32, 2>::new();
    assert!(!vec.is_full());
    vec.push(1);
    vec.push(2);
    assert!(vec.is_full());
}

#[test]
fn zero_capacity_is_always_full() {
    let mut vec = StackVec::<i32, 0>::new();
    assert!(vec.is_full());
    assert!(vec.is_empty());
    assert_eq!(vec.try_push(1), None);
    assert_eq!(vec.len(), 0);
}

#[test]
fn truncate_keeps_prefix() {
    let mut vec = StackVec::<i32, 8>::new();
    vec.push(1);
    vec.push(2);
    vec.push(3);

    vec.truncate(2);
    assert_eq!(vec.len(), 2);
    assert_eq!(vec[0], 1);
    assert_eq!(vec[1], 2);

    vec.truncate(10);
    assert_eq!(vec.len(), 2);

    vec.truncate(2);
    assert_eq!(vec.as_slice(), &[1, 2]);

    vec.truncate(0);
    assert!(vec.is_empty());
}

#[test]
fn as_slice_and_deref() {
    let vec: StackVec<i32, 8> = from_slice(&[1, 2, 3]);
    assert_eq!(vec.as_slice(), &[1, 2, 3]);
    let s: &[i32] = &vec;
    assert_eq!(s, &[1, 2, 3]);
    let r: &[i32] = vec.as_ref();
    assert_eq!(r, &[1, 2, 3]);
}

#[test]
fn iter_sums_elements() {
    let vec: StackVec<i32, 8> = from_slice(&[1, 2, 3]);
    let sum: i32 = vec.iter().sum();
    assert_eq!(sum, 6);
    let collected: Vec<i32> = vec.iter().copied().collect();
    assert_eq!(collected, vec![1, 2, 3]);
}

#[test]
fn iter_mut_doubles_elements() {
    let mut vec: StackVec<i32, 8> = from_slice(&[1, 2, 3]);
    for x in vec.iter_mut() {
        *x *= 2;
    }
    assert_eq!(vec[0], 2);
    assert_eq!(vec[1], 4);
    assert_eq!(vec[2], 6);
    assert_eq!(vec.len(), 3);
}

#[test]
fn retain_keeps_accepted_in_order() {
    let mut vec: StackVec<i32, 8> = from_slice(&[1, 2, 3, 4, 5]);

    vec.retain(|x| *x > 2);
    assert_eq!(vec.as_slice(), &[3, 4, 5]);

    vec.retain(|_| true);
    assert_eq!(vec.as_slice(), &[3, 4, 5]);

    vec.retain(|_| false);
    assert!(vec.is_empty());
}

#[test]
fn retain_calls_predicate_front_to_back() {
    let seen = std::cell::RefCell::new(Vec::new());
    let mut vec: StackVec<i32, 8> = from_slice(&[5, 6, 7, 8]);
    vec.retain(|x| {
        seen.borrow_mut().push(*x);
        *x % 2 == 1
    });
    assert_eq!(*seen.borrow(), vec![5, 6, 7, 8]);
    assert_eq!(vec.as_slice(), &[5, 7]);
}

#[test]
fn index_variants() {
    let vec: StackVec<i32, 8> = from_slice(&[10, 20, 30]);
    assert_eq!(*vec.index(0), 10);
    assert_eq!(*vec.index(1), 20);
    assert_eq!(*vec.index(2), 30);
    assert_eq!(*vec.get_unchecked(2), 30);
    assert_eq!(vec.get(0), Some(&10));
    assert_eq!(vec.get(3), None);
    assert_eq!(vec.get(10), None);
}

#[test]
fn index_mut_variants() {
    let mut vec: StackVec<i32, 8> = from_slice(&[10, 20, 30]);
    *vec.index_mut(1) = 42;
    assert_eq!(vec[1], 42);
    *vec.get_unchecked_mut(0) = 7;
    assert_eq!(vec[0], 7);
    if let Some(val) = vec.get_mut(2) {
        *val = 99;
    }
    assert_eq!(vec.as_slice(), &[7, 42, 99]);
    assert_eq!(vec.get_mut(10), None);
    assert_eq!(vec.get_mut(3), None);
}

#[test]
fn pop_variants() {
    let mut vec: StackVec<i32, 8> = from_slice(&[1, 2, 3]);
    assert_eq!(vec.pop(), 3);
    assert_eq!(vec.len(), 2);
    assert_eq!(vec.pop_unchecked(), 2);
    assert_eq!(vec.pop(), 1);
    assert!(vec.is_empty());

    assert_eq!(vec.try_pop(), None);
    vec.push(42);
    assert_eq!(vec.try_pop(), Some(42));
    assert_eq!(vec.try_pop(), None);
}

#[test]
fn push_then_pop_restores() {
    let mut vec: StackVec<i32, 4> = from_slice(&[1, 2]);
    vec.push(9);
    assert_eq!(vec.pop(), 9);
    assert_eq!(vec.as_slice(), &[1, 2]);
}

#[test]
fn push_variants() {
    let mut vec = StackVec::<i32, 8>::new();
    vec.push(1);
    vec.push(2);
    vec.push_unchecked(3);
    assert_eq!(vec.len(), 3);
    assert_eq!(vec.as_slice(), &[1, 2, 3]);

    let mut small = StackVec::<i32, 2>::new();
    assert!(small.try_push(1).is_some());
    assert!(small.try_push(2).is_some());
    assert!(small.try_push(3).is_none());
    assert_eq!(small.len(), 2);
    assert_eq!(small[0], 1);
    assert_eq!(small[1], 2);
}

#[test]
fn insert_variants() {
    let mut vec = StackVec::<i32, 8>::new();
    vec.push(1);
    vec.push(3);
    vec.insert(1, 2);
    assert_eq!(vec.as_slice(), &[1, 2, 3]);
    vec.insert_unchecked(3, 4);
    assert_eq!(vec.as_slice(), &[1, 2, 3, 4]);

    let mut small = StackVec::<i32, 3>::new();
    small.push(10);
    small.push(20);
    // index out of bounds
    assert!(small.try_insert(3, 30).is_none());
    assert_eq!(small.as_slice(), &[10, 20]);
    assert!(small.try_insert(1, 30).is_some());
    assert_eq!(small.as_slice(), &[10, 30, 20]);
    // vector is full
    assert!(small.try_insert(3, 10).is_none());
    assert_eq!(small.as_slice(), &[10, 30, 20]);
}

#[test]
fn insert_then_remove_restores() {
    let mut vec: StackVec<i32, 8> = from_slice(&[1, 2, 3]);
    vec.insert(1, 9);
    assert_eq!(vec.remove(1), 9);
    assert_eq!(vec.as_slice(), &[1, 2, 3]);
}

#[test]
fn remove_variants() {
    let mut vec: StackVec<i32, 8> = from_slice(&[1, 2, 3]);
    assert_eq!(vec.remove(1), 2);
    assert_eq!(vec.len(), 2);
    assert_eq!(vec[0], 1);
    assert_eq!(vec[1], 3);
    assert_eq!(vec.remove_unchecked(0), 1);
    assert_eq!(vec.as_slice(), &[3]);

    let mut one = StackVec::<i32, 8>::new();
    one.push(10);
    assert_eq!(one.try_remove(1), None);
    assert_eq!(one.try_remove(0), Some(10));
    assert_eq!(one.try_remove(0), None);
}

#[test]
fn swap_remove_variants() {
    let mut vec: StackVec<i32, 8> = from_slice(&[1, 2, 3, 4]);
    // remove middle element
    assert_eq!(vec.swap_remove(1), 2);
    assert_eq!(vec.as_slice(), &[1, 4, 3]);
    // remove last element
    assert_eq!(vec.swap_remove(2), 3);
    assert_eq!(vec.as_slice(), &[1, 4]);
    assert_eq!(vec.swap_remove_unchecked(0), 1);
    assert_eq!(vec.as_slice(), &[4]);

    let mut other: StackVec<i32, 8> = from_slice(&[1, 2, 3]);
    assert_eq!(other.try_swap_remove(1), Some(2));
    assert_eq!(other.as_slice(), &[1, 3]);
    assert_eq!(other.try_swap_remove(10), None);
    assert_eq!(other.as_slice(), &[1, 3]);
}

#[test]
fn extend_from_slice_variants() {
    let mut vec = StackVec::<i32, 8>::new();
    vec.push(1);
    vec.extend_from_slice(&[2, 3, 4]);
    assert_eq!(vec.as_slice(), &[1, 2, 3, 4]);
    vec.extend_from_slice_unchecked(&[5]);
    assert_eq!(vec.as_slice(), &[1, 2, 3, 4, 5]);

    let mut small = StackVec::<i32, 4>::new();
    small.push(1);
    assert!(small.try_extend_from_slice(&[2, 3]).is_some());
    assert_eq!(small.len(), 3);
    assert!(small.try_extend_from_slice(&[4, 5]).is_none());
    assert_eq!(small.as_slice(), &[1, 2, 3]);
    assert!(small.try_extend_from_slice(&[4]).is_some());
    assert!(small.is_full());
}

#[test]
fn extend_zero_sized() {
    let mut vec = StackVec::<(), 8>::new();
    vec.extend_from_slice(&[(), (), ()]);
    assert_eq!(vec.len(), 3);
}

#[test]
fn clone_copies_elements() {
    let v1: StackVec<i32, 8> = from_slice(&[1, 2, 3]);
    let v2 = v1.clone();
    assert_eq!(v1, v2);

    let mut v3 = StackVec::<(), 8>::new();
    v3.push(());
    v3.push(());
    v3.push(());
    let v4 = v3.clone();
    assert_eq!(v4.len(), 3);
}

#[test]
fn clone_of_strings() {
    let mut v = StackVec::<String, 4>::new();
    v.push(String::from("a"));
    v.push(String::from("bc"));
    let w = v.clone();
    assert_eq!(w.as_slice(), &[String::from("a"), String::from("bc")]);
}

#[test]
fn try_from_slice() {
    let v = StackVec::<i32, 8>::try_from(&[1, 2, 3][..]).unwrap();
    assert_eq!(v.len(), 3);
    assert_eq!(v[0], 1);
    assert_eq!(v[1], 2);
    assert_eq!(v[2], 3);

    let exact = StackVec::<i32, 3>::try_from(&[1, 2, 3][..]).unwrap();
    assert!(exact.is_full());

    let result = StackVec::<i32, 2>::try_from(&[1, 2, 3][..]);
    assert!(result.is_err());
    assert_eq!(result.err(), Some("value length exceeds capacity"));
}

#[test]
fn equality_is_elementwise() {
    let v1: StackVec<i32, 8> = from_slice(&[1, 2, 3]);
    let v2: StackVec<i32, 8> = from_slice(&[1, 2, 3]);
    let v3: StackVec<i32, 8> = from_slice(&[1, 2, 4]);
    let v4: StackVec<i32, 8> = from_slice(&[1, 2]);
    assert_eq!(v1, v2);
    assert_ne!(v1, v3);
    assert_ne!(v1, v4);
}

#[test]
fn order_is_lexicographic() {
    let v1: StackVec<i32, 8> = from_slice(&[1, 2, 3]);
    let v2: StackVec<i32, 8> = from_slice(&[1, 2, 4]);
    let v3: StackVec<i32, 8> = from_slice(&[1, 2, 3]);
    let prefix: StackVec<i32, 8> = from_slice(&[1, 2]);
    let empty: StackVec<i32, 8> = StackVec::new();

    assert!(v1 < v2);
    assert!(v2 > v1);
    assert!(v1 <= v3);
    assert!(v1 >= v3);
    assert!(prefix < v1);
    assert!(empty < prefix);
    assert_eq!(v1.partial_cmp(&v3), Some(std::cmp::Ordering::Equal));
    assert_eq!(v1.cmp(&v2), std::cmp::Ordering::Less);
    assert!(v1 <= v1.clone());
}

#[test]
fn order_with_incomparable_elements() {
    let a: StackVec<f64, 4> = StackVec::try_from(&[1.0, f64::NAN][..]).unwrap();
    let b: StackVec<f64, 4> = StackVec::try_from(&[1.0, 2.0][..]).unwrap();
    assert_eq!(a.partial_cmp(&b), None);
    let c: StackVec<f64, 4> = StackVec::try_from(&[0.5, f64::NAN][..]).unwrap();
    assert_eq!(c.partial_cmp(&b), Some(std::cmp::Ordering::Less));
}

#[test]
fn hash_of_equal_vectors_is_equal() {
    let v1: StackVec<i32, 8> = from_slice(&[1, 2, 3]);
    let v2: StackVec<i32, 8> = from_slice(&[1, 2, 3]);
    let mut h1 = DefaultHasher::new();
    let mut h2 = DefaultHasher::new();
    v1.hash(&mut h1);
    v2.hash(&mut h2);
    assert_eq!(h1.finish(), h2.finish());
}

#[test]
fn into_iter_front_and_back() {
    let vec: StackVec<i32, 8> = from_slice(&[1, 2, 3]);
    let mut iter: IntoIter<i32, 8> = vec.into_iter();
    assert_eq!(iter.next(), Some(1));
    assert_eq!(iter.next_back(), Some(3));
    assert_eq!(iter.next(), Some(2));
    assert_eq!(iter.next(), None);
    assert_eq!(iter.next_back(), None);
}

#[test]
fn into_iter_in_order() {
    let vec: StackVec<i32, 8> = from_slice(&[1, 2, 3]);
    let mut iter = vec.into_iter();
    assert_eq!(iter.next(), Some(1));
    assert_eq!(iter.next(), Some(2));
    assert_eq!(iter.next(), Some(3));
    assert_eq!(iter.next(), None);
}

#[test]
fn into_iter_size_hint() {
    let vec: StackVec<i32, 8> = from_slice(&[1, 2, 3, 4, 5]);
    let mut iter = vec.into_iter();
    assert_eq!(iter.size_hint(), (5, Some(5)));
    assert_eq!(iter.len(), 5);
    iter.next();
    assert_eq!(iter.size_hint(), (4, Some(4)));
    iter.next_back();
    assert_eq!(iter.size_hint(), (3, Some(3)));
    assert_eq!(iter.len(), 3);
}

#[test]
fn debug_shows_elements() {
    let vec: StackVec<i32, 8> = from_slice(&[1, 2, 3]);
    let text = format!("{:?}", vec);
    assert!(text.contains("[1, 2, 3]"));
}

#[test]
fn for_loops_over_references() {
    let mut vec: StackVec<i32, 8> = from_slice(&[1, 2, 3]);
    let mut seen = Vec::new();
    for x in &vec {
        seen.push(*x);
    }
    assert_eq!(seen, vec![1, 2, 3]);

    for x in &mut vec {
        *x *= 2;
    }
    let collected: Vec<i32> = vec.iter().copied().collect();
    assert_eq!(collected, vec![2, 4, 6]);
}

#[test]
fn swap_remove_keeps_other_elements() {
    let mut vec: StackVec<i32, 8> = from_slice(&[5, 1, 4, 2, 3]);
    let removed = vec.swap_remove(1);
    assert_eq!(removed, 1);
    let mut rest: Vec<i32> = vec.iter().copied().collect();
    rest.push(removed);
    rest.sort();
    assert_eq!(rest, vec![1, 2, 3, 4, 5]);
    assert_eq!(vec.as_slice(), &[5, 3, 4, 2]);
}

#[test]
fn retain_never_grows_and_keeps_order() {
    let mut vec: StackVec<i32, 8> = from_slice(&[4, 1, 3, 1, 2]);
    vec.retain(|x| *x != 1);
    assert_eq!(vec.as_slice(), &[4, 3, 2]);
    assert!(vec.len() <= 5);
}

#[test]
fn retain_with_stateful_predicate() {
    let mut vec: StackVec<i32, 8> = from_slice(&[1, 2, 3, 4, 5, 6]);
    let mut calls = 0;
    vec.retain(|_| {
        calls += 1;
        calls % 2 == 0
    });
    assert_eq!(calls, 6);
    assert_eq!(vec.as_slice(), &[2, 4, 6]);
}

#[test]
fn capacity_is_never_exceeded() {
    let mut vec = StackVec::<i32, 3>::new();
    let mut i = 0;
    while vec.try_push(i).is_some() {
        i += 1;
    }
    assert_eq!(vec.len(), 3);
    assert_eq!(vec.len(), vec.capacity());
    assert!(vec.try_insert(0, 9).is_none());
    assert!(vec.try_extend_from_slice(&[1]).is_none());
    assert_eq!(vec.as_slice(), &[0, 1, 2]);
}

#[test]
fn extend_appends_iterator_items() {
    let mut vec = StackVec::<i32, 8>::new();
    vec.push(1);
    vec.extend([2, 3, 4].iter().copied());
    assert_eq!(vec.as_slice(), &[1, 2, 3, 4]);
    vec.extend(Vec::<i32>::new().into_iter());
    assert_eq!(vec.as_slice(), &[1, 2, 3, 4]);
}

#[test]
fn from_iter_collects_in_order() {
    let v = StackVec::<i32, 8>::from_iter([1, 2, 3].iter().copied());
    assert_eq!(v.len(), 3);
    assert_eq!(v[0], 1);
    assert_eq!(v.as_slice(), &[1, 2, 3]);

    let full = StackVec::<i32, 3>::from_iter(vec![7, 8, 9].into_iter());
    assert!(full.is_full());
    assert_eq!(full.as_slice(), &[7, 8, 9]);

    let empty = StackVec::<i32, 0>::from_iter(std::iter::empty());
    assert!(empty.is_empty());
}

#[test]
fn interleaved_next_and_next_back_hand_out_each_once() {
    let vec: StackVec<i32, 8> = from_slice(&[1, 2, 3, 4, 5]);
    let mut iter = vec.into_iter();
    let mut seen = Vec::new();
    let pattern = [true, false, false, true, false, true, false];
    for back in pattern {
        let item = if back { iter.next_back() } else { iter.next() };
        if let Some(x) = item {
            seen.push(x);
        }
    }
    assert_eq!(seen, vec![5, 1, 2, 4, 3]);
    assert_eq!(iter.next(), None);
    seen.sort();
    assert_eq!(seen, vec![1, 2, 3, 4, 5]);
}
