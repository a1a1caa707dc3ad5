# stack_collections

`StackVec<T, CAP>`: a vector that never holds more than `CAP` elements, with
checked (`try_*`), precondition-bound (`*_unchecked`) and plain variants of its
operations, an owning double-ended iterator (`IntoIter`), element-wise equality
and lexicographic order. The functions written in `src/` are verified with
Verus against contracts over the sequence of elements (`v@`); the derived
`Debug`, `Hash`, `Eq` and `Ord` impls are not, and what `==` and `partial_cmp`
return is stated only for element types whose own `==` / `partial_cmp` follow
vstd's specification.

The elements live in a `Vec` allocated once with room for `CAP` (on the heap,
not in an inline array of uninitialised slots: that representation would need
`unsafe` code), with the invariant that its length never exceeds `CAP`.
`retain` and `into_iter` move the elements through a `VecDeque`. `retain`'s
predicate sees each element by shared reference (`FnMut(&T) -> bool`). If the
predicate (or a dropped element's destructor) panics, the vector is left empty.

No type in `src/` can implement `Iterator`, `FromIterator` or `Extend` with a
verified body (a trait method cannot take a `requires`, and these panic on
overflow), so `IntoIter` has inherent `next`/`next_back`/`size_hint`/`len`, and
`StackVec::from_iter` / `StackVec::extend` are inherent functions over any
`Iterator` whose items must fit. `collect()` into a `StackVec` is not available.
The derived `Debug` prints `StackVec { data: [..] }`, not just the elements.

Layout of `src/`:

- `stack_vec.rs`: the type, its capacity invariant and its operations.
- `into_iter.rs`: the owning iterator.
- `traits.rs`: `Default`, `Clone`, `Deref`, `AsRef`, `Index`, `TryFrom<&[T]>`,
  `IntoIterator` for references.
- `lexicographic.rs`: `PartialEq` and `PartialOrd`.
- `model.rs`: spec functions the contracts are written in.
- `laws.rs`: properties across operations (push/pop, insert/remove,
  swap_remove, retain, equality and order), proved.
- `mut_iter.rs`: the one trusted call, `iter_mut` on a slice.
