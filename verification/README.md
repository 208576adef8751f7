# Guest

By-value memory storage without by-value memory access.

An owner lends a value out to visitors. They read and write it through references that have no
lifetime, and the memory is handed on to the owner when the last of them is gone. The operations
are verified with Verus.

## Layout

- `src/` is the library.
  - `contract`: the memory of one lent value, and what each operation does to it.
  - `views`, `reference`, `borrow`, `collections`: the hands that the memory goes through.
  - `protocol`, `atomic`: the same operations as programs of indivisible accesses, for memory
    that threads share.
  - `pool`: tasks that are spawned and run as one stream.
  - `history`, `holders`, `system`, `poll_run`: what holds over the life of a contract, among
    those who have a handle on it, among threads, and over the polls of a pool.
  - `wakers`, `kept`, `channel`, `tasks`: what is taken for granted of wakers, of values that are
    not dropped, of the channel that tasks come through and of the set that they run in.
- `app/` has the memory that threads share, behind raw pointers and cells, and the impls of
  `Future`, `Stream`, `Deref` and `Drop`. It asks the library for every access to memory that
  others may be at work on.
- `tests/` runs the library.

## References

In the library a reference names its contract and is handed the memory with each use:

```rust
let (mut owner, reference) = ShareBox::new_with_ref(5);
assert_eq!(*reference.deref(owner.memory()), 5);
reference.drop(owner.memory());
```

What each call does to the memory is in its contract. A reference that goes out of scope without
`drop` keeps its borrow; in `app/` it gives it back.
