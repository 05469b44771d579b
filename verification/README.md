# stabby_abi

Core data structures of an ABI-stable toolkit, verified with Verus.

The library (`src/`) holds the logic, each function with a contract that
Verus proves:

- `num`: integers with a forbidden value (`NonMaxU8`, `NonXU16<F>`, ...) and
  integers of a chosen number of bits (`u6`, `i26`, ...).
- `typenum2`, `istable`: bits and unsigned integers as types; layouts
  (size, alignment), forbidden byte values and niche counts.
- `enums`: determinants, which record in the bytes of a union which of two
  variants it holds, and read it back.
- `option`, `result`: an option and a result of the library's own, laid out
  as the Rust types they wrap.
- `allocation`: layouts, the allocator interface, and containers whose memory
  comes from an allocator: `Vec`, `SingleOrVec`, `Box`, `BoxedSlice`,
  `String`, `BoxedStr`, and a B-tree set and map, whose insertion is proved to
  keep the tree balanced and whose copies share no node. Allocations are
  described by address; the elements themselves live in ordinary Rust values.
  An allocator says, through `IAlloc::holds`, `released` and `can_allocate`,
  which allocations it keeps and when it must succeed; each container states
  the layout it asks for, and gives its allocation back through `release`.
- `allocation::allocators::freelist_alloc`: a free-list allocator over an
  address space; each of its operations is proved to leave the blocks it has
  handed out disjoint from one another and from its free blocks, and to keep
  the other blocks handed out. It places blocks on 8-byte boundaries and
  refuses alignments that do not divide 8.
- `checked_import`, `future`, `slice`: the decisions of a checked import, the
  states of a possibly resolved future, borrowed slices.

`app/` holds what talks to the system: allocators backed by libc, by Rust's
global allocator and by pages mapped on demand, the constructors that panic
when an allocation fails, the loop that drives a checked import, a `Future`
adapter and serde support.
