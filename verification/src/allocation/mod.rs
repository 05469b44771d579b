//! Allocation layouts, the allocator interface, and pointers to allocations
//! that are preceded by a common prefix.
use core::marker::PhantomData;
use vstd::layout::{align_of, layout_for_type_is_valid, size_of};
use vstd::prelude::*;

pub mod allocators;
pub mod collections;
pub mod vec;
pub mod single_or_vec;
pub mod boxed;
pub mod string;

verus! {

/// A generic allocation error.
#[derive(Debug, Clone, Copy, PartialEq, Eq, Structural, Hash)]
pub struct AllocationError();

impl Default for AllocationError {
    fn default() -> (r: Self)
        ensures
            r == AllocationError(),
    {
        AllocationError()
    }
}

impl AllocationError {
    /// The text by which the error describes itself.
    pub fn to_string(&self) -> (r: String)
        ensures
            r@ == "AllocationError"@,
    {
        String::from_str("AllocationError")
    }
}

/// The smallest multiple of `align` that is at least `size`.
pub open spec fn next_multiple(size: int, align: int) -> int {
    if size % align == 0 {
        size
    } else {
        size - size % align + align
    }
}

/// `next_multiple` is the smallest multiple of `align` that is at least `size`.
pub proof fn lemma_next_multiple(size: int, align: int)
    requires
        size >= 0,
        align > 0,
    ensures
        next_multiple(size, align) % align == 0,
        size <= next_multiple(size, align) < size + align,
        size % align <= size,
        0 <= size % align < align,
        size % align == 0 ==> next_multiple(size, align) == size,
{
    vstd::arithmetic::div_mod::lemma_fundamental_div_mod(size, align);
    vstd::arithmetic::div_mod::lemma_mod_bound(size, align);
    let q = size / align;
    vstd::arithmetic::div_mod::lemma_div_pos_is_pos(size, align);
    assert(q >= 0);
    assert(align * q >= 0) by (nonlinear_arith)
        requires
            align > 0,
            q >= 0,
    ;
    if size % align != 0 {
        assert(size - size % align + align == align * (q + 1)) by (nonlinear_arith)
            requires
                size == align * q + size % align,
        ;
        vstd::arithmetic::div_mod::lemma_mod_multiples_basic(q + 1, align);
        assert((q + 1) * align == align * (q + 1)) by (nonlinear_arith);
    }
}

/// The larger of two integers.
pub open spec fn max_of(a: int, b: int) -> int {
    if a < b {
        b
    } else {
        a
    }
}

/// The size and alignment that an allocation must have.
#[derive(Debug, Clone, Copy, PartialEq, Eq, Structural, PartialOrd, Ord, Hash)]
pub struct Layout {
    /// The expected size of the allocation.
    pub size: usize,
    /// The expected alignment of the allocation.
    pub align: usize,
}

impl Layout {
    /// The layout of `T`.
    pub fn of<T: Sized>() -> (r: Self)
        ensures
            r.size == size_of::<T>(),
            r.align == align_of::<T>(),
            r.align > 0,
            r.size % r.align == 0,
    {
        layout_for_type_is_valid::<T>();
        Layout { size: core::mem::size_of::<T>(), align: core::mem::align_of::<T>() }
    }

    /// The layout of `[T; n]`: `n` elements of `T`, each padded to its alignment.
    ///
    /// Returns `None` if the size of the array does not fit in a `usize`.
    pub fn array<T: Sized>(n: usize) -> (r: Option<Self>)
        ensures
            r is Some <==> size_of::<T>() * n <= usize::MAX,
            r matches Some(l) ==> l.size == size_of::<T>() * n && l.align == align_of::<T>(),
    {
        let of = Self::of::<T>();
        let mut size = of.size;
        let align = of.align;
        let sizemodalign = size % align;
        proof {
            lemma_next_multiple(size as int, align as int);
        }
        if sizemodalign != 0 {
            size = size - sizemodalign + align;
        }
        assert(size == size_of::<T>());
        match size.checked_mul(n) {
            Some(total) => Some(Layout { size: total, align }),
            None => None,
        }
    }

    /// Concatenates `other` after `self`, padding `self` to the alignment of `other`.
    pub fn concat(self, other: Self) -> (r: Self)
        requires
            other.align > 0,
            next_multiple(self.size as int, other.align as int) + other.size <= usize::MAX,
        ensures
            r.size == next_multiple(self.size as int, other.align as int) + other.size,
            r.align == max_of(self.align as int, other.align as int),
    {
        let mut size = self.size;
        let sizemodalign = size % other.align;
        proof {
            lemma_next_multiple(self.size as int, other.align as int);
        }
        if sizemodalign != 0 {
            size = size - sizemodalign + other.align;
        }
        size = size + other.size;
        let align = if other.align > self.align {
            other.align
        } else {
            self.align
        };
        Layout { size, align }
    }

    /// The first address at or after `ptr` that is a multiple of `self.align`.
    pub fn next_matching(self, ptr: usize) -> (r: usize)
        requires
            self.align > 0,
            next_multiple(ptr as int, self.align as int) <= usize::MAX,
        ensures
            r == next_multiple(ptr as int, self.align as int),
            r >= ptr,
            r % self.align == 0,
            r - ptr < self.align,
    {
        let rem = ptr % self.align;
        proof {
            lemma_next_multiple(ptr as int, self.align as int);
        }
        if rem == 0 {
            ptr
        } else {
            ptr - rem + self.align
        }
    }

    /// The layout an allocator hands out for `self`: aligned to at least 8 bytes,
    /// with a size rounded up to a multiple of 8.
    pub fn for_alloc(self) -> (r: Self)
        requires
            next_multiple(self.size as int, 8) <= usize::MAX,
        ensures
            self.align >= 8 ==> r == self,
            self.align < 8 ==> r.align == 8 && r.size == next_multiple(self.size as int, 8),
    {
        if self.align >= 8 {
            return self;
        }
        let rem = self.size % 8;
        proof {
            lemma_next_multiple(self.size as int, 8);
        }
        let size = if rem != 0 {
            self.size - rem + 8
        } else {
            self.size
        };
        Layout { size, align: 8 }
    }
}

/// An interface to an allocator.
///
/// Addresses are plain integers; `0` stands for the null pointer. Three spec
/// functions describe the allocator's state as far as it says anything of it:
/// an allocator that does not define them says nothing of its allocations and
/// promises no success.
pub trait IAlloc {
    /// Whether the allocator holds a live allocation at `ptr` that offers at
    /// least `size` bytes.
    open spec fn holds(&self, ptr: usize, size: nat) -> bool {
        true
    }

    /// Whether the allocator holds no live allocation at `ptr`.
    open spec fn released(&self, ptr: usize) -> bool {
        true
    }

    /// Whether an allocation of `layout` is bound to succeed.
    open spec fn can_allocate(&self, layout: Layout) -> bool {
        false
    }

    /// Allocates at least as much memory as requested by `layout`, respecting the
    /// requested alignment. Returns `0` if the requested size is 0 or if the
    /// allocation failed.
    fn allocate(&mut self, layout: Layout) -> (r: usize)
        ensures
            r != 0 ==> final(self).holds(r, layout.size as nat),
            r != 0 ==> r + layout.size <= usize::MAX,
            r != 0 && layout.align > 0 ==> r % layout.align == 0,
            old(self).can_allocate(layout) ==> r != 0,
            forall|p: usize, size: nat| old(self).holds(p, size) ==> #[trigger] final(self).holds(p, size),
    ;

    /// Frees an allocation made by this allocator. The other allocations stay.
    fn free(&mut self, ptr: usize)
        ensures
            final(self).released(ptr),
            forall|p: usize, size: nat| p != ptr && old(self).holds(p, size) ==> #[trigger] final(self).holds(p, size),
    ;

    /// Reallocates `ptr` so that it can hold `new_size` bytes, keeping the
    /// alignment of `prev_layout`.
    ///
    /// Returns `0`, leaving `ptr` allocated, if the requested size is 0 or if the
    /// allocation failed. By default this allocates anew and frees `ptr`, without
    /// copying its bytes: an allocator that can copy overrides it.
    fn realloc(&mut self, ptr: usize, prev_layout: Layout, new_size: usize) -> (r: usize)
        ensures
            r != 0 ==> final(self).holds(r, new_size as nat),
            r != 0 ==> r + new_size <= usize::MAX,
            r != 0 && prev_layout.align > 0 ==> r % prev_layout.align == 0,
            old(self).holds(ptr, prev_layout.size as nat) && old(self).can_allocate(
                Layout { size: new_size, align: prev_layout.align },
            ) ==> r != 0,
            forall|p: usize, size: nat|
                (p != ptr || r == 0) && old(self).holds(p, size) ==> #[trigger] final(self).holds(p, size),
    {
        let ret = self.allocate(Layout { size: new_size, align: prev_layout.align });
        if ret != 0 && ret != ptr {
            self.free(ptr);
        }
        ret
    }
}

/// The same interface as [`IAlloc`], for every [`IAlloc`].
pub trait IStableAlloc {
    /// See [`IAlloc::allocate`].
    fn stable_alloc(&mut self, layout: Layout) -> usize;

    /// See [`IAlloc::free`].
    fn stable_free(&mut self, ptr: usize);

    /// See [`IAlloc::realloc`].
    fn stable_realloc(&mut self, ptr: usize, prev_layout: Layout, new_size: usize) -> usize;
}

impl<A: IAlloc> IStableAlloc for A {
    fn stable_alloc(&mut self, layout: Layout) -> usize {
        self.allocate(layout)
    }

    fn stable_free(&mut self, ptr: usize) {
        self.free(ptr)
    }

    fn stable_realloc(&mut self, ptr: usize, prev_layout: Layout, new_size: usize) -> usize {
        self.realloc(ptr, prev_layout, new_size)
    }
}

/// The prefix common to all allocations of this crate's containers.
pub struct AllocPrefix<Alloc> {
    /// The strong count for reference counted types.
    pub strong: usize,
    /// The weak count for reference counted types.
    pub weak: usize,
    /// A slot to store a vector's capacity when it's turned into a boxed slice.
    pub capacity: usize,
    /// A slot for the allocator.
    pub allocator: Alloc,
}

impl<Alloc> AllocPrefix<Alloc> {
    /// The offset between the prefix and a field of type `T` that follows it.
    pub fn skip_to<T>() -> (r: usize)
        ensures
            r == next_multiple(size_of::<Self>() as int, align_of::<T>() as int),
            r >= size_of::<Self>(),
            (r as int) % (align_of::<T>() as int) == 0,
    {
        layout_for_type_is_valid::<Self>();
        layout_for_type_is_valid::<T>();
        let size = core::mem::size_of::<Self>();
        let align = core::mem::align_of::<T>();
        let sizemodalign = size % align;
        proof {
            assert(size <= isize::MAX);
            lemma_next_multiple(size as int, align as int);
            if align > size {
                vstd::arithmetic::div_mod::lemma_small_mod(size as nat, align as nat);
            }
        }
        if sizemodalign != 0 {
            size - sizemodalign + align
        } else {
            size
        }
    }
}

/// The offset between the start of an allocation's prefix and its data of type `T`.
pub open spec fn spec_prefix_skip<T, Alloc>() -> int {
    next_multiple(size_of::<AllocPrefix<Alloc>>() as int, align_of::<T>() as int)
}

/// The address of data of type `T`, preceded by an [`AllocPrefix`] unless the
/// pointer is dangling.
pub struct AllocPtr<T, Alloc> {
    /// The address of the data.
    pub ptr: usize,
    /// Remembers the data and allocator types.
    pub marker: PhantomData<(T, Alloc)>,
}

impl<T, Alloc> Clone for AllocPtr<T, Alloc> {
    fn clone(&self) -> (r: Self)
        ensures
            r == *self,
    {
        AllocPtr { ptr: self.ptr, marker: PhantomData }
    }
}

impl<T, Alloc> Copy for AllocPtr<T, Alloc> {

}

impl<T, Alloc> AllocPtr<T, Alloc> {
    /// Constructs a dangling pointer: well aligned, but pointing to no allocation.
    pub fn dangling() -> (r: Self)
        ensures
            r.ptr == align_of::<T>(),
    {
        layout_for_type_is_valid::<T>();
        AllocPtr { ptr: core::mem::align_of::<T>(), marker: PhantomData }
    }

    /// Casts the pointer to another data type.
    pub fn cast<U>(self) -> (r: AllocPtr<U, Alloc>)
        ensures
            r.ptr == self.ptr,
    {
        AllocPtr { ptr: self.ptr, marker: PhantomData }
    }

    /// The offset between the prefix and `self.ptr`.
    pub fn prefix_skip() -> (r: usize)
        ensures
            r == spec_prefix_skip::<T, Alloc>(),
            r >= size_of::<AllocPrefix<Alloc>>(),
    {
        AllocPrefix::<Alloc>::skip_to::<T>()
    }

    /// The address of the prefix of this allocation.
    pub fn prefix_ptr(&self) -> (r: usize)
        requires
            self.ptr >= spec_prefix_skip::<T, Alloc>(),
        ensures
            r == self.ptr - spec_prefix_skip::<T, Alloc>(),
    {
        self.ptr - Self::prefix_skip()
    }
}

/// The size of an allocation holding an [`AllocPrefix`] followed by `[T; capacity]`.
pub open spec fn spec_array_size<T, Alloc>(capacity: int) -> int {
    spec_prefix_skip::<T, Alloc>() + size_of::<T>() * capacity
}

/// The alignment of such an allocation: the larger of the prefix's and `T`'s.
pub open spec fn spec_array_align<T, Alloc>() -> int {
    max_of(align_of::<AllocPrefix<Alloc>>() as int, align_of::<T>() as int)
}

/// An allocation for any number of elements holds at least the prefix.
proof fn lemma_array_size_covers_skip<T, Alloc>(capacity: int)
    requires
        capacity >= 0,
    ensures
        spec_array_size::<T, Alloc>(capacity) >= spec_prefix_skip::<T, Alloc>(),
{
    let n = size_of::<T>() as int;
    assert(n * capacity >= 0) by (nonlinear_arith)
        requires
            n >= 0,
            capacity >= 0,
    ;
}

/// The layout asked of the allocator for `capacity` elements of `T` after the prefix.
pub open spec fn spec_array_layout<T, Alloc>(capacity: int) -> Layout {
    Layout { size: spec_array_size::<T, Alloc>(capacity) as usize, align: spec_array_align::<T, Alloc>() as usize }
}

impl<T, Alloc: IAlloc> AllocPtr<T, Alloc> {
    /// The layout of an allocation holding the prefix followed by `[T; capacity]`,
    /// if its size fits in a `usize`.
    fn array_layout(capacity: usize) -> (r: Option<Layout>)
        ensures
            r is Some <==> spec_array_size::<T, Alloc>(capacity as int) <= usize::MAX,
            r matches Some(l) ==> l == spec_array_layout::<T, Alloc>(capacity as int),
            r matches Some(l) ==> l.size == spec_array_size::<T, Alloc>(capacity as int) && l.align > 0,
    {
        let prefix = Layout::of::<AllocPrefix<Alloc>>();
        match Layout::array::<T>(capacity) {
            None => {
                proof {
                    assert(spec_prefix_skip::<T, Alloc>() >= 0) by {
                        lemma_next_multiple(size_of::<AllocPrefix<Alloc>>() as int, align_of::<T>() as int);
                    }
                }
                None
            },
            Some(array) => {
                let skip = Self::prefix_skip();
                match skip.checked_add(array.size) {
                    None => None,
                    Some(_) => {
                        layout_for_type_is_valid::<T>();
                        Some(prefix.concat(array))
                    },
                }
            },
        }
    }

    /// The pointer to the data of an allocation whose prefix an allocator placed
    /// at `prefix`: `None` if the allocator failed (returned 0), or if the data's
    /// address does not fit in a `usize`.
    pub fn from_prefix(prefix: usize) -> (r: Option<Self>)
        ensures
            r is Some <==> prefix != 0 && prefix + spec_prefix_skip::<T, Alloc>() <= usize::MAX,
            r matches Some(p) ==> p.ptr == prefix + spec_prefix_skip::<T, Alloc>(),
            r matches Some(p) ==> p.ptr > spec_prefix_skip::<T, Alloc>(),
    {
        if prefix == 0 {
            return None;
        }
        let skip = Self::prefix_skip();
        match prefix.checked_add(skip) {
            None => None,
            Some(ptr) => Some(AllocPtr { ptr, marker: PhantomData }),
        }
    }

    /// Allocates room for a single `T`, preceded by an [`AllocPrefix`].
    ///
    /// Returns `None` if the allocator failed.
    pub fn allocate(alloc: &mut Alloc) -> (r: Option<Self>)
        ensures
            r matches Some(p) ==> p.ptr > spec_prefix_skip::<T, Alloc>(),
            r matches Some(p) ==> final(alloc).holds(
                (p.ptr - spec_prefix_skip::<T, Alloc>()) as usize,
                (spec_prefix_skip::<T, Alloc>() + size_of::<T>()) as nat,
            ),
            r matches Some(p) ==> (p.ptr - spec_prefix_skip::<T, Alloc>()) % spec_array_align::<T, Alloc>() == 0,
            spec_array_size::<T, Alloc>(1) <= usize::MAX && old(alloc).can_allocate(spec_array_layout::<T, Alloc>(1))
                ==> r is Some,
    {
        Self::alloc_array(alloc, 1)
    }

    /// Allocates room for `capacity` elements of `T`, preceded by an [`AllocPrefix`].
    ///
    /// Returns `None` if the allocator failed or if the size does not fit in a `usize`.
    pub fn alloc_array(alloc: &mut Alloc, capacity: usize) -> (r: Option<Self>)
        ensures
            r matches Some(p) ==> p.ptr > spec_prefix_skip::<T, Alloc>(),
            r matches Some(p) ==> final(alloc).holds(
                (p.ptr - spec_prefix_skip::<T, Alloc>()) as usize,
                (spec_prefix_skip::<T, Alloc>() + size_of::<T>() * capacity) as nat,
            ),
            r matches Some(p) ==> (p.ptr - spec_prefix_skip::<T, Alloc>()) % spec_array_align::<T, Alloc>() == 0,
            spec_prefix_skip::<T, Alloc>() + size_of::<T>() * capacity > usize::MAX ==> r is None,
            spec_array_size::<T, Alloc>(capacity as int) <= usize::MAX && old(alloc).can_allocate(
                spec_array_layout::<T, Alloc>(capacity as int),
            ) ==> r is Some,
            forall|p: usize, size: nat| old(alloc).holds(p, size) ==> #[trigger] final(alloc).holds(p, size),
    {
        let layout = match Self::array_layout(capacity) {
            None => return None,
            Some(l) => l,
        };
        layout_for_type_is_valid::<T>();
        layout_for_type_is_valid::<AllocPrefix<Alloc>>();
        let prefix = alloc.allocate(layout);
        proof {
            lemma_array_size_covers_skip::<T, Alloc>(capacity as int);
            assert(layout.align as int == spec_array_align::<T, Alloc>());
        }
        Self::from_prefix(prefix)
    }

    /// Reallocates the allocation so that it holds `new_capacity` elements.
    ///
    /// Returns `None`, leaving `self` allocated, if the allocator failed or if the
    /// size does not fit in a `usize`.
    pub fn realloc(self, alloc: &mut Alloc, prev_capacity: usize, new_capacity: usize) -> (r: Option<Self>)
        requires
            self.ptr > spec_prefix_skip::<T, Alloc>(),
        ensures
            r matches Some(p) ==> p.ptr > spec_prefix_skip::<T, Alloc>(),
            r matches Some(p) ==> final(alloc).holds(
                (p.ptr - spec_prefix_skip::<T, Alloc>()) as usize,
                (spec_prefix_skip::<T, Alloc>() + size_of::<T>() * new_capacity) as nat,
            ),
            r matches Some(p) ==> (p.ptr - spec_prefix_skip::<T, Alloc>()) % spec_array_align::<T, Alloc>() == 0,
            spec_prefix_skip::<T, Alloc>() + size_of::<T>() * new_capacity > usize::MAX ==> r is None,
            spec_array_size::<T, Alloc>(prev_capacity as int) <= usize::MAX && spec_array_size::<T, Alloc>(
                new_capacity as int,
            ) <= usize::MAX && old(alloc).holds(
                (self.ptr - spec_prefix_skip::<T, Alloc>()) as usize,
                spec_array_size::<T, Alloc>(prev_capacity as int) as nat,
            ) && old(alloc).can_allocate(spec_array_layout::<T, Alloc>(new_capacity as int)) ==> r is Some,
            r is None ==> forall|p: usize, size: nat| old(alloc).holds(p, size) ==> #[trigger] final(alloc).holds(p, size),
    {
        let prev = match Self::array_layout(prev_capacity) {
            None => return None,
            Some(l) => l,
        };
        let new_layout = match Self::array_layout(new_capacity) {
            None => return None,
            Some(l) => l,
        };
        layout_for_type_is_valid::<T>();
        layout_for_type_is_valid::<AllocPrefix<Alloc>>();
        let prefix = alloc.realloc(self.prefix_ptr(), prev, new_layout.size);
        proof {
            lemma_array_size_covers_skip::<T, Alloc>(new_capacity as int);
            assert(prev.align as int == spec_array_align::<T, Alloc>());
            assert(Layout { size: new_layout.size, align: prev.align } == spec_array_layout::<T, Alloc>(
                new_capacity as int,
            ));
        }
        Self::from_prefix(prefix)
    }

    /// Frees the allocation; the allocator's other allocations stay.
    pub fn free(self, alloc: &mut Alloc)
        requires
            self.ptr > spec_prefix_skip::<T, Alloc>(),
        ensures
            final(alloc).released((self.ptr - spec_prefix_skip::<T, Alloc>()) as usize),
            forall|p: usize, size: nat|
                p != self.ptr - spec_prefix_skip::<T, Alloc>() && old(alloc).holds(p, size) ==> #[trigger] final(alloc).holds(p, size),
    {
        alloc.free(self.prefix_ptr())
    }
}

/// A helper to work with allocated slices: the addresses of its start and end.
pub struct AllocSlice<T, Alloc> {
    /// The start of the slice.
    pub start: AllocPtr<T, Alloc>,
    /// The end of the slice (exclusive).
    pub end: usize,
}

impl<T, Alloc> AllocSlice<T, Alloc> {
    /// The slice spans a whole number of elements.
    pub open spec fn wf(&self) -> bool {
        &&& self.start.ptr <= self.end
        &&& size_of::<T>() > 0 ==> (self.end - self.start.ptr) % (size_of::<T>() as int) == 0
    }

    /// Returns the number of elements in the slice.
    pub fn len(&self) -> (r: usize)
        requires
            self.wf(),
        ensures
            r == vec::spec_ptr_diff::<T>(self.end, self.start.ptr),
    {
        vec::ptr_diff::<T>(self.end, self.start.ptr)
    }

    /// Returns `true` if the slice is empty.
    pub fn is_empty(&self) -> (r: bool)
        requires
            self.wf(),
        ensures
            r == (self.start.ptr == self.end),
    {
        proof {
            let d = (self.end - self.start.ptr) as int;
            let size = size_of::<T>() as int;
            if size > 0 {
                vstd::arithmetic::div_mod::lemma_fundamental_div_mod(d, size);
                assert(d / size == 0 <==> d == 0) by (nonlinear_arith)
                    requires
                        d == size * (d / size) + d % size,
                        d % size == 0,
                        size > 0,
                        d >= 0,
                ;
            }
        }
        self.len() == 0
    }
}

impl<T, Alloc> Clone for AllocSlice<T, Alloc> {
    fn clone(&self) -> (r: Self)
        ensures
            r == *self,
    {
        AllocSlice { start: self.start, end: self.end }
    }
}

impl<T, Alloc> Copy for AllocSlice<T, Alloc> {

}

} // verus!
