//! A growable vector whose allocation comes from a chosen allocator.
use vstd::layout::size_of;
use vstd::prelude::*;

verus! {

/// The number of elements between two addresses.
pub open spec fn spec_ptr_diff<T>(lhs: usize, rhs: usize) -> int {
    if size_of::<T>() == 0 {
        lhs - rhs
    } else {
        (lhs - rhs) / (size_of::<T>() as int)
    }
}

/// The number of elements of `T` between `rhs` and `lhs`.
pub fn ptr_diff<T>(lhs: usize, rhs: usize) -> (r: usize)
    requires
        rhs <= lhs,
    ensures
        r == spec_ptr_diff::<T>(lhs, rhs),
{
    let size = core::mem::size_of::<T>();
    if size == 0 {
        lhs - rhs
    } else {
        (lhs - rhs) / size
    }
}

/// The address `rhs` elements of `T` past `lhs`.
pub fn ptr_add<T>(lhs: usize, rhs: usize) -> (r: usize)
    requires
        size_of::<T>() == 0 ==> lhs + rhs <= usize::MAX,
        lhs + rhs * size_of::<T>() <= usize::MAX,
    ensures
        size_of::<T>() == 0 ==> r == lhs + rhs,
        size_of::<T>() > 0 ==> r == lhs + rhs * size_of::<T>(),
{
    let size = core::mem::size_of::<T>();
    if size == 0 {
        lhs + rhs
    } else {
        proof {
            assert(rhs * size <= usize::MAX) by (nonlinear_arith)
                requires
                    lhs + rhs * size <= usize::MAX,
                    lhs >= 0,
            ;
        }
        lhs + rhs * size
    }
}

} // verus!

use super::{AllocPtr, AllocationError, IAlloc, Layout, spec_array_layout, spec_array_size, spec_prefix_skip};
use std::collections::VecDeque;
use crate::num::NonMaxUsize;

verus! {

/// The fields of a [`Vec`].
pub struct VecInner<T, Alloc: IAlloc> {
    /// The start of the allocation, or a dangling pointer if nothing was allocated.
    pub(crate) start: AllocPtr<T, Alloc>,
    /// The elements.
    pub(crate) data: std::vec::Vec<T>,
    /// How many elements the allocation can hold.
    pub(crate) capacity: usize,
    /// The allocator.
    pub(crate) allocator: Alloc,
}

impl<T, Alloc: IAlloc> VecInner<T, Alloc> {
    /// No more elements than the capacity; elements of size zero have the largest
    /// capacity; room for elements of non-zero size comes with an allocation,
    /// which the allocator holds, for the prefix and `capacity` elements.
    pub(crate) open spec fn wf(&self) -> bool {
        &&& self.data@.len() <= self.capacity
        &&& size_of::<T>() == 0 ==> self.capacity == usize::MAX
        &&& size_of::<T>() > 0 && self.capacity > 0 ==> self.start.ptr > spec_prefix_skip::<T, Alloc>()
        &&& size_of::<T>() > 0 && self.capacity > 0 ==> spec_array_size::<T, Alloc>(self.capacity as int)
            <= usize::MAX
        &&& size_of::<T>() > 0 && self.capacity > 0 ==> self.allocator.holds(
            (self.start.ptr - spec_prefix_skip::<T, Alloc>()) as usize,
            spec_array_size::<T, Alloc>(self.capacity as int) as nat,
        )
    }
}

/// A growable vector whose allocation comes from `Alloc`.
pub struct Vec<T, Alloc: IAlloc>(pub(crate) VecInner<T, Alloc>);

impl<T, Alloc: IAlloc> View for Vec<T, Alloc> {
    type V = Seq<T>;

    closed spec fn view(&self) -> Seq<T> {
        self.0.data@
    }
}

/// The capacity a full vector of `capacity` elements of `size` bytes grows to
/// when an element is pushed: the first capacity, or half as much again (at
/// least one more).
pub open spec fn spec_grown_capacity(capacity: nat, size: nat) -> int {
    if capacity == 0 {
        spec_first_capacity(size) as int
    } else if capacity / 2 > 1 {
        (capacity + capacity / 2) as int
    } else {
        (capacity + 1) as int
    }
}

/// How many elements a vector reserves room for the first time it grows.
pub open spec fn spec_first_capacity(size: nat) -> nat {
    let v = 1024nat / size;
    if v == 0 {
        1
    } else if v <= 8 {
        v
    } else {
        8
    }
}

impl<T, Alloc: IAlloc> Vec<T, Alloc> {
    /// The vector is consistent: it holds no more elements than its capacity, a
    /// vector of zero-sized elements has the largest capacity, and a vector with
    /// room for elements of non-zero size has an allocation.
    pub closed spec fn wf(&self) -> bool {
        self.0.wf()
    }

    /// A vector's contents, capacity and consistency, read from its fields.
    pub(crate) proof fn lemma_fields(&self)
        ensures
            self@ == self.0.data@,
            self.spec_capacity() == self.0.capacity as nat,
            self.wf() == self.0.wf(),
    {
    }

    /// A consistent vector holds no more elements than its capacity, and a vector
    /// of zero-sized elements has the largest capacity.
    pub proof fn lemma_wf(&self)
        requires
            self.wf(),
        ensures
            self@.len() <= self.spec_capacity(),
            size_of::<T>() == 0 ==> self.spec_capacity() == usize::MAX,
    {
    }

    /// How many elements the vector can hold without reallocating.
    pub closed spec fn spec_capacity(&self) -> nat {
        self.0.capacity as nat
    }

    /// The allocator of the vector.
    pub closed spec fn spec_allocator(&self) -> Alloc {
        self.0.allocator
    }

    /// The address of the prefix of the vector's allocation, when it has one.
    pub closed spec fn spec_prefix(&self) -> usize {
        (self.0.start.ptr - spec_prefix_skip::<T, Alloc>()) as usize
    }

    /// Whether the vector has an allocation: its elements take room, and it has
    /// room for some.
    pub open spec fn has_allocation(&self) -> bool {
        size_of::<T>() > 0 && self.spec_capacity() > 0
    }

    /// Whether growing the vector to room for `new_capacity` elements is bound
    /// to succeed: that many elements fit, and the vector's allocator can serve
    /// their layout.
    pub open spec fn can_grow_to(&self, new_capacity: int) -> bool {
        &&& new_capacity < usize::MAX
        &&& spec_array_size::<T, Alloc>(new_capacity) <= usize::MAX
        &&& self.spec_allocator().can_allocate(spec_array_layout::<T, Alloc>(new_capacity))
    }

    /// The allocator of a consistent vector holds its allocation: room for the
    /// prefix and `capacity` elements.
    pub proof fn lemma_allocation_held(&self)
        requires
            self.wf(),
        ensures
            self.has_allocation() ==> self.spec_allocator().holds(
                self.spec_prefix(),
                spec_array_size::<T, Alloc>(self.spec_capacity() as int) as nat,
            ),
    {
    }

    /// Constructs a new vector in `alloc`. This doesn't allocate.
    pub fn new_in(alloc: Alloc) -> (r: Self)
        ensures
            r.wf(),
            r@ == Seq::<T>::empty(),
            r.spec_capacity() == if size_of::<T>() == 0 { usize::MAX as nat } else { 0 },
            r.spec_allocator() == alloc,
    {
        let capacity = if core::mem::size_of::<T>() == 0 {
            usize::MAX
        } else {
            0
        };
        Vec(VecInner { start: AllocPtr::dangling(), data: std::vec::Vec::new(), capacity, allocator: alloc })
    }

    /// Constructs a new vector in `alloc`, with room for at least `capacity` elements.
    ///
    /// # Errors
    /// Returns an [`AllocationError`] if the allocator couldn't provide a sufficient allocation.
    pub fn try_with_capacity_in(capacity: usize, alloc: Alloc) -> (r: Result<Self, AllocationError>)
        ensures
            r matches Ok(v) ==> {
                &&& v.wf()
                &&& v@ == Seq::<T>::empty()
                &&& v.spec_capacity() >= capacity
                &&& size_of::<T>() > 0 && capacity > 0 ==> v.spec_capacity() == capacity
            },
            size_of::<T>() == 0 || capacity == 0 ==> r is Ok,
            capacity == usize::MAX && size_of::<T>() > 0 ==> r is Err,
            capacity < usize::MAX && spec_array_size::<T, Alloc>(capacity as int) <= usize::MAX && alloc.can_allocate(
                spec_array_layout::<T, Alloc>(capacity as int),
            ) ==> r is Ok,
    {
        let mut this = Self::new_in(alloc);
        match this.try_reserve(capacity) {
            Ok(_) => Ok(this),
            Err(e) => Err(e),
        }
    }

    /// The allocator of the vector.
    pub fn allocator(&self) -> (r: &Alloc)
        ensures
            *r == self.spec_allocator(),
    {
        &self.0.allocator
    }

    /// Frees the vector's allocation, if it has one, drops its elements, and
    /// gives the allocator back; the allocator's other allocations stay.
    pub fn release(self) -> (r: Alloc)
        requires
            self.wf(),
        ensures
            self.has_allocation() ==> r.released(self.spec_prefix()),
            forall|p: usize, size: nat|
                (!self.has_allocation() || p != self.spec_prefix()) && self.spec_allocator().holds(p, size)
                    ==> #[trigger] r.holds(p, size),
    {
        let Vec(VecInner { start, data: _, capacity, allocator }) = self;
        let mut allocator = allocator;
        if core::mem::size_of::<T>() > 0 && capacity > 0 {
            start.free(&mut allocator);
        }
        allocator
    }

    /// Gives back the allocator of a vector that holds no allocation.
    pub(crate) fn into_allocator(self) -> (r: Alloc)
        ensures
            r == self.spec_allocator(),
    {
        self.0.allocator
    }

    /// Returns the number of elements in the vector.
    pub fn len(&self) -> (r: usize)
        ensures
            r == self@.len(),
    {
        self.0.data.len()
    }

    /// Returns `true` if the vector holds no element.
    pub fn is_empty(&self) -> (r: bool)
        ensures
            r == (self@.len() == 0),
    {
        self.0.data.len() == 0
    }

    /// The total capacity of the vector.
    pub fn capacity(&self) -> (r: usize)
        ensures
            r == self.spec_capacity(),
    {
        self.0.capacity
    }

    /// The remaining number of elements that can be pushed before reallocating.
    pub fn remaining_capacity(&self) -> (r: usize)
        requires
            self.wf(),
        ensures
            r == self.spec_capacity() - self@.len(),
    {
        self.0.capacity - self.0.data.len()
    }

    /// How many elements the first allocation makes room for.
    fn first_capacity() -> (r: usize)
        requires
            size_of::<T>() > 0,
        ensures
            r == spec_first_capacity(size_of::<T>()),
            1 <= r <= 8,
    {
        let v = 1024 / core::mem::size_of::<T>();
        if v == 0 {
            1
        } else if v <= 8 {
            v
        } else {
            8
        }
    }

    /// Ensures that `additional` more elements can be pushed without reallocating.
    ///
    /// This may reallocate once, to a capacity of exactly `len + additional`.
    ///
    /// # Errors
    /// Returns `Ok(capacity)` if successful, including if no reallocation was needed
    /// (the capacity is then reported as `usize::MAX - 1` if it is `usize::MAX`).
    /// Returns an [`AllocationError`], leaving the vector unchanged, if the
    /// allocator failed or if `len + additional` is not below `usize::MAX`.
    pub fn try_reserve(&mut self, additional: usize) -> (r: Result<NonMaxUsize, AllocationError>)
        requires
            old(self).wf(),
        ensures
            final(self).wf(),
            final(self)@ == old(self)@,
            old(self).spec_capacity() - old(self)@.len() >= additional ==> {
                &&& r is Ok
                &&& final(self).spec_capacity() == old(self).spec_capacity()
                &&& r->Ok_0@ == if old(self).spec_capacity() == usize::MAX {
                    usize::MAX - 1
                } else {
                    old(self).spec_capacity() as int
                }
            },
            old(self).spec_capacity() - old(self)@.len() < additional ==> match r {
                Ok(c) => {
                    &&& final(self).spec_capacity() == old(self)@.len() + additional
                    &&& c@ == old(self)@.len() + additional
                },
                Err(_) => final(self).spec_capacity() == old(self).spec_capacity(),
            },
            old(self)@.len() + additional >= usize::MAX && old(self).spec_capacity() - old(self)@.len() < additional
                ==> r is Err,
            old(self).spec_capacity() - old(self)@.len() < additional && old(self)@.len() + additional < usize::MAX
                && spec_array_size::<T, Alloc>(old(self)@.len() + additional) <= usize::MAX
                && old(self).spec_allocator().can_allocate(spec_array_layout::<T, Alloc>(old(self)@.len() + additional))
                ==> r is Ok,
            old(self).spec_capacity() - old(self)@.len() < additional && old(self).can_grow_to(
                old(self)@.len() + additional,
            ) ==> r is Ok,
    {
        let len = self.0.data.len();
        let cap = self.0.capacity;
        if cap - len < additional {
            let new_capacity = match len.checked_add(additional) {
                None => return Err(AllocationError()),
                Some(c) => c,
            };
            if new_capacity == usize::MAX {
                return Err(AllocationError());
            }
            let start = if cap != 0 {
                self.0.start.realloc(&mut self.0.allocator, cap, new_capacity)
            } else {
                AllocPtr::alloc_array(&mut self.0.allocator, new_capacity)
            };
            match start {
                None => Err(AllocationError()),
                Some(start) => {
                    self.0.start = start;
                    self.0.capacity = new_capacity;
                    Ok(NonMaxUsize::new_unchecked(new_capacity))
                },
            }
        } else {
            let mut capacity = cap;
            if capacity == usize::MAX {
                capacity = capacity - 1;
            }
            Ok(NonMaxUsize::new_unchecked(capacity))
        }
    }

    /// Makes room for more elements: the first capacity if nothing is allocated,
    /// half the capacity (at least one) otherwise.
    fn try_grow(&mut self) -> (r: Result<NonMaxUsize, AllocationError>)
        requires
            old(self).wf(),
            old(self)@.len() == old(self).spec_capacity(),
        ensures
            final(self).wf(),
            final(self)@ == old(self)@,
            r is Ok ==> final(self).spec_capacity() > final(self)@.len(),
            r is Err ==> final(self).spec_capacity() == old(self).spec_capacity(),
            old(self).can_grow_to(spec_grown_capacity(old(self).spec_capacity(), size_of::<T>())) ==> r is Ok,
    {
        if self.0.capacity == 0 {
            let first = Self::first_capacity();
            self.try_reserve(first)
        } else {
            let half = self.0.capacity / 2;
            let additional = if half > 1 {
                half
            } else {
                1
            };
            self.try_reserve(additional)
        }
    }

    /// Adds `value` at the end of `self`.
    ///
    /// # Errors
    /// Gives back `value`, leaving the vector unchanged, if the vector was full and
    /// growing it failed.
    pub fn try_push(&mut self, value: T) -> (r: Result<(), T>)
        requires
            old(self).wf(),
        ensures
            final(self).wf(),
            match r {
                Ok(()) => final(self)@ == old(self)@.push(value),
                Err(v) => {
                    &&& v == value
                    &&& final(self)@ == old(self)@
                    &&& old(self)@.len() == old(self).spec_capacity()
                },
            },
            old(self)@.len() < old(self).spec_capacity() ==> r is Ok,
            old(self)@.len() < old(self).spec_capacity() ==> final(self).spec_capacity() == old(self).spec_capacity(),
            final(self).spec_capacity() >= old(self).spec_capacity(),
            old(self).can_grow_to(spec_grown_capacity(old(self).spec_capacity(), size_of::<T>())) ==> r is Ok,
    {
        if self.0.data.len() == self.0.capacity {
            match self.try_grow() {
                Err(_) => return Err(value),
                Ok(_) => {},
            }
        }
        self.0.data.push(value);
        Ok(())
    }

    /// Removes all elements from the `len`th onward. Does nothing if the vector
    /// holds no more than `len` elements.
    pub fn truncate(&mut self, len: usize)
        requires
            old(self).wf(),
        ensures
            final(self).wf(),
            final(self).spec_capacity() == old(self).spec_capacity(),
            final(self)@ == if len < old(self)@.len() { old(self)@.subrange(0, len as int) } else { old(self)@ },
    {
        if self.0.data.len() <= len {
            return;
        }
        self.0.data.truncate(len);
    }

    /// The elements, as a slice.
    pub fn as_slice(&self) -> (r: &[T])
        ensures
            r@ == self@,
    {
        self.0.data.as_slice()
    }

    /// The elements, as a mutable slice.
    pub fn as_slice_mut(&mut self) -> (r: &mut [T])
        ensures
            r@ == old(self)@,
            final(r)@ == final(self)@,
            final(self).spec_capacity() == old(self).spec_capacity(),
            final(self).spec_allocator() == old(self).spec_allocator(),
    {
        self.0.data.as_mut_slice()
    }

    /// Removes and returns the element at `index`, shifting the following ones.
    pub fn remove(&mut self, index: usize) -> (r: Option<T>)
        requires
            old(self).wf(),
        ensures
            final(self).wf(),
            final(self).spec_capacity() == old(self).spec_capacity(),
            index < old(self)@.len() ==> r == Some(old(self)@[index as int]) && final(self)@ == old(self)@.remove(
                index as int,
            ),
            index >= old(self)@.len() ==> r is None && final(self)@ == old(self)@,
    {
        if index < self.0.data.len() {
            Some(self.0.data.remove(index))
        } else {
            None
        }
    }

    /// Swaps the elements at positions `a` and `b`.
    pub fn swap(&mut self, a: usize, b: usize)
        requires
            old(self).wf(),
            a < old(self)@.len(),
            b < old(self)@.len(),
        ensures
            final(self).wf(),
            final(self).spec_capacity() == old(self).spec_capacity(),
            final(self)@ == old(self)@.update(a as int, old(self)@[b as int]).update(b as int, old(self)@[a as int]),
    {
        if a == b {
            assert(self@ =~= old(self)@.update(a as int, old(self)@[b as int]).update(b as int, old(self)@[a as int]));
            return;
        }
        let (lo, hi) = if a < b {
            (a, b)
        } else {
            (b, a)
        };
        let ghost s = self@;
        let mut v = self.0.data.remove(hi);
        core::mem::swap(&mut self.0.data[lo], &mut v);
        self.0.data.insert(hi, v);
        assert(self@ =~= s.update(a as int, s[b as int]).update(b as int, s[a as int]));
    }

    /// Removes and returns the last element.
    pub fn pop(&mut self) -> (r: Option<T>)
        requires
            old(self).wf(),
        ensures
            final(self).wf(),
            final(self).spec_capacity() == old(self).spec_capacity(),
            old(self)@.len() > 0 ==> r == Some(old(self)@.last()) && final(self)@ == old(self)@.drop_last(),
            old(self)@.len() == 0 ==> r is None && final(self)@ == old(self)@,
    {
        self.0.data.pop()
    }

    /// Removes and returns the element at `index`, moving the last element in its place.
    pub fn swap_remove(&mut self, index: usize) -> (r: Option<T>)
        requires
            old(self).wf(),
        ensures
            final(self).wf(),
            final(self).spec_capacity() == old(self).spec_capacity(),
            index < old(self)@.len() ==> r == Some(old(self)@[index as int]) && final(self)@ == old(self)@.update(
                index as int,
                old(self)@.last(),
            ).drop_last(),
            index >= old(self)@.len() ==> r is None && final(self)@ == old(self)@,
    {
        if index >= self.0.data.len() {
            return None;
        }
        Some(self.0.data.swap_remove(index))
    }
}

impl<T, Alloc: IAlloc> Vec<T, Alloc> {
    /// An iterator over references to the elements.
    pub fn iter(&self) -> (r: core::slice::Iter<'_, T>)
        ensures
            vstd::std_specs::iter::IteratorSpec::remaining(&r) == self@.as_ref(),
    {
        let slice = self.0.data.as_slice();
        let r = slice.iter();
        proof {
            vstd::std_specs::slice::axiom_spec_slice_iter(slice);
        }
        r
    }

    /// Moves the elements in `range` out of the vector, returning them as a [`Drain`].
    pub fn drain(&mut self, range: core::ops::Range<usize>) -> (r: Drain<T>)
        requires
            old(self).wf(),
            range.start <= range.end <= old(self)@.len(),
        ensures
            final(self).wf(),
            final(self).spec_capacity() == old(self).spec_capacity(),
            final(self)@ == old(self)@.subrange(0, range.start as int) + old(self)@.subrange(
                range.end as int,
                old(self)@.len() as int,
            ),
            r@ == old(self)@.subrange(range.start as int, range.end as int),
            r.spec_from() == range.start,
    {
        let ghost s = self@;
        let mut tail = self.0.data.split_off(range.end);
        let mut middle = self.0.data.split_off(range.start);
        self.0.data.append(&mut tail);
        let mut items: VecDeque<T> = VecDeque::new();
        let ghost m = middle@;
        while middle.len() > 0
            invariant
                m == middle@ + items@,
            decreases middle@.len(),
        {
            let ghost before = middle@;
            match middle.pop() {
                Some(x) => {
                    items.push_front(x);
                    assert(m =~= middle@ + items@) by {
                        assert(before =~= middle@.push(x));
                    }
                },
                None => {},
            }
        }
        assert(middle@.len() == 0);
        assert(items@ =~= m);
        assert(self@ =~= s.subrange(0, range.start as int) + s.subrange(range.end as int, s.len() as int));
        Drain { items, from: range.start }
    }

    /// Like [`Self::drain`], but returns `None` instead of requiring `range` to be
    /// a valid range of the vector.
    pub fn try_drain(&mut self, range: core::ops::Range<usize>) -> (r: Option<Drain<T>>)
        requires
            old(self).wf(),
        ensures
            final(self).wf(),
            final(self).spec_capacity() == old(self).spec_capacity(),
            (range.start <= range.end <= old(self)@.len()) == r is Some,
            r is None ==> final(self)@ == old(self)@,
            r matches Some(d) ==> {
                &&& final(self)@ == old(self)@.subrange(0, range.start as int) + old(self)@.subrange(
                    range.end as int,
                    old(self)@.len() as int,
                )
                &&& d@ == old(self)@.subrange(range.start as int, range.end as int)
                &&& d.spec_from() == range.start
            },
    {
        if range.start <= range.end && range.end <= self.0.data.len() {
            Some(self.drain(range))
        } else {
            None
        }
    }

    /// Consumes the vector into an iterator over its elements.
    pub fn into_iter(self) -> (r: IntoIter<T>)
        ensures
            r@ == self@,
    {
        let Vec(VecInner { start, data, capacity, allocator }) = self;
        let mut data = data;
        let mut items: VecDeque<T> = VecDeque::new();
        let ghost m = data@;
        while data.len() > 0
            invariant
                m == data@ + items@,
            decreases data@.len(),
        {
            let ghost before = data@;
            match data.pop() {
                Some(x) => {
                    items.push_front(x);
                    assert(m =~= data@ + items@) by {
                        assert(before =~= data@.push(x));
                    }
                },
                None => {},
            }
        }
        assert(items@ =~= m);
        IntoIter { items }
    }
}

/// Draining a range of a vector and stopping the drain before taking anything
/// out of it leaves the vector as it was: [`Drain::stop`] puts the drained
/// elements back where [`Vec::drain`] took them from.
pub proof fn lemma_drain_then_stop<T>(s: Seq<T>, start: int, end: int)
    requires
        0 <= start <= end <= s.len(),
    ensures
        ({
            let rest = s.subrange(0, start) + s.subrange(end, s.len() as int);
            rest.subrange(0, start) + s.subrange(start, end) + rest.subrange(start, rest.len() as int) == s
        }),
{
    let rest = s.subrange(0, start) + s.subrange(end, s.len() as int);
    assert(rest.subrange(0, start) =~= s.subrange(0, start));
    assert(rest.subrange(start, rest.len() as int) =~= s.subrange(end, s.len() as int));
    assert(s.subrange(0, start) + s.subrange(start, end) + s.subrange(end, s.len() as int) =~= s);
}

/// The elements moved out of a vector by [`Vec::drain`].
pub struct Drain<T> {
    items: VecDeque<T>,
    from: usize,
}

impl<T> View for Drain<T> {
    type V = Seq<T>;

    /// The elements not yet taken out of the drain.
    closed spec fn view(&self) -> Seq<T> {
        self.items@
    }
}

impl<T> Drain<T> {
    /// Where the drained range started in the vector.
    pub closed spec fn spec_from(&self) -> usize {
        self.from
    }

    /// Takes the next element out of the drain.
    pub fn next(&mut self) -> (r: Option<T>)
        ensures
            old(self)@.len() > 0 ==> r == Some(old(self)@[0]) && final(self)@ == old(self)@.subrange(1, old(self)@.len() as int),
            old(self)@.len() == 0 ==> r is None && final(self)@ == old(self)@,
            final(self).spec_from() == old(self).spec_from(),
    {
        self.items.pop_front()
    }

    /// The number of elements left in the drain.
    pub fn len(&self) -> (r: usize)
        ensures
            r == self@.len(),
    {
        self.items.len()
    }

    /// Stops draining: the elements not yet taken out go back into `vec`, where
    /// the drained range was.
    pub fn stop<Alloc: IAlloc>(self, vec: &mut Vec<T, Alloc>)
        requires
            old(vec).wf(),
            self.spec_from() <= old(vec)@.len(),
            old(vec)@.len() + self@.len() <= old(vec).spec_capacity(),
        ensures
            final(vec).wf(),
            final(vec).spec_capacity() == old(vec).spec_capacity(),
            final(vec)@ == old(vec)@.subrange(0, self.spec_from() as int) + self@ + old(vec)@.subrange(
                self.spec_from() as int,
                old(vec)@.len() as int,
            ),
    {
        let Drain { items, from } = self;
        let mut items = items;
        let ghost s = vec@;
        let ghost d = items@;
        let mut at = from;
        while items.len() > 0
            invariant
                vec.wf(),
                vec.spec_capacity() == old(vec).spec_capacity(),
                s.len() + d.len() <= vec.spec_capacity(),
                from <= s.len(),
                items@.len() <= d.len(),
                at == from + (d.len() - items@.len()),
                d.subrange(d.len() - items@.len(), d.len() as int) == items@,
                vec@ == s.subrange(0, from as int) + d.subrange(0, d.len() - items@.len()) + s.subrange(
                    from as int,
                    s.len() as int,
                ),
            decreases items@.len(),
        {
            let ghost before = items@;
            let ghost taken = d.len() - items@.len();
            match items.pop_front() {
                Some(x) => {
                    assert(before[0] == d[taken]);
                    assert(x == d[taken]);
                    vec.0.data.insert(at, x);
                    at = at + 1;
                    assert(vec@ =~= s.subrange(0, from as int) + d.subrange(0, taken + 1) + s.subrange(
                        from as int,
                        s.len() as int,
                    ));
                    assert(d.subrange(d.len() - items@.len(), d.len() as int) =~= items@);
                },
                None => {},
            }
        }
        assert(d.subrange(0, d.len() as int) =~= d);
    }

    /// Turns the drain into one that can also be emptied from the back.
    pub fn double_ended(self) -> (r: DoubleEndedDrain<T>)
        ensures
            r@ == self@,
    {
        DoubleEndedDrain { items: self.items }
    }
}

/// A [`Drain`] that can also be emptied from the back.
pub struct DoubleEndedDrain<T> {
    items: VecDeque<T>,
}

impl<T> View for DoubleEndedDrain<T> {
    type V = Seq<T>;

    /// The elements not yet taken out of the drain.
    closed spec fn view(&self) -> Seq<T> {
        self.items@
    }
}

impl<T> DoubleEndedDrain<T> {
    /// Takes the first remaining element out of the drain.
    pub fn next(&mut self) -> (r: Option<T>)
        ensures
            old(self)@.len() > 0 ==> r == Some(old(self)@[0]) && final(self)@ == old(self)@.subrange(1, old(self)@.len() as int),
            old(self)@.len() == 0 ==> r is None && final(self)@ == old(self)@,
    {
        self.items.pop_front()
    }

    /// Takes the last remaining element out of the drain.
    pub fn next_back(&mut self) -> (r: Option<T>)
        ensures
            old(self)@.len() > 0 ==> r == Some(old(self)@.last()) && final(self)@ == old(self)@.drop_last(),
            old(self)@.len() == 0 ==> r is None && final(self)@ == old(self)@,
    {
        self.items.pop_back()
    }

    /// The number of elements left in the drain.
    pub fn len(&self) -> (r: usize)
        ensures
            r == self@.len(),
    {
        self.items.len()
    }
}

/// A vector consumed into an iterator over its elements.
pub struct IntoIter<T> {
    items: VecDeque<T>,
}

impl<T> View for IntoIter<T> {
    type V = Seq<T>;

    /// The elements not yet taken out.
    closed spec fn view(&self) -> Seq<T> {
        self.items@
    }
}

impl<T> IntoIter<T> {
    /// Takes the next element out.
    pub fn next(&mut self) -> (r: Option<T>)
        ensures
            old(self)@.len() > 0 ==> r == Some(old(self)@[0]) && final(self)@ == old(self)@.subrange(1, old(self)@.len() as int),
            old(self)@.len() == 0 ==> r is None && final(self)@ == old(self)@,
    {
        self.items.pop_front()
    }
}

impl<Alloc: IAlloc> Vec<u8, Alloc> {
    /// Appends the bytes of `buf`, returning how many were written.
    ///
    /// # Errors
    /// Returns an [`AllocationError`], leaving the vector unchanged, if making room
    /// for the bytes failed.
    pub fn write(&mut self, buf: &[u8]) -> (r: Result<usize, AllocationError>)
        requires
            old(self).wf(),
        ensures
            final(self).wf(),
            r matches Ok(n) ==> n == buf@.len() && final(self)@ == old(self)@ + buf@,
            r is Err ==> final(self)@ == old(self)@,
            old(self).spec_capacity() - old(self)@.len() >= buf@.len() ==> r is Ok,
            old(self).can_grow_to((old(self)@.len() + buf@.len()) as int) ==> r is Ok,
    {
        match self.try_copy_extend(buf) {
            Ok(()) => Ok(buf.len()),
            Err(e) => Err(e),
        }
    }
}

impl<T: Copy, Alloc: IAlloc> Vec<T, Alloc> {
    /// Appends copies of the elements of `slice`.
    ///
    /// # Errors
    /// Returns an [`AllocationError`], leaving the vector unchanged, if making room
    /// for the elements failed.
    pub fn try_copy_extend(&mut self, slice: &[T]) -> (r: Result<(), AllocationError>)
        requires
            old(self).wf(),
        ensures
            final(self).wf(),
            r is Ok ==> final(self)@ == old(self)@ + slice@,
            r is Err ==> final(self)@ == old(self)@,
            old(self).spec_capacity() - old(self)@.len() >= slice@.len() ==> r is Ok,
            old(self).can_grow_to((old(self)@.len() + slice@.len()) as int) ==> r is Ok,
    {
        if slice.len() == 0 {
            assert(self@ =~= old(self)@ + slice@);
            return Ok(());
        }
        match self.try_reserve(slice.len()) {
            Err(e) => return Err(e),
            Ok(_) => {},
        }
        let ghost start = self@;
        let mut i: usize = 0;
        while i < slice.len()
            invariant
                i <= slice@.len(),
                self.wf(),
                self.spec_capacity() - start.len() >= slice@.len(),
                self@ == start + slice@.subrange(0, i as int),
            decreases slice@.len() - i,
        {
            self.0.data.push(slice[i]);
            assert(self@ =~= start + slice@.subrange(0, i + 1));
            i = i + 1;
        }
        assert(slice@.subrange(0, slice@.len() as int) =~= slice@);
        Ok(())
    }
}

impl<T: Clone, Alloc: IAlloc + Clone> Vec<T, Alloc> {
    /// A copy of the vector, each element cloned, in an allocation of its own
    /// from a clone of its allocator.
    ///
    /// # Errors
    /// Returns an [`AllocationError`] if the allocator couldn't provide the copy's allocation.
    pub fn try_clone(&self) -> (r: Result<Self, AllocationError>)
        requires
            self.wf(),
        ensures
            r matches Ok(c) ==> {
                &&& c.wf()
                &&& c@.len() == self@.len()
                &&& forall|i: int| 0 <= i < self@.len() ==> cloned(self@[i], #[trigger] c@[i])
            },
            self@.len() == 0 || size_of::<T>() == 0 ==> r is Ok,
            self@.len() < usize::MAX && spec_array_size::<T, Alloc>(self@.len() as int) <= usize::MAX && (forall|
                a: Alloc,
            |
                #[trigger] cloned(self.spec_allocator(), a) ==> a.can_allocate(
                    spec_array_layout::<T, Alloc>(self@.len() as int),
                )) ==> r is Ok,
    {
        let n = self.0.data.len();
        let alloc = self.allocator().clone();
        proof {
            assert(cloned(self.spec_allocator(), alloc));
        }
        let mut copy = Vec::new_in(alloc);
        match copy.try_reserve(n) {
            Err(e) => return Err(e),
            Ok(_) => {},
        }
        let mut i: usize = 0;
        while i < n
            invariant
                self.wf(),
                n == self@.len(),
                i <= n,
                copy.wf(),
                copy@.len() == i,
                copy.spec_capacity() >= n,
                forall|j: int| 0 <= j < i ==> cloned(self@[j], #[trigger] copy@[j]),
            decreases n - i,
        {
            let x = self.0.data[i].clone();
            let ghost before = copy@;
            copy.0.data.push(x);
            proof {
                assert forall|j: int| 0 <= j < i + 1 implies cloned(self@[j], #[trigger] copy@[j]) by {
                    if j < i {
                        assert(copy@[j] == before[j]);
                    }
                }
            }
            i = i + 1;
        }
        Ok(copy)
    }
}

impl<T, Alloc: IAlloc + Default> Vec<T, Alloc> {
    /// Constructs a new vector in the default allocator. This doesn't allocate.
    pub fn new() -> (r: Self)
        ensures
            r.wf(),
            r@ == Seq::<T>::empty(),
            r.spec_capacity() == if size_of::<T>() == 0 { usize::MAX as nat } else { 0 },
    {
        Self::new_in(Alloc::default())
    }

    /// Constructs a new vector in the default allocator, with room for at least
    /// `capacity` elements.
    ///
    /// # Errors
    /// Returns an [`AllocationError`] if the allocator couldn't provide a sufficient allocation.
    pub fn try_with_capacity(capacity: usize) -> (r: Result<Self, AllocationError>)
        ensures
            r matches Ok(v) ==> {
                &&& v.wf()
                &&& v@ == Seq::<T>::empty()
                &&& v.spec_capacity() >= capacity
                &&& size_of::<T>() > 0 && capacity > 0 ==> v.spec_capacity() == capacity
            },
            size_of::<T>() == 0 || capacity == 0 ==> r is Ok,
            capacity == usize::MAX && size_of::<T>() > 0 ==> r is Err,
    {
        Self::try_with_capacity_in(capacity, Alloc::default())
    }
}

} // verus!
