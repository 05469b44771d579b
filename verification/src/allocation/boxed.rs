//! A box and a boxed slice whose allocations come from a chosen allocator.
use super::vec::{Vec, VecInner};
use super::{spec_array_layout, spec_array_size, spec_prefix_skip, AllocPtr, IAlloc};
use vstd::prelude::*;

verus! {

/// Forgets `value` without running its destructor (`core::mem::forget`).
#[verifier::external_body]
fn leak<T>(value: T) {
    core::mem::forget(value)
}

/// A value in an allocation of `Alloc`.
pub struct Box<T, Alloc: IAlloc> {
    /// The allocation.
    ptr: AllocPtr<T, Alloc>,
    /// The value.
    value: T,
    /// The allocator the allocation came from.
    allocator: Alloc,
}

impl<T, Alloc: IAlloc> View for Box<T, Alloc> {
    type V = T;

    closed spec fn view(&self) -> T {
        self.value
    }
}

impl<T, Alloc: IAlloc> Box<T, Alloc> {
    /// The allocation holding the value.
    pub closed spec fn spec_ptr(&self) -> AllocPtr<T, Alloc> {
        self.ptr
    }

    /// Attempts to allocate room for `value` in `alloc` and to store it there.
    ///
    /// # Errors
    /// Returns `value` and the allocator if the allocation failed.
    pub fn try_new_in(value: T, alloc: Alloc) -> (r: Result<Self, (T, Alloc)>)
        ensures
            r matches Ok(b) ==> b@ == value && b.spec_ptr().ptr > spec_prefix_skip::<T, Alloc>(),
            r matches Ok(b) ==> b.spec_allocator().holds(
                (b.spec_ptr().ptr - spec_prefix_skip::<T, Alloc>()) as usize,
                spec_array_size::<T, Alloc>(1) as nat,
            ),
            r matches Err((v, _)) ==> v == value,
            spec_array_size::<T, Alloc>(1) <= usize::MAX && alloc.can_allocate(spec_array_layout::<T, Alloc>(1))
                ==> r is Ok,
    {
        let mut alloc = alloc;
        match AllocPtr::allocate(&mut alloc) {
            Some(ptr) => Ok(Box { ptr, value, allocator: alloc }),
            None => Err((value, alloc)),
        }
    }

    /// The allocator the allocation came from.
    pub closed spec fn spec_allocator(&self) -> Alloc {
        self.allocator
    }

    /// Extracts the value from the allocation, freeing said allocation.
    pub fn into_inner(this: Self) -> (r: T)
        requires
            this.spec_ptr().ptr > spec_prefix_skip::<T, Alloc>(),
        ensures
            r == this@,
    {
        let (value, _allocator) = Self::release(this);
        value
    }

    /// Frees the allocation and gives back the value and the allocator; the
    /// allocator's other allocations stay.
    pub fn release(this: Self) -> (r: (T, Alloc))
        requires
            this.spec_ptr().ptr > spec_prefix_skip::<T, Alloc>(),
        ensures
            r.0 == this@,
            r.1.released((this.spec_ptr().ptr - spec_prefix_skip::<T, Alloc>()) as usize),
            forall|p: usize, size: nat|
                p != this.spec_ptr().ptr - spec_prefix_skip::<T, Alloc>() && this.spec_allocator().holds(p, size)
                    ==> #[trigger] r.1.holds(p, size),
    {
        let Box { ptr, value, allocator } = this;
        let mut allocator = allocator;
        ptr.free(&mut allocator);
        (value, allocator)
    }

    /// Returns the inner raw allocation, leaking the value and the allocator:
    /// no destructor of theirs runs, and the allocation stays allocated.
    pub fn into_raw(this: Self) -> (r: AllocPtr<T, Alloc>)
        ensures
            r == this.spec_ptr(),
    {
        let Box { ptr, value, allocator } = this;
        leak(value);
        leak(allocator);
        ptr
    }

    /// A reference to the value.
    pub fn as_ref(&self) -> (r: &T)
        ensures
            *r == self@,
    {
        &self.value
    }
}

/// A slice of elements in an allocation of `Alloc`, with room for a fixed number
/// of elements.
///
/// Unlike `std`'s boxed slices, this remembers the capacity of its allocation,
/// so that turning it back into a [`Vec`] keeps that capacity.
pub struct BoxedSlice<T, Alloc: IAlloc> {
    /// The allocation, the elements, the capacity and the allocator.
    inner: VecInner<T, Alloc>,
}

impl<T, Alloc: IAlloc> View for BoxedSlice<T, Alloc> {
    type V = Seq<T>;

    closed spec fn view(&self) -> Seq<T> {
        self.inner.data@
    }
}

impl<T, Alloc: IAlloc> BoxedSlice<T, Alloc> {
    /// The boxed slice is consistent, as the vector it was made from.
    pub closed spec fn wf(&self) -> bool {
        self.inner.wf()
    }

    /// How many elements fit in the allocation.
    pub closed spec fn spec_capacity(&self) -> nat {
        self.inner.capacity as nat
    }

    /// The boxed slice that takes over the allocation and the elements of `v`.
    pub closed spec fn from_vec(v: Vec<T, Alloc>) -> Self {
        BoxedSlice { inner: v.0 }
    }

    /// The vector that takes over the allocation and the elements of `b`.
    pub closed spec fn into_vec(b: Self) -> Vec<T, Alloc> {
        Vec(b.inner)
    }

    /// Converting a vector into a boxed slice and back gives the vector back, and
    /// keeps its elements, capacity and consistency on the way.
    pub proof fn lemma_vec_round_trip(v: Vec<T, Alloc>)
        ensures
            Self::into_vec(Self::from_vec(v)) == v,
            Self::from_vec(v)@ == v@,
            Self::from_vec(v).spec_capacity() == v.spec_capacity(),
            Self::from_vec(v).wf() == v.wf(),
    {
        v.lemma_fields();
    }

    /// Converting a boxed slice into a vector and back gives the boxed slice back,
    /// and keeps its elements, capacity and consistency on the way.
    pub proof fn lemma_boxed_round_trip(b: Self)
        ensures
            Self::from_vec(Self::into_vec(b)) == b,
            Self::into_vec(b)@ == b@,
            Self::into_vec(b).spec_capacity() == b.spec_capacity(),
            Self::into_vec(b).wf() == b.wf(),
    {
        Self::into_vec(b).lemma_fields();
    }

    /// The number of elements in the boxed slice.
    pub fn len(&self) -> (r: usize)
        ensures
            r == self@.len(),
    {
        self.inner.data.len()
    }

    /// Returns `true` if the slice is empty.
    pub fn is_empty(&self) -> (r: bool)
        ensures
            r == (self@.len() == 0),
    {
        self.inner.data.len() == 0
    }

    /// The elements, as a slice.
    pub fn as_slice(&self) -> (r: &[T])
        ensures
            r@ == self@,
    {
        self.inner.data.as_slice()
    }

    /// The elements, as a mutable slice.
    pub fn as_slice_mut(&mut self) -> (r: &mut [T])
        ensures
            r@ == old(self)@,
            final(r)@ == final(self)@,
            final(self).spec_capacity() == old(self).spec_capacity(),
    {
        self.inner.data.as_mut_slice()
    }

    /// Attempts to add an element to the boxed slice without reallocating.
    ///
    /// # Errors
    /// Returns the value if pushing would require reallocating.
    pub fn try_push(&mut self, value: T) -> (r: Result<(), T>)
        requires
            old(self).wf(),
        ensures
            final(self).wf(),
            final(self).spec_capacity() == old(self).spec_capacity(),
            old(self)@.len() < old(self).spec_capacity() ==> r is Ok && final(self)@ == old(self)@.push(value),
            old(self)@.len() >= old(self).spec_capacity() ==> r == Err::<(), T>(value) && final(self)@ == old(
                self,
            )@,
    {
        if self.inner.data.len() >= self.inner.capacity {
            return Err(value);
        }
        self.inner.data.push(value);
        Ok(())
    }

    /// Frees the allocation, if there is one, drops the elements, and gives the
    /// allocator back, as [`Vec::release`] does for the vector it was made from.
    pub fn release(self) -> (r: Alloc)
        requires
            self.wf(),
        ensures
            Self::into_vec(self).has_allocation() ==> r.released(Self::into_vec(self).spec_prefix()),
            forall|p: usize, size: nat|
                (!Self::into_vec(self).has_allocation() || p != Self::into_vec(self).spec_prefix()) && Self::into_vec(
                    self,
                ).spec_allocator().holds(p, size) ==> #[trigger] r.holds(p, size),
    {
        proof {
            Self::lemma_boxed_round_trip(self);
        }
        Vec(self.inner).release()
    }
}

impl<T, Alloc: IAlloc> From<Vec<T, Alloc>> for BoxedSlice<T, Alloc> {
    fn from(value: Vec<T, Alloc>) -> (r: Self) {
        BoxedSlice { inner: value.0 }
    }
}

impl<T, Alloc: IAlloc> vstd::std_specs::convert::FromSpecImpl<Vec<T, Alloc>> for BoxedSlice<T, Alloc> {
    open spec fn obeys_from_spec() -> bool {
        true
    }

    open spec fn from_spec(v: Vec<T, Alloc>) -> Self {
        BoxedSlice::from_vec(v)
    }
}

impl<T, Alloc: IAlloc> From<BoxedSlice<T, Alloc>> for Vec<T, Alloc> {
    fn from(value: BoxedSlice<T, Alloc>) -> (r: Self) {
        Vec(value.inner)
    }
}

impl<T, Alloc: IAlloc> vstd::std_specs::convert::FromSpecImpl<BoxedSlice<T, Alloc>> for Vec<T, Alloc> {
    open spec fn obeys_from_spec() -> bool {
        true
    }

    open spec fn from_spec(b: BoxedSlice<T, Alloc>) -> Self {
        BoxedSlice::into_vec(b)
    }
}

} // verus!
