//! A vector that doesn't need to allocate for its first value.
use super::vec::{spec_grown_capacity, Vec};
use super::{spec_array_layout, spec_array_size, AllocationError, IAlloc};
use crate::num::NonMaxUsize;
use vstd::layout::size_of;
use vstd::prelude::*;

verus! {

/// A value held inline, with the allocator that a vector would use.
pub struct Single<T, Alloc> {
    /// The value.
    pub value: T,
    /// The allocator.
    pub allocator: Alloc,
}

/// Views `value` as a slice of one element (`core::slice::from_ref`).
#[verifier::external_body]
fn slice_of_one<T>(value: &T) -> (r: &[T])
    ensures
        r@ == seq![*value],
{
    core::slice::from_ref(value)
}

/// A vector that doesn't need to allocate for its first value.
///
/// Once a second value is pushed, or if greater capacity is reserved,
/// the allocated vector is used regardless of how the vector's
/// number of elements evolves.
pub struct SingleOrVec<T, Alloc: IAlloc> {
    /// Always `Some` between two calls: either the inline value or the vector.
    inner: Option<Result<Single<T, Alloc>, Vec<T, Alloc>>>,
}

impl<T, Alloc: IAlloc> View for SingleOrVec<T, Alloc> {
    type V = Seq<T>;

    closed spec fn view(&self) -> Seq<T> {
        match self.inner {
            Some(Ok(single)) => seq![single.value],
            Some(Err(vec)) => vec@,
            None => Seq::empty(),
        }
    }
}

impl<T, Alloc: IAlloc> SingleOrVec<T, Alloc> {
    /// The value is consistent: it holds its contents, and its vector, if it
    /// has one, is consistent.
    pub closed spec fn wf(&self) -> bool {
        match self.inner {
            Some(Ok(_)) => true,
            Some(Err(vec)) => vec.wf(),
            None => false,
        }
    }

    /// Whether the value is held inline, without a vector.
    pub closed spec fn spec_is_single(&self) -> bool {
        self.inner matches Some(Ok(_))
    }

    /// The allocated vector, when the value is not held inline.
    pub closed spec fn spec_vec(&self) -> Vec<T, Alloc> {
        match self.inner {
            Some(Err(vec)) => vec,
            _ => vstd::pervasive::arbitrary(),
        }
    }

    /// The allocator.
    pub closed spec fn spec_allocator(&self) -> Alloc {
        match self.inner {
            Some(Ok(single)) => single.allocator,
            Some(Err(vec)) => vec.spec_allocator(),
            None => vstd::pervasive::arbitrary(),
        }
    }

    /// Whether an allocation of room for `new_capacity` elements is bound to
    /// succeed: that many elements fit, and the allocator can serve their layout.
    pub open spec fn can_grow_to(&self, new_capacity: int) -> bool {
        &&& new_capacity < usize::MAX
        &&& spec_array_size::<T, Alloc>(new_capacity) <= usize::MAX
        &&& self.spec_allocator().can_allocate(spec_array_layout::<T, Alloc>(new_capacity))
    }

    /// Once the allocated vector is in use (a capacity of 2 or more), it stays in
    /// use, with no less capacity; [`SingleOrVec::lemma_inline`] gives that the
    /// capacity holds the elements.
    pub open spec fn stays_vector(before: Self, after: Self) -> bool {
        before.spec_capacity() >= 2 ==> {
            &&& !after.spec_is_single()
            &&& after.spec_capacity() >= before.spec_capacity()
        }
    }

    /// Once the allocated vector is in use, a sequence of operations that each
    /// keep it in use (pushes, reservations, truncations) never returns to the
    /// inline value: every later state has at least the first state's capacity,
    /// and that capacity holds its elements.
    pub proof fn lemma_stays_vector_along(states: Seq<Self>)
        requires
            states.len() > 0,
            states[0].spec_capacity() >= 2,
            forall|i: int| 0 <= i < states.len() - 1 ==> #[trigger] Self::stays_vector(states[i], states[i + 1]),
            forall|i: int| 0 <= i < states.len() ==> #[trigger] states[i].wf(),
        ensures
            forall|i: int|
                0 <= i < states.len() ==> {
                    &&& !(#[trigger] states[i]).spec_is_single()
                    &&& states[i].spec_capacity() >= states[0].spec_capacity()
                    &&& states[i]@.len() <= states[i].spec_capacity()
                },
        decreases states.len(),
    {
        if states.len() > 1 {
            let init = states.drop_last();
            assert forall|i: int| 0 <= i < init.len() - 1 implies #[trigger] Self::stays_vector(init[i], init[i + 1]) by {
                assert(init[i] == states[i] && init[i + 1] == states[i + 1]);
                assert(Self::stays_vector(states[i], states[i + 1]));
            }
            assert forall|i: int| 0 <= i < init.len() implies #[trigger] init[i].wf() by {
                assert(init[i] == states[i]);
                assert(states[i].wf());
            }
            Self::lemma_stays_vector_along(init);
            let n = states.len() - 1;
            assert(init[n - 1] == states[n - 1]);
            let m = n - 1;
            assert(Self::stays_vector(states[m], states[m + 1]));
            assert forall|i: int| 0 <= i < states.len() implies {
                &&& !(#[trigger] states[i]).spec_is_single()
                &&& states[i].spec_capacity() >= states[0].spec_capacity()
                &&& states[i]@.len() <= states[i].spec_capacity()
            } by {
                assert(states[i].wf());
                states[i].lemma_inline();
                if i < n {
                    assert(init[i] == states[i]);
                }
            }
        } else {
            assert(states[0].wf());
            states[0].lemma_inline();
        }
    }

    /// How many elements fit without (re)allocating.
    pub closed spec fn spec_capacity(&self) -> nat {
        match self.inner {
            Some(Err(vec)) => vec.spec_capacity(),
            _ => 1,
        }
    }

    /// An inline value is one element, with room for one; otherwise the vector
    /// holds no more elements than its capacity. So a capacity of 2 or more
    /// means the allocated vector is in use.
    pub proof fn lemma_inline(&self)
        ensures
            self.spec_is_single() ==> self@.len() == 1 && self.spec_capacity() == 1,
            self.wf() ==> self@.len() <= self.spec_capacity(),
            self.spec_capacity() >= 2 ==> !self.spec_is_single(),
    {
        if let Some(Err(v)) = self.inner {
            if self.wf() {
                v.lemma_wf();
            }
        }
    }

    /// Constructs a new vector in `alloc`. This doesn't allocate.
    pub fn new_in(alloc: Alloc) -> (r: Self)
        ensures
            r.wf(),
            r@ == Seq::<T>::empty(),
            !r.spec_is_single(),
            r.spec_capacity() == if size_of::<T>() == 0 { usize::MAX as nat } else { 0 },
    {
        SingleOrVec { inner: Some(Err(Vec::new_in(alloc))) }
    }

    /// Constructs a new vector in `alloc`, allocating room for `capacity` elements.
    ///
    /// # Errors
    /// Returns an [`AllocationError`] if the allocator couldn't provide a sufficient allocation.
    pub fn try_with_capacity_in(capacity: usize, alloc: Alloc) -> (r: Result<Self, AllocationError>)
        ensures
            r matches Ok(v) ==> {
                &&& v.wf()
                &&& v@ == Seq::<T>::empty()
                &&& !v.spec_is_single()
                &&& v.spec_capacity() >= capacity
            },
            size_of::<T>() == 0 || capacity == 0 ==> r is Ok,
            capacity == usize::MAX && size_of::<T>() > 0 ==> r is Err,
            capacity < usize::MAX && spec_array_size::<T, Alloc>(capacity as int) <= usize::MAX && alloc.can_allocate(
                spec_array_layout::<T, Alloc>(capacity as int),
            ) ==> r is Ok,
    {
        match Vec::try_with_capacity_in(capacity, alloc) {
            Ok(vec) => Ok(SingleOrVec { inner: Some(Err(vec)) }),
            Err(e) => Err(e),
        }
    }

    /// Whether the value is held inline, without a vector.
    pub fn is_single(&self) -> (r: bool)
        ensures
            r == self.spec_is_single(),
    {
        match &self.inner {
            Some(Ok(_)) => true,
            _ => false,
        }
    }

    /// Frees the allocated vector's allocation, if there is one, drops the
    /// elements, and gives the allocator back, as [`Vec::release`] does.
    pub fn release(self) -> (r: Alloc)
        requires
            self.wf(),
        ensures
            self.spec_is_single() ==> r == self.spec_allocator(),
            !self.spec_is_single() && self.spec_vec().has_allocation() ==> r.released(self.spec_vec().spec_prefix()),
            forall|p: usize, size: nat|
                !self.spec_is_single() && (!self.spec_vec().has_allocation() || p != self.spec_vec().spec_prefix())
                    && self.spec_vec().spec_allocator().holds(p, size) ==> #[trigger] r.holds(p, size),
    {
        match self.inner {
            Some(Ok(single)) => single.allocator,
            Some(Err(vec)) => vec.release(),
            None => {
                proof {
                    assert(false);
                }
                vstd::pervasive::unreached()
            },
        }
    }

    /// Returns the number of elements in the vector.
    pub fn len(&self) -> (r: usize)
        requires
            self.wf(),
        ensures
            r == self@.len(),
    {
        match &self.inner {
            Some(Ok(_)) => 1,
            Some(Err(vec)) => vec.len(),
            None => 0,
        }
    }

    /// Returns `true` if the vector is empty.
    pub fn is_empty(&self) -> (r: bool)
        requires
            self.wf(),
        ensures
            r == (self@.len() == 0),
    {
        match &self.inner {
            Some(Ok(_)) => false,
            Some(Err(vec)) => vec.is_empty(),
            None => true,
        }
    }

    /// The total capacity of the vector.
    pub fn capacity(&self) -> (r: usize)
        requires
            self.wf(),
        ensures
            r == self.spec_capacity(),
    {
        match &self.inner {
            Some(Err(vec)) => vec.capacity(),
            _ => 1,
        }
    }

    /// The remaining number of elements that can be pushed before reallocating.
    pub fn remaining_capacity(&self) -> (r: usize)
        requires
            self.wf(),
        ensures
            r == self.spec_capacity() - self@.len(),
    {
        match &self.inner {
            Some(Err(vec)) => vec.remaining_capacity(),
            _ => 0,
        }
    }

    /// Adds `item` at the end of `self`.
    ///
    /// Pushing into a vector that holds no allocation stores the value inline;
    /// pushing a second value moves both into an allocated vector of 8 elements.
    ///
    /// # Errors
    /// Gives back `item`, leaving the contents unchanged, if the vector was full
    /// and the allocator failed to provide a new allocation.
    pub fn try_push(&mut self, item: T) -> (r: Result<(), T>)
        requires
            old(self).wf(),
        ensures
            final(self).wf(),
            match r {
                Ok(()) => final(self)@ == old(self)@.push(item),
                Err(v) => {
                    &&& v == item
                    &&& final(self)@ == old(self)@
                    &&& final(self).spec_is_single() == old(self).spec_is_single()
                    &&& old(self)@.len() == old(self).spec_capacity() > 0
                },
            },
            old(self)@.len() < old(self).spec_capacity() || old(self).spec_capacity() == 0 ==> r is Ok,
            old(self).spec_capacity() == 0 ==> final(self).spec_is_single(),
            r is Ok && old(self)@.len() > 0 ==> !final(self).spec_is_single(),
            r is Ok && old(self).spec_is_single() ==> final(self).spec_capacity() == if size_of::<T>() == 0 {
                usize::MAX as nat
            } else {
                8
            },
            !old(self).spec_is_single() && old(self).spec_capacity() > 0 ==> {
                &&& !final(self).spec_is_single()
                &&& final(self).spec_capacity() >= old(self).spec_capacity()
            },
            old(self).spec_is_single() && old(self).can_grow_to(8) ==> r is Ok,
            !old(self).spec_is_single() && old(self).can_grow_to(
                spec_grown_capacity(old(self).spec_capacity(), size_of::<T>()),
            ) ==> r is Ok,
            Self::stays_vector(*old(self), *final(self)),
    {
        match self.inner.take() {
            Some(Ok(single)) => {
                let Single { value, allocator } = single;
                let mut vec = Vec::new_in(allocator);
                match vec.try_reserve(8) {
                    Ok(_) => {
                        match vec.try_push(value) {
                            Ok(()) => {},
                            Err(_) => {
                                proof {
                                    assert(false);
                                }
                            },
                        }
                        match vec.try_push(item) {
                            Ok(()) => {},
                            Err(_) => {
                                proof {
                                    assert(false);
                                }
                            },
                        }
                        self.inner = Some(Err(vec));
                        Ok(())
                    },
                    Err(_) => {
                        let allocator = vec.into_allocator();
                        self.inner = Some(Ok(Single { value, allocator }));
                        Err(item)
                    },
                }
            },
            Some(Err(mut vec)) => {
                if vec.capacity() == 0 {
                    proof {
                        vec.lemma_wf();
                        assert(seq![item] =~= old(self)@.push(item));
                    }
                    let allocator = vec.into_allocator();
                    self.inner = Some(Ok(Single { value: item, allocator }));
                    Ok(())
                } else {
                    let r = vec.try_push(item);
                    self.inner = Some(Err(vec));
                    r
                }
            },
            None => Err(item),
        }
    }

    /// Ensures that `additional` more elements can be pushed without reallocating.
    ///
    /// An inline value moves into an allocated vector of `1 + additional` elements.
    ///
    /// # Errors
    /// Returns `Ok(new_capacity)` if successful (including if no reallocation was
    /// needed), otherwise an [`AllocationError`], the contents staying unchanged.
    pub fn try_reserve(&mut self, additional: usize) -> (r: Result<NonMaxUsize, AllocationError>)
        requires
            old(self).wf(),
        ensures
            final(self).wf(),
            final(self)@ == old(self)@,
            old(self).spec_is_single() ==> {
                &&& r matches Ok(c) ==> {
                    &&& c@ == additional + 1
                    &&& !final(self).spec_is_single()
                    &&& final(self).spec_capacity() >= additional + 1
                }
                &&& r is Err ==> {
                    ||| final(self).spec_is_single()
                    ||| size_of::<T>() == 0 && additional + 1 == usize::MAX
                }
                &&& size_of::<T>() == 0 && additional + 1 < usize::MAX ==> r is Ok
                &&& size_of::<T>() > 0 && additional + 1 >= usize::MAX ==> r is Err
            },
            !old(self).spec_is_single() ==> {
                &&& !final(self).spec_is_single()
                &&& old(self).spec_capacity() - old(self)@.len() >= additional ==> {
                    &&& r is Ok
                    &&& final(self).spec_capacity() == old(self).spec_capacity()
                    &&& r->Ok_0@ == if old(self).spec_capacity() == usize::MAX {
                        usize::MAX - 1
                    } else {
                        old(self).spec_capacity() as int
                    }
                }
                &&& old(self).spec_capacity() - old(self)@.len() < additional ==> match r {
                    Ok(c) => {
                        &&& final(self).spec_capacity() == old(self)@.len() + additional
                        &&& c@ == old(self)@.len() + additional
                    },
                    Err(_) => final(self).spec_capacity() == old(self).spec_capacity(),
                }
                &&& old(self)@.len() + additional >= usize::MAX && old(self).spec_capacity() - old(
                    self,
                )@.len() < additional ==> r is Err
                &&& old(self).spec_capacity() - old(self)@.len() < additional && old(self).can_grow_to(
                    old(self)@.len() + additional,
                ) ==> r is Ok
            },
            old(self).spec_is_single() && old(self).can_grow_to(additional + 1) ==> r is Ok,
            Self::stays_vector(*old(self), *final(self)),
    {
        match self.inner.take() {
            Some(Ok(single)) => {
                let Single { value, allocator } = single;
                let new_capacity = match additional.checked_add(1) {
                    Some(c) => c,
                    None => {
                        self.inner = Some(Ok(Single { value, allocator }));
                        return Err(AllocationError());
                    },
                };
                let mut vec = Vec::new_in(allocator);
                match vec.try_reserve(new_capacity) {
                    Ok(_) => {
                        match vec.try_push(value) {
                            Ok(()) => {},
                            Err(_) => {
                                proof {
                                    assert(false);
                                }
                            },
                        }
                        self.inner = Some(Err(vec));
                        match NonMaxUsize::new(new_capacity) {
                            Some(c) => Ok(c),
                            None => Err(AllocationError()),
                        }
                    },
                    Err(_) => {
                        let allocator = vec.into_allocator();
                        self.inner = Some(Ok(Single { value, allocator }));
                        Err(AllocationError())
                    },
                }
            },
            Some(Err(mut vec)) => {
                let r = vec.try_reserve(additional);
                self.inner = Some(Err(vec));
                r
            },
            None => Err(AllocationError()),
        }
    }

    /// Removes all elements from the `len`th onward. Does nothing if `self.len() <= len`.
    ///
    /// Truncating an inline value leaves an empty vector that holds no allocation.
    pub fn truncate(&mut self, len: usize)
        requires
            old(self).wf(),
        ensures
            final(self).wf(),
            final(self)@ == if len < old(self)@.len() { old(self)@.subrange(0, len as int) } else { old(self)@ },
            len >= old(self)@.len() ==> final(self).spec_capacity() == old(self).spec_capacity(),
            len >= old(self)@.len() ==> final(self).spec_is_single() == old(self).spec_is_single(),
            !old(self).spec_is_single() ==> !final(self).spec_is_single() && final(self).spec_capacity()
                == old(self).spec_capacity(),
            old(self).spec_is_single() && len == 0 ==> {
                &&& !final(self).spec_is_single()
                &&& final(self).spec_capacity() == if size_of::<T>() == 0 { usize::MAX as nat } else { 0 }
            },
            Self::stays_vector(*old(self), *final(self)),
    {
        if self.len() <= len {
            return ;
        }
        match self.inner.take() {
            Some(Ok(single)) => {
                let Single { value, allocator } = single;
                self.inner = Some(Err(Vec::new_in(allocator)));
                assert(old(self)@.subrange(0, 0) =~= Seq::<T>::empty());
            },
            Some(Err(mut vec)) => {
                vec.truncate(len);
                self.inner = Some(Err(vec));
            },
            None => {},
        }
    }

    /// Returns a slice of the elements in the vector.
    pub fn as_slice(&self) -> (r: &[T])
        requires
            self.wf(),
        ensures
            r@ == self@,
    {
        match &self.inner {
            Some(Ok(single)) => slice_of_one(&single.value),
            Some(Err(vec)) => vec.as_slice(),
            None => &[],
        }
    }
}

impl<T: Clone, Alloc: IAlloc + Clone> SingleOrVec<T, Alloc> {
    /// A copy of the vector, each element cloned, in a clone of its allocator.
    /// An inline value is copied inline; an allocated vector gets an allocation
    /// of its own.
    ///
    /// # Errors
    /// Returns an [`AllocationError`] if the allocator couldn't provide the copy's allocation.
    pub fn try_clone(&self) -> (r: Result<Self, AllocationError>)
        requires
            self.wf(),
        ensures
            r matches Ok(c) ==> {
                &&& c.wf()
                &&& c@.len() == self@.len()
                &&& forall|i: int| 0 <= i < self@.len() ==> cloned(self@[i], #[trigger] c@[i])
                &&& c.spec_is_single() == self.spec_is_single()
            },
            self.spec_is_single() || self@.len() == 0 ==> r is Ok,
            self@.len() < usize::MAX && spec_array_size::<T, Alloc>(self@.len() as int) <= usize::MAX && (forall|
                a: Alloc,
            |
                #[trigger] cloned(self.spec_allocator(), a) ==> a.can_allocate(
                    spec_array_layout::<T, Alloc>(self@.len() as int),
                )) ==> r is Ok,
    {
        match &self.inner {
            Some(Ok(single)) => {
                let value = single.value.clone();
                let c = SingleOrVec { inner: Some(Ok(Single { value, allocator: single.allocator.clone() })) };
                proof {
                    assert(c@[0] == value);
                }
                Ok(c)
            },
            Some(Err(vec)) => {
                proof {
                    assert(self@ == vec@);
                    assert(self.spec_allocator() == vec.spec_allocator());
                }
                match vec.try_clone() {
                    Ok(copy) => Ok(SingleOrVec { inner: Some(Err(copy)) }),
                    Err(e) => Err(e),
                }
            },
            None => {
                proof {
                    assert(false);
                }
                Err(AllocationError())
            },
        }
    }
}

impl<T, Alloc: IAlloc + Default> SingleOrVec<T, Alloc> {
    /// Constructs a new vector in the default allocator. This doesn't allocate.
    pub fn new() -> (r: Self)
        ensures
            r.wf(),
            r@ == Seq::<T>::empty(),
            !r.spec_is_single(),
            r.spec_capacity() == if size_of::<T>() == 0 { usize::MAX as nat } else { 0 },
    {
        Self::new_in(Alloc::default())
    }

    /// Constructs a new vector in the default allocator, allocating room for
    /// `capacity` elements.
    ///
    /// # Errors
    /// Returns an [`AllocationError`] if the allocator couldn't provide a sufficient allocation.
    pub fn try_with_capacity(capacity: usize) -> (r: Result<Self, AllocationError>)
        ensures
            r matches Ok(v) ==> {
                &&& v.wf()
                &&& v@ == Seq::<T>::empty()
                &&& !v.spec_is_single()
                &&& v.spec_capacity() >= capacity
            },
            size_of::<T>() == 0 || capacity == 0 ==> r is Ok,
            capacity == usize::MAX && size_of::<T>() > 0 ==> r is Err,
    {
        Self::try_with_capacity_in(capacity, Alloc::default())
    }
}

impl<T, Alloc: IAlloc> From<Vec<T, Alloc>> for SingleOrVec<T, Alloc> {
    fn from(value: Vec<T, Alloc>) -> (r: Self) {
        SingleOrVec { inner: Some(Err(value)) }
    }
}

impl<T, Alloc: IAlloc> vstd::std_specs::convert::FromSpecImpl<Vec<T, Alloc>> for SingleOrVec<T, Alloc> {
    open spec fn obeys_from_spec() -> bool {
        true
    }

    open spec fn from_spec(v: Vec<T, Alloc>) -> Self {
        SingleOrVec::from_vec(v)
    }
}

impl<T, Alloc: IAlloc> SingleOrVec<T, Alloc> {
    /// The value that holds the vector `v`.
    pub closed spec fn from_vec(v: Vec<T, Alloc>) -> Self {
        SingleOrVec { inner: Some(Err(v)) }
    }

    /// Wrapping a vector keeps its elements, its capacity and its consistency,
    /// and uses the vector rather than an inline value.
    pub proof fn lemma_from_vec(v: Vec<T, Alloc>)
        ensures
            Self::from_vec(v)@ == v@,
            Self::from_vec(v).spec_capacity() == v.spec_capacity(),
            Self::from_vec(v).wf() == v.wf(),
            !Self::from_vec(v).spec_is_single(),
    {
    }
}

} // verus!
