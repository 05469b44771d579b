//! Core data structures of an ABI-stable toolkit.
#![allow(non_camel_case_types)]
#![allow(non_snake_case)]

pub mod num;
pub mod typenum2;
pub mod istable;
pub mod enums;
pub mod allocation;
pub mod option;
pub mod result;
pub mod slice;
pub mod checked_import;
pub mod future;

use crate::istable::IStable;
use core::marker::PhantomData;
use vstd::layout::{align_of, size_of};
use vstd::prelude::*;

verus! {

/// Fails to compile unless `T` is ABI-stable.
pub fn assert_stable<T: IStable>() {
}

/// A proof that `T` is ABI-stable.
pub struct AssertStable<T: IStable>(pub PhantomData<T>);

impl<T: IStable> AssertStable<T> {
    /// The proof, which only exists for ABI-stable types.
    pub fn check() -> (r: Self) {
        AssertStable(PhantomData)
    }
}

/// A value of type `T` that has the layout of `As`.
pub struct StableLike<T, As> {
    /// The value.
    value: T,
    /// The type whose layout the value has.
    marker: PhantomData<As>,
}

impl<T, As: IStable> StableLike<T, As> {
    /// The wrapped value.
    pub closed spec fn spec_value(&self) -> T {
        self.value
    }

    /// Wraps `value`; `T` must have the size and alignment of `As`.
    pub fn new(value: T) -> (r: Self)
        requires
            size_of::<T>() == As::spec_unpadded_size(),
            align_of::<T>() == As::spec_align(),
        ensures
            r.spec_value() == value,
    {
        StableLike { value, marker: PhantomData }
    }

    /// A reference to the wrapped value.
    pub fn as_ref(&self) -> (r: &T)
        where
            T: IStable,
        ensures
            *r == self.spec_value(),
    {
        &self.value
    }

    /// Extracts the wrapped value.
    pub fn into_inner(self) -> (r: T)
        where
            T: IStable,
        ensures
            r == self.spec_value(),
    {
        self.value
    }
}

impl<T, As: IStable> IStable for StableLike<T, As> {
    type ForbiddenValues = As::ForbiddenValues;

    open spec fn spec_unpadded_size() -> nat {
        As::spec_unpadded_size()
    }

    open spec fn spec_align() -> nat {
        As::spec_align()
    }

    fn unpadded_size() -> (r: usize) {
        As::unpadded_size()
    }

    fn align() -> (r: usize) {
        As::align()
    }
}

/// A value that is ABI-stable provided `Cond` is.
pub struct StableIf<T, Cond> {
    /// The value.
    pub value: T,
    /// The condition.
    pub marker: PhantomData<Cond>,
}

impl<T, Cond> StableIf<T, Cond> {
    /// A reference to the wrapped value.
    pub fn as_ref(&self) -> (r: &T)
        ensures
            *r == self.value,
    {
        &self.value
    }
}

impl<T: IStable, Cond: IStable> IStable for StableIf<T, Cond> {
    type ForbiddenValues = T::ForbiddenValues;

    open spec fn spec_unpadded_size() -> nat {
        T::spec_unpadded_size()
    }

    open spec fn spec_align() -> nat {
        T::spec_align()
    }

    fn unpadded_size() -> (r: usize) {
        T::unpadded_size()
    }

    fn align() -> (r: usize) {
        T::align()
    }
}

/// The layout of `A` followed by `B`.
pub struct FieldPair<A, B>(PhantomData<(A, B)>);

/// The layout of the fields `T` as a struct.
pub struct Struct<T>(pub T);

/// The layout of the fields `T` as a struct aligned to `Align`.
pub struct AlignedStruct<T, Align>(PhantomData<(T, Align)>);

} // verus!
