//! Borrowed slices, as a type of the library's own; the layout is that of the
//! Rust slice reference it wraps.
use vstd::prelude::*;

verus! {

/// A borrowed slice: the address of its first element and its length.
#[derive(Clone, Copy)]
pub struct Slice<'a, T: 'a> {
    /// The elements.
    inner: &'a [T],
}

impl<'a, T: 'a> View for Slice<'a, T> {
    type V = Seq<T>;

    closed spec fn view(&self) -> Seq<T> {
        self.inner@
    }
}

impl<'a, T: 'a> Slice<'a, T> {
    /// Borrows `value`.
    pub fn new(value: &'a [T]) -> (r: Self)
        ensures
            r@ == value@,
    {
        Slice { inner: value }
    }

    /// The borrowed elements.
    pub fn as_slice(self) -> (r: &'a [T])
        ensures
            r@ == self@,
    {
        self.inner
    }

    /// The number of elements.
    pub fn len(&self) -> (r: usize)
        ensures
            r == self@.len(),
    {
        self.inner.len()
    }
}

impl<'a, T> From<&'a [T]> for Slice<'a, T> {
    fn from(value: &'a [T]) -> (r: Self) {
        Slice { inner: value }
    }
}

impl<'a, T> vstd::std_specs::convert::FromSpecImpl<&'a [T]> for Slice<'a, T> {
    open spec fn obeys_from_spec() -> bool {
        true
    }

    open spec fn from_spec(v: &'a [T]) -> Self {
        Slice::spec_new(v)
    }
}

impl<'a, T> Slice<'a, T> {
    /// The slice that borrows `v`.
    pub closed spec fn spec_new(v: &'a [T]) -> Self {
        Slice { inner: v }
    }

    /// A slice holds the elements it borrows.
    pub proof fn lemma_new(v: &'a [T])
        ensures
            Self::spec_new(v)@ == v@,
    {
    }
}

} // verus!
