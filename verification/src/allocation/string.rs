//! Owned strings whose allocation comes from a chosen allocator.
use super::boxed::BoxedSlice;
use super::vec::Vec;
use super::{AllocationError, IAlloc};
use vstd::prelude::*;
use vstd::string::StringSliceAdditionalSpecFns;
use vstd::utf8::{decode_utf8, is_char_boundary, length_of_first_scalar, pop_first_scalar, valid_utf8};

verus! {

broadcast use vstd::utf8::group_utf8_lib;

#[verifier::external_type_specification]
#[verifier::external_body]
pub struct ExUtf8Error(core::str::Utf8Error);

/// `core::str::from_utf8`, which documents that it succeeds exactly on valid
/// UTF-8, in which case the string it returns holds the same bytes.
#[verifier::external_body]
fn str_from_utf8(v: &[u8]) -> (r: Result<&str, core::str::Utf8Error>)
    ensures
        r is Ok <==> valid_utf8(v@),
        r matches Ok(s) ==> s.spec_bytes() == v@,
{
    core::str::from_utf8(v)
}

/// The end of a valid encoding stays a character boundary when a valid encoding
/// follows it.
proof fn lemma_boundary_at_concat(a: Seq<u8>, b: Seq<u8>)
    requires
        valid_utf8(a),
        valid_utf8(b),
    ensures
        is_char_boundary(a + b, a.len() as int),
    decreases a.len(),
{
    vstd::utf8::valid_utf8_concat(a, b);
    if a.len() > 0 {
        let rest = pop_first_scalar(a);
        assert(length_of_first_scalar(a) <= a.len());
        assert(rest.len() == a.len() - length_of_first_scalar(a));
        lemma_boundary_at_concat(rest, b);
        assert(pop_first_scalar(a + b) =~= rest + b);
    }
}

/// A growable owned string.
pub struct String<Alloc: IAlloc> {
    /// The UTF-8 encoding of the string.
    pub(crate) inner: Vec<u8, Alloc>,
}

impl<Alloc: IAlloc> View for String<Alloc> {
    type V = Seq<char>;

    closed spec fn view(&self) -> Seq<char> {
        decode_utf8(self.inner@)
    }
}

impl<Alloc: IAlloc> String<Alloc> {
    /// The UTF-8 encoding of the string.
    pub closed spec fn bytes(&self) -> Seq<u8> {
        self.inner@
    }

    /// How many bytes fit without reallocating.
    pub closed spec fn spec_capacity(&self) -> nat {
        self.inner.spec_capacity()
    }

    /// The bytes are valid UTF-8, in a consistent vector.
    pub closed spec fn wf(&self) -> bool {
        self.inner.wf() && valid_utf8(self.inner@)
    }

    /// The string whose encoding is `v`.
    pub closed spec fn from_bytes(v: Vec<u8, Alloc>) -> Self {
        String { inner: v }
    }

    /// The vector holding the encoding of `s`.
    pub closed spec fn into_bytes(s: Self) -> Vec<u8, Alloc> {
        s.inner
    }

    /// A string holds its encoding, and gives it back whole.
    pub proof fn lemma_bytes(v: Vec<u8, Alloc>)
        ensures
            Self::from_bytes(v).bytes() == v@,
            Self::into_bytes(Self::from_bytes(v)) == v,
            Self::from_bytes(v).wf() == (v.wf() && valid_utf8(v@)),
    {
    }

    /// Constructs a new string using the provided allocator. This doesn't allocate.
    pub fn new_in(alloc: Alloc) -> (r: Self)
        ensures
            r.wf(),
            r.bytes() == Seq::<u8>::empty(),
            r@ == Seq::<char>::empty(),
    {
        let r = String { inner: Vec::new_in(alloc) };
        assert(valid_utf8(Seq::<u8>::empty()));
        r
    }

    /// Returns `self` as a borrowed string.
    pub fn as_str(&self) -> (r: &str)
        requires
            self.wf(),
        ensures
            r.spec_bytes() == self.bytes(),
            r@ == self@,
    {
        let r = match str_from_utf8(self.inner.as_slice()) {
            Ok(s) => s,
            Err(_) => "",
        };
        proof {
            vstd::utf8::encode_utf8_decode_utf8(r@);
        }
        r
    }

    /// Attempts to concatenate `s` to `self`.
    ///
    /// # Errors
    /// Returns an [`AllocationError`], leaving `self` unchanged, if reallocation
    /// was needed and failed.
    pub fn try_concat(&mut self, s: &str) -> (r: Result<(), AllocationError>)
        requires
            old(self).wf(),
        ensures
            final(self).wf(),
            r is Ok ==> final(self).bytes() == old(self).bytes() + s.spec_bytes(),
            r is Ok ==> final(self)@ == old(self)@ + s@,
            r is Err ==> final(self).bytes() == old(self).bytes(),
            old(self).spec_capacity() - old(self).bytes().len() >= s.spec_bytes().len() ==> r is Ok,
            Self::into_bytes(*old(self)).can_grow_to((old(self).bytes().len() + s.spec_bytes().len()) as int) ==> r is Ok,
    {
        let r = self.inner.try_copy_extend(s.as_bytes());
        proof {
            vstd::utf8::encode_utf8_decode_utf8(s@);
            if r is Ok {
                lemma_boundary_at_concat(old(self).inner@, s.spec_bytes());
                assert(self.inner@ == old(self).inner@ + s.spec_bytes());
                vstd::utf8::decode_utf8_split(self.inner@, old(self).inner@.len() as int);
                assert(self.inner@.subrange(0, old(self).inner@.len() as int) =~= old(self).inner@);
                assert(self.inner@.subrange(old(self).inner@.len() as int, self.inner@.len() as int)
                    =~= s.spec_bytes());
            }
        }
        r
    }
}

impl<Alloc: IAlloc> String<Alloc> {
    /// Frees the string's allocation, if it has one, and gives the allocator
    /// back, as [`Vec::release`] does for its encoding.
    pub fn release(self) -> (r: Alloc)
        requires
            self.wf(),
        ensures
            Self::into_bytes(self).has_allocation() ==> r.released(Self::into_bytes(self).spec_prefix()),
            forall|p: usize, size: nat|
                (!Self::into_bytes(self).has_allocation() || p != Self::into_bytes(self).spec_prefix())
                    && Self::into_bytes(self).spec_allocator().holds(p, size) ==> #[trigger] r.holds(p, size),
    {
        self.inner.release()
    }
}

impl<Alloc: IAlloc + Default> String<Alloc> {
    /// Constructs a new string using the default allocator. This doesn't allocate.
    pub fn new() -> (r: Self)
        ensures
            r.wf(),
            r.bytes() == Seq::<u8>::empty(),
    {
        Self::new_in(Alloc::default())
    }
}

impl<Alloc: IAlloc + Default> Default for String<Alloc> {
    fn default() -> (r: Self)
        ensures
            r.wf(),
            r.bytes() == Seq::<u8>::empty(),
    {
        Self::new_in(Alloc::default())
    }
}

impl<Alloc: IAlloc> From<String<Alloc>> for Vec<u8, Alloc> {
    fn from(value: String<Alloc>) -> (r: Self) {
        value.inner
    }
}

impl<Alloc: IAlloc> vstd::std_specs::convert::FromSpecImpl<String<Alloc>> for Vec<u8, Alloc> {
    open spec fn obeys_from_spec() -> bool {
        true
    }

    open spec fn from_spec(s: String<Alloc>) -> Self {
        String::into_bytes(s)
    }
}

impl<Alloc: IAlloc> TryFrom<Vec<u8, Alloc>> for String<Alloc> {
    type Error = core::str::Utf8Error;

    /// Takes over `value` if it holds valid UTF-8.
    fn try_from(value: Vec<u8, Alloc>) -> (r: Result<Self, Self::Error>)
        ensures
            r is Ok <==> valid_utf8(value@),
            r matches Ok(s) ==> s == String::from_bytes(value),
    {
        match str_from_utf8(value.as_slice()) {
            Ok(_) => Ok(String { inner: value }),
            Err(e) => Err(e),
        }
    }
}

impl<Alloc: IAlloc> vstd::std_specs::convert::TryFromSpecImpl<Vec<u8, Alloc>> for String<Alloc> {
    open spec fn obeys_try_from_spec() -> bool {
        false
    }

    open spec fn try_from_spec(v: Vec<u8, Alloc>) -> Result<Self, Self::Error> {
        arbitrary()
    }
}

/// A boxed string.
pub struct BoxedStr<Alloc: IAlloc> {
    /// The UTF-8 encoding of the string.
    inner: BoxedSlice<u8, Alloc>,
}

impl<Alloc: IAlloc> View for BoxedStr<Alloc> {
    type V = Seq<char>;

    closed spec fn view(&self) -> Seq<char> {
        decode_utf8(self.inner@)
    }
}

impl<Alloc: IAlloc> BoxedStr<Alloc> {
    /// The UTF-8 encoding of the string.
    pub closed spec fn bytes(&self) -> Seq<u8> {
        self.inner@
    }

    /// The bytes are valid UTF-8.
    pub closed spec fn wf(&self) -> bool {
        valid_utf8(self.inner@)
    }

    /// The boxed string that takes over the encoding of `s`.
    pub closed spec fn from_string(s: String<Alloc>) -> Self {
        BoxedStr { inner: BoxedSlice::from_vec(String::into_bytes(s)) }
    }

    /// The string that takes over the encoding of `b`.
    pub closed spec fn into_string(b: Self) -> String<Alloc> {
        String::from_bytes(BoxedSlice::into_vec(b.inner))
    }

    /// Boxing a string keeps its encoding, and unboxing it gives the string back.
    pub proof fn lemma_string_round_trip(s: String<Alloc>)
        ensures
            Self::from_string(s).bytes() == s.bytes(),
            Self::from_string(s)@ == s@,
            Self::from_string(s).wf() == valid_utf8(s.bytes()),
            Self::into_string(Self::from_string(s)) == s,
    {
        BoxedSlice::<u8, Alloc>::lemma_vec_round_trip(String::into_bytes(s));
    }

    /// Frees the allocation, if there is one, and gives the allocator back, as
    /// [`String::release`] does for the string it was made from.
    pub fn release(self) -> (r: Alloc)
        requires
            Self::into_string(self).wf(),
        ensures
            String::into_bytes(Self::into_string(self)).has_allocation() ==> r.released(
                String::into_bytes(Self::into_string(self)).spec_prefix(),
            ),
            forall|p: usize, size: nat|
                (!String::into_bytes(Self::into_string(self)).has_allocation() || p != String::into_bytes(
                    Self::into_string(self),
                ).spec_prefix()) && String::into_bytes(Self::into_string(self)).spec_allocator().holds(p, size)
                    ==> #[trigger] r.holds(p, size),
    {
        let s: String<Alloc> = String { inner: Vec::from(self.inner) };
        s.release()
    }

    /// Returns a borrow to the inner string.
    pub fn as_str(&self) -> (r: &str)
        requires
            self.wf(),
        ensures
            r.spec_bytes() == self.bytes(),
            r@ == self@,
    {
        let r = match str_from_utf8(self.inner.as_slice()) {
            Ok(s) => s,
            Err(_) => "",
        };
        proof {
            vstd::utf8::encode_utf8_decode_utf8(r@);
        }
        r
    }
}

impl<Alloc: IAlloc> From<String<Alloc>> for BoxedStr<Alloc> {
    fn from(value: String<Alloc>) -> (r: Self) {
        BoxedStr { inner: BoxedSlice::from(value.inner) }
    }
}

impl<Alloc: IAlloc> vstd::std_specs::convert::FromSpecImpl<String<Alloc>> for BoxedStr<Alloc> {
    open spec fn obeys_from_spec() -> bool {
        true
    }

    open spec fn from_spec(s: String<Alloc>) -> Self {
        BoxedStr::from_string(s)
    }
}

impl<Alloc: IAlloc> From<BoxedStr<Alloc>> for String<Alloc> {
    fn from(value: BoxedStr<Alloc>) -> (r: Self) {
        String { inner: Vec::from(value.inner) }
    }
}

impl<Alloc: IAlloc> vstd::std_specs::convert::FromSpecImpl<BoxedStr<Alloc>> for String<Alloc> {
    open spec fn obeys_from_spec() -> bool {
        true
    }

    open spec fn from_spec(b: BoxedStr<Alloc>) -> Self {
        BoxedStr::into_string(b)
    }
}

} // verus!
