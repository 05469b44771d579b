//! Descriptions of layouts: sizes, alignments, the byte values a type never
//! takes, and how many niches it has.
use crate::allocation::{lemma_next_multiple, next_multiple};
use crate::num::NonMaxU8;
use crate::typenum2::{IBitBase, PadByte, B0, B1};
use core::marker::PhantomData;
use vstd::prelude::*;

verus! {

/// The terminator for lists of bytes.
#[derive(Default, Debug, Clone, Copy)]
pub struct End;

/// A list of bytes: `VALUE` at offset `OFFSET`, followed by `Rest`.
pub struct Array<const OFFSET: usize, const VALUE: u8, Rest>(PhantomData<Rest>);

/// Tells whether a list of bytes is empty.
pub trait IsEnd {
    /// [`B1`] for the empty list, [`B0`] otherwise.
    type Output: IBitBase;
}

impl IsEnd for End {
    type Output = B1;
}

impl<const OFFSET: usize, const VALUE: u8, Rest> IsEnd for Array<OFFSET, VALUE, Rest> {
    type Output = B0;
}

/// The values forbidden by `A` or by `B`.
pub struct Or<A, B>(PhantomData<(A, B)>);

/// The values `MIN` to `MAX` of the byte at `OFFSET`.
pub struct ForbiddenRange<const MIN: u8, const MAX: u8, const OFFSET: usize>;

/// The larger of two naturals.
pub open spec fn max_nat(a: nat, b: nat) -> nat {
    if a < b {
        b
    } else {
        a
    }
}

/// A set of values, described by their bytes, that a type never takes.
pub trait IForbiddenValues {
    /// How many bytes from the start of a value the test reads.
    spec fn spec_extent() -> nat;

    /// Whether `bytes` hold one of the forbidden values.
    spec fn spec_is_invalid(bytes: Seq<u8>) -> bool;

    /// Returns `true` if `bytes` hold one of the forbidden values.
    fn is_invalid(bytes: &[u8]) -> (r: bool)
        requires
            Self::spec_extent() <= bytes@.len(),
        ensures
            r == Self::spec_is_invalid(bytes@),
    ;
}

impl IForbiddenValues for End {
    open spec fn spec_extent() -> nat {
        0
    }

    open spec fn spec_is_invalid(bytes: Seq<u8>) -> bool {
        false
    }

    fn is_invalid(bytes: &[u8]) -> (r: bool) {
        false
    }
}

impl<const OFFSET: usize, const VALUE: u8, Rest: IForbiddenValues> IForbiddenValues for Array<
    OFFSET,
    VALUE,
    Rest,
> {
    open spec fn spec_extent() -> nat {
        max_nat(OFFSET as nat + 1, Rest::spec_extent())
    }

    /// The value is forbidden if the byte at `OFFSET` is `VALUE`, and `Rest` matches too.
    open spec fn spec_is_invalid(bytes: Seq<u8>) -> bool {
        bytes[OFFSET as int] == VALUE && Rest::spec_is_invalid(bytes)
    }

    fn is_invalid(bytes: &[u8]) -> (r: bool) {
        bytes[OFFSET] == VALUE && Rest::is_invalid(bytes)
    }
}

impl<A: IForbiddenValues, B: IForbiddenValues> IForbiddenValues for Or<A, B> {
    open spec fn spec_extent() -> nat {
        max_nat(A::spec_extent(), B::spec_extent())
    }

    open spec fn spec_is_invalid(bytes: Seq<u8>) -> bool {
        A::spec_is_invalid(bytes) || B::spec_is_invalid(bytes)
    }

    fn is_invalid(bytes: &[u8]) -> (r: bool) {
        A::is_invalid(bytes) || B::is_invalid(bytes)
    }
}

impl<const MIN: u8, const MAX: u8, const OFFSET: usize> IForbiddenValues for ForbiddenRange<MIN, MAX, OFFSET> {
    open spec fn spec_extent() -> nat {
        OFFSET as nat + 1
    }

    open spec fn spec_is_invalid(bytes: Seq<u8>) -> bool {
        MIN <= bytes[OFFSET as int] <= MAX
    }

    fn is_invalid(bytes: &[u8]) -> (r: bool) {
        let v = bytes[OFFSET];
        MIN <= v && v <= MAX
    }
}

/// How many niches a type has: none, exactly one, or more.
#[derive(Debug, Clone, Copy, PartialEq, Eq, Structural, Hash)]
pub enum SaturatingAddValue {
    /// No niche.
    B0,
    /// Exactly one niche.
    B1,
    /// More than one niche.
    Saturator,
}

impl SaturatingAddValue {
    /// The count, saturated at 2.
    pub open spec fn count(self) -> nat {
        match self {
            SaturatingAddValue::B0 => 0,
            SaturatingAddValue::B1 => 1,
            SaturatingAddValue::Saturator => 2,
        }
    }

    /// The count of niches of a type made of two parts with these counts.
    pub fn saturating_add(self, other: Self) -> (r: Self)
        ensures
            r == sat_add(self, other),
            r.count() == if self.count() + other.count() < 2 { self.count() + other.count() } else { 2 },
    {
        match (self, other) {
            (SaturatingAddValue::B0, o) => o,
            (s, SaturatingAddValue::B0) => s,
            _ => SaturatingAddValue::Saturator,
        }
    }
}

/// The count of niches of a type made of two parts with the counts `a` and `b`.
pub open spec fn sat_add(a: SaturatingAddValue, b: SaturatingAddValue) -> SaturatingAddValue {
    match (a, b) {
        (SaturatingAddValue::B0, o) => o,
        (s, SaturatingAddValue::B0) => s,
        _ => SaturatingAddValue::Saturator,
    }
}

/// Adding niche counts does not depend on the order or the grouping of the
/// parts, and a part without niches adds none.
pub proof fn lemma_saturating_add_laws(a: SaturatingAddValue, b: SaturatingAddValue, c: SaturatingAddValue)
    ensures
        sat_add(a, b) == sat_add(b, a),
        sat_add(sat_add(a, b), c) == sat_add(a, sat_add(b, c)),
        sat_add(SaturatingAddValue::B0, a) == a,
{
}

/// More than one niche.
#[derive(Debug, Default, Clone, Copy)]
pub struct Saturator;

/// A count of niches as a type.
pub trait ISaturatingAdd {
    /// The count.
    fn value() -> (r: SaturatingAddValue);
}

impl ISaturatingAdd for B0 {
    fn value() -> (r: SaturatingAddValue)
        ensures
            r == SaturatingAddValue::B0,
    {
        SaturatingAddValue::B0
    }
}

impl ISaturatingAdd for B1 {
    fn value() -> (r: SaturatingAddValue)
        ensures
            r == SaturatingAddValue::B1,
    {
        SaturatingAddValue::B1
    }
}

impl ISaturatingAdd for Saturator {
    fn value() -> (r: SaturatingAddValue)
        ensures
            r == SaturatingAddValue::Saturator,
    {
        SaturatingAddValue::Saturator
    }
}

/// The layout of a type: its size, its alignment, and the values it never takes.
pub trait IStable: Sized {
    /// The values the type never takes.
    type ForbiddenValues: IForbiddenValues;

    /// The number of bytes the type's fields span.
    spec fn spec_unpadded_size() -> nat;

    /// The alignment of the type.
    spec fn spec_align() -> nat;

    /// The number of bytes the type's fields span.
    fn unpadded_size() -> (r: usize)
        ensures
            r == Self::spec_unpadded_size(),
    ;

    /// Returns the alignment of the type.
    fn align() -> (r: usize)
        ensures
            r == Self::spec_align(),
            r > 0,
    ;

    /// Returns the size of the type: its fields, padded to its alignment.
    fn size() -> (r: usize)
        requires
            next_multiple(Self::spec_unpadded_size() as int, Self::spec_align() as int) <= usize::MAX,
        ensures
            r == next_multiple(Self::spec_unpadded_size() as int, Self::spec_align() as int),
    {
        let size = Self::unpadded_size();
        let align = Self::align();
        proof {
            lemma_next_multiple(size as int, align as int);
            vstd::arithmetic::div_mod::lemma_mod_self_0(align as int);
            if size % align != 0 {
                vstd::arithmetic::div_mod::lemma_small_mod((align - size % align) as nat, align as nat);
            }
        }
        size + ((align - (size % align)) % align)
    }

    /// Returns `true` if `bytes` hold a value that the type never takes.
    ///
    /// `false` is no guarantee that the value is valid.
    fn is_invalid(bytes: &[u8]) -> (r: bool)
        requires
            <Self::ForbiddenValues as IForbiddenValues>::spec_extent() <= bytes@.len(),
        ensures
            r == <Self::ForbiddenValues as IForbiddenValues>::spec_is_invalid(bytes@),
    {
        <Self::ForbiddenValues as IForbiddenValues>::is_invalid(bytes)
    }
}

impl IStable for u8 {
    type ForbiddenValues = End;

    open spec fn spec_unpadded_size() -> nat {
        1
    }

    open spec fn spec_align() -> nat {
        1
    }

    fn unpadded_size() -> (r: usize) {
        1
    }

    fn align() -> (r: usize) {
        1
    }
}

impl IStable for u16 {
    type ForbiddenValues = End;

    open spec fn spec_unpadded_size() -> nat {
        2
    }

    open spec fn spec_align() -> nat {
        2
    }

    fn unpadded_size() -> (r: usize) {
        2
    }

    fn align() -> (r: usize) {
        2
    }
}

impl IStable for u32 {
    type ForbiddenValues = End;

    open spec fn spec_unpadded_size() -> nat {
        4
    }

    open spec fn spec_align() -> nat {
        4
    }

    fn unpadded_size() -> (r: usize) {
        4
    }

    fn align() -> (r: usize) {
        4
    }
}

impl IStable for u64 {
    type ForbiddenValues = End;

    open spec fn spec_unpadded_size() -> nat {
        8
    }

    open spec fn spec_align() -> nat {
        8
    }

    fn unpadded_size() -> (r: usize) {
        8
    }

    fn align() -> (r: usize) {
        8
    }
}

impl IStable for bool {
    /// A `bool` is never a byte from 2 to 255.
    type ForbiddenValues = ForbiddenRange<2, 255, 0>;

    open spec fn spec_unpadded_size() -> nat {
        1
    }

    open spec fn spec_align() -> nat {
        1
    }

    fn unpadded_size() -> (r: usize) {
        1
    }

    fn align() -> (r: usize) {
        1
    }
}

impl IStable for () {
    type ForbiddenValues = End;

    open spec fn spec_unpadded_size() -> nat {
        0
    }

    open spec fn spec_align() -> nat {
        1
    }

    fn unpadded_size() -> (r: usize) {
        0
    }

    fn align() -> (r: usize) {
        1
    }
}

impl IStable for NonMaxU8 {
    /// A `NonMaxU8` is never the byte 255.
    type ForbiddenValues = Array<0, 255, End>;

    open spec fn spec_unpadded_size() -> nat {
        1
    }

    open spec fn spec_align() -> nat {
        1
    }

    fn unpadded_size() -> (r: usize) {
        1
    }

    fn align() -> (r: usize) {
        1
    }
}

/// Strips `T` of its status as plain old data.
#[derive(Debug, Clone, Copy, Default, PartialEq, Eq, PartialOrd, Ord, Hash)]
pub struct NotPod<T>(pub T);

impl<T> NotPod<T> {
    /// A reference to the wrapped value.
    pub fn as_ref(&self) -> (r: &T)
        ensures
            *r == self.0,
    {
        &self.0
    }
}

/// Re-exports the niches of an internally tagged union.
pub struct NicheExporter<ForbiddenValues, UnusedBits, HasExactlyOneNiche>(
    PhantomData<(ForbiddenValues, UnusedBits, HasExactlyOneNiche)>,
);

impl<ForbiddenValues, UnusedBits, HasExactlyOneNiche> NicheExporter<
    ForbiddenValues,
    UnusedBits,
    HasExactlyOneNiche,
> {
    /// The exporter.
    pub fn new() -> (r: Self) {
        NicheExporter(PhantomData)
    }
}

impl<ForbiddenValues: IForbiddenValues, UnusedBits, HasExactlyOneNiche> IStable for NicheExporter<
    ForbiddenValues,
    UnusedBits,
    HasExactlyOneNiche,
> {
    type ForbiddenValues = ForbiddenValues;

    open spec fn spec_unpadded_size() -> nat {
        0
    }

    open spec fn spec_align() -> nat {
        1
    }

    fn unpadded_size() -> (r: usize) {
        0
    }

    fn align() -> (r: usize) {
        1
    }
}

impl IStable for PadByte {
    /// Padding may hold any byte.
    type ForbiddenValues = End;

    open spec fn spec_unpadded_size() -> nat {
        1
    }

    open spec fn spec_align() -> nat {
        1
    }

    fn unpadded_size() -> (r: usize) {
        1
    }

    fn align() -> (r: usize) {
        1
    }
}

} // verus!
