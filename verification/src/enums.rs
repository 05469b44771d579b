//! Determinants: how a sum type of two variants tells, from the bytes of its
//! storage, which variant it holds.
use crate::istable::{Array, End};
use core::marker::PhantomData;
use vstd::prelude::*;

verus! {

/// A way to tell from the bytes of a union whether it holds the `ok` or the
/// `err` variant.
///
/// `ok` and `err` record the variant, writing only the bytes that `writes`
/// allows; `is_det_ok` reads it back.
pub trait IDeterminant: Sized {
    /// The offsets of the union that recording the variant may overwrite.
    spec fn writes(i: int) -> bool;

    /// The determinant reads and writes no byte past the first `len` ones.
    spec fn fits(len: nat) -> bool;

    /// The union holds a valid `ok` value: it leaves the bytes the determinant
    /// relies on free.
    spec fn valid_ok(union: Seq<u8>) -> bool;

    /// The union holds a valid `err` value.
    spec fn valid_err(union: Seq<u8>) -> bool;

    /// Whether the determinant reads the union as holding the `ok` variant.
    spec fn spec_is_ok(&self, union: Seq<u8>) -> bool;

    /// Records that the union holds its `ok` variant.
    fn ok(union: &mut std::vec::Vec<u8>) -> (r: Self)
        requires
            Self::fits(old(union)@.len()),
        ensures
            final(union)@.len() == old(union)@.len(),
            forall|i: int| 0 <= i < old(union)@.len() && !Self::writes(i) ==> final(union)@[i] == old(union)@[i],
            Self::valid_ok(old(union)@) ==> r.spec_is_ok(final(union)@),
    ;

    /// Records that the union holds its `err` variant.
    fn err(union: &mut std::vec::Vec<u8>) -> (r: Self)
        requires
            Self::fits(old(union)@.len()),
        ensures
            final(union)@.len() == old(union)@.len(),
            forall|i: int| 0 <= i < old(union)@.len() && !Self::writes(i) ==> final(union)@[i] == old(union)@[i],
            Self::valid_err(old(union)@) ==> !r.spec_is_ok(final(union)@),
    ;

    /// Returns the variant the union holds: `true` for `ok`.
    fn is_det_ok(&self, union: &[u8]) -> (r: bool)
        requires
            Self::fits(union@.len()),
        ensures
            r == self.spec_is_ok(union@),
    ;
}

/// An explicit tag, for when no niche could be found.
#[derive(Debug, Clone, Copy, PartialEq, Eq, Structural, Hash)]
pub enum BitDeterminant {
    /// The union holds the `ok` variant.
    OkVariant,
    /// The union holds the `err` variant.
    ErrVariant,
}

impl IDeterminant for BitDeterminant {
    open spec fn writes(i: int) -> bool {
        false
    }

    open spec fn fits(len: nat) -> bool {
        true
    }

    open spec fn valid_ok(union: Seq<u8>) -> bool {
        true
    }

    open spec fn valid_err(union: Seq<u8>) -> bool {
        true
    }

    open spec fn spec_is_ok(&self, union: Seq<u8>) -> bool {
        *self == BitDeterminant::OkVariant
    }

    fn ok(union: &mut std::vec::Vec<u8>) -> (r: Self) {
        BitDeterminant::OkVariant
    }

    fn err(union: &mut std::vec::Vec<u8>) -> (r: Self) {
        BitDeterminant::ErrVariant
    }

    fn is_det_ok(&self, union: &[u8]) -> (r: bool) {
        match self {
            BitDeterminant::OkVariant => true,
            BitDeterminant::ErrVariant => false,
        }
    }
}

/// The end of a chain of [`ValueIsErr`]: on its own, it always reads `err`.
impl IDeterminant for End {
    open spec fn writes(i: int) -> bool {
        false
    }

    open spec fn fits(len: nat) -> bool {
        true
    }

    open spec fn valid_ok(union: Seq<u8>) -> bool {
        false
    }

    open spec fn valid_err(union: Seq<u8>) -> bool {
        true
    }

    open spec fn spec_is_ok(&self, union: Seq<u8>) -> bool {
        false
    }

    fn ok(union: &mut std::vec::Vec<u8>) -> (r: Self) {
        End
    }

    fn err(union: &mut std::vec::Vec<u8>) -> (r: Self) {
        End
    }

    fn is_det_ok(&self, union: &[u8]) -> (r: bool) {
        false
    }
}

/// `err` is recorded by writing `VALUE`, a value the `ok` variant never has
/// there, at offset `OFFSET`, and by `Tail`; the union holds `err` if both say so.
pub struct ValueIsErr<const OFFSET: usize, const VALUE: u8, Tail>(pub PhantomData<()>, pub Tail);

impl<const OFFSET: usize, const VALUE: u8, Tail: IDeterminant> IDeterminant for ValueIsErr<
    OFFSET,
    VALUE,
    Tail,
> {
    open spec fn writes(i: int) -> bool {
        i == OFFSET || Tail::writes(i)
    }

    open spec fn fits(len: nat) -> bool {
        OFFSET < len && Tail::fits(len)
    }

    /// An `ok` value is not the forbidden value: it differs from `VALUE` at
    /// `OFFSET` (a byte the tail never writes), or it is an `ok` value for the
    /// rest of the chain, differing from the forbidden value in a later byte.
    open spec fn valid_ok(union: Seq<u8>) -> bool {
        ||| union[OFFSET as int] != VALUE && !Tail::writes(OFFSET as int)
        ||| Tail::valid_ok(union)
    }

    open spec fn valid_err(union: Seq<u8>) -> bool {
        !Tail::writes(OFFSET as int) && Tail::valid_err(union.update(OFFSET as int, VALUE))
    }

    open spec fn spec_is_ok(&self, union: Seq<u8>) -> bool {
        union[OFFSET as int] != VALUE || self.1.spec_is_ok(union)
    }

    /// Only the tail records anything: an `ok` value never holds `VALUE` at `OFFSET`.
    fn ok(union: &mut std::vec::Vec<u8>) -> (r: Self)
        ensures
            Tail::valid_ok(old(union)@) ==> r.1.spec_is_ok(final(union)@),
            forall|i: int| 0 <= i < old(union)@.len() && !Tail::writes(i) ==> final(union)@[i] == old(union)@[i],
    {
        ValueIsErr(PhantomData, Tail::ok(union))
    }

    fn err(union: &mut std::vec::Vec<u8>) -> (r: Self) {
        union.set(OFFSET, VALUE);
        ValueIsErr(PhantomData, Tail::err(union))
    }

    fn is_det_ok(&self, union: &[u8]) -> (r: bool) {
        union[OFFSET] != VALUE || self.1.is_det_ok(union)
    }
}

/// A union read through a [`ValueIsErr`] holds `err` only when its byte at
/// `OFFSET` is `VALUE` and the rest of the chain reads `err` too: a byte that
/// differs at `OFFSET`, or a later byte of the chain that differs, reads `ok`.
pub proof fn lemma_value_is_err_reads<const OFFSET: usize, const VALUE: u8, Tail: IDeterminant>(
    d: ValueIsErr<OFFSET, VALUE, Tail>,
    union: Seq<u8>,
)
    ensures
        union[OFFSET as int] != VALUE ==> d.spec_is_ok(union),
        d.1.spec_is_ok(union) ==> d.spec_is_ok(union),
        !d.spec_is_ok(union) <==> (union[OFFSET as int] == VALUE && !d.1.spec_is_ok(union)),
{
}

/// The niche of a value of two bytes, forbidden `(FIRST, SECOND)` at offsets
/// `AT_FIRST` and `AT_SECOND`: the union reads `err` exactly when both bytes hold
/// the forbidden value, and `ok` when either differs.
pub proof fn lemma_two_byte_niche_reads<
    const AT_FIRST: usize,
    const FIRST: u8,
    const AT_SECOND: usize,
    const SECOND: u8,
>(d: ValueIsErr<AT_FIRST, FIRST, ValueIsErr<AT_SECOND, SECOND, End>>, union: Seq<u8>)
    ensures
        d.spec_is_ok(union) <==> (union[AT_FIRST as int] != FIRST || union[AT_SECOND as int] != SECOND),
{
}

/// Turns a list of forbidden bytes into the [`ValueIsErr`] chain that writes them.
pub trait IntoValueIsErr {
    /// The chain of determinants.
    type ValueIsErr: IDeterminant;
}

impl IntoValueIsErr for End {
    type ValueIsErr = End;
}

impl<const OFFSET: usize, const VALUE: u8, Tail: IntoValueIsErr> IntoValueIsErr for Array<OFFSET, VALUE, Tail> {
    type ValueIsErr = ValueIsErr<OFFSET, VALUE, Tail::ValueIsErr>;
}

/// Clearing the bits of `mask` leaves none of them set.
proof fn lemma_clear_bits(b: u8, mask: u8)
    ensures
        (b & (0xffu8 ^ mask)) & mask == 0,
{
    assert((b & (0xffu8 ^ mask)) & mask == 0) by (bit_vector);
}

/// Setting the bits of a non-zero `mask` leaves one of them set.
proof fn lemma_set_bits(b: u8, mask: u8)
    ensures
        mask != 0 ==> (b | mask) & mask != 0,
{
    assert(mask != 0 ==> (b | mask) & mask != 0) by (bit_vector);
}

/// The union holds `err` if the byte at `OFFSET` has a bit of `MASK` set: a bit
/// the `ok` variant never uses.
pub struct BitIsErr<const OFFSET: usize, const MASK: u8>(PhantomData<()>);

impl<const OFFSET: usize, const MASK: u8> IDeterminant for BitIsErr<OFFSET, MASK> {
    open spec fn writes(i: int) -> bool {
        i == OFFSET
    }

    open spec fn fits(len: nat) -> bool {
        OFFSET < len
    }

    open spec fn valid_ok(union: Seq<u8>) -> bool {
        true
    }

    open spec fn valid_err(union: Seq<u8>) -> bool {
        MASK != 0
    }

    open spec fn spec_is_ok(&self, union: Seq<u8>) -> bool {
        union[OFFSET as int] & MASK == 0
    }

    fn ok(union: &mut std::vec::Vec<u8>) -> (r: Self) {
        let mask: u8 = MASK;
        if mask == 1 {
            union.set(OFFSET, 0);
        }
        let b = union[OFFSET];
        let v = b & (u8::MAX ^ mask);
        proof {
            lemma_clear_bits(b, mask);
        }
        union.set(OFFSET, v);
        BitIsErr(PhantomData)
    }

    fn err(union: &mut std::vec::Vec<u8>) -> (r: Self) {
        let mask: u8 = MASK;
        if mask == 1 {
            union.set(OFFSET, 0);
        }
        let b = union[OFFSET];
        let v = b | mask;
        proof {
            lemma_set_bits(b, mask);
        }
        union.set(OFFSET, v);
        BitIsErr(PhantomData)
    }

    fn is_det_ok(&self, union: &[u8]) -> (r: bool) {
        let mask: u8 = MASK;
        union[OFFSET] & mask == 0
    }
}

/// Reads the opposite of what `Determinant` reads.
#[derive(Debug, Clone, Copy)]
pub struct Not<Determinant>(pub Determinant);

impl<Determinant: IDeterminant> IDeterminant for Not<Determinant> {
    open spec fn writes(i: int) -> bool {
        Determinant::writes(i)
    }

    open spec fn fits(len: nat) -> bool {
        Determinant::fits(len)
    }

    open spec fn valid_ok(union: Seq<u8>) -> bool {
        Determinant::valid_err(union)
    }

    open spec fn valid_err(union: Seq<u8>) -> bool {
        Determinant::valid_ok(union)
    }

    open spec fn spec_is_ok(&self, union: Seq<u8>) -> bool {
        !self.0.spec_is_ok(union)
    }

    fn ok(union: &mut std::vec::Vec<u8>) -> (r: Self) {
        Not(Determinant::err(union))
    }

    fn err(union: &mut std::vec::Vec<u8>) -> (r: Self) {
        Not(Determinant::ok(union))
    }

    fn is_det_ok(&self, union: &[u8]) -> (r: bool) {
        !self.0.is_det_ok(union)
    }
}

} // verus!
