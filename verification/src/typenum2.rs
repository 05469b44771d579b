//! Bits and unsigned integers as types, with their values.
use vstd::arithmetic::power2::pow2;
use vstd::prelude::*;

verus! {

/// The bit 0.
#[derive(Debug, Default, Clone, Copy, PartialEq, Eq, Structural, PartialOrd, Ord, Hash)]
pub struct B0;

/// The bit 1.
#[derive(Debug, Default, Clone, Copy, PartialEq, Eq, Structural, PartialOrd, Ord, Hash)]
pub struct B1;

/// The bit `B`.
#[derive(Debug, Default, Clone, Copy)]
pub struct Bool<const B: bool>;

/// A bit as a type.
pub trait IBitBase {
    /// The bit's value.
    spec fn spec_bool() -> bool;

    /// The bit's value.
    fn bool_value() -> (r: bool)
        ensures
            r == Self::spec_bool(),
    ;
}

impl IBitBase for B0 {
    open spec fn spec_bool() -> bool {
        false
    }

    fn bool_value() -> (r: bool) {
        false
    }
}

impl IBitBase for B1 {
    open spec fn spec_bool() -> bool {
        true
    }

    fn bool_value() -> (r: bool) {
        true
    }
}

impl<const B: bool> IBitBase for Bool<B> {
    open spec fn spec_bool() -> bool {
        B
    }

    fn bool_value() -> (r: bool) {
        B
    }
}

/// A bit as a type, with its value as a number.
pub trait IBit: IBitBase {
    /// The bit as 0 or 1.
    fn as_u8() -> (r: u8)
        ensures
            r == (if Self::spec_bool() { 1u8 } else { 0u8 }),
    ;
}

impl<B: IBitBase> IBit for B {
    fn as_u8() -> (r: u8) {
        if B::bool_value() {
            1
        } else {
            0
        }
    }
}

/// The number 0, ending the bits of every [`UInt`].
#[derive(Debug, Default, Clone, Copy)]
pub struct UTerm;

/// The number whose bits are those of `Msbs` followed by `Bit`.
#[derive(Debug, Default, Clone, Copy)]
pub struct UInt<Msbs, Bit>(pub Msbs, pub Bit);

/// The value of a bit: 0 or 1.
pub open spec fn bit_value(b: bool) -> nat {
    if b {
        1
    } else {
        0
    }
}

/// An unsigned integer as a type.
pub trait IUnsignedBase {
    /// The value of the number.
    spec fn spec_value() -> nat;

    /// The value of the number, which must fit in a `u128`.
    fn u128_value() -> (r: u128)
        requires
            Self::spec_value() <= u128::MAX,
        ensures
            r == Self::spec_value(),
    ;
}

impl IUnsignedBase for UTerm {
    open spec fn spec_value() -> nat {
        0
    }

    fn u128_value() -> (r: u128) {
        0
    }
}

impl<Msbs: IUnsignedBase, Bit: IBitBase> IUnsignedBase for UInt<Msbs, Bit> {
    /// Twice the number of the leading bits, plus the last bit.
    open spec fn spec_value() -> nat {
        2 * Msbs::spec_value() + bit_value(Bit::spec_bool())
    }

    fn u128_value() -> (r: u128) {
        let msbs = Msbs::u128_value();
        if Bit::bool_value() {
            2 * msbs + 1
        } else {
            2 * msbs
        }
    }
}

/// An unsigned integer as a type, with its value in the usual integer types.
pub trait IUnsigned: IUnsignedBase {
    /// The value as a `usize`, which it must fit in.
    fn usize_value() -> (r: usize)
        requires
            Self::spec_value() <= usize::MAX,
        ensures
            r == Self::spec_value(),
    ;

    /// The value as a `u8`, which it must fit in.
    fn u8_value() -> (r: u8)
        requires
            Self::spec_value() <= u8::MAX,
        ensures
            r == Self::spec_value(),
    ;
}

impl<U: IUnsignedBase> IUnsigned for U {
    fn usize_value() -> (r: usize) {
        U::u128_value() as usize
    }

    fn u8_value() -> (r: u8) {
        U::u128_value() as u8
    }
}

/// A number that is not 0.
pub trait NonZero: IUnsigned {
    /// The number is not 0.
    proof fn lemma_non_zero()
        ensures
            Self::spec_value() > 0,
    ;
}

impl<Msbs: IUnsignedBase> NonZero for UInt<Msbs, B1> {
    proof fn lemma_non_zero() {
    }
}

impl<Msbs: NonZero> NonZero for UInt<Msbs, B0> {
    proof fn lemma_non_zero() {
        Msbs::lemma_non_zero();
    }
}

/// A power of 2.
pub trait IPowerOf2: IUnsigned {
    /// The exponent.
    spec fn spec_log2() -> nat;

    /// The number is 2 to the power of its exponent.
    proof fn lemma_power_of_2()
        ensures
            Self::spec_value() == pow2(Self::spec_log2()),
    ;
}

impl IPowerOf2 for UInt<UTerm, B1> {
    open spec fn spec_log2() -> nat {
        0
    }

    proof fn lemma_power_of_2() {
        vstd::arithmetic::power2::lemma2_to64();
    }
}

impl<P: IPowerOf2> IPowerOf2 for UInt<P, B0> {
    open spec fn spec_log2() -> nat {
        P::spec_log2() + 1
    }

    proof fn lemma_power_of_2() {
        P::lemma_power_of_2();
        vstd::arithmetic::power2::lemma_pow2_unfold(P::spec_log2() + 1);
    }
}

/// A valid alignment: a power of 2.
pub trait Alignment: IPowerOf2 {

}

impl<P: IPowerOf2> Alignment for P {

}

/// A byte of padding.
#[derive(Debug, Default, Clone, Copy)]
pub struct PadByte(pub u8);

} // verus!
