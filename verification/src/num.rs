//! Integers with a forbidden value, and integers narrower than their storage.
use vstd::prelude::*;

verus! {

/// A `u8` whose bit pattern is guaranteed not to be only 1s.
#[derive(Clone, Copy, PartialEq, Eq, Structural, PartialOrd, Ord, Hash, Debug)]
pub struct NonMaxU8 {
    value: u8,
}

impl View for NonMaxU8 {
    type V = u8;

    closed spec fn view(&self) -> u8 {
        self.value
    }
}

impl NonMaxU8 {
    #[verifier::type_invariant]
    closed spec fn inv(self) -> bool {
        self.value != u8::MAX
    }

    /// Constructs `Self`, returning `None` if `n == MAX`.
    pub fn new(n: u8) -> (r: Option<Self>)
        ensures
            r is Some <==> n != u8::MAX,
            r matches Some(v) ==> v@ == n,
    {
        if n == u8::MAX {
            None
        } else {
            Some(NonMaxU8 { value: n })
        }
    }

    /// Constructs `Self` from a value that is known not to be `MAX`.
    pub fn new_unchecked(n: u8) -> (r: Self)
        requires
            n != u8::MAX,
        ensures
            r@ == n,
    {
        NonMaxU8 { value: n }
    }

    /// Returns the inner value.
    pub fn get(self) -> (r: u8)
        ensures
            r == self@,
            r != u8::MAX,
    {
        proof {
            use_type_invariant(&self);
        }
        self.value
    }
}

impl From<NonMaxU8> for u8 {
    fn from(value: NonMaxU8) -> (r: u8) {
        value.get()
    }
}

impl vstd::std_specs::convert::FromSpecImpl<NonMaxU8> for u8 {
    open spec fn obeys_from_spec() -> bool {
        true
    }

    open spec fn from_spec(v: NonMaxU8) -> u8 {
        v@
    }
}

/// A `u16` whose bit pattern is guaranteed not to be only 1s.
#[derive(Clone, Copy, PartialEq, Eq, Structural, PartialOrd, Ord, Hash, Debug)]
pub struct NonMaxU16 {
    value: u16,
}

impl View for NonMaxU16 {
    type V = u16;

    closed spec fn view(&self) -> u16 {
        self.value
    }
}

impl NonMaxU16 {
    #[verifier::type_invariant]
    closed spec fn inv(self) -> bool {
        self.value != u16::MAX
    }

    /// Constructs `Self`, returning `None` if `n == MAX`.
    pub fn new(n: u16) -> (r: Option<Self>)
        ensures
            r is Some <==> n != u16::MAX,
            r matches Some(v) ==> v@ == n,
    {
        if n == u16::MAX {
            None
        } else {
            Some(NonMaxU16 { value: n })
        }
    }

    /// Constructs `Self` from a value that is known not to be `MAX`.
    pub fn new_unchecked(n: u16) -> (r: Self)
        requires
            n != u16::MAX,
        ensures
            r@ == n,
    {
        NonMaxU16 { value: n }
    }

    /// Returns the inner value.
    pub fn get(self) -> (r: u16)
        ensures
            r == self@,
            r != u16::MAX,
    {
        proof {
            use_type_invariant(&self);
        }
        self.value
    }
}

impl From<NonMaxU16> for u16 {
    fn from(value: NonMaxU16) -> (r: u16) {
        value.get()
    }
}

impl vstd::std_specs::convert::FromSpecImpl<NonMaxU16> for u16 {
    open spec fn obeys_from_spec() -> bool {
        true
    }

    open spec fn from_spec(v: NonMaxU16) -> u16 {
        v@
    }
}

/// A `u32` whose bit pattern is guaranteed not to be only 1s.
#[derive(Clone, Copy, PartialEq, Eq, Structural, PartialOrd, Ord, Hash, Debug)]
pub struct NonMaxU32 {
    value: u32,
}

impl View for NonMaxU32 {
    type V = u32;

    closed spec fn view(&self) -> u32 {
        self.value
    }
}

impl NonMaxU32 {
    #[verifier::type_invariant]
    closed spec fn inv(self) -> bool {
        self.value != u32::MAX
    }

    /// Constructs `Self`, returning `None` if `n == MAX`.
    pub fn new(n: u32) -> (r: Option<Self>)
        ensures
            r is Some <==> n != u32::MAX,
            r matches Some(v) ==> v@ == n,
    {
        if n == u32::MAX {
            None
        } else {
            Some(NonMaxU32 { value: n })
        }
    }

    /// Constructs `Self` from a value that is known not to be `MAX`.
    pub fn new_unchecked(n: u32) -> (r: Self)
        requires
            n != u32::MAX,
        ensures
            r@ == n,
    {
        NonMaxU32 { value: n }
    }

    /// Returns the inner value.
    pub fn get(self) -> (r: u32)
        ensures
            r == self@,
            r != u32::MAX,
    {
        proof {
            use_type_invariant(&self);
        }
        self.value
    }
}

impl From<NonMaxU32> for u32 {
    fn from(value: NonMaxU32) -> (r: u32) {
        value.get()
    }
}

impl vstd::std_specs::convert::FromSpecImpl<NonMaxU32> for u32 {
    open spec fn obeys_from_spec() -> bool {
        true
    }

    open spec fn from_spec(v: NonMaxU32) -> u32 {
        v@
    }
}

/// A `u64` whose bit pattern is guaranteed not to be only 1s.
#[derive(Clone, Copy, PartialEq, Eq, Structural, PartialOrd, Ord, Hash, Debug)]
pub struct NonMaxU64 {
    value: u64,
}

impl View for NonMaxU64 {
    type V = u64;

    closed spec fn view(&self) -> u64 {
        self.value
    }
}

impl NonMaxU64 {
    #[verifier::type_invariant]
    closed spec fn inv(self) -> bool {
        self.value != u64::MAX
    }

    /// Constructs `Self`, returning `None` if `n == MAX`.
    pub fn new(n: u64) -> (r: Option<Self>)
        ensures
            r is Some <==> n != u64::MAX,
            r matches Some(v) ==> v@ == n,
    {
        if n == u64::MAX {
            None
        } else {
            Some(NonMaxU64 { value: n })
        }
    }

    /// Constructs `Self` from a value that is known not to be `MAX`.
    pub fn new_unchecked(n: u64) -> (r: Self)
        requires
            n != u64::MAX,
        ensures
            r@ == n,
    {
        NonMaxU64 { value: n }
    }

    /// Returns the inner value.
    pub fn get(self) -> (r: u64)
        ensures
            r == self@,
            r != u64::MAX,
    {
        proof {
            use_type_invariant(&self);
        }
        self.value
    }
}

impl From<NonMaxU64> for u64 {
    fn from(value: NonMaxU64) -> (r: u64) {
        value.get()
    }
}

impl vstd::std_specs::convert::FromSpecImpl<NonMaxU64> for u64 {
    open spec fn obeys_from_spec() -> bool {
        true
    }

    open spec fn from_spec(v: NonMaxU64) -> u64 {
        v@
    }
}

/// A `u128` whose bit pattern is guaranteed not to be only 1s.
#[derive(Clone, Copy, PartialEq, Eq, Structural, PartialOrd, Ord, Hash, Debug)]
pub struct NonMaxU128 {
    value: u128,
}

impl View for NonMaxU128 {
    type V = u128;

    closed spec fn view(&self) -> u128 {
        self.value
    }
}

impl NonMaxU128 {
    #[verifier::type_invariant]
    closed spec fn inv(self) -> bool {
        self.value != u128::MAX
    }

    /// Constructs `Self`, returning `None` if `n == MAX`.
    pub fn new(n: u128) -> (r: Option<Self>)
        ensures
            r is Some <==> n != u128::MAX,
            r matches Some(v) ==> v@ == n,
    {
        if n == u128::MAX {
            None
        } else {
            Some(NonMaxU128 { value: n })
        }
    }

    /// Constructs `Self` from a value that is known not to be `MAX`.
    pub fn new_unchecked(n: u128) -> (r: Self)
        requires
            n != u128::MAX,
        ensures
            r@ == n,
    {
        NonMaxU128 { value: n }
    }

    /// Returns the inner value.
    pub fn get(self) -> (r: u128)
        ensures
            r == self@,
            r != u128::MAX,
    {
        proof {
            use_type_invariant(&self);
        }
        self.value
    }
}

impl From<NonMaxU128> for u128 {
    fn from(value: NonMaxU128) -> (r: u128) {
        value.get()
    }
}

impl vstd::std_specs::convert::FromSpecImpl<NonMaxU128> for u128 {
    open spec fn obeys_from_spec() -> bool {
        true
    }

    open spec fn from_spec(v: NonMaxU128) -> u128 {
        v@
    }
}

/// A `usize` whose bit pattern is guaranteed not to be only 1s.
#[derive(Clone, Copy, PartialEq, Eq, Structural, PartialOrd, Ord, Hash, Debug)]
pub struct NonMaxUsize {
    value: usize,
}

impl View for NonMaxUsize {
    type V = usize;

    closed spec fn view(&self) -> usize {
        self.value
    }
}

impl NonMaxUsize {
    #[verifier::type_invariant]
    closed spec fn inv(self) -> bool {
        self.value != usize::MAX
    }

    /// Constructs `Self`, returning `None` if `n == MAX`.
    pub fn new(n: usize) -> (r: Option<Self>)
        ensures
            r is Some <==> n != usize::MAX,
            r matches Some(v) ==> v@ == n,
    {
        if n == usize::MAX {
            None
        } else {
            Some(NonMaxUsize { value: n })
        }
    }

    /// Constructs `Self` from a value that is known not to be `MAX`.
    pub fn new_unchecked(n: usize) -> (r: Self)
        requires
            n != usize::MAX,
        ensures
            r@ == n,
    {
        NonMaxUsize { value: n }
    }

    /// Returns the inner value.
    pub fn get(self) -> (r: usize)
        ensures
            r == self@,
            r != usize::MAX,
    {
        proof {
            use_type_invariant(&self);
        }
        self.value
    }
}

impl From<NonMaxUsize> for usize {
    fn from(value: NonMaxUsize) -> (r: usize) {
        value.get()
    }
}

impl vstd::std_specs::convert::FromSpecImpl<NonMaxUsize> for usize {
    open spec fn obeys_from_spec() -> bool {
        true
    }

    open spec fn from_spec(v: NonMaxUsize) -> usize {
        v@
    }
}

/// A `u8` whose value is guaranteed not to be the one given by `FORBIDDEN`
/// (the forbidden value).
#[derive(Clone, Copy, Debug)]
pub struct NonXU8<const FORBIDDEN: u8> {
    value: u8,
}

impl<const FORBIDDEN: u8> View for NonXU8<FORBIDDEN> {
    type V = u8;

    closed spec fn view(&self) -> u8 {
        self.value
    }
}

impl<const FORBIDDEN: u8> NonXU8<FORBIDDEN> {
    /// The value that no instance holds.
    pub open spec fn forbidden() -> u8 {
        FORBIDDEN
    }

    #[verifier::type_invariant]
    closed spec fn inv(self) -> bool {
        self.value != Self::forbidden()
    }

    /// Constructs `Self`, returning `None` if `n` is the forbidden value.
    pub fn new(n: u8) -> (r: Option<Self>)
        ensures
            r is Some <==> n != Self::forbidden(),
            r matches Some(v) ==> v@ == n,
    {
        let forbidden: u8 = FORBIDDEN;
        if n == forbidden {
            None
        } else {
            Some(NonXU8 { value: n })
        }
    }

    /// Constructs `Self` from a value known not to be the forbidden one.
    pub fn new_unchecked(n: u8) -> (r: Self)
        requires
            n != Self::forbidden(),
        ensures
            r@ == n,
    {
        NonXU8 { value: n }
    }

    /// Returns the inner value.
    pub fn get(self) -> (r: u8)
        ensures
            r == self@,
            r != Self::forbidden(),
    {
        proof {
            use_type_invariant(&self);
        }
        self.value
    }
}


/// A `u16` whose value is guaranteed not to be the one given by `FORBIDDEN`
/// (the forbidden value).
#[derive(Clone, Copy, Debug)]
pub struct NonXU16<const FORBIDDEN: u16> {
    value: u16,
}

impl<const FORBIDDEN: u16> View for NonXU16<FORBIDDEN> {
    type V = u16;

    closed spec fn view(&self) -> u16 {
        self.value
    }
}

impl<const FORBIDDEN: u16> NonXU16<FORBIDDEN> {
    /// The value that no instance holds.
    pub open spec fn forbidden() -> u16 {
        FORBIDDEN
    }

    #[verifier::type_invariant]
    closed spec fn inv(self) -> bool {
        self.value != Self::forbidden()
    }

    /// Constructs `Self`, returning `None` if `n` is the forbidden value.
    pub fn new(n: u16) -> (r: Option<Self>)
        ensures
            r is Some <==> n != Self::forbidden(),
            r matches Some(v) ==> v@ == n,
    {
        let forbidden: u16 = FORBIDDEN;
        if n == forbidden {
            None
        } else {
            Some(NonXU16 { value: n })
        }
    }

    /// Constructs `Self` from a value known not to be the forbidden one.
    pub fn new_unchecked(n: u16) -> (r: Self)
        requires
            n != Self::forbidden(),
        ensures
            r@ == n,
    {
        NonXU16 { value: n }
    }

    /// Returns the inner value.
    pub fn get(self) -> (r: u16)
        ensures
            r == self@,
            r != Self::forbidden(),
    {
        proof {
            use_type_invariant(&self);
        }
        self.value
    }
}


/// A `u32` whose value is guaranteed not to be the one given by `FORBIDDEN`
/// (the forbidden value).
#[derive(Clone, Copy, Debug)]
pub struct NonXU32<const FORBIDDEN: u32> {
    value: u32,
}

impl<const FORBIDDEN: u32> View for NonXU32<FORBIDDEN> {
    type V = u32;

    closed spec fn view(&self) -> u32 {
        self.value
    }
}

impl<const FORBIDDEN: u32> NonXU32<FORBIDDEN> {
    /// The value that no instance holds.
    pub open spec fn forbidden() -> u32 {
        FORBIDDEN
    }

    #[verifier::type_invariant]
    closed spec fn inv(self) -> bool {
        self.value != Self::forbidden()
    }

    /// Constructs `Self`, returning `None` if `n` is the forbidden value.
    pub fn new(n: u32) -> (r: Option<Self>)
        ensures
            r is Some <==> n != Self::forbidden(),
            r matches Some(v) ==> v@ == n,
    {
        let forbidden: u32 = FORBIDDEN;
        if n == forbidden {
            None
        } else {
            Some(NonXU32 { value: n })
        }
    }

    /// Constructs `Self` from a value known not to be the forbidden one.
    pub fn new_unchecked(n: u32) -> (r: Self)
        requires
            n != Self::forbidden(),
        ensures
            r@ == n,
    {
        NonXU32 { value: n }
    }

    /// Returns the inner value.
    pub fn get(self) -> (r: u32)
        ensures
            r == self@,
            r != Self::forbidden(),
    {
        proof {
            use_type_invariant(&self);
        }
        self.value
    }
}


/// A `u64` whose value is guaranteed not to be the one given by `FORBIDDEN`
/// (the forbidden value).
#[derive(Clone, Copy, Debug)]
pub struct NonXU64<const FORBIDDEN: u64> {
    value: u64,
}

impl<const FORBIDDEN: u64> View for NonXU64<FORBIDDEN> {
    type V = u64;

    closed spec fn view(&self) -> u64 {
        self.value
    }
}

impl<const FORBIDDEN: u64> NonXU64<FORBIDDEN> {
    /// The value that no instance holds.
    pub open spec fn forbidden() -> u64 {
        FORBIDDEN
    }

    #[verifier::type_invariant]
    closed spec fn inv(self) -> bool {
        self.value != Self::forbidden()
    }

    /// Constructs `Self`, returning `None` if `n` is the forbidden value.
    pub fn new(n: u64) -> (r: Option<Self>)
        ensures
            r is Some <==> n != Self::forbidden(),
            r matches Some(v) ==> v@ == n,
    {
        let forbidden: u64 = FORBIDDEN;
        if n == forbidden {
            None
        } else {
            Some(NonXU64 { value: n })
        }
    }

    /// Constructs `Self` from a value known not to be the forbidden one.
    pub fn new_unchecked(n: u64) -> (r: Self)
        requires
            n != Self::forbidden(),
        ensures
            r@ == n,
    {
        NonXU64 { value: n }
    }

    /// Returns the inner value.
    pub fn get(self) -> (r: u64)
        ensures
            r == self@,
            r != Self::forbidden(),
    {
        proof {
            use_type_invariant(&self);
        }
        self.value
    }
}


/// A `u128` whose value is guaranteed not to be the one given by `FORBIDDEN`
/// (the forbidden value).
#[derive(Clone, Copy, Debug)]
pub struct NonXU128<const FORBIDDEN: u128> {
    value: u128,
}

impl<const FORBIDDEN: u128> View for NonXU128<FORBIDDEN> {
    type V = u128;

    closed spec fn view(&self) -> u128 {
        self.value
    }
}

impl<const FORBIDDEN: u128> NonXU128<FORBIDDEN> {
    /// The value that no instance holds.
    pub open spec fn forbidden() -> u128 {
        FORBIDDEN
    }

    #[verifier::type_invariant]
    closed spec fn inv(self) -> bool {
        self.value != Self::forbidden()
    }

    /// Constructs `Self`, returning `None` if `n` is the forbidden value.
    pub fn new(n: u128) -> (r: Option<Self>)
        ensures
            r is Some <==> n != Self::forbidden(),
            r matches Some(v) ==> v@ == n,
    {
        let forbidden: u128 = FORBIDDEN;
        if n == forbidden {
            None
        } else {
            Some(NonXU128 { value: n })
        }
    }

    /// Constructs `Self` from a value known not to be the forbidden one.
    pub fn new_unchecked(n: u128) -> (r: Self)
        requires
            n != Self::forbidden(),
        ensures
            r@ == n,
    {
        NonXU128 { value: n }
    }

    /// Returns the inner value.
    pub fn get(self) -> (r: u128)
        ensures
            r == self@,
            r != Self::forbidden(),
    {
        proof {
            use_type_invariant(&self);
        }
        self.value
    }
}


/// A `usize` whose value is guaranteed not to be the one given by `FORBIDDEN`
/// (the forbidden value).
#[derive(Clone, Copy, Debug)]
pub struct NonXUsize<const FORBIDDEN: usize> {
    value: usize,
}

impl<const FORBIDDEN: usize> View for NonXUsize<FORBIDDEN> {
    type V = usize;

    closed spec fn view(&self) -> usize {
        self.value
    }
}

impl<const FORBIDDEN: usize> NonXUsize<FORBIDDEN> {
    /// The value that no instance holds.
    pub open spec fn forbidden() -> usize {
        FORBIDDEN
    }

    #[verifier::type_invariant]
    closed spec fn inv(self) -> bool {
        self.value != Self::forbidden()
    }

    /// Constructs `Self`, returning `None` if `n` is the forbidden value.
    pub fn new(n: usize) -> (r: Option<Self>)
        ensures
            r is Some <==> n != Self::forbidden(),
            r matches Some(v) ==> v@ == n,
    {
        let forbidden: usize = FORBIDDEN;
        if n == forbidden {
            None
        } else {
            Some(NonXUsize { value: n })
        }
    }

    /// Constructs `Self` from a value known not to be the forbidden one.
    pub fn new_unchecked(n: usize) -> (r: Self)
        requires
            n != Self::forbidden(),
        ensures
            r@ == n,
    {
        NonXUsize { value: n }
    }

    /// Returns the inner value.
    pub fn get(self) -> (r: usize)
        ensures
            r == self@,
            r != Self::forbidden(),
    {
        proof {
            use_type_invariant(&self);
        }
        self.value
    }
}


/// A `i8` whose value is guaranteed not to be the one given by `FORBIDDEN`
/// (the bit pattern of the forbidden value).
#[derive(Clone, Copy, Debug)]
pub struct NonXI8<const FORBIDDEN: u8> {
    value: i8,
}

impl<const FORBIDDEN: u8> View for NonXI8<FORBIDDEN> {
    type V = i8;

    closed spec fn view(&self) -> i8 {
        self.value
    }
}

impl<const FORBIDDEN: u8> NonXI8<FORBIDDEN> {
    /// The value that no instance holds.
    pub open spec fn forbidden() -> i8 {
        FORBIDDEN as i8
    }

    #[verifier::type_invariant]
    closed spec fn inv(self) -> bool {
        self.value != Self::forbidden()
    }

    /// Constructs `Self`, returning `None` if `n` is the forbidden value.
    pub fn new(n: i8) -> (r: Option<Self>)
        ensures
            r is Some <==> n != Self::forbidden(),
            r matches Some(v) ==> v@ == n,
    {
        let forbidden: i8 = FORBIDDEN as i8;
        if n == forbidden {
            None
        } else {
            Some(NonXI8 { value: n })
        }
    }

    /// Constructs `Self` from a value known not to be the forbidden one.
    pub fn new_unchecked(n: i8) -> (r: Self)
        requires
            n != Self::forbidden(),
        ensures
            r@ == n,
    {
        NonXI8 { value: n }
    }

    /// Returns the inner value.
    pub fn get(self) -> (r: i8)
        ensures
            r == self@,
            r != Self::forbidden(),
    {
        proof {
            use_type_invariant(&self);
        }
        self.value
    }
}


/// A `i16` whose value is guaranteed not to be the one given by `FORBIDDEN`
/// (the bit pattern of the forbidden value).
#[derive(Clone, Copy, Debug)]
pub struct NonXI16<const FORBIDDEN: u16> {
    value: i16,
}

impl<const FORBIDDEN: u16> View for NonXI16<FORBIDDEN> {
    type V = i16;

    closed spec fn view(&self) -> i16 {
        self.value
    }
}

impl<const FORBIDDEN: u16> NonXI16<FORBIDDEN> {
    /// The value that no instance holds.
    pub open spec fn forbidden() -> i16 {
        FORBIDDEN as i16
    }

    #[verifier::type_invariant]
    closed spec fn inv(self) -> bool {
        self.value != Self::forbidden()
    }

    /// Constructs `Self`, returning `None` if `n` is the forbidden value.
    pub fn new(n: i16) -> (r: Option<Self>)
        ensures
            r is Some <==> n != Self::forbidden(),
            r matches Some(v) ==> v@ == n,
    {
        let forbidden: i16 = FORBIDDEN as i16;
        if n == forbidden {
            None
        } else {
            Some(NonXI16 { value: n })
        }
    }

    /// Constructs `Self` from a value known not to be the forbidden one.
    pub fn new_unchecked(n: i16) -> (r: Self)
        requires
            n != Self::forbidden(),
        ensures
            r@ == n,
    {
        NonXI16 { value: n }
    }

    /// Returns the inner value.
    pub fn get(self) -> (r: i16)
        ensures
            r == self@,
            r != Self::forbidden(),
    {
        proof {
            use_type_invariant(&self);
        }
        self.value
    }
}


/// A `i32` whose value is guaranteed not to be the one given by `FORBIDDEN`
/// (the bit pattern of the forbidden value).
#[derive(Clone, Copy, Debug)]
pub struct NonXI32<const FORBIDDEN: u32> {
    value: i32,
}

impl<const FORBIDDEN: u32> View for NonXI32<FORBIDDEN> {
    type V = i32;

    closed spec fn view(&self) -> i32 {
        self.value
    }
}

impl<const FORBIDDEN: u32> NonXI32<FORBIDDEN> {
    /// The value that no instance holds.
    pub open spec fn forbidden() -> i32 {
        FORBIDDEN as i32
    }

    #[verifier::type_invariant]
    closed spec fn inv(self) -> bool {
        self.value != Self::forbidden()
    }

    /// Constructs `Self`, returning `None` if `n` is the forbidden value.
    pub fn new(n: i32) -> (r: Option<Self>)
        ensures
            r is Some <==> n != Self::forbidden(),
            r matches Some(v) ==> v@ == n,
    {
        let forbidden: i32 = FORBIDDEN as i32;
        if n == forbidden {
            None
        } else {
            Some(NonXI32 { value: n })
        }
    }

    /// Constructs `Self` from a value known not to be the forbidden one.
    pub fn new_unchecked(n: i32) -> (r: Self)
        requires
            n != Self::forbidden(),
        ensures
            r@ == n,
    {
        NonXI32 { value: n }
    }

    /// Returns the inner value.
    pub fn get(self) -> (r: i32)
        ensures
            r == self@,
            r != Self::forbidden(),
    {
        proof {
            use_type_invariant(&self);
        }
        self.value
    }
}


/// A `i64` whose value is guaranteed not to be the one given by `FORBIDDEN`
/// (the bit pattern of the forbidden value).
#[derive(Clone, Copy, Debug)]
pub struct NonXI64<const FORBIDDEN: u64> {
    value: i64,
}

impl<const FORBIDDEN: u64> View for NonXI64<FORBIDDEN> {
    type V = i64;

    closed spec fn view(&self) -> i64 {
        self.value
    }
}

impl<const FORBIDDEN: u64> NonXI64<FORBIDDEN> {
    /// The value that no instance holds.
    pub open spec fn forbidden() -> i64 {
        FORBIDDEN as i64
    }

    #[verifier::type_invariant]
    closed spec fn inv(self) -> bool {
        self.value != Self::forbidden()
    }

    /// Constructs `Self`, returning `None` if `n` is the forbidden value.
    pub fn new(n: i64) -> (r: Option<Self>)
        ensures
            r is Some <==> n != Self::forbidden(),
            r matches Some(v) ==> v@ == n,
    {
        let forbidden: i64 = FORBIDDEN as i64;
        if n == forbidden {
            None
        } else {
            Some(NonXI64 { value: n })
        }
    }

    /// Constructs `Self` from a value known not to be the forbidden one.
    pub fn new_unchecked(n: i64) -> (r: Self)
        requires
            n != Self::forbidden(),
        ensures
            r@ == n,
    {
        NonXI64 { value: n }
    }

    /// Returns the inner value.
    pub fn get(self) -> (r: i64)
        ensures
            r == self@,
            r != Self::forbidden(),
    {
        proof {
            use_type_invariant(&self);
        }
        self.value
    }
}


/// A `i128` whose value is guaranteed not to be the one given by `FORBIDDEN`
/// (the bit pattern of the forbidden value).
#[derive(Clone, Copy, Debug)]
pub struct NonXI128<const FORBIDDEN: u128> {
    value: i128,
}

impl<const FORBIDDEN: u128> View for NonXI128<FORBIDDEN> {
    type V = i128;

    closed spec fn view(&self) -> i128 {
        self.value
    }
}

impl<const FORBIDDEN: u128> NonXI128<FORBIDDEN> {
    /// The value that no instance holds.
    pub open spec fn forbidden() -> i128 {
        FORBIDDEN as i128
    }

    #[verifier::type_invariant]
    closed spec fn inv(self) -> bool {
        self.value != Self::forbidden()
    }

    /// Constructs `Self`, returning `None` if `n` is the forbidden value.
    pub fn new(n: i128) -> (r: Option<Self>)
        ensures
            r is Some <==> n != Self::forbidden(),
            r matches Some(v) ==> v@ == n,
    {
        let forbidden: i128 = FORBIDDEN as i128;
        if n == forbidden {
            None
        } else {
            Some(NonXI128 { value: n })
        }
    }

    /// Constructs `Self` from a value known not to be the forbidden one.
    pub fn new_unchecked(n: i128) -> (r: Self)
        requires
            n != Self::forbidden(),
        ensures
            r@ == n,
    {
        NonXI128 { value: n }
    }

    /// Returns the inner value.
    pub fn get(self) -> (r: i128)
        ensures
            r == self@,
            r != Self::forbidden(),
    {
        proof {
            use_type_invariant(&self);
        }
        self.value
    }
}


/// A `isize` whose value is guaranteed not to be the one given by `FORBIDDEN`
/// (the bit pattern of the forbidden value).
#[derive(Clone, Copy, Debug)]
pub struct NonXIsize<const FORBIDDEN: usize> {
    value: isize,
}

impl<const FORBIDDEN: usize> View for NonXIsize<FORBIDDEN> {
    type V = isize;

    closed spec fn view(&self) -> isize {
        self.value
    }
}

impl<const FORBIDDEN: usize> NonXIsize<FORBIDDEN> {
    /// The value that no instance holds.
    pub open spec fn forbidden() -> isize {
        FORBIDDEN as isize
    }

    #[verifier::type_invariant]
    closed spec fn inv(self) -> bool {
        self.value != Self::forbidden()
    }

    /// Constructs `Self`, returning `None` if `n` is the forbidden value.
    pub fn new(n: isize) -> (r: Option<Self>)
        ensures
            r is Some <==> n != Self::forbidden(),
            r matches Some(v) ==> v@ == n,
    {
        let forbidden: isize = FORBIDDEN as isize;
        if n == forbidden {
            None
        } else {
            Some(NonXIsize { value: n })
        }
    }

    /// Constructs `Self` from a value known not to be the forbidden one.
    pub fn new_unchecked(n: isize) -> (r: Self)
        requires
            n != Self::forbidden(),
        ensures
            r@ == n,
    {
        NonXIsize { value: n }
    }

    /// Returns the inner value.
    pub fn get(self) -> (r: isize)
        ensures
            r == self@,
            r != Self::forbidden(),
    {
        proof {
            use_type_invariant(&self);
        }
        self.value
    }
}


/// An unsigned integer of `BITS` bits, stored in a `u8`.
///
/// Only the `BITS` least significant bits of the storage may be set.
#[derive(Clone, Copy, Debug)]
pub struct UBits8<const BITS: u32>(u8);

impl<const BITS: u32> View for UBits8<BITS> {
    type V = u8;

    closed spec fn view(&self) -> u8 {
        self.0
    }
}

impl<const BITS: u32> UBits8<BITS> {
    /// The width is meaningful for the storage type.
    pub open spec fn valid_width() -> bool {
        0 < BITS < 8
    }

    /// The largest value that fits in `BITS` bits: the mask of the used bits.
    pub open spec fn spec_mask() -> u8 {
        u8::MAX >> ((8 - BITS) as u8)
    }

    /// The maximum value for this type.
    pub fn MAX() -> (r: Self)
        requires
            Self::valid_width(),
        ensures
            r@ == Self::spec_mask(),
    {
        let shift: u32 = 8 - BITS;
        UBits8(u8::MAX >> (shift as u8))
    }

    /// The minimum value for this type.
    pub fn MIN() -> (r: Self)
        ensures
            r@ == 0,
    {
        UBits8(0)
    }

    /// Constructs a value if it fits in `BITS` bits.
    pub fn new(value: u8) -> (r: Option<Self>)
        requires
            Self::valid_width(),
        ensures
            r is Some <==> value <= Self::spec_mask(),
            r matches Some(v) ==> v@ == value,
    {
        let shift: u32 = 8 - BITS;
        let mask: u8 = u8::MAX >> (shift as u8);
        if value <= mask {
            Some(UBits8(value))
        } else {
            None
        }
    }

    /// Returns the inner value.
    pub fn get(&self) -> (r: u8)
        requires
            Self::valid_width(),
        ensures
            self@ <= Self::spec_mask() ==> r == self@,
            r <= Self::spec_mask(),
    {
        let shift: u32 = 8 - BITS;
        let mask: u8 = u8::MAX >> (shift as u8);
        let v = self.0;
        assert(v & mask <= mask && (v <= mask ==> v & mask == v)) by (bit_vector)
            requires
                mask == u8::MAX >> (shift as u8),
                shift < 8;
        v & mask
    }
}

/// An unsigned integer of `BITS` bits, stored in a `u16`.
///
/// Only the `BITS` least significant bits of the storage may be set.
#[derive(Clone, Copy, Debug)]
pub struct UBits16<const BITS: u32>(u16);

impl<const BITS: u32> View for UBits16<BITS> {
    type V = u16;

    closed spec fn view(&self) -> u16 {
        self.0
    }
}

impl<const BITS: u32> UBits16<BITS> {
    /// The width is meaningful for the storage type.
    pub open spec fn valid_width() -> bool {
        0 < BITS < 16
    }

    /// The largest value that fits in `BITS` bits: the mask of the used bits.
    pub open spec fn spec_mask() -> u16 {
        u16::MAX >> ((16 - BITS) as u16)
    }

    /// The maximum value for this type.
    pub fn MAX() -> (r: Self)
        requires
            Self::valid_width(),
        ensures
            r@ == Self::spec_mask(),
    {
        let shift: u32 = 16 - BITS;
        UBits16(u16::MAX >> (shift as u16))
    }

    /// The minimum value for this type.
    pub fn MIN() -> (r: Self)
        ensures
            r@ == 0,
    {
        UBits16(0)
    }

    /// Constructs a value if it fits in `BITS` bits.
    pub fn new(value: u16) -> (r: Option<Self>)
        requires
            Self::valid_width(),
        ensures
            r is Some <==> value <= Self::spec_mask(),
            r matches Some(v) ==> v@ == value,
    {
        let shift: u32 = 16 - BITS;
        let mask: u16 = u16::MAX >> (shift as u16);
        if value <= mask {
            Some(UBits16(value))
        } else {
            None
        }
    }

    /// Returns the inner value.
    pub fn get(&self) -> (r: u16)
        requires
            Self::valid_width(),
        ensures
            self@ <= Self::spec_mask() ==> r == self@,
            r <= Self::spec_mask(),
    {
        let shift: u32 = 16 - BITS;
        let mask: u16 = u16::MAX >> (shift as u16);
        let v = self.0;
        assert(v & mask <= mask && (v <= mask ==> v & mask == v)) by (bit_vector)
            requires
                mask == u16::MAX >> (shift as u16),
                shift < 16;
        v & mask
    }
}

/// An unsigned integer of `BITS` bits, stored in a `u32`.
///
/// Only the `BITS` least significant bits of the storage may be set.
#[derive(Clone, Copy, Debug)]
pub struct UBits32<const BITS: u32>(u32);

impl<const BITS: u32> View for UBits32<BITS> {
    type V = u32;

    closed spec fn view(&self) -> u32 {
        self.0
    }
}

impl<const BITS: u32> UBits32<BITS> {
    /// The width is meaningful for the storage type.
    pub open spec fn valid_width() -> bool {
        0 < BITS < 32
    }

    /// The largest value that fits in `BITS` bits: the mask of the used bits.
    pub open spec fn spec_mask() -> u32 {
        u32::MAX >> ((32 - BITS) as u32)
    }

    /// The maximum value for this type.
    pub fn MAX() -> (r: Self)
        requires
            Self::valid_width(),
        ensures
            r@ == Self::spec_mask(),
    {
        let shift: u32 = 32 - BITS;
        UBits32(u32::MAX >> (shift as u32))
    }

    /// The minimum value for this type.
    pub fn MIN() -> (r: Self)
        ensures
            r@ == 0,
    {
        UBits32(0)
    }

    /// Constructs a value if it fits in `BITS` bits.
    pub fn new(value: u32) -> (r: Option<Self>)
        requires
            Self::valid_width(),
        ensures
            r is Some <==> value <= Self::spec_mask(),
            r matches Some(v) ==> v@ == value,
    {
        let shift: u32 = 32 - BITS;
        let mask: u32 = u32::MAX >> (shift as u32);
        if value <= mask {
            Some(UBits32(value))
        } else {
            None
        }
    }

    /// Returns the inner value.
    pub fn get(&self) -> (r: u32)
        requires
            Self::valid_width(),
        ensures
            self@ <= Self::spec_mask() ==> r == self@,
            r <= Self::spec_mask(),
    {
        let shift: u32 = 32 - BITS;
        let mask: u32 = u32::MAX >> (shift as u32);
        let v = self.0;
        assert(v & mask <= mask && (v <= mask ==> v & mask == v)) by (bit_vector)
            requires
                mask == u32::MAX >> (shift as u32),
                shift < 32;
        v & mask
    }
}

/// An unsigned integer of `BITS` bits, stored in a `u64`.
///
/// Only the `BITS` least significant bits of the storage may be set.
#[derive(Clone, Copy, Debug)]
pub struct UBits64<const BITS: u32>(u64);

impl<const BITS: u32> View for UBits64<BITS> {
    type V = u64;

    closed spec fn view(&self) -> u64 {
        self.0
    }
}

impl<const BITS: u32> UBits64<BITS> {
    /// The width is meaningful for the storage type.
    pub open spec fn valid_width() -> bool {
        0 < BITS < 64
    }

    /// The largest value that fits in `BITS` bits: the mask of the used bits.
    pub open spec fn spec_mask() -> u64 {
        u64::MAX >> ((64 - BITS) as u64)
    }

    /// The maximum value for this type.
    pub fn MAX() -> (r: Self)
        requires
            Self::valid_width(),
        ensures
            r@ == Self::spec_mask(),
    {
        let shift: u32 = 64 - BITS;
        UBits64(u64::MAX >> (shift as u64))
    }

    /// The minimum value for this type.
    pub fn MIN() -> (r: Self)
        ensures
            r@ == 0,
    {
        UBits64(0)
    }

    /// Constructs a value if it fits in `BITS` bits.
    pub fn new(value: u64) -> (r: Option<Self>)
        requires
            Self::valid_width(),
        ensures
            r is Some <==> value <= Self::spec_mask(),
            r matches Some(v) ==> v@ == value,
    {
        let shift: u32 = 64 - BITS;
        let mask: u64 = u64::MAX >> (shift as u64);
        if value <= mask {
            Some(UBits64(value))
        } else {
            None
        }
    }

    /// Returns the inner value.
    pub fn get(&self) -> (r: u64)
        requires
            Self::valid_width(),
        ensures
            self@ <= Self::spec_mask() ==> r == self@,
            r <= Self::spec_mask(),
    {
        let shift: u32 = 64 - BITS;
        let mask: u64 = u64::MAX >> (shift as u64);
        let v = self.0;
        assert(v & mask <= mask && (v <= mask ==> v & mask == v)) by (bit_vector)
            requires
                mask == u64::MAX >> (shift as u64),
                shift < 64;
        v & mask
    }
}

/// An unsigned integer of `BITS` bits, stored in a `u128`.
///
/// Only the `BITS` least significant bits of the storage may be set.
#[derive(Clone, Copy, Debug)]
pub struct UBits128<const BITS: u32>(u128);

impl<const BITS: u32> View for UBits128<BITS> {
    type V = u128;

    closed spec fn view(&self) -> u128 {
        self.0
    }
}

impl<const BITS: u32> UBits128<BITS> {
    /// The width is meaningful for the storage type.
    pub open spec fn valid_width() -> bool {
        0 < BITS < 128
    }

    /// The largest value that fits in `BITS` bits: the mask of the used bits.
    pub open spec fn spec_mask() -> u128 {
        u128::MAX >> ((128 - BITS) as u128)
    }

    /// The maximum value for this type.
    pub fn MAX() -> (r: Self)
        requires
            Self::valid_width(),
        ensures
            r@ == Self::spec_mask(),
    {
        let shift: u32 = 128 - BITS;
        UBits128(u128::MAX >> (shift as u128))
    }

    /// The minimum value for this type.
    pub fn MIN() -> (r: Self)
        ensures
            r@ == 0,
    {
        UBits128(0)
    }

    /// Constructs a value if it fits in `BITS` bits.
    pub fn new(value: u128) -> (r: Option<Self>)
        requires
            Self::valid_width(),
        ensures
            r is Some <==> value <= Self::spec_mask(),
            r matches Some(v) ==> v@ == value,
    {
        let shift: u32 = 128 - BITS;
        let mask: u128 = u128::MAX >> (shift as u128);
        if value <= mask {
            Some(UBits128(value))
        } else {
            None
        }
    }

    /// Returns the inner value.
    pub fn get(&self) -> (r: u128)
        requires
            Self::valid_width(),
        ensures
            self@ <= Self::spec_mask() ==> r == self@,
            r <= Self::spec_mask(),
    {
        let shift: u32 = 128 - BITS;
        let mask: u128 = u128::MAX >> (shift as u128);
        let v = self.0;
        assert(v & mask <= mask && (v <= mask ==> v & mask == v)) by (bit_vector)
            requires
                mask == u128::MAX >> (shift as u128),
                shift < 128;
        v & mask
    }
}

/// A signed integer of `BITS` bits, stored in a `i8`.
#[derive(Clone, Copy, Debug)]
pub struct IBits8<const BITS: u32>(i8);

impl<const BITS: u32> View for IBits8<BITS> {
    type V = i8;

    closed spec fn view(&self) -> i8 {
        self.0
    }
}

impl<const BITS: u32> IBits8<BITS> {
    /// The width is meaningful for the storage type.
    pub open spec fn valid_width() -> bool {
        0 < BITS < 8
    }

    /// The largest value that fits in `BITS` bits.
    pub open spec fn spec_max() -> i8 {
        i8::MAX >> ((8 - BITS) as u32)
    }

    /// The smallest value that fits in `BITS` bits.
    pub open spec fn spec_min() -> int {
        -(Self::spec_max() + 1)
    }

    proof fn lemma_max_nonnegative(shift: u32)
        requires
            shift < 8,
        ensures
            i8::MAX >> shift >= 0,
    {
        assert(i8::MAX >> shift >= 0) by (bit_vector)
            requires
                shift < 8;
    }

    /// The maximum value for this type.
    pub fn MAX() -> (r: Self)
        requires
            Self::valid_width(),
        ensures
            r@ == Self::spec_max(),
    {
        let shift: u32 = 8 - BITS;
        IBits8(i8::MAX >> shift)
    }

    /// The minimum value for this type.
    pub fn MIN() -> (r: Self)
        requires
            Self::valid_width(),
        ensures
            r@ == Self::spec_min(),
    {
        let shift: u32 = 8 - BITS;
        let max: i8 = i8::MAX >> shift;
        proof {
            Self::lemma_max_nonnegative(shift);
        }
        IBits8(-max - 1)
    }

    /// Constructs a value if it fits in `BITS` bits.
    pub fn new(value: i8) -> (r: Option<Self>)
        requires
            Self::valid_width(),
        ensures
            r is Some <==> Self::spec_min() <= value <= Self::spec_max(),
            r matches Some(v) ==> v@ == value,
    {
        let shift: u32 = 8 - BITS;
        let max: i8 = i8::MAX >> shift;
        proof {
            Self::lemma_max_nonnegative(shift);
        }
        let min: i8 = -max - 1;
        if value <= max && value >= min {
            Some(IBits8(value))
        } else {
            None
        }
    }

    /// Returns the inner value: the used bits, sign-extended.
    pub fn get(&self) -> (r: i8)
        requires
            Self::valid_width(),
            Self::spec_min() <= self@ <= Self::spec_max(),
        ensures
            r == self@,
    {
        let shift: u32 = 8 - BITS;
        let max: i8 = i8::MAX >> shift;
        let b: u32 = BITS;
        let bm1: u32 = b - 1;
        let sign: i8 = 1i8 << bm1;
        let mask: i8 = max | sign;
        let v = self.0;
        let masked: i8 = v & mask;
        let sh: u32 = shift;
        let shm1: u32 = sh - 1;
        let r: i8 = masked | ((masked & sign) << sh) >> shm1;
        assert(r == v) by (bit_vector)
            requires
                max == i8::MAX >> sh,
                sign == 1i8 << bm1,
                bm1 == b - 1,
                mask == max | sign,
                masked == v & mask,
                r == masked | ((masked & sign) << sh) >> shm1,
                shm1 == sh - 1,
                sh == 8 - b,
                0 < b < 8,
                -max - 1 <= v <= max;
        r
    }
}

/// A signed integer of `BITS` bits, stored in a `i16`.
#[derive(Clone, Copy, Debug)]
pub struct IBits16<const BITS: u32>(i16);

impl<const BITS: u32> View for IBits16<BITS> {
    type V = i16;

    closed spec fn view(&self) -> i16 {
        self.0
    }
}

impl<const BITS: u32> IBits16<BITS> {
    /// The width is meaningful for the storage type.
    pub open spec fn valid_width() -> bool {
        0 < BITS < 16
    }

    /// The largest value that fits in `BITS` bits.
    pub open spec fn spec_max() -> i16 {
        i16::MAX >> ((16 - BITS) as u32)
    }

    /// The smallest value that fits in `BITS` bits.
    pub open spec fn spec_min() -> int {
        -(Self::spec_max() + 1)
    }

    proof fn lemma_max_nonnegative(shift: u32)
        requires
            shift < 16,
        ensures
            i16::MAX >> shift >= 0,
    {
        assert(i16::MAX >> shift >= 0) by (bit_vector)
            requires
                shift < 16;
    }

    /// The maximum value for this type.
    pub fn MAX() -> (r: Self)
        requires
            Self::valid_width(),
        ensures
            r@ == Self::spec_max(),
    {
        let shift: u32 = 16 - BITS;
        IBits16(i16::MAX >> shift)
    }

    /// The minimum value for this type.
    pub fn MIN() -> (r: Self)
        requires
            Self::valid_width(),
        ensures
            r@ == Self::spec_min(),
    {
        let shift: u32 = 16 - BITS;
        let max: i16 = i16::MAX >> shift;
        proof {
            Self::lemma_max_nonnegative(shift);
        }
        IBits16(-max - 1)
    }

    /// Constructs a value if it fits in `BITS` bits.
    pub fn new(value: i16) -> (r: Option<Self>)
        requires
            Self::valid_width(),
        ensures
            r is Some <==> Self::spec_min() <= value <= Self::spec_max(),
            r matches Some(v) ==> v@ == value,
    {
        let shift: u32 = 16 - BITS;
        let max: i16 = i16::MAX >> shift;
        proof {
            Self::lemma_max_nonnegative(shift);
        }
        let min: i16 = -max - 1;
        if value <= max && value >= min {
            Some(IBits16(value))
        } else {
            None
        }
    }

    /// Returns the inner value: the used bits, sign-extended.
    pub fn get(&self) -> (r: i16)
        requires
            Self::valid_width(),
            Self::spec_min() <= self@ <= Self::spec_max(),
        ensures
            r == self@,
    {
        let shift: u32 = 16 - BITS;
        let max: i16 = i16::MAX >> shift;
        let b: u32 = BITS;
        let bm1: u32 = b - 1;
        let sign: i16 = 1i16 << bm1;
        let mask: i16 = max | sign;
        let v = self.0;
        let masked: i16 = v & mask;
        let sh: u32 = shift;
        let shm1: u32 = sh - 1;
        let r: i16 = masked | ((masked & sign) << sh) >> shm1;
        assert(r == v) by (bit_vector)
            requires
                max == i16::MAX >> sh,
                sign == 1i16 << bm1,
                bm1 == b - 1,
                mask == max | sign,
                masked == v & mask,
                r == masked | ((masked & sign) << sh) >> shm1,
                shm1 == sh - 1,
                sh == 16 - b,
                0 < b < 16,
                -max - 1 <= v <= max;
        r
    }
}

/// A signed integer of `BITS` bits, stored in a `i32`.
#[derive(Clone, Copy, Debug)]
pub struct IBits32<const BITS: u32>(i32);

impl<const BITS: u32> View for IBits32<BITS> {
    type V = i32;

    closed spec fn view(&self) -> i32 {
        self.0
    }
}

impl<const BITS: u32> IBits32<BITS> {
    /// The width is meaningful for the storage type.
    pub open spec fn valid_width() -> bool {
        0 < BITS < 32
    }

    /// The largest value that fits in `BITS` bits.
    pub open spec fn spec_max() -> i32 {
        i32::MAX >> ((32 - BITS) as u32)
    }

    /// The smallest value that fits in `BITS` bits.
    pub open spec fn spec_min() -> int {
        -(Self::spec_max() + 1)
    }

    proof fn lemma_max_nonnegative(shift: u32)
        requires
            shift < 32,
        ensures
            i32::MAX >> shift >= 0,
    {
        assert(i32::MAX >> shift >= 0) by (bit_vector)
            requires
                shift < 32;
    }

    /// The maximum value for this type.
    pub fn MAX() -> (r: Self)
        requires
            Self::valid_width(),
        ensures
            r@ == Self::spec_max(),
    {
        let shift: u32 = 32 - BITS;
        IBits32(i32::MAX >> shift)
    }

    /// The minimum value for this type.
    pub fn MIN() -> (r: Self)
        requires
            Self::valid_width(),
        ensures
            r@ == Self::spec_min(),
    {
        let shift: u32 = 32 - BITS;
        let max: i32 = i32::MAX >> shift;
        proof {
            Self::lemma_max_nonnegative(shift);
        }
        IBits32(-max - 1)
    }

    /// Constructs a value if it fits in `BITS` bits.
    pub fn new(value: i32) -> (r: Option<Self>)
        requires
            Self::valid_width(),
        ensures
            r is Some <==> Self::spec_min() <= value <= Self::spec_max(),
            r matches Some(v) ==> v@ == value,
    {
        let shift: u32 = 32 - BITS;
        let max: i32 = i32::MAX >> shift;
        proof {
            Self::lemma_max_nonnegative(shift);
        }
        let min: i32 = -max - 1;
        if value <= max && value >= min {
            Some(IBits32(value))
        } else {
            None
        }
    }

    /// Returns the inner value: the used bits, sign-extended.
    pub fn get(&self) -> (r: i32)
        requires
            Self::valid_width(),
            Self::spec_min() <= self@ <= Self::spec_max(),
        ensures
            r == self@,
    {
        let shift: u32 = 32 - BITS;
        let max: i32 = i32::MAX >> shift;
        let b: u32 = BITS;
        let bm1: u32 = b - 1;
        let sign: i32 = 1i32 << bm1;
        let mask: i32 = max | sign;
        let v = self.0;
        let masked: i32 = v & mask;
        let sh: u32 = shift;
        let shm1: u32 = sh - 1;
        let r: i32 = masked | ((masked & sign) << sh) >> shm1;
        assert(r == v) by (bit_vector)
            requires
                max == i32::MAX >> sh,
                sign == 1i32 << bm1,
                bm1 == b - 1,
                mask == max | sign,
                masked == v & mask,
                r == masked | ((masked & sign) << sh) >> shm1,
                shm1 == sh - 1,
                sh == 32 - b,
                0 < b < 32,
                -max - 1 <= v <= max;
        r
    }
}

/// A signed integer of `BITS` bits, stored in a `i64`.
#[derive(Clone, Copy, Debug)]
pub struct IBits64<const BITS: u32>(i64);

impl<const BITS: u32> View for IBits64<BITS> {
    type V = i64;

    closed spec fn view(&self) -> i64 {
        self.0
    }
}

impl<const BITS: u32> IBits64<BITS> {
    /// The width is meaningful for the storage type.
    pub open spec fn valid_width() -> bool {
        0 < BITS < 64
    }

    /// The largest value that fits in `BITS` bits.
    pub open spec fn spec_max() -> i64 {
        i64::MAX >> ((64 - BITS) as u32)
    }

    /// The smallest value that fits in `BITS` bits.
    pub open spec fn spec_min() -> int {
        -(Self::spec_max() + 1)
    }

    proof fn lemma_max_nonnegative(shift: u32)
        requires
            shift < 64,
        ensures
            i64::MAX >> shift >= 0,
    {
        assert(i64::MAX >> shift >= 0) by (bit_vector)
            requires
                shift < 64;
    }

    /// The maximum value for this type.
    pub fn MAX() -> (r: Self)
        requires
            Self::valid_width(),
        ensures
            r@ == Self::spec_max(),
    {
        let shift: u32 = 64 - BITS;
        IBits64(i64::MAX >> shift)
    }

    /// The minimum value for this type.
    pub fn MIN() -> (r: Self)
        requires
            Self::valid_width(),
        ensures
            r@ == Self::spec_min(),
    {
        let shift: u32 = 64 - BITS;
        let max: i64 = i64::MAX >> shift;
        proof {
            Self::lemma_max_nonnegative(shift);
        }
        IBits64(-max - 1)
    }

    /// Constructs a value if it fits in `BITS` bits.
    pub fn new(value: i64) -> (r: Option<Self>)
        requires
            Self::valid_width(),
        ensures
            r is Some <==> Self::spec_min() <= value <= Self::spec_max(),
            r matches Some(v) ==> v@ == value,
    {
        let shift: u32 = 64 - BITS;
        let max: i64 = i64::MAX >> shift;
        proof {
            Self::lemma_max_nonnegative(shift);
        }
        let min: i64 = -max - 1;
        if value <= max && value >= min {
            Some(IBits64(value))
        } else {
            None
        }
    }

    /// Returns the inner value: the used bits, sign-extended.
    pub fn get(&self) -> (r: i64)
        requires
            Self::valid_width(),
            Self::spec_min() <= self@ <= Self::spec_max(),
        ensures
            r == self@,
    {
        let shift: u32 = 64 - BITS;
        let max: i64 = i64::MAX >> shift;
        let b: u32 = BITS;
        let bm1: u32 = b - 1;
        let sign: i64 = 1i64 << bm1;
        let mask: i64 = max | sign;
        let v = self.0;
        let masked: i64 = v & mask;
        let sh: u32 = shift;
        let shm1: u32 = sh - 1;
        let r: i64 = masked | ((masked & sign) << sh) >> shm1;
        assert(r == v) by (bit_vector)
            requires
                max == i64::MAX >> sh,
                sign == 1i64 << bm1,
                bm1 == b - 1,
                mask == max | sign,
                masked == v & mask,
                r == masked | ((masked & sign) << sh) >> shm1,
                shm1 == sh - 1,
                sh == 64 - b,
                0 < b < 64,
                -max - 1 <= v <= max;
        r
    }
}

/// A signed integer of `BITS` bits, stored in a `i128`.
#[derive(Clone, Copy, Debug)]
pub struct IBits128<const BITS: u32>(i128);

impl<const BITS: u32> View for IBits128<BITS> {
    type V = i128;

    closed spec fn view(&self) -> i128 {
        self.0
    }
}

impl<const BITS: u32> IBits128<BITS> {
    /// The width is meaningful for the storage type.
    pub open spec fn valid_width() -> bool {
        0 < BITS < 128
    }

    /// The largest value that fits in `BITS` bits.
    pub open spec fn spec_max() -> i128 {
        i128::MAX >> ((128 - BITS) as u32)
    }

    /// The smallest value that fits in `BITS` bits.
    pub open spec fn spec_min() -> int {
        -(Self::spec_max() + 1)
    }

    proof fn lemma_max_nonnegative(shift: u32)
        requires
            shift < 128,
        ensures
            i128::MAX >> shift >= 0,
    {
        assert(i128::MAX >> shift >= 0) by (bit_vector)
            requires
                shift < 128;
    }

    /// The maximum value for this type.
    pub fn MAX() -> (r: Self)
        requires
            Self::valid_width(),
        ensures
            r@ == Self::spec_max(),
    {
        let shift: u32 = 128 - BITS;
        IBits128(i128::MAX >> shift)
    }

    /// The minimum value for this type.
    pub fn MIN() -> (r: Self)
        requires
            Self::valid_width(),
        ensures
            r@ == Self::spec_min(),
    {
        let shift: u32 = 128 - BITS;
        let max: i128 = i128::MAX >> shift;
        proof {
            Self::lemma_max_nonnegative(shift);
        }
        IBits128(-max - 1)
    }

    /// Constructs a value if it fits in `BITS` bits.
    pub fn new(value: i128) -> (r: Option<Self>)
        requires
            Self::valid_width(),
        ensures
            r is Some <==> Self::spec_min() <= value <= Self::spec_max(),
            r matches Some(v) ==> v@ == value,
    {
        let shift: u32 = 128 - BITS;
        let max: i128 = i128::MAX >> shift;
        proof {
            Self::lemma_max_nonnegative(shift);
        }
        let min: i128 = -max - 1;
        if value <= max && value >= min {
            Some(IBits128(value))
        } else {
            None
        }
    }

    /// Returns the inner value: the used bits, sign-extended.
    pub fn get(&self) -> (r: i128)
        requires
            Self::valid_width(),
            Self::spec_min() <= self@ <= Self::spec_max(),
        ensures
            r == self@,
    {
        let shift: u32 = 128 - BITS;
        let max: i128 = i128::MAX >> shift;
        let b: u32 = BITS;
        let bm1: u32 = b - 1;
        let sign: i128 = 1i128 << bm1;
        let mask: i128 = max | sign;
        let v = self.0;
        let masked: i128 = v & mask;
        let sh: u32 = shift;
        let shm1: u32 = sh - 1;
        let r: i128 = masked | ((masked & sign) << sh) >> shm1;
        assert(r == v) by (bit_vector)
            requires
                max == i128::MAX >> sh,
                sign == 1i128 << bm1,
                bm1 == b - 1,
                mask == max | sign,
                masked == v & mask,
                r == masked | ((masked & sign) << sh) >> shm1,
                shm1 == sh - 1,
                sh == 128 - b,
                0 < b < 128,
                -max - 1 <= v <= max;
        r
    }
}

/// A 1 bit unsigned integer.
pub type u1 = UBits8<1>;

/// A 2 bit unsigned integer.
pub type u2 = UBits8<2>;

/// A 3 bit unsigned integer.
pub type u3 = UBits8<3>;

/// A 4 bit unsigned integer.
pub type u4 = UBits8<4>;

/// A 5 bit unsigned integer.
pub type u5 = UBits8<5>;

/// A 6 bit unsigned integer.
pub type u6 = UBits8<6>;

/// A 7 bit unsigned integer.
pub type u7 = UBits8<7>;

/// A 9 bit unsigned integer.
pub type u9 = UBits16<9>;

/// A 10 bit unsigned integer.
pub type u10 = UBits16<10>;

/// A 11 bit unsigned integer.
pub type u11 = UBits16<11>;

/// A 12 bit unsigned integer.
pub type u12 = UBits16<12>;

/// A 13 bit unsigned integer.
pub type u13 = UBits16<13>;

/// A 14 bit unsigned integer.
pub type u14 = UBits16<14>;

/// A 15 bit unsigned integer.
pub type u15 = UBits16<15>;

/// A 17 bit unsigned integer.
pub type u17 = UBits32<17>;

/// A 18 bit unsigned integer.
pub type u18 = UBits32<18>;

/// A 19 bit unsigned integer.
pub type u19 = UBits32<19>;

/// A 20 bit unsigned integer.
pub type u20 = UBits32<20>;

/// A 21 bit unsigned integer.
pub type u21 = UBits32<21>;

/// A 22 bit unsigned integer.
pub type u22 = UBits32<22>;

/// A 23 bit unsigned integer.
pub type u23 = UBits32<23>;

/// A 24 bit unsigned integer.
pub type u24 = UBits32<24>;

/// A 25 bit unsigned integer.
pub type u25 = UBits32<25>;

/// A 26 bit unsigned integer.
pub type u26 = UBits32<26>;

/// A 27 bit unsigned integer.
pub type u27 = UBits32<27>;

/// A 28 bit unsigned integer.
pub type u28 = UBits32<28>;

/// A 29 bit unsigned integer.
pub type u29 = UBits32<29>;

/// A 30 bit unsigned integer.
pub type u30 = UBits32<30>;

/// A 31 bit unsigned integer.
pub type u31 = UBits32<31>;

/// A 33 bit unsigned integer.
pub type u33 = UBits64<33>;

/// A 34 bit unsigned integer.
pub type u34 = UBits64<34>;

/// A 35 bit unsigned integer.
pub type u35 = UBits64<35>;

/// A 36 bit unsigned integer.
pub type u36 = UBits64<36>;

/// A 37 bit unsigned integer.
pub type u37 = UBits64<37>;

/// A 38 bit unsigned integer.
pub type u38 = UBits64<38>;

/// A 39 bit unsigned integer.
pub type u39 = UBits64<39>;

/// A 40 bit unsigned integer.
pub type u40 = UBits64<40>;

/// A 41 bit unsigned integer.
pub type u41 = UBits64<41>;

/// A 42 bit unsigned integer.
pub type u42 = UBits64<42>;

/// A 43 bit unsigned integer.
pub type u43 = UBits64<43>;

/// A 44 bit unsigned integer.
pub type u44 = UBits64<44>;

/// A 45 bit unsigned integer.
pub type u45 = UBits64<45>;

/// A 46 bit unsigned integer.
pub type u46 = UBits64<46>;

/// A 47 bit unsigned integer.
pub type u47 = UBits64<47>;

/// A 48 bit unsigned integer.
pub type u48 = UBits64<48>;

/// A 49 bit unsigned integer.
pub type u49 = UBits64<49>;

/// A 50 bit unsigned integer.
pub type u50 = UBits64<50>;

/// A 51 bit unsigned integer.
pub type u51 = UBits64<51>;

/// A 52 bit unsigned integer.
pub type u52 = UBits64<52>;

/// A 53 bit unsigned integer.
pub type u53 = UBits64<53>;

/// A 54 bit unsigned integer.
pub type u54 = UBits64<54>;

/// A 55 bit unsigned integer.
pub type u55 = UBits64<55>;

/// A 56 bit unsigned integer.
pub type u56 = UBits64<56>;

/// A 57 bit unsigned integer.
pub type u57 = UBits64<57>;

/// A 58 bit unsigned integer.
pub type u58 = UBits64<58>;

/// A 59 bit unsigned integer.
pub type u59 = UBits64<59>;

/// A 60 bit unsigned integer.
pub type u60 = UBits64<60>;

/// A 61 bit unsigned integer.
pub type u61 = UBits64<61>;

/// A 62 bit unsigned integer.
pub type u62 = UBits64<62>;

/// A 63 bit unsigned integer.
pub type u63 = UBits64<63>;

/// A 65 bit unsigned integer.
pub type u65 = UBits128<65>;

/// A 66 bit unsigned integer.
pub type u66 = UBits128<66>;

/// A 67 bit unsigned integer.
pub type u67 = UBits128<67>;

/// A 68 bit unsigned integer.
pub type u68 = UBits128<68>;

/// A 69 bit unsigned integer.
pub type u69 = UBits128<69>;

/// A 70 bit unsigned integer.
pub type u70 = UBits128<70>;

/// A 71 bit unsigned integer.
pub type u71 = UBits128<71>;

/// A 72 bit unsigned integer.
pub type u72 = UBits128<72>;

/// A 73 bit unsigned integer.
pub type u73 = UBits128<73>;

/// A 74 bit unsigned integer.
pub type u74 = UBits128<74>;

/// A 75 bit unsigned integer.
pub type u75 = UBits128<75>;

/// A 76 bit unsigned integer.
pub type u76 = UBits128<76>;

/// A 77 bit unsigned integer.
pub type u77 = UBits128<77>;

/// A 78 bit unsigned integer.
pub type u78 = UBits128<78>;

/// A 79 bit unsigned integer.
pub type u79 = UBits128<79>;

/// A 80 bit unsigned integer.
pub type u80 = UBits128<80>;

/// A 81 bit unsigned integer.
pub type u81 = UBits128<81>;

/// A 82 bit unsigned integer.
pub type u82 = UBits128<82>;

/// A 83 bit unsigned integer.
pub type u83 = UBits128<83>;

/// A 84 bit unsigned integer.
pub type u84 = UBits128<84>;

/// A 85 bit unsigned integer.
pub type u85 = UBits128<85>;

/// A 86 bit unsigned integer.
pub type u86 = UBits128<86>;

/// A 87 bit unsigned integer.
pub type u87 = UBits128<87>;

/// A 88 bit unsigned integer.
pub type u88 = UBits128<88>;

/// A 89 bit unsigned integer.
pub type u89 = UBits128<89>;

/// A 90 bit unsigned integer.
pub type u90 = UBits128<90>;

/// A 91 bit unsigned integer.
pub type u91 = UBits128<91>;

/// A 92 bit unsigned integer.
pub type u92 = UBits128<92>;

/// A 93 bit unsigned integer.
pub type u93 = UBits128<93>;

/// A 94 bit unsigned integer.
pub type u94 = UBits128<94>;

/// A 95 bit unsigned integer.
pub type u95 = UBits128<95>;

/// A 96 bit unsigned integer.
pub type u96 = UBits128<96>;

/// A 97 bit unsigned integer.
pub type u97 = UBits128<97>;

/// A 98 bit unsigned integer.
pub type u98 = UBits128<98>;

/// A 99 bit unsigned integer.
pub type u99 = UBits128<99>;

/// A 100 bit unsigned integer.
pub type u100 = UBits128<100>;

/// A 101 bit unsigned integer.
pub type u101 = UBits128<101>;

/// A 102 bit unsigned integer.
pub type u102 = UBits128<102>;

/// A 103 bit unsigned integer.
pub type u103 = UBits128<103>;

/// A 104 bit unsigned integer.
pub type u104 = UBits128<104>;

/// A 105 bit unsigned integer.
pub type u105 = UBits128<105>;

/// A 106 bit unsigned integer.
pub type u106 = UBits128<106>;

/// A 107 bit unsigned integer.
pub type u107 = UBits128<107>;

/// A 108 bit unsigned integer.
pub type u108 = UBits128<108>;

/// A 109 bit unsigned integer.
pub type u109 = UBits128<109>;

/// A 110 bit unsigned integer.
pub type u110 = UBits128<110>;

/// A 111 bit unsigned integer.
pub type u111 = UBits128<111>;

/// A 112 bit unsigned integer.
pub type u112 = UBits128<112>;

/// A 113 bit unsigned integer.
pub type u113 = UBits128<113>;

/// A 114 bit unsigned integer.
pub type u114 = UBits128<114>;

/// A 115 bit unsigned integer.
pub type u115 = UBits128<115>;

/// A 116 bit unsigned integer.
pub type u116 = UBits128<116>;

/// A 117 bit unsigned integer.
pub type u117 = UBits128<117>;

/// A 118 bit unsigned integer.
pub type u118 = UBits128<118>;

/// A 119 bit unsigned integer.
pub type u119 = UBits128<119>;

/// A 120 bit unsigned integer.
pub type u120 = UBits128<120>;

/// A 121 bit unsigned integer.
pub type u121 = UBits128<121>;

/// A 122 bit unsigned integer.
pub type u122 = UBits128<122>;

/// A 123 bit unsigned integer.
pub type u123 = UBits128<123>;

/// A 124 bit unsigned integer.
pub type u124 = UBits128<124>;

/// A 125 bit unsigned integer.
pub type u125 = UBits128<125>;

/// A 126 bit unsigned integer.
pub type u126 = UBits128<126>;

/// A 127 bit unsigned integer.
pub type u127 = UBits128<127>;

/// A 1 bit signed integer.
pub type i1 = IBits8<1>;

/// A 2 bit signed integer.
pub type i2 = IBits8<2>;

/// A 3 bit signed integer.
pub type i3 = IBits8<3>;

/// A 4 bit signed integer.
pub type i4 = IBits8<4>;

/// A 5 bit signed integer.
pub type i5 = IBits8<5>;

/// A 6 bit signed integer.
pub type i6 = IBits8<6>;

/// A 7 bit signed integer.
pub type i7 = IBits8<7>;

/// A 9 bit signed integer.
pub type i9 = IBits16<9>;

/// A 10 bit signed integer.
pub type i10 = IBits16<10>;

/// A 11 bit signed integer.
pub type i11 = IBits16<11>;

/// A 12 bit signed integer.
pub type i12 = IBits16<12>;

/// A 13 bit signed integer.
pub type i13 = IBits16<13>;

/// A 14 bit signed integer.
pub type i14 = IBits16<14>;

/// A 15 bit signed integer.
pub type i15 = IBits16<15>;

/// A 17 bit signed integer.
pub type i17 = IBits32<17>;

/// A 18 bit signed integer.
pub type i18 = IBits32<18>;

/// A 19 bit signed integer.
pub type i19 = IBits32<19>;

/// A 20 bit signed integer.
pub type i20 = IBits32<20>;

/// A 21 bit signed integer.
pub type i21 = IBits32<21>;

/// A 22 bit signed integer.
pub type i22 = IBits32<22>;

/// A 23 bit signed integer.
pub type i23 = IBits32<23>;

/// A 24 bit signed integer.
pub type i24 = IBits32<24>;

/// A 25 bit signed integer.
pub type i25 = IBits32<25>;

/// A 26 bit signed integer.
pub type i26 = IBits32<26>;

/// A 27 bit signed integer.
pub type i27 = IBits32<27>;

/// A 28 bit signed integer.
pub type i28 = IBits32<28>;

/// A 29 bit signed integer.
pub type i29 = IBits32<29>;

/// A 30 bit signed integer.
pub type i30 = IBits32<30>;

/// A 31 bit signed integer.
pub type i31 = IBits32<31>;

/// A 33 bit signed integer.
pub type i33 = IBits64<33>;

/// A 34 bit signed integer.
pub type i34 = IBits64<34>;

/// A 35 bit signed integer.
pub type i35 = IBits64<35>;

/// A 36 bit signed integer.
pub type i36 = IBits64<36>;

/// A 37 bit signed integer.
pub type i37 = IBits64<37>;

/// A 38 bit signed integer.
pub type i38 = IBits64<38>;

/// A 39 bit signed integer.
pub type i39 = IBits64<39>;

/// A 40 bit signed integer.
pub type i40 = IBits64<40>;

/// A 41 bit signed integer.
pub type i41 = IBits64<41>;

/// A 42 bit signed integer.
pub type i42 = IBits64<42>;

/// A 43 bit signed integer.
pub type i43 = IBits64<43>;

/// A 44 bit signed integer.
pub type i44 = IBits64<44>;

/// A 45 bit signed integer.
pub type i45 = IBits64<45>;

/// A 46 bit signed integer.
pub type i46 = IBits64<46>;

/// A 47 bit signed integer.
pub type i47 = IBits64<47>;

/// A 48 bit signed integer.
pub type i48 = IBits64<48>;

/// A 49 bit signed integer.
pub type i49 = IBits64<49>;

/// A 50 bit signed integer.
pub type i50 = IBits64<50>;

/// A 51 bit signed integer.
pub type i51 = IBits64<51>;

/// A 52 bit signed integer.
pub type i52 = IBits64<52>;

/// A 53 bit signed integer.
pub type i53 = IBits64<53>;

/// A 54 bit signed integer.
pub type i54 = IBits64<54>;

/// A 55 bit signed integer.
pub type i55 = IBits64<55>;

/// A 56 bit signed integer.
pub type i56 = IBits64<56>;

/// A 57 bit signed integer.
pub type i57 = IBits64<57>;

/// A 58 bit signed integer.
pub type i58 = IBits64<58>;

/// A 59 bit signed integer.
pub type i59 = IBits64<59>;

/// A 60 bit signed integer.
pub type i60 = IBits64<60>;

/// A 61 bit signed integer.
pub type i61 = IBits64<61>;

/// A 62 bit signed integer.
pub type i62 = IBits64<62>;

/// A 63 bit signed integer.
pub type i63 = IBits64<63>;

/// A 65 bit signed integer.
pub type i65 = IBits128<65>;

/// A 66 bit signed integer.
pub type i66 = IBits128<66>;

/// A 67 bit signed integer.
pub type i67 = IBits128<67>;

/// A 68 bit signed integer.
pub type i68 = IBits128<68>;

/// A 69 bit signed integer.
pub type i69 = IBits128<69>;

/// A 70 bit signed integer.
pub type i70 = IBits128<70>;

/// A 71 bit signed integer.
pub type i71 = IBits128<71>;

/// A 72 bit signed integer.
pub type i72 = IBits128<72>;

/// A 73 bit signed integer.
pub type i73 = IBits128<73>;

/// A 74 bit signed integer.
pub type i74 = IBits128<74>;

/// A 75 bit signed integer.
pub type i75 = IBits128<75>;

/// A 76 bit signed integer.
pub type i76 = IBits128<76>;

/// A 77 bit signed integer.
pub type i77 = IBits128<77>;

/// A 78 bit signed integer.
pub type i78 = IBits128<78>;

/// A 79 bit signed integer.
pub type i79 = IBits128<79>;

/// A 80 bit signed integer.
pub type i80 = IBits128<80>;

/// A 81 bit signed integer.
pub type i81 = IBits128<81>;

/// A 82 bit signed integer.
pub type i82 = IBits128<82>;

/// A 83 bit signed integer.
pub type i83 = IBits128<83>;

/// A 84 bit signed integer.
pub type i84 = IBits128<84>;

/// A 85 bit signed integer.
pub type i85 = IBits128<85>;

/// A 86 bit signed integer.
pub type i86 = IBits128<86>;

/// A 87 bit signed integer.
pub type i87 = IBits128<87>;

/// A 88 bit signed integer.
pub type i88 = IBits128<88>;

/// A 89 bit signed integer.
pub type i89 = IBits128<89>;

/// A 90 bit signed integer.
pub type i90 = IBits128<90>;

/// A 91 bit signed integer.
pub type i91 = IBits128<91>;

/// A 92 bit signed integer.
pub type i92 = IBits128<92>;

/// A 93 bit signed integer.
pub type i93 = IBits128<93>;

/// A 94 bit signed integer.
pub type i94 = IBits128<94>;

/// A 95 bit signed integer.
pub type i95 = IBits128<95>;

/// A 96 bit signed integer.
pub type i96 = IBits128<96>;

/// A 97 bit signed integer.
pub type i97 = IBits128<97>;

/// A 98 bit signed integer.
pub type i98 = IBits128<98>;

/// A 99 bit signed integer.
pub type i99 = IBits128<99>;

/// A 100 bit signed integer.
pub type i100 = IBits128<100>;

/// A 101 bit signed integer.
pub type i101 = IBits128<101>;

/// A 102 bit signed integer.
pub type i102 = IBits128<102>;

/// A 103 bit signed integer.
pub type i103 = IBits128<103>;

/// A 104 bit signed integer.
pub type i104 = IBits128<104>;

/// A 105 bit signed integer.
pub type i105 = IBits128<105>;

/// A 106 bit signed integer.
pub type i106 = IBits128<106>;

/// A 107 bit signed integer.
pub type i107 = IBits128<107>;

/// A 108 bit signed integer.
pub type i108 = IBits128<108>;

/// A 109 bit signed integer.
pub type i109 = IBits128<109>;

/// A 110 bit signed integer.
pub type i110 = IBits128<110>;

/// A 111 bit signed integer.
pub type i111 = IBits128<111>;

/// A 112 bit signed integer.
pub type i112 = IBits128<112>;

/// A 113 bit signed integer.
pub type i113 = IBits128<113>;

/// A 114 bit signed integer.
pub type i114 = IBits128<114>;

/// A 115 bit signed integer.
pub type i115 = IBits128<115>;

/// A 116 bit signed integer.
pub type i116 = IBits128<116>;

/// A 117 bit signed integer.
pub type i117 = IBits128<117>;

/// A 118 bit signed integer.
pub type i118 = IBits128<118>;

/// A 119 bit signed integer.
pub type i119 = IBits128<119>;

/// A 120 bit signed integer.
pub type i120 = IBits128<120>;

/// A 121 bit signed integer.
pub type i121 = IBits128<121>;

/// A 122 bit signed integer.
pub type i122 = IBits128<122>;

/// A 123 bit signed integer.
pub type i123 = IBits128<123>;

/// A 124 bit signed integer.
pub type i124 = IBits128<124>;

/// A 125 bit signed integer.
pub type i125 = IBits128<125>;

/// A 126 bit signed integer.
pub type i126 = IBits128<126>;

/// A 127 bit signed integer.
pub type i127 = IBits128<127>;

} // verus!

