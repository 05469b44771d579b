use stabby_abi::future::MaybeResolved;
use stabby_abi::checked_import::{
    canary_due, step_on_check, step_on_status, CheckStep, INVALIDATED, LOCKED, UNCHECKED, VALIDATED,
};
use stabby_abi::enums::{BitDeterminant, BitIsErr, IDeterminant, Not, ValueIsErr};
use stabby_abi::istable::{
    Array, End, ForbiddenRange, IForbiddenValues, ISaturatingAdd, IStable, Or, SaturatingAddValue,
    Saturator,
};
use stabby_abi::num::NonMaxU8;
use stabby_abi::option::Option as StableOption;
use stabby_abi::result::Result as StableResult;
use stabby_abi::slice::Slice;
use stabby_abi::typenum2::{IBit, IBitBase, IUnsigned, IUnsignedBase, UInt, UTerm, B0, B1};
use stabby_abi::{assert_stable, AssertStable, StableLike};

#[test]
fn bit_determinant_records_variant() {
    let mut union = vec![0u8; 4];
    let ok = BitDeterminant::ok(&mut union);
    assert!(ok.is_det_ok(&union));
    let err = BitDeterminant::err(&mut union);
    assert!(!err.is_det_ok(&union));
    assert_eq!(union, vec![0u8; 4]);
}

#[test]
fn value_is_err_uses_the_niche() {
    type D = ValueIsErr<1, 255, End>;
    let mut union = vec![1u8, 2, 3];
    let ok = D::ok(&mut union);
    assert!(ok.is_det_ok(&union));
    let err = D::err(&mut union);
    assert_eq!(union, vec![1u8, 255, 3]);
    assert!(!err.is_det_ok(&union));
}

#[test]
fn bit_is_err_sets_and_clears_the_bit() {
    type D = BitIsErr<0, 0b100>;
    let mut union = vec![0b011u8];
    let err = D::err(&mut union);
    assert_eq!(union[0], 0b111);
    assert!(!err.is_det_ok(&union));
    let ok = D::ok(&mut union);
    assert_eq!(union[0], 0b011);
    assert!(ok.is_det_ok(&union));
    type One = BitIsErr<0, 1>;
    let mut union = vec![0xf0u8];
    One::err(&mut union);
    assert_eq!(union[0], 1);
}

#[test]
fn not_inverts() {
    type D = Not<BitIsErr<0, 1>>;
    let mut union = vec![0u8];
    let ok = D::ok(&mut union);
    assert_eq!(union[0], 1);
    assert!(ok.is_det_ok(&union));
    let err = D::err(&mut union);
    assert_eq!(union[0], 0);
    assert!(!err.is_det_ok(&union));
}

#[test]
fn forbidden_values() {
    assert!(!End::is_invalid(&[1, 2]));
    // A list of bytes ends with `End`, which forbids nothing: a list matches nothing.
    assert!(!<Array<1, 7, End>>::is_invalid(&[0, 7]));
    assert!(!<Array<0, 1, Array<1, 2, End>>>::is_invalid(&[1, 2]));
    assert!(<ForbiddenRange<2, 255, 0>>::is_invalid(&[2]));
    assert!(<ForbiddenRange<2, 255, 0>>::is_invalid(&[255]));
    assert!(!<ForbiddenRange<2, 255, 0>>::is_invalid(&[1]));
    assert!(<Or<Array<0, 9, End>, ForbiddenRange<5, 6, 1>>>::is_invalid(&[0, 6]));
    assert!(!<Or<Array<0, 9, End>, ForbiddenRange<5, 6, 1>>>::is_invalid(&[0, 7]));
    assert!(bool::is_invalid(&[3]));
    assert!(!bool::is_invalid(&[1]));
    assert!(!NonMaxU8::is_invalid(&[254]));
}

#[test]
fn layouts_of_stable_types() {
    assert_eq!(u32::size(), 4);
    assert_eq!(u64::align(), 8);
    assert_eq!(<()>::size(), 0);
    assert_eq!(<StableLike<u16, u16>>::size(), 2);
    let s: StableLike<u32, u32> = StableLike::new(5);
    assert_eq!(*s.as_ref(), 5);
    assert_eq!(s.into_inner(), 5);
    assert_stable::<u8>();
    let _ = AssertStable::<u8>::check();
}

#[test]
fn niche_counts_saturate() {
    assert_eq!(B0::value(), SaturatingAddValue::B0);
    assert_eq!(B1::value().saturating_add(B1::value()), SaturatingAddValue::Saturator);
    assert_eq!(B0::value().saturating_add(B1::value()), SaturatingAddValue::B1);
    assert_eq!(Saturator::value().saturating_add(B0::value()), SaturatingAddValue::Saturator);
    assert!(B1::bool_value());
    assert!(!B0::bool_value());
    assert_eq!(B1::as_u8(), 1);
}

#[test]
fn type_level_numbers() {
    type U6 = UInt<UInt<UInt<UTerm, B1>, B1>, B0>;
    assert_eq!(U6::u128_value(), 6);
    assert_eq!(U6::usize_value(), 6);
    assert_eq!(<UInt<UInt<UTerm, B1>, B0>>::u8_value(), 2);
    assert_eq!(UTerm::u128_value(), 0);
}

#[test]
fn stable_option_and_result() {
    let o = StableOption::new_some(3u8);
    assert!(o.is_some());
    assert_eq!(o.as_ref(), Some(&3));
    assert_eq!(o.match_ref(|v| *v + 1, || 0), 4);
    assert_eq!(o.unwrap(), 3);
    let n: StableOption<u8> = StableOption::new_none();
    assert!(n.is_none());
    assert_eq!(n.unwrap_or_else(|| 9), 9);
    let back: Option<u8> = StableOption::from(Some(5u8)).into();
    assert_eq!(back, Some(5));

    let r: StableResult<u8, &str> = StableResult::new_ok(2);
    assert!(r.is_ok());
    assert_eq!(r.ok_ref(), Some(&2));
    assert_eq!(r.match_owned_ctx(10, |c, v| c + v, |c, _| c), 12);
    let e: StableResult<u8, &str> = StableResult::new_err("no");
    assert!(e.is_err());
    assert_eq!(e.clone().unwrap_err(), "no");
    assert_eq!(e.clone().map(|v| v + 1).err(), Some("no"));
    assert_eq!(e.unwrap_or_else(|s| s.len() as u8), 2);
    let r: StableResult<u8, &str> = StableResult::new_ok(2);
    assert_eq!(r.and_then(|v| StableResult::new_ok(v * 3)).unwrap(), 6);
    let back: Result<u8, &str> = StableResult::from(Err::<u8, &str>("x")).into();
    assert_eq!(back, Err("x"));
}

#[test]
fn checked_import_steps() {
    assert_eq!(step_on_status(UNCHECKED), CheckStep::RunValidator);
    assert_eq!(step_on_status(VALIDATED), CheckStep::ReturnImport);
    assert_eq!(step_on_status(INVALIDATED), CheckStep::ReturnMismatch);
    assert_eq!(step_on_status(LOCKED), CheckStep::Wait);
    assert_eq!(step_on_check(true, true), (Some(VALIDATED), CheckStep::ReturnImport));
    assert_eq!(step_on_check(true, false), (None, CheckStep::Wait));
    assert_eq!(step_on_check(false, true), (Some(INVALIDATED), CheckStep::ReturnMismatch));
    assert!(canary_due(0));
    assert!(!canary_due(1));
}

#[test]
fn slices() {
    let data = [1u8, 2, 3];
    let s = Slice::new(&data);
    assert_eq!(s.len(), 3);
    assert_eq!(s.as_slice(), &[1, 2, 3]);
    let t: Slice<u8> = Slice::from(&data[1..]);
    assert_eq!(t.as_slice(), &[2, 3]);
}

#[test]
fn maybe_resolved_hands_out_once() {
    let mut f: MaybeResolved<u8, ()> = MaybeResolved::Resolved(4);
    assert_eq!(f.take_resolved(), Some(4));
    assert!(f.is_empty());
    assert_eq!(f.take_resolved(), None);
    assert!(f.pending_mut().is_none());

    let mut p: MaybeResolved<u8, u32> = MaybeResolved::Pending(10);
    assert_eq!(p.take_resolved(), None);
    if let Some(inner) = p.pending_mut() {
        *inner += 1;
    }
    assert!(matches!(p, MaybeResolved::Pending(11)));
    assert_eq!(p.finish_poll(None), None);
    assert!(!p.is_empty());
    assert_eq!(p.finish_poll(Some(3)), Some(3));
    assert!(p.is_empty());
}

#[test]
fn option_and_result_write_through_mutable_references() {
    let mut o = StableOption::new_some(3u32);
    if let Some(v) = o.as_mut() {
        *v = 4;
    }
    assert_eq!(o.as_ref(), Some(&4));
    let mut n: StableOption<u32> = StableOption::new_none();
    assert!(n.as_mut().is_none());
    let mut r: StableResult<u8, u16> = StableResult::new_ok(1);
    *r.ok_mut().unwrap() = 2;
    assert!(r.err_mut().is_none());
    assert_eq!(r.ok_ref(), Some(&2));
    let mut e: StableResult<u8, u16> = StableResult::new_err(7);
    *e.err_mut().unwrap() += 1;
    assert!(e.ok_mut().is_none());
    assert_eq!(e.err_ref(), Some(&8));
}
