use stabby_abi::num::{i26, i6, u26, u6, NonMaxU8, NonMaxU32, NonXI8, NonXU16};

#[test]
fn numbers() {
    for i in (<u8>::MIN..<u8>::MAX).rev().step_by(<u8>::MAX as usize / 127) {
        let Some(n) = <u6>::new(i) else {
            assert!(i > <u6>::MAX().get() || i < <u6>::MIN().get());
            continue;
        };
        assert_eq!(n.get(), i);
        assert!(i <= <u6>::MAX().get());
        assert!(i >= <u6>::MIN().get());
    }
    for i in (<u32>::MIN..<u32>::MAX).rev().step_by(<u32>::MAX as usize / 127) {
        let Some(n) = <u26>::new(i) else {
            assert!(i > <u26>::MAX().get() || i < <u26>::MIN().get());
            continue;
        };
        assert_eq!(n.get(), i);
        assert!(i <= <u26>::MAX().get());
        assert!(i >= <u26>::MIN().get());
    }
    for i in (<i8>::MIN..<i8>::MAX).rev().step_by(<i8>::MAX as usize / 127) {
        let Some(n) = <i6>::new(i) else {
            assert!(i > <i6>::MAX().get() || i < <i6>::MIN().get());
            continue;
        };
        assert_eq!(n.get(), i);
        assert!(i <= <i6>::MAX().get());
        assert!(i >= <i6>::MIN().get());
    }
    for i in (<i32>::MIN..<i32>::MAX).rev().step_by(<i32>::MAX as usize / 127) {
        let Some(n) = <i26>::new(i) else {
            assert!(i > <i26>::MAX().get() || i < <i26>::MIN().get());
            continue;
        };
        assert_eq!(n.get(), i);
        assert!(i <= <i26>::MAX().get());
        assert!(i >= <i26>::MIN().get());
    }
}

#[test]
fn bit_integers_bounds() {
    assert_eq!(u6::MAX().get(), 63);
    assert_eq!(u6::MIN().get(), 0);
    assert!(u6::new(64).is_none());
    assert_eq!(u26::MAX().get(), (1 << 26) - 1);
    assert_eq!(i6::MAX().get(), 31);
    assert_eq!(i6::MIN().get(), -32);
    assert!(i6::new(32).is_none());
    assert!(i6::new(-33).is_none());
    assert_eq!(i6::new(-32).unwrap().get(), -32);
    assert_eq!(i26::MIN().get(), -(1 << 25));
}

#[test]
fn non_max_rejects_only_max() {
    assert!(NonMaxU8::new(255).is_none());
    assert_eq!(NonMaxU8::new(254).unwrap().get(), 254);
    assert_eq!(NonMaxU32::new(0).unwrap().get(), 0);
    assert!(NonMaxU32::new(u32::MAX).is_none());
    let n: u8 = NonMaxU8::new(7).unwrap().into();
    assert_eq!(n, 7);
}

#[test]
fn non_x_rejects_only_forbidden() {
    assert!(NonXU16::<7>::new(7).is_none());
    assert_eq!(NonXU16::<7>::new(8).unwrap().get(), 8);
    assert!(NonXI8::<0xff>::new(-1).is_none());
    assert_eq!(NonXI8::<0xff>::new(0).unwrap().get(), 0);
}
