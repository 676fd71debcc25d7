use storefront::money::{Money, MAX_MANTISSA, MAX_SCALE};

#[test]
fn times_keeps_scale() {
    assert_eq!(Money { mantissa: 15, scale: 1 }.times(3), Some(Money { mantissa: 45, scale: 1 }));
    assert_eq!(Money { mantissa: -125, scale: 2 }.times(4), Some(Money { mantissa: -500, scale: 2 }));
}

#[test]
fn times_zero_is_plain_zero() {
    assert_eq!(Money { mantissa: 0, scale: 5 }.times(3), Some(Money { mantissa: 0, scale: 0 }));
    assert_eq!(Money { mantissa: 7, scale: 2 }.times(0), Some(Money { mantissa: 0, scale: 0 }));
}

#[test]
fn times_out_of_range_is_none() {
    assert_eq!(Money { mantissa: MAX_MANTISSA, scale: 0 }.times(2), None);
    assert_eq!(Money { mantissa: MAX_MANTISSA, scale: 0 }.times(1), Some(Money { mantissa: MAX_MANTISSA, scale: 0 }));
}

#[test]
fn plus_aligns_to_larger_scale() {
    let a = Money { mantissa: 15, scale: 1 };
    let b = Money { mantissa: 25, scale: 2 };
    assert_eq!(a.plus(b), Some(Money { mantissa: 175, scale: 2 }));
    assert_eq!(b.plus(a), Some(Money { mantissa: 175, scale: 2 }));
}

#[test]
fn plus_with_zero_returns_other() {
    let a = Money { mantissa: 15, scale: 1 };
    assert_eq!(Money::zero().plus(a), Some(a));
    assert_eq!(a.plus(Money { mantissa: 0, scale: 4 }), Some(a));
}

#[test]
fn plus_out_of_range_is_none() {
    let big = Money { mantissa: MAX_MANTISSA, scale: 0 };
    assert_eq!(big.plus(Money { mantissa: 1, scale: 0 }), None);
    assert_eq!(big.plus(Money { mantissa: 1, scale: 1 }), None);
}

#[test]
fn new_checks_range() {
    assert_eq!(Money::new(5, MAX_SCALE), Some(Money { mantissa: 5, scale: 28 }));
    assert_eq!(Money::new(5, 29), None);
    assert_eq!(Money::new(MAX_MANTISSA + 1, 0), None);
    assert_eq!(Money::new(-MAX_MANTISSA, 0), Some(Money { mantissa: -MAX_MANTISSA, scale: 0 }));
}
