use pointer_motion::fixed::{Fixed, SCALE};

#[test]
fn fixed_constants() {
    assert_eq!(SCALE, 1_000_000_000);
    assert_eq!(Fixed::zero().raw, 0);
    assert_eq!(Fixed::one().raw, SCALE);
    assert_eq!(Fixed::from_int(7).raw, 7 * SCALE);
    assert_eq!(Fixed::from_int(-3).raw, -3 * SCALE);
    assert_eq!(Fixed::from_int(i32::MAX).raw, i32::MAX as i64 * SCALE);
    assert_eq!(Fixed::from_int(i32::MIN).raw, i32::MIN as i64 * SCALE);
}

#[test]
fn fixed_split_keeps_the_sign() {
    assert_eq!(Fixed { raw: 1_300_000_000 }.split(), (1, Fixed { raw: 300_000_000 }));
    assert_eq!(Fixed { raw: -1_300_000_000 }.split(), (-1, Fixed { raw: -300_000_000 }));
    assert_eq!(Fixed { raw: 999_999_999 }.split(), (0, Fixed { raw: 999_999_999 }));
    assert_eq!(Fixed { raw: -999_999_999 }.split(), (0, Fixed { raw: -999_999_999 }));
    assert_eq!(Fixed { raw: 0 }.split(), (0, Fixed { raw: 0 }));
    assert_eq!(Fixed { raw: 5_000_000_000 }.split(), (5, Fixed { raw: 0 }));
    assert_eq!(Fixed { raw: i64::MAX }.split(), (9_223_372_036, Fixed { raw: 854_775_807 }));
    assert_eq!(Fixed { raw: i64::MIN }.split(), (-9_223_372_036, Fixed { raw: -854_775_808 }));
}

/// The split is the one that `modf` makes of a double.
#[test]
fn fixed_split_agrees_with_modf() {
    let samples: [i64; 9] = [
        0,
        1_250_000_000,
        -1_250_000_000,
        500_000_000,
        -500_000_000,
        3_000_000_000,
        -3_000_000_000,
        123_456_750_000_000,
        -7_875_000_000,
    ];
    for raw in samples {
        let (whole, frac) = Fixed { raw }.split();
        let (float_whole, float_frac) = float_extras::f64::modf(raw as f64 / 1e9);
        assert_eq!(whole as f64, float_whole, "{}", raw);
        assert!((frac.raw as f64 / 1e9 - float_frac).abs() < 1e-6, "{}", raw);
    }
}

#[test]
fn fixed_times() {
    let two = Fixed::from_int(2);
    let half = Fixed { raw: 500_000_000 };
    let tenth = Fixed { raw: 100_000_000 };
    assert_eq!(two.times(half), Fixed::one());
    assert_eq!(Fixed::from_int(10).times(tenth), Fixed::one());
    assert_eq!(Fixed::from_int(-10).times(tenth), Fixed::from_int(-1));
    assert_eq!(Fixed::from_int(-10).times(Fixed::from_int(-10)), Fixed::from_int(100));
    assert_eq!(Fixed::zero().times(Fixed { raw: i64::MAX }), Fixed::zero());
    assert_eq!(Fixed::one().times(Fixed { raw: i64::MIN + 1 }), Fixed { raw: i64::MIN + 1 });
}

#[test]
fn fixed_times_rounds_toward_zero() {
    let third = Fixed { raw: 333_333_333 };
    assert_eq!(third.times(third), Fixed { raw: 111_111_110 });
    assert_eq!(Fixed { raw: -333_333_333 }.times(third), Fixed { raw: -111_111_110 });
    assert_eq!(Fixed { raw: 1 }.times(Fixed { raw: 999_999_999 }), Fixed { raw: 0 });
    assert_eq!(Fixed { raw: -1 }.times(Fixed { raw: 999_999_999 }), Fixed { raw: 0 });
    assert_eq!(Fixed { raw: 3 }.times(Fixed { raw: 500_000_000 }), Fixed { raw: 1 });
    assert_eq!(Fixed { raw: -3 }.times(Fixed { raw: 500_000_000 }), Fixed { raw: -1 });
}

#[test]
fn fixed_times_saturates() {
    let big = Fixed { raw: i64::MAX };
    let small = Fixed { raw: i64::MIN };
    assert_eq!(big.times(big), Fixed { raw: i64::MAX });
    assert_eq!(big.times(small), Fixed { raw: -i64::MAX });
    assert_eq!(small.times(small), Fixed { raw: i64::MAX });
    assert_eq!(Fixed::one().times(small), Fixed { raw: -i64::MAX });
    assert_eq!(Fixed::from_int(2).times(Fixed { raw: i64::MAX / 2 + 1 }), Fixed { raw: i64::MAX });
}
