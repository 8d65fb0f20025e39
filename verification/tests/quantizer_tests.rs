use pointer_motion::decimal::parse_decimal;
use pointer_motion::fixed::{Fixed, SCALE};
use pointer_motion::quantizer::{
    mouse_move_relative_err, mouse_scroll_y_err, track_cumulative_error, AxisErrorState,
    CumulativeError,
};

fn fixed(text: &str) -> Fixed {
    parse_decimal(text.as_bytes()).expect(text)
}

#[test]
fn track_splits_and_carries() {
    assert_eq!(track_cumulative_error(fixed("0"), fixed("1.3")), (fixed("0.3"), 1));
    assert_eq!(track_cumulative_error(fixed("0.3"), fixed("1.3")), (fixed("0.6"), 1));
    assert_eq!(track_cumulative_error(fixed("0.6"), fixed("1.3")), (fixed("0.9"), 1));
    assert_eq!(track_cumulative_error(fixed("0.9"), fixed("1.3")), (fixed("0.2"), 2));
    assert_eq!(track_cumulative_error(fixed("0.5"), fixed("0.5")), (fixed("0"), 1));
    assert_eq!(track_cumulative_error(fixed("0.999999999"), fixed("0.000000001")), (fixed("0"), 1));
}

#[test]
fn track_keeps_signs() {
    assert_eq!(track_cumulative_error(fixed("0"), fixed("-1.3")), (fixed("-0.3"), -1));
    assert_eq!(track_cumulative_error(fixed("-0.9"), fixed("-1.3")), (fixed("-0.2"), -2));
    assert_eq!(track_cumulative_error(fixed("0.3"), fixed("-0.5")), (fixed("-0.2"), 0));
    assert_eq!(track_cumulative_error(fixed("-0.3"), fixed("0.5")), (fixed("0.2"), 0));
    assert_eq!(track_cumulative_error(fixed("0.3"), fixed("-2.5")), (fixed("-0.2"), -2));
    assert_eq!(track_cumulative_error(fixed("-0.5"), fixed("-0.5")), (fixed("0"), -1));
}

#[test]
fn track_of_nothing_changes_nothing() {
    for carry in ["0", "0.3", "-0.3", "0.999999999", "-0.999999999", "0.000000001"] {
        assert_eq!(track_cumulative_error(fixed(carry), fixed("0")), (fixed(carry), 0), "{}", carry);
        assert_eq!(track_cumulative_error(fixed(carry), fixed("-0")), (fixed(carry), 0));
    }
}

#[test]
fn track_saturates() {
    let huge = Fixed { raw: i64::MAX };
    let tiny = Fixed { raw: i64::MIN };
    assert_eq!(track_cumulative_error(fixed("0"), huge), (Fixed { raw: 854_775_807 }, i32::MAX));
    assert_eq!(track_cumulative_error(fixed("0"), tiny), (Fixed { raw: -854_775_808 }, i32::MIN));
    assert_eq!(track_cumulative_error(fixed("0"), fixed("2147483647")), (fixed("0"), i32::MAX));
    assert_eq!(track_cumulative_error(fixed("0"), fixed("2147483648")), (fixed("0"), i32::MAX));
    assert_eq!(track_cumulative_error(fixed("0.5"), fixed("2147483647.5")), (fixed("0"), i32::MAX));
    assert_eq!(track_cumulative_error(fixed("0"), fixed("-2147483648")), (fixed("0"), i32::MIN));
    assert_eq!(track_cumulative_error(fixed("0"), fixed("-2147483649")), (fixed("0"), i32::MIN));
    assert_eq!(track_cumulative_error(huge, huge), (Fixed { raw: 709_551_614 }, i32::MAX));
}

#[test]
fn track_takes_any_remainder() {
    assert_eq!(track_cumulative_error(fixed("2.5"), fixed("0")), (fixed("0.5"), 2));
    assert_eq!(track_cumulative_error(fixed("-2.5"), fixed("1.25")), (fixed("-0.25"), -1));
}

#[test]
fn axis_starts_empty() {
    let axis = AxisErrorState::new();
    assert_eq!(axis.carry(), Fixed::zero());
}

#[test]
fn axis_carry_stays_below_one() {
    let mut axis = AxisErrorState::new();
    let deltas = [
        "0.999999999", "0.999999999", "-0.999999999", "123.456", "-0.000000001", "-77.7", "0.5",
        "0.5", "-0.5", "-0.5", "-0.5", "2147483647.999999999", "-4000000000", "0.1",
    ];
    for d in deltas {
        axis.quantize(fixed(d));
        let carry = axis.carry().raw;
        assert!(-SCALE < carry && carry < SCALE, "{} left {}", d, carry);
    }
}

#[test]
fn axis_zero_delta_is_idle() {
    let mut axis = AxisErrorState::new();
    assert_eq!(axis.quantize(fixed("0")), 0);
    assert_eq!(axis.carry(), fixed("0"));
    axis.quantize(fixed("0.7"));
    assert_eq!(axis.quantize(fixed("0")), 0);
    assert_eq!(axis.carry(), fixed("0.7"));
    assert_eq!(axis.quantize(fixed("-1.5")), -1);
    assert_eq!(axis.carry(), fixed("0.2"));
    assert_eq!(axis.quantize(fixed("-0.9")), 0);
    assert_eq!(axis.carry(), fixed("-0.7"));
    assert_eq!(axis.quantize(fixed("0")), 0);
    assert_eq!(axis.carry(), fixed("-0.7"));
}

/// After every movement the units emitted so far are within one unit of
/// the true sum.
#[test]
fn axis_never_drifts() {
    let deltas = [
        "0.1", "0.1", "0.1", "0.1", "0.1", "0.1", "0.1", "0.1", "0.1", "0.1", "0.1", "-0.35",
        "-0.35", "-0.35", "-0.35", "12.75", "-13.5", "0.000000001", "0.999999999", "-3.3", "2.2",
        "1e-9", "-1e-9", "7", "-7", "0.333333333", "0.333333333", "0.333333334",
    ];
    let mut axis = AxisErrorState::new();
    let mut emitted: i128 = 0;
    let mut given: i128 = 0;
    for d in deltas {
        let delta = fixed(d);
        emitted += axis.quantize(delta) as i128;
        given += delta.raw as i128;
        let gap = given - emitted * SCALE as i128;
        assert!(gap.abs() < SCALE as i128, "after {}: gap {}", d, gap);
        assert_eq!(gap, axis.carry().raw as i128);
    }
    // The movements sum to -0.15.
    assert_eq!(given, -150_000_000);
    assert_eq!(emitted * SCALE as i128 + axis.carry().raw as i128, -150_000_000);
}

#[test]
fn axis_tenths_add_up() {
    let mut axis = AxisErrorState::new();
    let mut emitted = Vec::new();
    for _ in 0..10 {
        emitted.push(axis.quantize(fixed("0.1")));
    }
    assert_eq!(emitted, vec![0, 0, 0, 0, 0, 0, 0, 0, 0, 1]);
    assert_eq!(axis.carry(), fixed("0"));
}

/// On eighths, which a double holds exactly, the split and re-split done
/// with `modf` on doubles gives the same units and the same remainder.
#[test]
fn axis_agrees_with_float_arithmetic() {
    let eighths: [i64; 14] = [3, -5, 11, 8, -8, 1, 1, 1, -27, 64, 7, -7, 15, -15];
    let mut axis = AxisErrorState::new();
    let mut float_carry: f64 = 0.0;
    for e in eighths {
        let delta = Fixed { raw: e * (SCALE / 8) };
        let ours = axis.quantize(delta);
        let d = e as f64 / 8.0;
        let (d_int, d_frac) = float_extras::f64::modf(d);
        let (err_int, err_frac) = float_extras::f64::modf(float_carry + d_frac);
        float_carry = err_frac;
        assert_eq!(ours, (d_int + err_int) as i32, "at {}", e);
        assert_eq!(axis.carry().raw as f64 / 1e9, float_carry, "at {}", e);
    }
}

#[test]
fn touch_twice_emits_one_each() {
    let mut pointer = CumulativeError::new();
    assert_eq!(mouse_move_relative_err(&mut pointer, fixed("1.3"), fixed("1.3")), (1, 1));
    assert_eq!(pointer.carries(), (fixed("0.3"), fixed("0.3")));
    assert_eq!(mouse_move_relative_err(&mut pointer, fixed("1.3"), fixed("1.3")), (1, 1));
    assert_eq!(pointer.carries(), (fixed("0.6"), fixed("0.6")));
    assert_eq!(mouse_move_relative_err(&mut pointer, fixed("1.3"), fixed("1.3")), (1, 1));
    assert_eq!(pointer.carries(), (fixed("0.9"), fixed("0.9")));
    assert_eq!(mouse_move_relative_err(&mut pointer, fixed("1.3"), fixed("1.3")), (2, 2));
    assert_eq!(pointer.carries(), (fixed("0.2"), fixed("0.2")));
}

#[test]
fn axes_do_not_touch_each_other() {
    let mut pointer = CumulativeError::new();
    assert_eq!(mouse_move_relative_err(&mut pointer, fixed("0.75"), fixed("0")), (0, 0));
    assert_eq!(pointer.carries(), (fixed("0.75"), fixed("0")));
    assert_eq!(mouse_move_relative_err(&mut pointer, fixed("0"), fixed("-0.5")), (0, 0));
    assert_eq!(pointer.carries(), (fixed("0.75"), fixed("-0.5")));
    assert_eq!(mouse_move_relative_err(&mut pointer, fixed("0.25"), fixed("-0.5")), (1, -1));
    assert_eq!(pointer.carries(), (fixed("0"), fixed("0")));
}

#[test]
fn scroll_uses_the_vertical_axis_only() {
    let mut scroll = CumulativeError::new();
    assert_eq!(mouse_scroll_y_err(&mut scroll, fixed("2.5")), 2);
    assert_eq!(scroll.carries(), (fixed("0"), fixed("0.5")));
    assert_eq!(mouse_scroll_y_err(&mut scroll, fixed("0.5")), 1);
    assert_eq!(scroll.carries(), (fixed("0"), fixed("0")));
    assert_eq!(mouse_scroll_y_err(&mut scroll, fixed("-0.25")), 0);
    assert_eq!(scroll.carries(), (fixed("0"), fixed("-0.25")));
}

/// Over a long run of movements in steps of one 512th, which a double holds
/// exactly, the arithmetic on doubles gives the same units and the same
/// remainder at every step.
#[test]
fn axis_agrees_with_float_arithmetic_on_a_long_run() {
    let mut seed: u64 = 77;
    let mut axis = AxisErrorState::new();
    let mut float_carry: f64 = 0.0;
    for step in 0..100_000 {
        seed = seed.wrapping_mul(6364136223846793005).wrapping_add(1442695040888963407);
        let k = ((seed >> 33) % 8193) as i64 - 4096;
        let delta = Fixed { raw: k * (SCALE / 512) };
        let ours = axis.quantize(delta);
        let d = k as f64 / 512.0;
        let (d_int, d_frac) = float_extras::f64::modf(d);
        let (err_int, err_frac) = float_extras::f64::modf(float_carry + d_frac);
        float_carry = err_frac;
        assert_eq!(ours, (d_int + err_int) as i32, "step {}", step);
        assert_eq!(axis.carry().raw as f64 / 1e9, float_carry, "step {}", step);
    }
}
