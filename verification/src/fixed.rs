//! Decimal fixed-point numbers with nine fractional digits.
use vstd::prelude::*;

verus! {

/// Number of raw steps that make one whole unit.
pub const SCALE: i64 = 1_000_000_000;

/// A signed decimal number, held as a count of steps of `1 / SCALE`.
#[derive(Clone, Copy, Debug, PartialEq, Eq, Structural)]
pub struct Fixed {
    pub raw: i64,
}

/// `v` limited to the closed range from `lo` to `hi`.
pub open spec fn clamp(v: int, lo: int, hi: int) -> int {
    if v < lo {
        lo
    } else if v > hi {
        hi
    } else {
        v
    }
}

/// The quotient of `v` by `d`, rounded toward zero.
pub open spec fn div_toward_zero(v: int, d: int) -> int {
    if v >= 0 {
        v / d
    } else {
        -((-v) / d)
    }
}

/// The whole units in `v` raw steps, rounded toward zero.
pub open spec fn whole_of(v: int) -> int {
    div_toward_zero(v, SCALE as int)
}

/// What is left of `v` raw steps once its whole units are taken away.
/// It has the sign of `v` and is less than one unit in size.
pub open spec fn frac_of(v: int) -> int {
    v - whole_of(v) * SCALE
}

/// The raw value of the product of two numbers given by their raw values:
/// rounded toward zero, and limited to what a `Fixed` can hold.
pub open spec fn product_of(a: int, b: int) -> int {
    clamp(div_toward_zero(a * b, SCALE as int), -(i64::MAX as int), i64::MAX as int)
}

impl Fixed {
    /// The number as a count of raw steps.
    pub open spec fn view(self) -> int {
        self.raw as int
    }

    /// The number zero.
    pub fn zero() -> (r: Fixed)
        ensures
            r@ == 0,
    {
        Fixed { raw: 0 }
    }

    /// The number one.
    pub fn one() -> (r: Fixed)
        ensures
            r@ == SCALE,
    {
        Fixed { raw: SCALE }
    }

    /// The whole number `n`.
    pub fn from_int(n: i32) -> (r: Fixed)
        ensures
            r@ == n * SCALE,
    {
        Fixed { raw: n as i64 * SCALE }
    }

    /// Breaks the number into its whole units and its fraction, each with the
    /// sign of the number.
    pub fn split(self) -> (r: (i64, Fixed))
        ensures
            r.0 == whole_of(self@),
            r.1@ == frac_of(self@),
            r.0 * SCALE + r.1@ == self@,
            -SCALE < r.1@ < SCALE,
            self@ >= 0 ==> r.0 >= 0 && r.1@ >= 0,
            self@ <= 0 ==> r.0 <= 0 && r.1@ <= 0,
    {
        (self.raw / SCALE, Fixed { raw: self.raw % SCALE })
    }

    /// The product of two numbers, rounded toward zero. A product too large
    /// to hold becomes the largest value of its sign.
    pub fn times(self, other: Fixed) -> (r: Fixed)
        ensures
            r@ == product_of(self@, other@),
    {
        let a: i128 = self.raw as i128;
        let b: i128 = other.raw as i128;
        assert(-0x4000_0000_0000_0000_0000_0000_0000_0000 <= a * b
            <= 0x4000_0000_0000_0000_0000_0000_0000_0000) by (nonlinear_arith)
            requires
                -0x8000_0000_0000_0000 <= a <= 0x8000_0000_0000_0000,
                -0x8000_0000_0000_0000 <= b <= 0x8000_0000_0000_0000,
        ;
        let q: i128 = (a * b) / (SCALE as i128);
        if q > i64::MAX as i128 {
            Fixed { raw: i64::MAX }
        } else if q < -(i64::MAX as i128) {
            Fixed { raw: -i64::MAX }
        } else {
            Fixed { raw: q as i64 }
        }
    }
}

} // verus!
