//! Turns fractional movement into whole device units and carries the
//! remainder forward, so that nothing is lost between calls.
use crate::fixed::{clamp, frac_of, whole_of, Fixed, SCALE};
use vstd::prelude::*;

verus! {

/// The remainder that is carried on after a movement of `delta` raw steps has
/// been added to a remainder of `carry` raw steps.
pub open spec fn carry_after(carry: int, delta: int) -> int {
    frac_of(carry + frac_of(delta))
}

/// The whole units that leave when a movement of `delta` raw steps meets a
/// remainder of `carry` raw steps: those of the movement itself and the one
/// that the two fractions may complete together.
pub open spec fn exact_step(carry: int, delta: int) -> int {
    whole_of(delta) + whole_of(carry + frac_of(delta))
}

/// `exact_step`, limited to what a device movement can hold.
pub open spec fn emitted_step(carry: int, delta: int) -> int {
    clamp(exact_step(carry, delta), i32::MIN as int, i32::MAX as int)
}

/// The remainder that is left after a run of movements, fed one by one.
pub open spec fn carry_trace(carry: int, deltas: Seq<int>) -> int
    decreases deltas.len(),
{
    if deltas.len() == 0 {
        carry
    } else {
        carry_after(carry_trace(carry, deltas.drop_last()), deltas.last())
    }
}

/// The sum of the whole units emitted over a run of movements.
pub open spec fn emitted_sum(carry: int, deltas: Seq<int>) -> int
    decreases deltas.len(),
{
    if deltas.len() == 0 {
        0
    } else {
        emitted_sum(carry, deltas.drop_last()) + emitted_step(
            carry_trace(carry, deltas.drop_last()),
            deltas.last(),
        )
    }
}

/// The sum of a run of movements, in raw steps.
pub open spec fn delta_sum(deltas: Seq<int>) -> int
    decreases deltas.len(),
{
    if deltas.len() == 0 {
        0
    } else {
        delta_sum(deltas.drop_last()) + deltas.last()
    }
}

/// No movement of the run asks for more whole units than a device movement
/// can hold.
pub open spec fn never_saturates(carry: int, deltas: Seq<int>) -> bool {
    forall|i: int|
        0 <= i < deltas.len() ==> i32::MIN <= #[trigger] exact_step(
            carry_trace(carry, deltas.take(i)),
            deltas[i],
        ) <= i32::MAX
}

/// Adds the movement `d` to the remainder `acc_err`. Returns the new
/// remainder and the whole units to emit now.
///
/// Both `d` and the sum of the two fractions are broken into whole part and
/// fraction, each with the sign of what was broken; the whole parts are
/// emitted together and the last fraction is kept.
pub fn track_cumulative_error(acc_err: Fixed, d: Fixed) -> (r: (Fixed, i32))
    ensures
        r.0@ == carry_after(acc_err@, d@),
        r.1 == emitted_step(acc_err@, d@),
        -SCALE < r.0@ < SCALE,
        exact_step(acc_err@, d@) * SCALE + r.0@ == acc_err@ + d@,
        d@ == 0 && -SCALE < acc_err@ < SCALE ==> r.0 == acc_err && r.1 == 0,
{
    let (d_int, d_frac) = d.split();
    let sum: i128 = acc_err.raw as i128 + d_frac.raw as i128;
    let err_int: i128 = sum / (SCALE as i128);
    let err_frac: i128 = sum % (SCALE as i128);
    let units: i128 = d_int as i128 + err_int;
    let emitted: i32 = if units > i32::MAX as i128 {
        i32::MAX
    } else if units < i32::MIN as i128 {
        i32::MIN
    } else {
        units as i32
    };
    (Fixed { raw: err_frac as i64 }, emitted)
}

/// A run of movements loses nothing: the whole units emitted, together with
/// the remainder left, are the remainder at the start and the movements
/// given. This holds as long as no movement saturates.
pub proof fn lemma_run_is_exact(carry: int, deltas: Seq<int>)
    requires
        never_saturates(carry, deltas),
    ensures
        emitted_sum(carry, deltas) * SCALE + carry_trace(carry, deltas) == carry + delta_sum(
            deltas,
        ),
    decreases deltas.len(),
{
    if deltas.len() > 0 {
        let front = deltas.drop_last();
        let n = deltas.len() - 1;
        assert forall|i: int| 0 <= i < front.len() implies i32::MIN <= #[trigger] exact_step(
            carry_trace(carry, front.take(i)),
            front[i],
        ) <= i32::MAX by {
            assert(front.take(i) == deltas.take(i));
            assert(i32::MIN <= exact_step(carry_trace(carry, deltas.take(i)), deltas[i])
                <= i32::MAX);
        }
        lemma_run_is_exact(carry, front);
        assert(deltas.take(n) == front);
        assert(i32::MIN <= exact_step(carry_trace(carry, deltas.take(n)), deltas[n]) <= i32::MAX);
    }
}

/// The remainder stays below one whole unit in size over any run of
/// movements.
pub proof fn lemma_carry_is_bounded(carry: int, deltas: Seq<int>)
    requires
        -SCALE < carry < SCALE,
    ensures
        -SCALE < carry_trace(carry, deltas) < SCALE,
    decreases deltas.len(),
{
    if deltas.len() > 0 {
        lemma_carry_is_bounded(carry, deltas.drop_last());
    }
}

/// No drift: starting with nothing carried, after every prefix of a run of
/// movements the whole units emitted so far differ from the true sum of the
/// movements by less than one unit. This holds as long as no movement
/// saturates.
pub proof fn lemma_no_drift(deltas: Seq<int>, n: int)
    requires
        0 <= n <= deltas.len(),
        never_saturates(0, deltas),
    ensures
        -SCALE < delta_sum(deltas.take(n)) - emitted_sum(0, deltas.take(n)) * SCALE < SCALE,
        delta_sum(deltas.take(n)) - emitted_sum(0, deltas.take(n)) * SCALE == carry_trace(
            0,
            deltas.take(n),
        ),
{
    let prefix = deltas.take(n);
    assert forall|i: int| 0 <= i < prefix.len() implies i32::MIN <= #[trigger] exact_step(
        carry_trace(0, prefix.take(i)),
        prefix[i],
    ) <= i32::MAX by {
        assert(prefix.take(i) == deltas.take(i));
        assert(i32::MIN <= exact_step(carry_trace(0, deltas.take(i)), deltas[i]) <= i32::MAX);
    }
    lemma_run_is_exact(0, prefix);
    lemma_carry_is_bounded(0, prefix);
}

/// Movements of less than the largest device movement in size never
/// saturate, whatever remainder below one unit the run starts with.
pub proof fn lemma_moderate_runs_never_saturate(carry: int, deltas: Seq<int>)
    requires
        -SCALE < carry < SCALE,
        forall|i: int|
            0 <= i < deltas.len() ==> -(i32::MAX * SCALE) < #[trigger] deltas[i] < i32::MAX
                * SCALE,
    ensures
        never_saturates(carry, deltas),
{
    assert forall|i: int| 0 <= i < deltas.len() implies i32::MIN <= #[trigger] exact_step(
        carry_trace(carry, deltas.take(i)),
        deltas[i],
    ) <= i32::MAX by {
        lemma_carry_is_bounded(carry, deltas.take(i));
    }
}

/// A movement of nothing changes nothing: it leaves the remainder as it is
/// and emits no unit.
pub proof fn lemma_zero_delta(carry: int)
    requires
        -SCALE < carry < SCALE,
    ensures
        carry_after(carry, 0) == carry,
        emitted_step(carry, 0) == 0,
{
}

/// The remainder of one axis of one kind of motion.
///
/// It is always less than one whole unit in size.
#[derive(Debug)]
pub struct AxisErrorState {
    carry: Fixed,
}

impl AxisErrorState {
    #[verifier::type_invariant]
    spec fn bounded(self) -> bool {
        -SCALE < self.carry@ < SCALE
    }

    /// The remainder, in raw steps.
    pub closed spec fn view(self) -> int {
        self.carry@
    }

    /// A state that carries nothing.
    pub fn new() -> (r: Self)
        ensures
            r@ == 0,
    {
        AxisErrorState { carry: Fixed::zero() }
    }

    /// The remainder carried at present.
    pub fn carry(&self) -> (r: Fixed)
        ensures
            r@ == self@,
            -SCALE < r@ < SCALE,
    {
        proof {
            use_type_invariant(self);
        }
        self.carry
    }

    /// Feeds the movement `delta` through this axis and returns the whole
    /// units to emit.
    pub fn quantize(&mut self, delta: Fixed) -> (emitted: i32)
        ensures
            final(self)@ == carry_after(old(self)@, delta@),
            emitted == emitted_step(old(self)@, delta@),
            -SCALE < final(self)@ < SCALE,
            exact_step(old(self)@, delta@) * SCALE + final(self)@ == old(self)@ + delta@,
            delta@ == 0 ==> final(self)@ == old(self)@ && emitted == 0,
    {
        proof {
            use_type_invariant(&*self);
        }
        let (carry, emitted) = track_cumulative_error(self.carry, delta);
        self.carry = carry;
        emitted
    }
}

/// The remainders of the two axes of one kind of motion.
#[derive(Debug)]
pub struct CumulativeError {
    x: AxisErrorState,
    y: AxisErrorState,
}

impl CumulativeError {
    /// The remainder of the horizontal axis, in raw steps.
    pub closed spec fn x(self) -> int {
        self.x@
    }

    /// The remainder of the vertical axis, in raw steps.
    pub closed spec fn y(self) -> int {
        self.y@
    }

    /// A pair of axes that carry nothing.
    pub fn new() -> (r: Self)
        ensures
            r.x() == 0,
            r.y() == 0,
    {
        CumulativeError { x: AxisErrorState::new(), y: AxisErrorState::new() }
    }

    /// The remainders carried at present, horizontal first.
    pub fn carries(&self) -> (r: (Fixed, Fixed))
        ensures
            r.0@ == self.x(),
            r.1@ == self.y(),
            -SCALE < r.0@ < SCALE,
            -SCALE < r.1@ < SCALE,
    {
        (self.x.carry(), self.y.carry())
    }
}

/// Feeds a pointer movement of `x` by `y` through the two axes of
/// `pointer_error` and returns the whole units to move the pointer by.
/// Neither axis touches the other.
pub fn mouse_move_relative_err(pointer_error: &mut CumulativeError, x: Fixed, y: Fixed) -> (r: (
    i32,
    i32,
))
    ensures
        final(pointer_error).x() == carry_after(old(pointer_error).x(), x@),
        final(pointer_error).y() == carry_after(old(pointer_error).y(), y@),
        r.0 == emitted_step(old(pointer_error).x(), x@),
        r.1 == emitted_step(old(pointer_error).y(), y@),
        -SCALE < final(pointer_error).x() < SCALE,
        -SCALE < final(pointer_error).y() < SCALE,
{
    let int_x = pointer_error.x.quantize(x);
    let int_y = pointer_error.y.quantize(y);
    (int_x, int_y)
}

/// Feeds a scroll of `y` through the vertical axis of `scroll_error` and
/// returns the whole units to scroll by. The horizontal axis stays as it is.
pub fn mouse_scroll_y_err(scroll_error: &mut CumulativeError, y: Fixed) -> (int_y: i32)
    ensures
        final(scroll_error).y() == carry_after(old(scroll_error).y(), y@),
        final(scroll_error).x() == old(scroll_error).x(),
        int_y == emitted_step(old(scroll_error).y(), y@),
        -SCALE < final(scroll_error).y() < SCALE,
{
    scroll_error.y.quantize(y)
}

} // verus!
