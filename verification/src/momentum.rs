//! The drift of the pointer after a flick: a velocity that friction wears
//! down tick by tick.
use crate::command::SpinVector;
use crate::fixed::{product_of, Fixed, SCALE};
use crate::quantizer::{carry_after, emitted_step};
use vstd::prelude::*;

verus! {

/// Ticks per second of the momentum loop.
pub const POINTER_REFRESH_FREQ_HZ: i32 = 120;

/// Raw value of the friction that is used where none is given: 0.004.
pub const DEFAULT_FRICTION: i64 = 4_000_000;

/// Raw value of the sensitivity that is used where none is given: 0.1.
pub const DEFAULT_SENSITIVITY: i64 = 100_000_000;

/// The state of the momentum loop as contracts speak of it, in raw values:
/// the velocity that the last flick gave, and how much of it is left.
pub struct Momentum {
    pub fx: int,
    pub fy: int,
    pub speed: int,
}

/// The state that a flick of `vx` by `vy` sets, whatever the state was:
/// the velocity scaled by the sensitivity, at full speed.
pub open spec fn after_spin(vx: int, vy: int, sensitivity: int) -> Momentum {
    Momentum { fx: product_of(vx, sensitivity), fy: product_of(vy, sensitivity), speed: SCALE as int }
}

/// The state once a tick has taken in what was sent to it, if anything.
pub open spec fn loaded(m: Momentum, intent: Option<(int, int)>, sensitivity: int) -> Momentum {
    match intent {
        Some(v) => after_spin(v.0, v.1, sensitivity),
        None => m,
    }
}

/// The movement that a state asks for in one tick.
pub open spec fn motion_of(m: Momentum) -> (int, int) {
    (product_of(m.fx, m.speed), product_of(m.fy, m.speed))
}

/// The state after friction has acted once: the speed is less by the
/// friction, and zero where that would take it to zero or below. Speed that
/// is not above zero stays as it is.
pub open spec fn decayed(m: Momentum, friction: int) -> Momentum {
    if m.speed > 0 {
        Momentum {
            fx: m.fx,
            fy: m.fy,
            speed: if m.speed - friction > 0 {
                m.speed - friction
            } else {
                0
            },
        }
    } else {
        m
    }
}

/// The state after one tick.
pub open spec fn ticked(
    m: Momentum,
    intent: Option<(int, int)>,
    friction: int,
    sensitivity: int,
) -> Momentum {
    decayed(loaded(m, intent, sensitivity), friction)
}

/// The state after `k` ticks to which nothing was sent.
pub open spec fn coasted(m: Momentum, friction: int, k: nat) -> Momentum
    decreases k,
{
    if k == 0 {
        m
    } else {
        decayed(coasted(m, friction, (k - 1) as nat), friction)
    }
}

/// The number of ticks that friction takes to wear full speed down: one
/// over the friction, rounded up.
pub open spec fn stopping_ticks(friction: int) -> int {
    (SCALE + friction - 1) / friction
}

/// The period of a loop that ticks `rate_hz` times a second, in whole
/// milliseconds. A rate of zero gives the longest period there is, a rate
/// below zero gives none.
pub open spec fn period_of(rate_hz: int) -> int {
    if rate_hz > 0 {
        (1000 * SCALE) / rate_hz
    } else if rate_hz == 0 {
        u64::MAX as int
    } else {
        0
    }
}

/// What a flick is as contracts speak of it.
pub open spec fn intent_view(intent: Option<SpinVector>) -> Option<(int, int)> {
    match intent {
        Some(v) => Some((v.vx@, v.vy@)),
        None => None,
    }
}

/// The two numbers that tune the momentum loop. The friction is above
/// zero.
#[derive(Clone, Copy, Debug)]
pub struct MotionConfig {
    friction: Fixed,
    sensitivity: Fixed,
}

impl MotionConfig {
    #[verifier::type_invariant]
    spec fn friction_acts(self) -> bool {
        self.friction@ > 0
    }

    /// The friction, in raw steps.
    pub closed spec fn friction_raw(self) -> int {
        self.friction@
    }

    /// The sensitivity, in raw steps.
    pub closed spec fn sensitivity_raw(self) -> int {
        self.sensitivity@
    }

    /// A configuration of the given friction and sensitivity; none where
    /// the friction is not above zero.
    pub fn new(friction: Fixed, sensitivity: Fixed) -> (r: Option<Self>)
        ensures
            r is Some <==> friction@ > 0,
            r matches Some(c) ==> c.friction_raw() == friction@ && c.sensitivity_raw()
                == sensitivity@,
    {
        if friction.raw > 0 {
            Some(MotionConfig { friction, sensitivity })
        } else {
            None
        }
    }

    /// Speed lost per tick.
    pub fn friction(&self) -> (r: Fixed)
        ensures
            r@ == self.friction_raw(),
            r@ > 0,
    {
        proof {
            use_type_invariant(self);
        }
        self.friction
    }

    /// Factor between the velocity of a flick and that of the pointer.
    pub fn sensitivity(&self) -> (r: Fixed)
        ensures
            r@ == self.sensitivity_raw(),
    {
        self.sensitivity
    }
}

impl Default for MotionConfig {
    fn default() -> (r: Self)
        ensures
            r.friction_raw() == DEFAULT_FRICTION,
            r.sensitivity_raw() == DEFAULT_SENSITIVITY,
    {
        MotionConfig {
            friction: Fixed { raw: DEFAULT_FRICTION },
            sensitivity: Fixed { raw: DEFAULT_SENSITIVITY },
        }
    }
}

/// The state of the momentum loop. The speed is never below zero and never
/// above one.
#[derive(Clone, Copy, Debug)]
pub struct MomentumState {
    fx: Fixed,
    fy: Fixed,
    speed: Fixed,
}

impl View for MomentumState {
    type V = Momentum;

    closed spec fn view(&self) -> Momentum {
        Momentum { fx: self.fx@, fy: self.fy@, speed: self.speed@ }
    }
}

impl MomentumState {
    #[verifier::type_invariant]
    spec fn speed_in_range(self) -> bool {
        0 <= self.speed@ <= SCALE
    }

    /// The state of a loop that no flick has reached yet: at rest.
    pub fn new() -> (r: Self)
        ensures
            r@ == (Momentum { fx: 0, fy: 0, speed: 0 }),
    {
        MomentumState { fx: Fixed::zero(), fy: Fixed::zero(), speed: Fixed::zero() }
    }

    /// The velocity that the last flick gave.
    pub fn velocity(&self) -> (r: (Fixed, Fixed))
        ensures
            r.0@ == self@.fx,
            r.1@ == self@.fy,
    {
        (self.fx, self.fy)
    }

    /// How much of the velocity is left: one at the flick, less by the
    /// friction with each tick, and never less than nothing.
    pub fn speed(&self) -> (r: Fixed)
        ensures
            r@ == self@.speed,
            0 <= r@ <= SCALE,
    {
        proof {
            use_type_invariant(self);
        }
        self.speed
    }

    /// One tick of the loop. Takes in the flick that was sent since the
    /// last tick, if any; returns the movement to make now; then lets
    /// friction act.
    pub fn tick(&mut self, intent: Option<SpinVector>, config: &MotionConfig) -> (motion: (
        Fixed,
        Fixed,
    ))
        ensures
            (motion.0@, motion.1@) == motion_of(
                loaded(old(self)@, intent_view(intent), config.sensitivity_raw()),
            ),
            final(self)@ == ticked(
                old(self)@,
                intent_view(intent),
                config.friction_raw(),
                config.sensitivity_raw(),
            ),
    {
        proof {
            use_type_invariant(&*self);
        }
        let friction = config.friction();
        let sensitivity = config.sensitivity();
        match intent {
            Some(v) => {
                self.fx = v.vx.times(sensitivity);
                self.fy = v.vy.times(sensitivity);
                self.speed = Fixed::one();
            },
            None => {},
        }
        let motion = (self.fx.times(self.speed), self.fy.times(self.speed));
        if self.speed.raw > 0 {
            let left: i64 = self.speed.raw - friction.raw;
            self.speed = if left > 0 {
                Fixed { raw: left }
            } else {
                Fixed::zero()
            };
        }
        motion
    }
}

/// The period of a loop that ticks `rate_hz` times a second.
pub fn tick_period_millis(rate_hz: Fixed) -> (millis: u64)
    ensures
        millis == period_of(rate_hz@),
{
    if rate_hz.raw > 0 {
        (1000 * SCALE as u64) / (rate_hz.raw as u64)
    } else if rate_hz.raw == 0 {
        u64::MAX
    } else {
        0
    }
}

/// `stopping_ticks` is the least number of friction steps that reach from
/// full speed to zero or below.
proof fn lemma_stopping_ticks(friction: int)
    requires
        friction > 0,
    ensures
        stopping_ticks(friction) >= 1,
        (stopping_ticks(friction) - 1) * friction < SCALE,
        SCALE <= stopping_ticks(friction) * friction,
        (SCALE as int) % friction == 0 ==> stopping_ticks(friction) == SCALE as int / friction,
{
    let n = stopping_ticks(friction);
    let top = SCALE + friction - 1;
    assert(top == friction * (top / friction) + top % friction && 0 <= top % friction < friction)
        by (nonlinear_arith)
        requires
            friction > 0,
    ;
    assert((n - 1) * friction == n * friction - friction) by (nonlinear_arith);
    assert(n * friction == friction * n) by (nonlinear_arith);
    assert(n >= 1) by (nonlinear_arith)
        requires
            friction > 0,
            n * friction >= SCALE,
    ;
    if (SCALE as int) % friction == 0 {
        let q = SCALE as int / friction;
        assert(SCALE == friction * q) by (nonlinear_arith)
            requires
                friction > 0,
                (SCALE as int) % friction == 0,
                q == SCALE as int / friction,
        ;
        assert(n == q) by (nonlinear_arith)
            requires
                friction > 0,
                SCALE == friction * q,
                (n - 1) * friction < SCALE,
                SCALE <= n * friction,
        ;
    }
}

/// Before the stopping tick, each tick takes the friction off the speed.
proof fn lemma_coast_decays(m: Momentum, friction: int, k: nat)
    requires
        friction > 0,
        m.speed == SCALE,
        k < stopping_ticks(friction),
    ensures
        coasted(m, friction, k) == (Momentum { fx: m.fx, fy: m.fy, speed: SCALE - k * friction }),
        SCALE - k * friction > 0,
    decreases k,
{
    lemma_stopping_ticks(friction);
    assert(SCALE - k * friction > 0) by (nonlinear_arith)
        requires
            0 <= k <= stopping_ticks(friction) - 1,
            friction > 0,
            (stopping_ticks(friction) - 1) * friction < SCALE,
    ;
    if k == 0 {
        assert(k * friction == 0) by (nonlinear_arith)
            requires
                k == 0,
        ;
    } else {
        lemma_coast_decays(m, friction, (k - 1) as nat);
        assert((k - 1) * friction == k * friction - friction) by (nonlinear_arith);
    }
}

/// From the stopping tick on the speed is zero.
proof fn lemma_coast_rests(m: Momentum, friction: int, k: nat)
    requires
        friction > 0,
        m.speed == SCALE,
        k >= stopping_ticks(friction),
    ensures
        coasted(m, friction, k) == (Momentum { fx: m.fx, fy: m.fy, speed: 0 }),
    decreases k,
{
    lemma_stopping_ticks(friction);
    if k == stopping_ticks(friction) {
        lemma_coast_decays(m, friction, (k - 1) as nat);
        assert((k - 1) * friction == k * friction - friction) by (nonlinear_arith);
    } else {
        lemma_coast_rests(m, friction, (k - 1) as nat);
    }
}

/// Decay ends: after a flick, and with no further flick, the speed falls by
/// the friction with each tick as long as that leaves it above zero, and is
/// zero from the tick numbered `stopping_ticks` on. That number is the least
/// count of friction steps that cover full speed; where the friction divides
/// full speed, it is the quotient.
pub proof fn lemma_momentum_settles(vx: int, vy: int, sensitivity: int, friction: int, k: nat)
    requires
        friction > 0,
    ensures
        stopping_ticks(friction) >= 1,
        (stopping_ticks(friction) - 1) * friction < SCALE <= stopping_ticks(friction) * friction,
        (SCALE as int) % friction == 0 ==> stopping_ticks(friction) == SCALE as int / friction,
        k < stopping_ticks(friction) ==> coasted(
            after_spin(vx, vy, sensitivity),
            friction,
            k,
        ).speed == SCALE - k * friction && SCALE - k * friction > 0,
        k >= stopping_ticks(friction) ==> coasted(after_spin(vx, vy, sensitivity), friction, k)
            == (Momentum {
            fx: product_of(vx, sensitivity),
            fy: product_of(vy, sensitivity),
            speed: 0,
        }),
{
    let start = after_spin(vx, vy, sensitivity);
    lemma_stopping_ticks(friction);
    if k < stopping_ticks(friction) {
        lemma_coast_decays(start, friction, k);
    } else {
        lemma_coast_rests(start, friction, k);
    }
}

/// Momentum stops: from the tick numbered `stopping_ticks` after a flick on,
/// and with no further flick, no tick asks for any movement.
pub proof fn lemma_momentum_stops(vx: int, vy: int, sensitivity: int, friction: int, k: nat)
    requires
        friction > 0,
        k >= stopping_ticks(friction),
    ensures
        motion_of(coasted(after_spin(vx, vy, sensitivity), friction, k)) == (0int, 0int),
{
    lemma_momentum_settles(vx, vy, sensitivity, friction, k);
    lemma_product_with_zero(product_of(vx, sensitivity));
    lemma_product_with_zero(product_of(vy, sensitivity));
}

/// Once momentum has stopped the pointer rests: the movement of such a
/// tick, fed through the axes of the pointer, emits no unit and leaves what
/// they carry as it is.
pub proof fn lemma_stopped_pointer_rests(
    vx: int,
    vy: int,
    sensitivity: int,
    friction: int,
    k: nat,
    carry_x: int,
    carry_y: int,
)
    requires
        friction > 0,
        k >= stopping_ticks(friction),
        -SCALE < carry_x < SCALE,
        -SCALE < carry_y < SCALE,
    ensures
        ({
            let motion = motion_of(coasted(after_spin(vx, vy, sensitivity), friction, k));
            &&& emitted_step(carry_x, motion.0) == 0
            &&& emitted_step(carry_y, motion.1) == 0
            &&& carry_after(carry_x, motion.0) == carry_x
            &&& carry_after(carry_y, motion.1) == carry_y
        }),
{
    lemma_momentum_stops(vx, vy, sensitivity, friction, k);
}

/// The speed keeps to its range: where it is neither below zero nor above
/// one, a tick leaves it so. At the start it is zero.
pub proof fn lemma_speed_in_range(
    m: Momentum,
    intent: Option<(int, int)>,
    friction: int,
    sensitivity: int,
)
    requires
        friction > 0,
        0 <= m.speed <= SCALE,
    ensures
        0 <= ticked(m, intent, friction, sensitivity).speed <= SCALE,
{
}

/// A flick overrides: the tick that takes in a flick asks for the same
/// movement and leaves the same state, whatever the state was before. The
/// new state has the velocity of the flick, scaled by the sensitivity, and
/// full speed less one step of friction, or no speed where the friction is
/// one or more.
pub proof fn lemma_spin_overrides(
    before: Momentum,
    other: Momentum,
    vx: int,
    vy: int,
    friction: int,
    sensitivity: int,
)
    requires
        friction > 0,
    ensures
        ticked(before, Some((vx, vy)), friction, sensitivity) == ticked(
            other,
            Some((vx, vy)),
            friction,
            sensitivity,
        ),
        motion_of(loaded(before, Some((vx, vy)), sensitivity)) == motion_of(
            loaded(other, Some((vx, vy)), sensitivity),
        ),
        loaded(before, Some((vx, vy)), sensitivity) == (Momentum {
            fx: product_of(vx, sensitivity),
            fy: product_of(vy, sensitivity),
            speed: SCALE as int,
        }),
        ticked(before, Some((vx, vy)), friction, sensitivity) == (Momentum {
            fx: product_of(vx, sensitivity),
            fy: product_of(vy, sensitivity),
            speed: if SCALE - friction > 0 {
                SCALE - friction
            } else {
                0
            },
        }),
{
}

/// A flick of nothing cancels: the tick that takes it in asks for no
/// movement, and neither does any tick after it, as long as no further flick
/// comes.
pub proof fn lemma_zero_spin_cancels(before: Momentum, friction: int, sensitivity: int, k: nat)
    requires
        friction > 0,
    ensures
        motion_of(loaded(before, Some((0int, 0int)), sensitivity)) == (0int, 0int),
        motion_of(coasted(ticked(before, Some((0int, 0int)), friction, sensitivity), friction, k))
            == (0int, 0int),
{
    lemma_zero_times(sensitivity);
    lemma_zero_times(SCALE as int);
    let start = ticked(before, Some((0int, 0int)), friction, sensitivity);
    lemma_coast_keeps_velocity(start, friction, k);
    lemma_zero_times(coasted(start, friction, k).speed);
}

proof fn lemma_coast_keeps_velocity(m: Momentum, friction: int, k: nat)
    ensures
        coasted(m, friction, k).fx == m.fx,
        coasted(m, friction, k).fy == m.fy,
    decreases k,
{
    if k > 0 {
        lemma_coast_keeps_velocity(m, friction, (k - 1) as nat);
    }
}

proof fn lemma_zero_times(b: int)
    ensures
        product_of(0, b) == 0,
{
    assert(0 * b == 0) by (nonlinear_arith);
}

proof fn lemma_product_with_zero(a: int)
    ensures
        product_of(a, 0) == 0,
{
    assert(a * 0 == 0) by (nonlinear_arith);
}

} // verus!
