//! The oscillating brightness ramp, in both of its designs.
//!
//! [`Ramp`] sweeps the whole 8-bit range: the value moves by [`RAMP_STEP`]
//! each tick, and when the next move would leave the range the value is
//! clamped to the boundary and the direction flips. [`ClampedRamp`] confines
//! the oscillation to `[RAMP_LOWER, RAMP_UPPER]`: each tick first clamps and
//! turns the direction at a boundary, then moves — the boundary checks run
//! ahead of the arithmetic, so the value never leaves the range. Both designs
//! flip direction only at a boundary, and both are periodic: advancing a ramp
//! twice-its-range many ticks returns it to the same value and direction.

use vstd::prelude::*;

verus! {

/// Amount added to or subtracted from the brightness value each tick.
pub const RAMP_STEP: u8 = 1;

/// Width of the clamped ramp's oscillation range.
pub const RAMP_DEPTH: u8 = 125;

/// Upper bound of the clamped ramp's value.
pub const RAMP_UPPER: u8 = 245;

/// Lower bound of the clamped ramp's value.
pub const RAMP_LOWER: u8 = RAMP_UPPER - RAMP_DEPTH;

/// Which way the brightness value is moving.
#[derive(Clone, Copy, PartialEq, Eq, Structural, Debug)]
pub enum Direction {
    Increasing,
    Decreasing,
}

/// The full-range ramp: value and direction of travel.
#[derive(Clone, Copy, PartialEq, Eq, Structural, Debug)]
pub struct Ramp {
    pub value: u8,
    pub direction: Direction,
}

/// State of the full-range ramp after one tick: move by the step; when the
/// move would overflow or underflow, clamp to the boundary and flip.
pub open spec fn ramp_next(r: Ramp) -> Ramp {
    match r.direction {
        Direction::Increasing => {
            if r.value + RAMP_STEP > u8::MAX {
                Ramp { value: u8::MAX, direction: Direction::Decreasing }
            } else {
                Ramp { value: (r.value + RAMP_STEP) as u8, direction: Direction::Increasing }
            }
        },
        Direction::Decreasing => {
            if r.value < RAMP_STEP {
                Ramp { value: 0, direction: Direction::Increasing }
            } else {
                Ramp { value: (r.value - RAMP_STEP) as u8, direction: Direction::Decreasing }
            }
        },
    }
}

/// The full-range ramp after `n` ticks.
pub open spec fn ramp_iter(r: Ramp, n: nat) -> Ramp
    decreases n,
{
    if n == 0 {
        r
    } else {
        ramp_next(ramp_iter(r, (n - 1) as nat))
    }
}

/// Ticks after which the full-range ramp repeats: twice its 256-value range.
pub open spec fn ramp_period() -> int {
    512
}

impl Ramp {
    /// Start-up state: brightness zero, about to turn around and rise.
    pub fn new() -> (r: Ramp)
        ensures
            r.value == 0,
            r.direction == Direction::Decreasing,
    {
        Ramp { value: 0, direction: Direction::Decreasing }
    }

    /// Advance one tick. The direction flips only in a tick that starts on a
    /// boundary of the range.
    pub fn advance(&mut self)
        ensures
            *final(self) == ramp_next(*old(self)),
            final(self).direction != old(self).direction ==> (old(self).value == u8::MAX
                || old(self).value == 0),
    {
        match self.direction {
            Direction::Increasing => {
                if self.value > u8::MAX - RAMP_STEP {
                    self.value = u8::MAX;
                    self.direction = Direction::Decreasing;
                } else {
                    self.value = self.value + RAMP_STEP;
                }
            },
            Direction::Decreasing => {
                if self.value < RAMP_STEP {
                    self.value = 0;
                    self.direction = Direction::Increasing;
                } else {
                    self.value = self.value - RAMP_STEP;
                }
            },
        }
    }
}

/// Position of a full-range ramp state along its single cycle, counted from
/// the state with value zero that is about to turn around.
pub open spec fn ramp_phase(r: Ramp) -> int {
    match r.direction {
        Direction::Increasing => r.value + 1,
        Direction::Decreasing => if r.value == 0 {
            0
        } else {
            ramp_period() - r.value
        },
    }
}

/// The full-range ramp state at a given position of the cycle.
pub open spec fn ramp_of_phase(p: int) -> Ramp {
    if p == 0 {
        Ramp { value: 0, direction: Direction::Decreasing }
    } else if p <= 256 {
        Ramp { value: (p - 1) as u8, direction: Direction::Increasing }
    } else {
        Ramp { value: (ramp_period() - p) as u8, direction: Direction::Decreasing }
    }
}

proof fn lemma_ramp_phase_bounds(r: Ramp)
    ensures
        0 <= ramp_phase(r) < ramp_period(),
{
}

proof fn lemma_ramp_of_phase_inverse(r: Ramp)
    ensures
        ramp_of_phase(ramp_phase(r)) == r,
{
}

proof fn lemma_ramp_phase_of_phase(p: int)
    requires
        0 <= p < ramp_period(),
    ensures
        ramp_phase(ramp_of_phase(p)) == p,
{
}

proof fn lemma_ramp_next_phase(r: Ramp)
    ensures
        ramp_phase(ramp_next(r)) == if ramp_phase(r) == ramp_period() - 1 {
            0
        } else {
            ramp_phase(r) + 1
        },
{
}

proof fn lemma_ramp_iter_additive(r: Ramp, a: nat, b: nat)
    ensures
        ramp_iter(r, a + b) == ramp_iter(ramp_iter(r, a), b),
    decreases b,
{
    if b > 0 {
        lemma_ramp_iter_additive(r, a, (b - 1) as nat);
    }
}

proof fn lemma_ramp_iter_phase(r: Ramp, n: nat)
    requires
        ramp_phase(r) + n < ramp_period(),
    ensures
        ramp_iter(r, n) == ramp_of_phase(ramp_phase(r) + n),
    decreases n,
{
    lemma_ramp_phase_bounds(r);
    if n == 0 {
        lemma_ramp_of_phase_inverse(r);
    } else {
        lemma_ramp_iter_phase(r, (n - 1) as nat);
        let prev = ramp_iter(r, (n - 1) as nat);
        lemma_ramp_phase_of_phase(ramp_phase(r) + n - 1);
        lemma_ramp_next_phase(prev);
        lemma_ramp_of_phase_inverse(ramp_next(prev));
    }
}

/// Law: the full-range ramp is periodic — advancing it `ramp_period()` ticks
/// (twice its 256-value range) returns it to the same value and direction.
pub proof fn lemma_ramp_periodic(r: Ramp)
    ensures
        ramp_iter(r, ramp_period() as nat) == r,
{
    let p = ramp_phase(r);
    lemma_ramp_phase_bounds(r);
    lemma_ramp_iter_phase(r, (511 - p) as nat);
    let a = ramp_iter(r, (511 - p) as nat);
    lemma_ramp_phase_of_phase(511);
    lemma_ramp_next_phase(a);
    lemma_ramp_iter_additive(r, (511 - p) as nat, 1);
    let b = ramp_iter(r, (512 - p) as nat);
    assert(b == ramp_next(a));
    lemma_ramp_of_phase_inverse(b);
    lemma_ramp_iter_additive(r, (512 - p) as nat, p as nat);
    lemma_ramp_iter_phase(b, p as nat);
    lemma_ramp_of_phase_inverse(r);
}

/// The range-clamped ramp: value and direction of travel, with the value held
/// inside `[RAMP_LOWER, RAMP_UPPER]`.
#[derive(Clone, Copy, PartialEq, Eq, Structural, Debug)]
pub struct ClampedRamp {
    pub value: u8,
    pub direction: Direction,
}

/// State of the clamped ramp after one tick: clamp and turn at a boundary
/// first, then move by the step.
pub open spec fn clamped_next(r: ClampedRamp) -> ClampedRamp {
    let v = if r.value >= RAMP_UPPER {
        RAMP_UPPER
    } else if r.value <= RAMP_LOWER {
        RAMP_LOWER
    } else {
        r.value
    };
    let d = if r.value >= RAMP_UPPER {
        Direction::Decreasing
    } else if r.value <= RAMP_LOWER {
        Direction::Increasing
    } else {
        r.direction
    };
    match d {
        Direction::Increasing => ClampedRamp { value: (v + RAMP_STEP) as u8, direction: d },
        Direction::Decreasing => ClampedRamp { value: (v - RAMP_STEP) as u8, direction: d },
    }
}

/// The clamped ramp after `n` ticks.
pub open spec fn clamped_iter(r: ClampedRamp, n: nat) -> ClampedRamp
    decreases n,
{
    if n == 0 {
        r
    } else {
        clamped_next(clamped_iter(r, (n - 1) as nat))
    }
}

/// Ticks after which the clamped ramp repeats: twice its range width.
pub open spec fn clamped_period() -> int {
    2 * RAMP_DEPTH
}

impl ClampedRamp {
    /// The value sits inside the declared range.
    pub open spec fn wf(self) -> bool {
        RAMP_LOWER <= self.value <= RAMP_UPPER
    }

    /// A state the ramp can come back to: rising states sit above the lower
    /// bound and falling states below the upper one, as every advance leaves
    /// them.
    pub open spec fn reachable(self) -> bool {
        &&& self.wf()
        &&& (self.direction == Direction::Increasing ==> self.value > RAMP_LOWER)
        &&& (self.direction == Direction::Decreasing ==> self.value < RAMP_UPPER)
    }

    /// Start-up state: brightness at the lower bound, about to turn around
    /// and rise.
    pub fn new() -> (r: ClampedRamp)
        ensures
            r.reachable(),
            r.value == RAMP_LOWER,
            r.direction == Direction::Decreasing,
    {
        ClampedRamp { value: RAMP_LOWER, direction: Direction::Decreasing }
    }

    /// Advance one tick. The value stays inside the range, and the direction
    /// flips only in a tick that starts on a boundary.
    pub fn advance(&mut self)
        requires
            old(self).wf(),
        ensures
            *final(self) == clamped_next(*old(self)),
            final(self).reachable(),
            final(self).direction != old(self).direction ==> (old(self).value == RAMP_UPPER
                || old(self).value == RAMP_LOWER),
    {
        if self.value >= RAMP_UPPER {
            self.value = RAMP_UPPER;
            self.direction = Direction::Decreasing;
        } else if self.value <= RAMP_LOWER {
            self.value = RAMP_LOWER;
            self.direction = Direction::Increasing;
        }
        match self.direction {
            Direction::Increasing => {
                self.value = self.value + RAMP_STEP;
            },
            Direction::Decreasing => {
                self.value = self.value - RAMP_STEP;
            },
        }
    }
}

/// Position of a reachable clamped state along its single cycle, counted from
/// the first rising state above the lower bound.
pub open spec fn clamped_phase(r: ClampedRamp) -> int {
    match r.direction {
        Direction::Increasing => r.value - RAMP_LOWER - 1,
        Direction::Decreasing => RAMP_DEPTH + (RAMP_UPPER - 1 - r.value),
    }
}

/// The reachable clamped state at a given position of the cycle.
pub open spec fn clamped_of_phase(p: int) -> ClampedRamp {
    if p < RAMP_DEPTH {
        ClampedRamp { value: (RAMP_LOWER + 1 + p) as u8, direction: Direction::Increasing }
    } else {
        ClampedRamp {
            value: (RAMP_UPPER - 1 - (p - RAMP_DEPTH)) as u8,
            direction: Direction::Decreasing,
        }
    }
}

proof fn lemma_clamped_phase_bounds(r: ClampedRamp)
    requires
        r.reachable(),
    ensures
        0 <= clamped_phase(r) < clamped_period(),
{
}

proof fn lemma_clamped_of_phase_inverse(r: ClampedRamp)
    requires
        r.reachable(),
    ensures
        clamped_of_phase(clamped_phase(r)) == r,
{
}

proof fn lemma_clamped_phase_of_phase(p: int)
    requires
        0 <= p < clamped_period(),
    ensures
        clamped_of_phase(p).reachable(),
        clamped_phase(clamped_of_phase(p)) == p,
{
}

proof fn lemma_clamped_next_phase(r: ClampedRamp)
    requires
        r.reachable(),
    ensures
        clamped_next(r).reachable(),
        clamped_phase(clamped_next(r)) == if clamped_phase(r) == clamped_period() - 1 {
            0
        } else {
            clamped_phase(r) + 1
        },
{
}

proof fn lemma_clamped_iter_additive(r: ClampedRamp, a: nat, b: nat)
    ensures
        clamped_iter(r, a + b) == clamped_iter(clamped_iter(r, a), b),
    decreases b,
{
    if b > 0 {
        lemma_clamped_iter_additive(r, a, (b - 1) as nat);
    }
}

proof fn lemma_clamped_iter_phase(r: ClampedRamp, n: nat)
    requires
        r.reachable(),
        clamped_phase(r) + n < clamped_period(),
    ensures
        clamped_iter(r, n) == clamped_of_phase(clamped_phase(r) + n),
    decreases n,
{
    lemma_clamped_phase_bounds(r);
    if n == 0 {
        lemma_clamped_of_phase_inverse(r);
    } else {
        lemma_clamped_iter_phase(r, (n - 1) as nat);
        let prev = clamped_iter(r, (n - 1) as nat);
        lemma_clamped_phase_of_phase(clamped_phase(r) + n - 1);
        lemma_clamped_next_phase(prev);
        lemma_clamped_of_phase_inverse(clamped_next(prev));
    }
}

/// Law: the clamped ramp is periodic — advancing any reachable state
/// `clamped_period()` ticks (twice the range width) returns it to the same
/// value and direction.
pub proof fn lemma_clamped_periodic(r: ClampedRamp)
    requires
        r.reachable(),
    ensures
        clamped_iter(r, clamped_period() as nat) == r,
{
    let p = clamped_phase(r);
    let last = clamped_period() - 1;
    lemma_clamped_phase_bounds(r);
    lemma_clamped_iter_phase(r, (last - p) as nat);
    let a = clamped_iter(r, (last - p) as nat);
    lemma_clamped_phase_of_phase(last);
    lemma_clamped_next_phase(a);
    lemma_clamped_iter_additive(r, (last - p) as nat, 1);
    let b = clamped_iter(r, (clamped_period() - p) as nat);
    assert(b == clamped_next(a));
    lemma_clamped_of_phase_inverse(b);
    lemma_clamped_iter_additive(r, (clamped_period() - p) as nat, p as nat);
    lemma_clamped_iter_phase(b, p as nat);
    lemma_clamped_of_phase_inverse(r);
}

} // verus!
