use breather::ramp::{ClampedRamp, Direction, Ramp, RAMP_DEPTH, RAMP_LOWER, RAMP_UPPER};

#[test]
fn full_ramp_turns_at_zero() {
    // The start-up state points down at zero, so the first tick turns it up.
    let mut r = Ramp::new();
    assert_eq!(r.value, 0);
    assert_eq!(r.direction, Direction::Decreasing);
    r.advance();
    assert_eq!(r.value, 0);
    assert_eq!(r.direction, Direction::Increasing);
    r.advance();
    assert_eq!(r.value, 1);
    assert_eq!(r.direction, Direction::Increasing);
}

#[test]
fn full_ramp_saturates_at_max() {
    let mut r = Ramp::new();
    r.advance();
    // Climb from 0 to 255.
    for _ in 0..255 {
        r.advance();
    }
    assert_eq!(r.value, 255);
    assert_eq!(r.direction, Direction::Increasing);
    // The saturating tick clamps to the boundary and flips.
    r.advance();
    assert_eq!(r.value, 255);
    assert_eq!(r.direction, Direction::Decreasing);
    r.advance();
    assert_eq!(r.value, 254);
    assert_eq!(r.direction, Direction::Decreasing);
}

#[test]
fn full_ramp_period_is_twice_range() {
    let mut r = Ramp::new();
    // Move into the middle of the cycle first.
    for _ in 0..37 {
        r.advance();
    }
    let start = r;
    for _ in 0..512 {
        r.advance();
    }
    assert_eq!(r, start);
}

#[test]
fn full_ramp_flips_only_at_boundaries() {
    let mut r = Ramp::new();
    let mut prev = r;
    for _ in 0..1200 {
        r.advance();
        if r.direction != prev.direction {
            assert!(prev.value == 0 || prev.value == 255);
        }
        prev = r;
    }
}

#[test]
fn clamped_ramp_stays_in_range() {
    let mut r = ClampedRamp::new();
    for _ in 0..1000 {
        r.advance();
        assert!(RAMP_LOWER <= r.value && r.value <= RAMP_UPPER);
    }
}

#[test]
fn clamped_ramp_flips_only_at_boundaries() {
    let mut r = ClampedRamp::new();
    let mut prev = r;
    for _ in 0..1000 {
        r.advance();
        if r.direction != prev.direction {
            assert!(prev.value == RAMP_LOWER || prev.value == RAMP_UPPER);
        }
        prev = r;
    }
}

#[test]
fn clamped_ramp_turns_at_both_ends() {
    let mut r = ClampedRamp::new();
    assert_eq!(r.value, RAMP_LOWER);
    // First tick turns the start-up state around.
    r.advance();
    assert_eq!(r.value, RAMP_LOWER + 1);
    assert_eq!(r.direction, Direction::Increasing);
    // Climb to the upper bound.
    for _ in 0..RAMP_DEPTH - 1 {
        r.advance();
    }
    assert_eq!(r.value, RAMP_UPPER);
    assert_eq!(r.direction, Direction::Increasing);
    r.advance();
    assert_eq!(r.value, RAMP_UPPER - 1);
    assert_eq!(r.direction, Direction::Decreasing);
}

#[test]
fn clamped_ramp_period_is_twice_depth() {
    let mut r = ClampedRamp::new();
    // Any state reached by an advance lies on the cycle.
    r.advance();
    let start = r;
    for _ in 0..2 * (RAMP_DEPTH as u16) {
        r.advance();
    }
    assert_eq!(r, start);
}
