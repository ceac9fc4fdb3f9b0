use breather::debounce::{Debouncer, Edge, STABILITY_THRESHOLD};

#[test]
fn no_edge_before_threshold() {
    // From a stable asserted level, fewer than 16 de-asserted samples confirm
    // nothing.
    let mut d = Debouncer::new(true);
    for _ in 0..STABILITY_THRESHOLD - 1 {
        assert_eq!(d.update(false), None);
    }
    assert_eq!(d.stable_level(), true);
}

#[test]
fn falling_edge_exactly_at_threshold() {
    let mut d = Debouncer::new(true);
    for _ in 0..STABILITY_THRESHOLD - 1 {
        assert_eq!(d.update(false), None);
    }
    assert_eq!(d.update(false), Some(Edge::Falling));
    assert_eq!(d.stable_level(), false);
    // A longer unanimous run reports the edge only once.
    for _ in 0..20 {
        assert_eq!(d.update(false), None);
    }
}

#[test]
fn non_unanimous_window_resets() {
    let mut d = Debouncer::new(true);
    for _ in 0..STABILITY_THRESHOLD - 1 {
        assert_eq!(d.update(false), None);
    }
    // One disagreeing sample spoils the window; the count starts over.
    assert_eq!(d.update(true), None);
    for _ in 0..STABILITY_THRESHOLD - 1 {
        assert_eq!(d.update(false), None);
    }
    assert_eq!(d.update(false), Some(Edge::Falling));
}

#[test]
fn rising_edge_after_falling() {
    let mut d = Debouncer::new(true);
    for _ in 0..STABILITY_THRESHOLD {
        d.update(false);
    }
    assert_eq!(d.stable_level(), false);
    for _ in 0..STABILITY_THRESHOLD - 1 {
        assert_eq!(d.update(true), None);
    }
    assert_eq!(d.update(true), Some(Edge::Rising));
    assert_eq!(d.stable_level(), true);
}

#[test]
fn independent_instances() {
    // Two debouncers never share state: driving one leaves the other as it was.
    let mut a = Debouncer::new(true);
    let mut b = Debouncer::new(true);
    for _ in 0..STABILITY_THRESHOLD {
        a.update(false);
    }
    assert_eq!(a.stable_level(), false);
    assert_eq!(b.stable_level(), true);
    for _ in 0..STABILITY_THRESHOLD - 1 {
        assert_eq!(b.update(false), None);
    }
    assert_eq!(b.update(false), Some(Edge::Falling));
}
