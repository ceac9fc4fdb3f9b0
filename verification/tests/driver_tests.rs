use breather::driver::Controller;
use breather::protocol::{Mode, LINE_END};

#[test]
fn single_press_reports_once() {
    // End to end: button 1 de-asserted for 20 ticks, then asserted for 20,
    // button 2 held asserted throughout, nothing inbound. The de-asserted run
    // confirms one falling edge; the report goes out exactly once.
    let mut c = Controller::new();
    let mut sent: Vec<u8> = Vec::new();
    for _ in 0..20 {
        let out = c.tick(false, true, None);
        sent.extend(out.reports);
    }
    for _ in 0..20 {
        let out = c.tick(true, true, None);
        sent.extend(out.reports);
    }
    assert_eq!(sent, vec![b'n', LINE_END]);
}

#[test]
fn both_buttons_report_their_own_tags() {
    let mut c = Controller::new();
    let mut sent: Vec<u8> = Vec::new();
    for _ in 0..20 {
        let out = c.tick(false, false, None);
        sent.extend(out.reports);
    }
    // Both falling edges are confirmed in the same tick, button 1 first.
    assert_eq!(sent, vec![b'n', LINE_END, b'p', LINE_END]);
}

#[test]
fn startup_duties_are_start_only() {
    let mut c = Controller::new();
    let out = c.tick(true, true, None);
    // StartOnly with ramp value 0: channel 1 dark, channel 2 at the base.
    assert_eq!(out.duty1, 0);
    assert_eq!(out.duty2, 125);
}

#[test]
fn inbound_byte_switches_mode_in_same_tick() {
    let mut c = Controller::new();
    // The duty written this tick already reflects the new mode.
    let out = c.tick(true, true, Some(b'n'));
    assert_eq!(out.duty1, 4);
    assert_eq!(out.duty2, 4);
    assert_eq!(c.mode, Mode::Off);
}

#[test]
fn unrecognized_byte_keeps_mode() {
    let mut c = Controller::new();
    c.tick(true, true, Some(b'b'));
    assert_eq!(c.mode, Mode::On);
    c.tick(true, true, Some(b'q'));
    assert_eq!(c.mode, Mode::On);
    let out = c.tick(true, true, None);
    assert_eq!(c.mode, Mode::On);
    // On at ramp value 1 (one step past the turn at zero): 4 + 1/10 = 4.
    assert_eq!(out.duty1, 4);
    assert_eq!(out.duty2, 4);
}

#[test]
fn ramp_advances_once_per_tick() {
    let mut c = Controller::new();
    c.tick(true, true, Some(b'b'));
    c.tick(true, true, None);
    // Ticks so far: turn at zero, then one step up.
    assert_eq!(c.ramp.value, 1);
    for _ in 0..95 {
        c.tick(true, true, None);
    }
    assert_eq!(c.ramp.value, 96);
    // On at ramp 96: both duties 4 + 96/10 = 13.
    let out = c.tick(true, true, None);
    assert_eq!(out.duty1, 13);
    assert_eq!(out.duty2, 13);
}
