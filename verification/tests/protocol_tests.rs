use breather::debounce::Edge;
use breather::mapper::{direct_duties, map_duties};
use breather::protocol::{
    apply_inbound, edge_reports, on_serial_byte, Mode, ALT_REPORT_BUTTON2, LINE_END,
    REPORT_BUTTON1, REPORT_BUTTON2,
};

#[test]
fn recognized_commands() {
    assert_eq!(on_serial_byte(b's'), Some(Mode::StartOnly));
    assert_eq!(on_serial_byte(b'n'), Some(Mode::Off));
    assert_eq!(on_serial_byte(b'b'), Some(Mode::On));
}

#[test]
fn unrecognized_bytes_are_ignored() {
    assert_eq!(on_serial_byte(b'x'), None);
    assert_eq!(on_serial_byte(0), None);
    assert_eq!(on_serial_byte(255), None);
}

#[test]
fn last_valid_command_wins() {
    // 'b' selects On; a following unrecognized byte leaves the mode at On.
    let mode = apply_inbound(Mode::StartOnly, Some(b'b'));
    assert_eq!(mode, Mode::On);
    let mode = apply_inbound(mode, Some(b'z'));
    assert_eq!(mode, Mode::On);
    // No byte available is no change either.
    let mode = apply_inbound(mode, None);
    assert_eq!(mode, Mode::On);
}

#[test]
fn reports_for_each_edge_pattern() {
    let none: Vec<u8> = Vec::new();
    assert_eq!(edge_reports(None, None, REPORT_BUTTON1, REPORT_BUTTON2), none);
    assert_eq!(
        edge_reports(Some(Edge::Falling), None, REPORT_BUTTON1, REPORT_BUTTON2),
        vec![b'n', LINE_END]
    );
    assert_eq!(
        edge_reports(None, Some(Edge::Falling), REPORT_BUTTON1, REPORT_BUTTON2),
        vec![b'p', LINE_END]
    );
    assert_eq!(
        edge_reports(
            Some(Edge::Falling),
            Some(Edge::Falling),
            REPORT_BUTTON1,
            REPORT_BUTTON2
        ),
        vec![b'n', LINE_END, b'p', LINE_END]
    );
}

#[test]
fn rising_edges_are_not_reported() {
    let none: Vec<u8> = Vec::new();
    assert_eq!(
        edge_reports(Some(Edge::Rising), Some(Edge::Rising), REPORT_BUTTON1, REPORT_BUTTON2),
        none
    );
}

#[test]
fn alternate_vocabulary() {
    assert_eq!(
        edge_reports(
            Some(Edge::Falling),
            Some(Edge::Falling),
            REPORT_BUTTON1,
            ALT_REPORT_BUTTON2
        ),
        vec![b'n', LINE_END, b'b', LINE_END]
    );
}

#[test]
fn duty_mapping_on() {
    // On at ramp 96: both channels at 4 + 96/10 = 13.
    assert_eq!(map_duties(Mode::On, 96), (13, 13));
}

#[test]
fn duty_mapping_start_only() {
    // StartOnly at ramp 200: channel 1 dark, channel 2 at 125 + 200/2 = 225.
    assert_eq!(map_duties(Mode::StartOnly, 200), (0, 225));
}

#[test]
fn duty_mapping_off_is_constant() {
    assert_eq!(map_duties(Mode::Off, 0), (4, 4));
    assert_eq!(map_duties(Mode::Off, 200), (4, 4));
    assert_eq!(map_duties(Mode::Off, 255), (4, 4));
}

#[test]
fn duty_mapping_never_overflows() {
    // The largest ramp value still yields in-range duties in every mode.
    assert_eq!(map_duties(Mode::StartOnly, 255), (0, 252));
    assert_eq!(map_duties(Mode::On, 255), (29, 29));
}

#[test]
fn direct_mapping_follows_ramp() {
    assert_eq!(direct_duties(0), (0, 0));
    assert_eq!(direct_duties(245), (245, 245));
}
