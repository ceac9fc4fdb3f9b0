//! The single-byte serial command and report protocol.
//!
//! Inbound, each byte read from the serial link either selects a [`Mode`] or
//! is ignored: `'s'` selects `StartOnly`, `'n'` selects `Off`, `'b'` selects
//! `On`, and every other byte — including the absence of a byte — leaves the
//! mode as it was, so the last valid command wins. Outbound, a confirmed
//! falling edge on a button emits that button's one-byte tag followed by a
//! line terminator; nothing awaits an acknowledgement. The tag vocabulary is
//! a parameter here, since the two board builds label the buttons
//! differently: one uses [`REPORT_BUTTON1`] and [`REPORT_BUTTON2`], the other
//! [`REPORT_BUTTON1`] and [`ALT_REPORT_BUTTON2`]. The overlap between the
//! inbound command letters and the outbound tags is kept as the boards have
//! it: the link's two directions never mix, so the shared letters are
//! harmless.

use vstd::prelude::*;
use crate::debounce::Edge;

verus! {

/// Inbound command byte selecting `Mode::StartOnly` (the letter `s`).
pub const CMD_START_ONLY: u8 = 115;

/// Inbound command byte selecting `Mode::Off` (the letter `n`).
pub const CMD_OFF: u8 = 110;

/// Inbound command byte selecting `Mode::On` (the letter `b`).
pub const CMD_ON: u8 = 98;

/// Outbound tag for a falling edge of button 1 (the letter `n`).
pub const REPORT_BUTTON1: u8 = 110;

/// Outbound tag for a falling edge of button 2 (the letter `p`).
pub const REPORT_BUTTON2: u8 = 112;

/// Outbound tag for a falling edge of button 2 on the other board build (the
/// letter `b`).
pub const ALT_REPORT_BUTTON2: u8 = 98;

/// Line terminator that closes every outbound report.
pub const LINE_END: u8 = 10;

/// Which output mapping is active. Selected only by inbound serial commands.
#[derive(Clone, Copy, PartialEq, Eq, Structural, Debug)]
pub enum Mode {
    Off,
    On,
    StartOnly,
}

/// The mode a byte selects, if it is a recognized command.
pub open spec fn command_of_byte(b: u8) -> Option<Mode> {
    if b == CMD_START_ONLY {
        Some(Mode::StartOnly)
    } else if b == CMD_OFF {
        Some(Mode::Off)
    } else if b == CMD_ON {
        Some(Mode::On)
    } else {
        None
    }
}

/// The mode after one poll of the serial link: a recognized command replaces
/// the mode, anything else — an unrecognized byte or no byte at all — keeps
/// it.
pub open spec fn next_mode(m: Mode, inbound: Option<u8>) -> Mode {
    match inbound {
        Some(b) => match command_of_byte(b) {
            Some(c) => c,
            None => m,
        },
        None => m,
    }
}

/// Interpret one inbound serial byte as a mode command.
pub fn on_serial_byte(b: u8) -> (cmd: Option<Mode>)
    ensures
        cmd == command_of_byte(b),
{
    if b == CMD_START_ONLY {
        Some(Mode::StartOnly)
    } else if b == CMD_OFF {
        Some(Mode::Off)
    } else if b == CMD_ON {
        Some(Mode::On)
    } else {
        None
    }
}

/// Apply at most one inbound byte to the current mode.
pub fn apply_inbound(m: Mode, inbound: Option<u8>) -> (next: Mode)
    ensures
        next == next_mode(m, inbound),
{
    match inbound {
        Some(b) => match on_serial_byte(b) {
            Some(c) => c,
            None => m,
        },
        None => m,
    }
}

/// The bytes one tick sends: a tagged line for each confirmed falling edge,
/// button 1 first.
pub open spec fn report_seq(e1: Option<Edge>, e2: Option<Edge>, tag1: u8, tag2: u8) -> Seq<u8> {
    (if e1 == Some(Edge::Falling) {
        seq![tag1, LINE_END]
    } else {
        Seq::<u8>::empty()
    }) + (if e2 == Some(Edge::Falling) {
        seq![tag2, LINE_END]
    } else {
        Seq::<u8>::empty()
    })
}

/// Build the outbound report for one tick's pair of edge results.
pub fn edge_reports(e1: Option<Edge>, e2: Option<Edge>, tag1: u8, tag2: u8) -> (out: Vec<u8>)
    ensures
        out@ == report_seq(e1, e2, tag1, tag2),
{
    let mut out: Vec<u8> = Vec::new();
    match e1 {
        Some(Edge::Falling) => {
            out.push(tag1);
            out.push(LINE_END);
        },
        _ => {},
    }
    match e2 {
        Some(Edge::Falling) => {
            out.push(tag2);
            out.push(LINE_END);
        },
        _ => {},
    }
    proof {
        assert(out@ =~= report_seq(e1, e2, tag1, tag2));
    }
    out
}

} // verus!
