//! Mapping from the current mode and ramp position to the two PWM duty
//! cycles.
//!
//! `StartOnly` leaves channel 1 dark and breathes channel 2 in the upper half
//! of its range; `On` breathes both channels faintly together; `Off` holds
//! both at the constant floor. The one-mode board build instead feeds the raw
//! ramp value to both channels. The mapping is pure and total, and every duty
//! value fits its 8-bit register by construction.

use vstd::prelude::*;
use crate::protocol::Mode;

verus! {

/// Base duty applied in the `On` and `Off` mappings.
pub const DUTY_FLOOR: u8 = 4;

/// Base duty for channel 2 in the `StartOnly` mapping.
pub const START_ONLY_BASE: u8 = 125;

/// Duty pair for one mode and ramp value, channel 1 first.
pub open spec fn duty_pair(m: Mode, ramp: u8) -> (u8, u8) {
    match m {
        Mode::StartOnly => (0u8, (START_ONLY_BASE + ramp / 2) as u8),
        Mode::On => ((DUTY_FLOOR + ramp / 10) as u8, (DUTY_FLOOR + ramp / 10) as u8),
        Mode::Off => (DUTY_FLOOR, DUTY_FLOOR),
    }
}

/// Compute the duty cycles for both PWM channels from the active mode and
/// the current ramp value.
pub fn map_duties(m: Mode, ramp: u8) -> (d: (u8, u8))
    ensures
        d == duty_pair(m, ramp),
{
    match m {
        Mode::StartOnly => (0, START_ONLY_BASE + ramp / 2),
        Mode::On => (DUTY_FLOOR + ramp / 10, DUTY_FLOOR + ramp / 10),
        Mode::Off => (DUTY_FLOOR, DUTY_FLOOR),
    }
}

/// The one-mode mapping: both channels follow the ramp value directly.
pub fn direct_duties(ramp: u8) -> (d: (u8, u8))
    ensures
        d.0 == ramp,
        d.1 == ramp,
{
    (ramp, ramp)
}

} // verus!
