//! Verified control logic for a two-button, two-LED breathing-lamp firmware.
//!
//! The crate holds everything the firmware loop decides: debouncing of the two
//! push-button inputs, the oscillating brightness ramp, the single-byte serial
//! command and report protocol, the mapping from mode and ramp position to the
//! two PWM duty cycles, and the driver that runs one tick of the loop. The
//! hardware itself (pins, serial port, PWM timer, the fixed 10 ms delay) stays
//! outside: the driver takes plain sampled values and hands back plain duty
//! values and report bytes.

pub mod debounce;
pub mod driver;
pub mod mapper;
pub mod protocol;
pub mod ramp;
