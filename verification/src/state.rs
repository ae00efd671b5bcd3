//! The plain values that cross the board's interface.

use vstd::prelude::*;

verus! {

/// Whether one LED of the compass ring is lit.
#[derive(Debug, Clone, Copy, PartialEq, Eq, Structural)]
pub enum LEDState {
    Off,
    On,
}

/// The level of the user button at the moment it was sampled.
#[derive(Debug, Clone, Copy, PartialEq, Eq, Structural)]
pub enum ButtonState {
    Open,
    Closed,
}

/// Why an LED operation was refused.
#[derive(Debug, Clone, Copy, PartialEq, Eq, Structural)]
pub enum LedError {
    /// The LED index does not name one of the eight LEDs.
    OutOfRange,
}

} // verus!
