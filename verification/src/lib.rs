//! A verified driver core for an eight-LED compass board with one user
//! button: the register words of the clock gates and of the two GPIO banks,
//! and the operations that configure the pins, drive the LEDs and sample the
//! button.

pub mod state;
pub mod word;
pub mod registers;
pub mod board;
pub mod counter;

pub use crate::board::{Board, PeripheralSet};
pub use crate::counter::{next_count, poll, INITIAL_COUNT};
pub use crate::registers::{display_number_inverse, Registers};
pub use crate::state::{ButtonState, LEDState, LedError};
