//! The counter of the polling loop: it goes up while the button is open and
//! down while it is closed, and the LEDs show it after every turn.

use vstd::prelude::*;
use crate::board::Board;
use crate::state::{ButtonState, LedError};

verus! {

/// The count that the polling loop starts from.
pub const INITIAL_COUNT: u8 = 0;

/// The count that follows `count`: one more for an open button, one less for
/// a closed one, wrapping at both ends.
pub open spec fn count_after(count: u8, button: ButtonState) -> u8 {
    match button {
        ButtonState::Open => if count == 255 {
            0u8
        } else {
            (count + 1) as u8
        },
        ButtonState::Closed => if count == 0 {
            255u8
        } else {
            (count - 1) as u8
        },
    }
}

/// Steps the counter for one sample of the button.
pub fn next_count(count: u8, button: ButtonState) -> (next: u8)
    ensures
        next == count_after(count, button),
{
    match button {
        ButtonState::Open => count.wrapping_add(1),
        ButtonState::Closed => count.wrapping_sub(1),
    }
}

/// One turn of the polling loop: samples the button, steps the counter and
/// shows the new count on the LEDs. Returns the new count.
pub fn poll(board: &mut Board, count: u8) -> (result: Result<u8, LedError>)
    requires
        old(board)@.initialized(),
    ensures
        result == Ok::<u8, LedError>(count_after(count, old(board)@.button())),
        final(board)@ == old(board)@.with_number(count_after(count, old(board)@.button())),
        final(board)@.initialized(),
{
    let next = next_count(count, board.read_user_button());
    match board.display_number(next) {
        Ok(()) => Ok(next),
        Err(error) => Err(error),
    }
}

} // verus!
