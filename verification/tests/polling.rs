use led_board::{
    next_count, poll, Board, ButtonState, LEDState, PeripheralSet, Registers, INITIAL_COUNT,
};

fn board_with_button(button_input: u32) -> Board {
    let mut set = PeripheralSet::new(Registers {
        clock_enable: 0,
        led_mode: 0,
        led_output: 0x0000_3c00,
        button_mode: 0,
        button_pull: 0,
        button_input,
    });
    let mut board = Board::new(&mut set).unwrap();
    board.init();
    board
}

#[test]
fn the_count_starts_at_zero() {
    assert_eq!(INITIAL_COUNT, 0);
}

#[test]
fn open_button_counts_up() {
    assert_eq!(next_count(0, ButtonState::Open), 1);
    assert_eq!(next_count(41, ButtonState::Open), 42);
    assert_eq!(next_count(254, ButtonState::Open), 255);
    assert_eq!(next_count(255, ButtonState::Open), 0);
}

#[test]
fn closed_button_counts_down() {
    assert_eq!(next_count(255, ButtonState::Closed), 254);
    assert_eq!(next_count(42, ButtonState::Closed), 41);
    assert_eq!(next_count(1, ButtonState::Closed), 0);
    assert_eq!(next_count(0, ButtonState::Closed), 255);
}

#[test]
fn open_at_255_wraps_to_all_leds_off() {
    let mut board = board_with_button(0);
    assert_eq!(board.read_user_button(), ButtonState::Open);
    assert_eq!(poll(&mut board, 255), Ok(0));
    assert_eq!(board.read_leds(), [LEDState::Off; 8]);
    assert_eq!(board.registers().led_output, 0);
}

#[test]
fn closed_at_0_wraps_to_all_leds_on() {
    let mut board = board_with_button(1);
    assert_eq!(board.read_user_button(), ButtonState::Closed);
    assert_eq!(poll(&mut board, 0), Ok(255));
    assert_eq!(board.read_leds(), [LEDState::On; 8]);
    assert_eq!(board.registers().led_output, 0x0000_ff00);
}

#[test]
fn polling_shows_each_new_count() {
    let mut board = board_with_button(0);
    let mut count: u8 = INITIAL_COUNT;
    let mut turn: u32 = 0;
    while turn < 300 {
        let expected: u8 = count.wrapping_add(1);
        assert_eq!(poll(&mut board, count), Ok(expected));
        assert_eq!(board.registers().led_output, (expected as u32) << 8);
        count = expected;
        turn += 1;
    }
    assert_eq!(count, 44);
    let shown = board.registers();
    board.load(Registers { button_input: 1, ..shown });
    assert_eq!(poll(&mut board, count), Ok(43));
    assert_eq!(board.registers().led_output, 0x0000_2b00);
}
