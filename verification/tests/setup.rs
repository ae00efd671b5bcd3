use led_board::board::{Board, PeripheralSet};
use led_board::registers::Registers;
use led_board::state::ButtonState;
use led_board::word::{read_pin_field, test_bit, write_bit, write_pin_field};

fn registers_of(word: u32) -> Registers {
    Registers {
        clock_enable: word,
        led_mode: word,
        led_output: word,
        button_mode: word,
        button_pull: word,
        button_input: word,
    }
}

fn board_with(registers: Registers) -> Board {
    let mut set = PeripheralSet::new(registers);
    Board::new(&mut set).unwrap()
}

#[test]
fn write_bit_sets_and_clears() {
    assert_eq!(write_bit(0, 0, true), 1);
    assert_eq!(write_bit(0, 31, true), 0x8000_0000);
    assert_eq!(write_bit(0xffff_ffff, 31, false), 0x7fff_ffff);
    assert_eq!(write_bit(0x0000_0100, 8, true), 0x0000_0100);
    assert_eq!(write_bit(0x0000_0100, 8, false), 0);
    assert_eq!(write_bit(0x0000_0100, 9, false), 0x0000_0100);
}

#[test]
fn test_bit_reads_one_bit() {
    assert!(test_bit(1, 0));
    assert!(!test_bit(1, 1));
    assert!(test_bit(0x8000_0000, 31));
    assert!(!test_bit(0x7fff_ffff, 31));
}

#[test]
fn pin_fields_are_two_bits_wide() {
    assert_eq!(write_pin_field(0, 8, 1), 0x0001_0000);
    assert_eq!(write_pin_field(0xffff_ffff, 8, 1), 0xfffd_ffff);
    assert_eq!(write_pin_field(0xffff_ffff, 0, 0), 0xffff_fffc);
    assert_eq!(write_pin_field(0, 15, 3), 0xc000_0000);
    assert_eq!(read_pin_field(0x0001_0000, 8), 1);
    assert_eq!(read_pin_field(0xa800_0000, 13), 2);
    assert_eq!(read_pin_field(0xa800_0000, 0), 0);
    assert_eq!(read_pin_field(0xffff_ffff, 15), 3);
}

#[test]
fn the_register_set_is_taken_once() {
    let mut set = PeripheralSet::new(registers_of(7));
    assert!(set.is_available());
    assert_eq!(set.take(), Some(registers_of(7)));
    assert!(!set.is_available());
    assert_eq!(set.take(), None);
    assert!(!set.is_available());
}

#[test]
fn a_second_board_cannot_be_acquired() {
    let mut set = PeripheralSet::new(registers_of(0x0bad_cafe));
    let first = Board::new(&mut set);
    assert!(first.is_some());
    assert_eq!(first.unwrap().registers(), registers_of(0x0bad_cafe));
    assert!(Board::new(&mut set).is_none());
    assert!(Board::new(&mut set).is_none());
}

#[test]
fn load_replaces_the_registers() {
    let mut board = board_with(registers_of(0));
    board.load(registers_of(0x1234_5678));
    assert_eq!(board.registers(), registers_of(0x1234_5678));
}

#[test]
fn init_from_cleared_registers() {
    let mut board = board_with(registers_of(0));
    assert!(!board.is_initialized());
    board.init();
    assert!(board.is_initialized());
    assert_eq!(
        board.registers(),
        Registers {
            clock_enable: 0x0022_0000,
            led_mode: 0x5555_0000,
            led_output: 0,
            button_mode: 0,
            button_pull: 0,
            button_input: 0,
        }
    );
}

#[test]
fn init_from_filled_registers() {
    let mut board = board_with(registers_of(0xffff_ffff));
    assert!(!board.is_initialized());
    board.init();
    assert!(board.is_initialized());
    assert_eq!(
        board.registers(),
        Registers {
            clock_enable: 0xffff_ffff,
            led_mode: 0x5555_ffff,
            led_output: 0xffff_ffff,
            button_mode: 0xffff_fffc,
            button_pull: 0xffff_fffc,
            button_input: 0xffff_ffff,
        }
    );
}

#[test]
fn init_from_power_on_values() {
    let mut board = board_with(Registers {
        clock_enable: 0x0000_0014,
        led_mode: 0,
        led_output: 0,
        button_mode: 0xa800_0000,
        button_pull: 0x6400_0000,
        button_input: 0,
    });
    board.init();
    assert_eq!(
        board.registers(),
        Registers {
            clock_enable: 0x0022_0014,
            led_mode: 0x5555_0000,
            led_output: 0,
            button_mode: 0xa800_0000,
            button_pull: 0x6400_0000,
            button_input: 0,
        }
    );
}

#[test]
fn init_twice_is_init_once() {
    let words: [u32; 5] = [0, 0xffff_ffff, 0xdead_beef, 0x0000_0014, 0xaaaa_aaaa];
    for word in words {
        let mut board = board_with(registers_of(word));
        board.init();
        let once = board.registers();
        board.init();
        assert_eq!(board.registers(), once);
    }
}

#[test]
fn init_in_two_stages() {
    let mut staged = board_with(registers_of(0xdead_beef));
    staged.enable_clocks();
    assert_eq!(
        staged.registers(),
        Registers { clock_enable: 0xdeaf_beef, ..registers_of(0xdead_beef) }
    );
    assert!(!staged.is_initialized());
    staged.configure_pins();
    assert!(staged.is_initialized());
    let mut whole = board_with(registers_of(0xdead_beef));
    whole.init();
    assert_eq!(staged.registers(), whole.registers());
    assert_eq!(
        whole.registers(),
        Registers {
            clock_enable: 0xdeaf_beef,
            led_mode: 0x5555_beef,
            led_output: 0xdead_beef,
            button_mode: 0xdead_beec,
            button_pull: 0xdead_beec,
            button_input: 0xdead_beef,
        }
    );
}

#[test]
fn one_missing_setting_is_noticed() {
    let mut board = board_with(registers_of(0));
    board.init();
    let ready = board.registers();
    board.load(Registers { clock_enable: 0x0020_0000, ..ready });
    assert!(!board.is_initialized());
    board.load(Registers { clock_enable: 0x0002_0000, ..ready });
    assert!(!board.is_initialized());
    board.load(Registers { led_mode: 0x5551_0000, ..ready });
    assert!(!board.is_initialized());
    board.load(Registers { led_mode: 0x9555_0000, ..ready });
    assert!(!board.is_initialized());
    board.load(Registers { button_mode: 1, ..ready });
    assert!(!board.is_initialized());
    board.load(Registers { button_pull: 2, ..ready });
    assert!(!board.is_initialized());
    board.load(Registers { led_mode: 0x5555_1234, button_mode: 0xa800_0000, ..ready });
    assert!(board.is_initialized());
}

#[test]
fn button_follows_the_lowest_input_bit() {
    let mut board = board_with(registers_of(0));
    board.init();
    let ready = board.registers();
    assert_eq!(board.read_user_button(), ButtonState::Open);
    board.load(Registers { button_input: 1, ..ready });
    assert_eq!(board.read_user_button(), ButtonState::Closed);
    board.load(Registers { button_input: 0xffff_fffe, ..ready });
    assert_eq!(board.read_user_button(), ButtonState::Open);
    board.load(Registers { button_input: 0xffff_ffff, ..ready });
    assert_eq!(board.read_user_button(), ButtonState::Closed);
}
