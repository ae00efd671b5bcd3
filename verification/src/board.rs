//! The board: sole owner of the register set, and the operations that
//! configure the pins, drive the LEDs and sample the button.

use vstd::prelude::*;
use crate::registers::{
    law_init_configures, law_read_back, law_with_led, law_with_number, led_pin, led_state_of,
    number_of, pin_of_led,
    Registers, BUTTON_BANK_CLOCK, BUTTON_PIN, LED_BANK_CLOCK, LED_COUNT, LED_MODE_BITS,
    LED_MODE_OUTPUTS, LED_OUTPUT_BITS, LED_PINS, MODE_INPUT, MODE_OUTPUT, PULL_FLOATING,
};
use crate::state::{ButtonState, LEDState, LedError};
use crate::word::{
    bit_is_set, pin_field, read_pin_field, test_bit, with_bit, with_pin_field, write_bit,
    write_pin_field,
};

verus! {

/// The register set of the device while nobody owns it. It can be taken
/// once; every later attempt finds it gone.
pub struct PeripheralSet {
    registers: Option<Registers>,
}

impl View for PeripheralSet {
    type V = Option<Registers>;

    /// The registers that are still to be taken, if any.
    closed spec fn view(&self) -> Option<Registers> {
        self.registers
    }
}

impl PeripheralSet {
    /// A register set that has not been taken yet.
    pub fn new(registers: Registers) -> (set: PeripheralSet)
        ensures
            set@ == Some(registers),
    {
        PeripheralSet { registers: Some(registers) }
    }

    /// Whether the register set is still to be taken.
    pub fn is_available(&self) -> (available: bool)
        ensures
            available == (self@ is Some),
    {
        self.registers.is_some()
    }

    /// Hands the registers out if they are still there, and leaves the set
    /// empty either way.
    pub fn take(&mut self) -> (taken: Option<Registers>)
        ensures
            taken == old(self)@,
            final(self)@ is None,
    {
        let taken = self.registers;
        self.registers = None;
        taken
    }
}

/// The board. It owns the register set; whoever holds the board is the only
/// one who can change a register.
pub struct Board {
    registers: Registers,
}

impl View for Board {
    type V = Registers;

    /// The register words as the board holds them.
    closed spec fn view(&self) -> Registers {
        self.registers
    }
}

/// The LED mode word once the fields of the first `count` LED pins have been
/// made outputs.
spec fn led_modes_so_far(led_mode: u32, count: u8) -> u32 {
    let done = (!(0xffff_ffffu32 << ((2 * count) as u32))) << 16;
    (led_mode & !done) | (LED_MODE_OUTPUTS & done)
}

proof fn lemma_led_modes_start(led_mode: u32)
    ensures
        led_modes_so_far(led_mode, 0) == led_mode,
{
    assert(led_modes_so_far(led_mode, 0) == led_mode) by (bit_vector);
}

proof fn lemma_led_modes_step(led_mode: u32, count: u8)
    requires
        count < LED_COUNT,
    ensures
        with_pin_field(led_modes_so_far(led_mode, count), pin_of_led(count), MODE_OUTPUT)
            == led_modes_so_far(led_mode, (count + 1) as u8),
{
    assert(with_pin_field(led_modes_so_far(led_mode, count), pin_of_led(count), MODE_OUTPUT)
        == led_modes_so_far(led_mode, (count + 1) as u8)) by (bit_vector)
        requires
            count < LED_COUNT,
    ;
}

proof fn lemma_led_modes_end(led_mode: u32)
    ensures
        led_modes_so_far(led_mode, LED_COUNT) == (led_mode & !LED_MODE_BITS) | LED_MODE_OUTPUTS,
{
    assert(led_modes_so_far(led_mode, LED_COUNT) == (led_mode & !LED_MODE_BITS) | LED_MODE_OUTPUTS)
        by (bit_vector);
}

/// The output word once the first `count` LEDs show the low bits of `value`.
spec fn output_so_far(led_output: u32, value: u8, count: u8) -> u32 {
    let done = !(0xffff_ffffu32 << (count as u32));
    (led_output & !(done << 8)) | (((value as u32) & done) << 8)
}

proof fn lemma_output_start(led_output: u32, value: u8)
    ensures
        output_so_far(led_output, value, 0) == led_output,
{
    assert(output_so_far(led_output, value, 0) == led_output) by (bit_vector);
}

proof fn lemma_output_step(led_output: u32, value: u8, count: u8)
    requires
        count < LED_COUNT,
    ensures
        with_bit(
            output_so_far(led_output, value, count),
            pin_of_led(count),
            (1u8 << count) & value != 0,
        ) == output_so_far(led_output, value, (count + 1) as u8),
{
    assert(with_bit(
        output_so_far(led_output, value, count),
        pin_of_led(count),
        (1u8 << count) & value != 0,
    ) == output_so_far(led_output, value, (count + 1) as u8)) by (bit_vector)
        requires
            count < LED_COUNT,
    ;
}

proof fn lemma_output_end(led_output: u32, value: u8)
    ensures
        output_so_far(led_output, value, LED_COUNT) == (led_output & !LED_OUTPUT_BITS) | ((
        value as u32) << 8),
{
    assert(output_so_far(led_output, value, LED_COUNT) == (led_output & !LED_OUTPUT_BITS) | ((
    value as u32) << 8)) by (bit_vector);
}

impl Board {
    /// Acquires the register set. The first acquisition yields the board;
    /// once the set has been taken there is no second board.
    pub fn new(set: &mut PeripheralSet) -> (board: Option<Board>)
        ensures
            final(set)@ is None,
            old(set)@ is Some ==> (board matches Some(acquired) && Some(acquired@) == old(set)@),
            old(set)@ is None ==> board is None,
    {
        match set.take() {
            Some(registers) => Some(Board { registers }),
            None => None,
        }
    }

    /// The register words, to be written to the device.
    pub fn registers(&self) -> (registers: Registers)
        ensures
            registers == self@,
    {
        self.registers
    }

    /// Replaces the register words by what was read from the device.
    pub fn load(&mut self, registers: Registers)
        ensures
            final(self)@ == registers,
    {
        self.registers = registers;
    }

    /// Enables the clocks of the LED bank and of the button bank.
    pub fn enable_clocks(&mut self)
        ensures
            final(self)@ == old(self)@.with_clocks_enabled(),
            final(self)@.clocks_enabled(),
    {
        let gated = write_bit(self.registers.clock_enable, LED_BANK_CLOCK, true);
        self.registers.clock_enable = write_bit(gated, BUTTON_BANK_CLOCK, true);
        proof {
            law_init_configures(old(self)@);
        }
    }

    /// Makes the eight LED pins push-pull outputs and the button pin a
    /// floating input.
    pub fn configure_pins(&mut self)
        ensures
            final(self)@ == old(self)@.with_pins_configured(),
            final(self)@.pins_configured(),
    {
        let ghost before = self.registers.led_mode;
        let mut led_mode = self.registers.led_mode;
        let mut index: u8 = 0;
        proof {
            lemma_led_modes_start(before);
        }
        while index < LED_COUNT
            invariant
                index <= LED_COUNT,
                led_mode == led_modes_so_far(before, index),
            decreases LED_COUNT - index,
        {
            led_mode = write_pin_field(led_mode, LED_PINS[index as usize], MODE_OUTPUT);
            proof {
                lemma_led_modes_step(before, index);
            }
            index += 1;
        }
        proof {
            lemma_led_modes_end(before);
            law_init_configures(old(self)@);
        }
        self.registers.led_mode = led_mode;
        self.registers.button_mode = write_pin_field(
            self.registers.button_mode,
            BUTTON_PIN,
            MODE_INPUT,
        );
        self.registers.button_pull = write_pin_field(
            self.registers.button_pull,
            BUTTON_PIN,
            PULL_FLOATING,
        );
    }

    /// Initializes the board: enables the clocks of both banks, then
    /// configures the LED pins and the button pin. Whatever the registers
    /// held, they are initialized afterwards; on an initialized board this
    /// changes nothing.
    pub fn init(&mut self)
        ensures
            final(self)@ == old(self)@.after_init(),
            final(self)@.initialized(),
    {
        self.enable_clocks();
        self.configure_pins();
    }

    /// Whether the registers hold the configuration that `init` leaves.
    pub fn is_initialized(&self) -> (initialized: bool)
        ensures
            initialized == self@.initialized(),
    {
        let clocked = test_bit(self.registers.clock_enable, LED_BANK_CLOCK) && test_bit(
            self.registers.clock_enable,
            BUTTON_BANK_CLOCK,
        );
        let mut outputs = true;
        let ghost mut other: u8 = 0;
        let mut index: u8 = 0;
        while index < LED_COUNT
            invariant
                index <= LED_COUNT,
                outputs ==> forall|led: u8|
                    led < index ==> #[trigger] pin_field(self@.led_mode, pin_of_led(led))
                        == MODE_OUTPUT,
                !outputs ==> other < index && pin_field(self@.led_mode, pin_of_led(other))
                    != MODE_OUTPUT,
            decreases LED_COUNT - index,
        {
            let pin = LED_PINS[index as usize];
            assert(pin == pin_of_led(index));
            if outputs && read_pin_field(self.registers.led_mode, pin) != MODE_OUTPUT {
                outputs = false;
                proof {
                    other = index;
                }
            }
            index += 1;
        }
        let input = read_pin_field(self.registers.button_mode, BUTTON_PIN) == MODE_INPUT;
        let floating = read_pin_field(self.registers.button_pull, BUTTON_PIN) == PULL_FLOATING;
        clocked && outputs && input && floating
    }

    /// Samples the user button: `Closed` when its input bit is high, `Open`
    /// otherwise.
    pub fn read_user_button(&self) -> (button: ButtonState)
        requires
            self@.initialized(),
        ensures
            button == self@.button(),
    {
        if test_bit(self.registers.button_input, BUTTON_PIN) {
            ButtonState::Closed
        } else {
            ButtonState::Open
        }
    }

    /// Lights LED `num`. An index that names no LED is refused and changes
    /// nothing.
    pub fn turn_on_led(&mut self, num: u8) -> (result: Result<(), LedError>)
        requires
            old(self)@.initialized(),
        ensures
            num < LED_COUNT ==> {
                &&& result is Ok
                &&& final(self)@ == old(self)@.with_led(num, LEDState::On)
            },
            num >= LED_COUNT ==> {
                &&& result == Err::<(), LedError>(LedError::OutOfRange)
                &&& final(self)@ == old(self)@
            },
            final(self)@.initialized(),
    {
        match led_pin(num) {
            Some(pin) => {
                self.registers.led_output = write_bit(self.registers.led_output, pin, true);
                Ok(())
            },
            None => Err(LedError::OutOfRange),
        }
    }

    /// Puts out LED `num`. An index that names no LED is refused and changes
    /// nothing.
    pub fn turn_off_led(&mut self, num: u8) -> (result: Result<(), LedError>)
        requires
            old(self)@.initialized(),
        ensures
            num < LED_COUNT ==> {
                &&& result is Ok
                &&& final(self)@ == old(self)@.with_led(num, LEDState::Off)
            },
            num >= LED_COUNT ==> {
                &&& result == Err::<(), LedError>(LedError::OutOfRange)
                &&& final(self)@ == old(self)@
            },
            final(self)@.initialized(),
    {
        match led_pin(num) {
            Some(pin) => {
                self.registers.led_output = write_bit(self.registers.led_output, pin, false);
                Ok(())
            },
            None => Err(LedError::OutOfRange),
        }
    }

    /// Switches LED `num` to `state`. Exactly the output bit of that LED
    /// takes the new state; an index that names no LED is refused and
    /// changes nothing.
    pub fn change_led(&mut self, num: u8, state: LEDState) -> (result: Result<(), LedError>)
        requires
            old(self)@.initialized(),
        ensures
            num < LED_COUNT ==> {
                &&& result is Ok
                &&& final(self)@ == old(self)@.with_led(num, state)
                &&& final(self)@.led(num) == state
                &&& forall|position: u32|
                    position < 32 && position != pin_of_led(num) ==> #[trigger] bit_is_set(
                        final(self)@.led_output,
                        position,
                    ) == bit_is_set(old(self)@.led_output, position)
            },
            num >= LED_COUNT ==> {
                &&& result == Err::<(), LedError>(LedError::OutOfRange)
                &&& final(self)@ == old(self)@
            },
            final(self)@.initialized(),
    {
        proof {
            if num < LED_COUNT {
                law_with_led(old(self)@, num, state);
            }
        }
        match state {
            LEDState::On => self.turn_on_led(num),
            LEDState::Off => self.turn_off_led(num),
        }
    }

    /// Shows `num` in binary on the eight LEDs: LED `i` is lit exactly when
    /// bit `i` of `num` is set. The LEDs are switched one by one, LED 0
    /// first; a refusal by any of them would be handed on, and none refuses.
    pub fn display_number(&mut self, num: u8) -> (result: Result<(), LedError>)
        requires
            old(self)@.initialized(),
        ensures
            result is Ok,
            final(self)@ == old(self)@.with_number(num),
            forall|index: u8|
                index < LED_COUNT ==> #[trigger] final(self)@.led(index) == led_state_of(
                    bit_is_set(num as u32, index as u32),
                ),
            number_of(final(self)@.led_states()) == num,
            forall|position: u32|
                position < 32 && !(8 <= position < 16) ==> #[trigger] bit_is_set(
                    final(self)@.led_output,
                    position,
                ) == bit_is_set(old(self)@.led_output, position),
            final(self)@.initialized(),
    {
        let ghost before = self@;
        proof {
            lemma_output_start(before.led_output, num);
        }
        let mut led: u8 = 0;
        while led < LED_COUNT
            invariant
                led <= LED_COUNT,
                self@.initialized(),
                self@ == (Registers {
                    led_output: output_so_far(before.led_output, num, led),
                    ..before
                }),
            decreases LED_COUNT - led,
        {
            let switched = if (1u8 << led) & num == 0 {
                self.turn_off_led(led)
            } else {
                self.turn_on_led(led)
            };
            match switched {
                Ok(()) => {},
                Err(error) => {
                    return Err(error);
                },
            }
            proof {
                lemma_output_step(before.led_output, num, led);
            }
            led += 1;
        }
        proof {
            lemma_output_end(before.led_output, num);
            law_with_number(before, num);
            law_read_back(before, num);
        }
        Ok(())
    }

    /// Reads the eight LEDs back from the output word, by LED index.
    pub fn read_leds(&self) -> (leds: [LEDState; 8])
        requires
            self@.initialized(),
        ensures
            leds@ == self@.led_states(),
    {
        let mut leds = [LEDState::Off; 8];
        let mut index: u8 = 0;
        while index < LED_COUNT
            invariant
                index <= LED_COUNT,
                forall|led: int| 0 <= led < index ==> leds@[led] == self@.led(led as u8),
            decreases LED_COUNT - index,
        {
            if test_bit(self.registers.led_output, LED_PINS[index as usize]) {
                leds[index as usize] = LEDState::On;
            } else {
                leds[index as usize] = LEDState::Off;
            }
            index += 1;
        }
        assert(leds@ =~= self@.led_states());
        leds
    }
}

} // verus!
