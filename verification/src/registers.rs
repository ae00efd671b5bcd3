//! The register set that the board owns, as plain words, and what each
//! operation of the board makes of it.

use vstd::prelude::*;
use crate::state::{ButtonState, LEDState};
use crate::word::{bit_is_set, pin_field, with_bit, with_pin_field};

verus! {

/// Number of LEDs on the compass ring.
pub const LED_COUNT: u8 = 8;

/// Pin of the LED bank that drives each LED, by LED index.
pub const LED_PINS: [u32; 8] = [8, 9, 10, 11, 12, 13, 14, 15];

/// Pin of the button bank that the user button is wired to.
pub const BUTTON_PIN: u32 = 0;

/// Bit of the clock-enable word that gates the button bank.
pub const BUTTON_BANK_CLOCK: u32 = 17;

/// Bit of the clock-enable word that gates the LED bank.
pub const LED_BANK_CLOCK: u32 = 21;

/// Pin-field value of a mode word: digital input.
pub const MODE_INPUT: u32 = 0;

/// Pin-field value of a mode word: push-pull digital output.
pub const MODE_OUTPUT: u32 = 1;

/// Pin-field value of a pull word: neither pull-up nor pull-down.
pub const PULL_FLOATING: u32 = 0;

/// The bits of the output word that drive the eight LEDs.
pub const LED_OUTPUT_BITS: u32 = 0x0000_ff00;

/// The bits of the mode word that hold the fields of the eight LED pins.
pub const LED_MODE_BITS: u32 = 0xffff_0000;

/// The mode word bits of eight LED pins that are all outputs.
pub const LED_MODE_OUTPUTS: u32 = 0x5555_0000;

/// The pin that drives LED `index`.
pub open spec fn pin_of_led(index: u8) -> u32 {
    (index + 8) as u32
}

/// The LED state that an output bit stands for.
pub open spec fn led_state_of(lit: bool) -> LEDState {
    if lit {
        LEDState::On
    } else {
        LEDState::Off
    }
}

/// The button state that an input bit stands for.
pub open spec fn button_state_of(high: bool) -> ButtonState {
    if high {
        ButtonState::Closed
    } else {
        ButtonState::Open
    }
}

/// The six register words that the board reads and writes.
#[derive(Debug, Clone, Copy, PartialEq, Eq, Structural)]
pub struct Registers {
    /// Clock-enable word of the bus that feeds the GPIO banks (RCC AHBENR).
    pub clock_enable: u32,
    /// Mode word of the LED bank (GPIOE MODER).
    pub led_mode: u32,
    /// Output data word of the LED bank (GPIOE ODR).
    pub led_output: u32,
    /// Mode word of the button bank (GPIOA MODER).
    pub button_mode: u32,
    /// Pull-up/pull-down word of the button bank (GPIOA PUPDR).
    pub button_pull: u32,
    /// Input data word of the button bank (GPIOA IDR).
    pub button_input: u32,
}

impl Registers {
    /// The state of LED `index`, for `index` below eight.
    pub open spec fn led(self, index: u8) -> LEDState {
        led_state_of(bit_is_set(self.led_output, pin_of_led(index)))
    }

    /// The states of the eight LEDs, by LED index.
    pub open spec fn led_states(self) -> Seq<LEDState> {
        Seq::new(8, |index: int| self.led(index as u8))
    }

    /// The state of the user button as last sampled.
    pub open spec fn button(self) -> ButtonState {
        button_state_of(bit_is_set(self.button_input, BUTTON_PIN))
    }

    /// Both GPIO banks are clocked.
    pub open spec fn clocks_enabled(self) -> bool {
        &&& bit_is_set(self.clock_enable, LED_BANK_CLOCK)
        &&& bit_is_set(self.clock_enable, BUTTON_BANK_CLOCK)
    }

    /// The eight LED pins are outputs and the button pin is a floating input.
    pub open spec fn pins_configured(self) -> bool {
        &&& forall|index: u8|
            index < LED_COUNT ==> #[trigger] pin_field(self.led_mode, pin_of_led(index))
                == MODE_OUTPUT
        &&& pin_field(self.button_mode, BUTTON_PIN) == MODE_INPUT
        &&& pin_field(self.button_pull, BUTTON_PIN) == PULL_FLOATING
    }

    /// The configuration that the LED and button operations rely on.
    pub open spec fn initialized(self) -> bool {
        self.clocks_enabled() && self.pins_configured()
    }

    /// The registers once both bank clocks have been enabled.
    pub open spec fn with_clocks_enabled(self) -> Registers {
        Registers {
            clock_enable: with_bit(
                with_bit(self.clock_enable, LED_BANK_CLOCK, true),
                BUTTON_BANK_CLOCK,
                true,
            ),
            ..self
        }
    }

    /// The registers once the LED pins and the button pin have been
    /// configured.
    pub open spec fn with_pins_configured(self) -> Registers {
        Registers {
            led_mode: (self.led_mode & !LED_MODE_BITS) | LED_MODE_OUTPUTS,
            button_mode: with_pin_field(self.button_mode, BUTTON_PIN, MODE_INPUT),
            button_pull: with_pin_field(self.button_pull, BUTTON_PIN, PULL_FLOATING),
            ..self
        }
    }

    /// The registers after initialization: clocks first, then pins.
    pub open spec fn after_init(self) -> Registers {
        self.with_clocks_enabled().with_pins_configured()
    }

    /// The registers once LED `index` has been switched to `state`.
    pub open spec fn with_led(self, index: u8, state: LEDState) -> Registers {
        Registers {
            led_output: with_bit(self.led_output, pin_of_led(index), state is On),
            ..self
        }
    }

    /// The registers once the eight LEDs show `value` in binary, LED 0 for
    /// the lowest bit.
    pub open spec fn with_number(self, value: u8) -> Registers {
        Registers {
            led_output: (self.led_output & !LED_OUTPUT_BITS) | ((value as u32) << 8),
            ..self
        }
    }
}

/// Looks up the pin that drives an LED; `None` when `index` names no LED.
pub fn led_pin(index: u8) -> (pin: Option<u32>)
    ensures
        index < LED_COUNT ==> pin == Some(pin_of_led(index)),
        index >= LED_COUNT ==> pin is None,
{
    if index < LED_COUNT {
        Some(LED_PINS[index as usize])
    } else {
        None
    }
}

/// What an LED contributes to the byte that the LEDs show.
pub open spec fn led_weight(state: LEDState, index: u8) -> u8 {
    if state is On {
        1u8 << index
    } else {
        0u8
    }
}

/// The byte that eight LED states show in binary, LED 0 for the lowest bit.
pub open spec fn number_of(leds: Seq<LEDState>) -> u8 {
    led_weight(leds[0], 0) | led_weight(leds[1], 1) | led_weight(leds[2], 2) | led_weight(
        leds[3],
        3,
    ) | led_weight(leds[4], 4) | led_weight(leds[5], 5) | led_weight(leds[6], 6) | led_weight(
        leds[7],
        7,
    )
}

/// The byte that the first `count` LED states contribute.
spec fn number_of_first(leds: Seq<LEDState>, count: u8) -> u8
    decreases count,
{
    if count == 0 {
        0u8
    } else {
        number_of_first(leds, (count - 1) as u8) | led_weight(
            leds[count - 1],
            (count - 1) as u8,
        )
    }
}

proof fn lemma_number_of_first_all(leds: Seq<LEDState>)
    ensures
        number_of_first(leds, LED_COUNT) == number_of(leds),
{
    reveal_with_fuel(number_of_first, 9);
    let lowest = led_weight(leds[0], 0);
    assert(0u8 | lowest == lowest) by (bit_vector);
}

/// Reassembles the byte that eight LED states show in binary, LED 0 for the
/// lowest bit.
pub fn display_number_inverse(leds: [LEDState; 8]) -> (value: u8)
    ensures
        value == number_of(leds@),
        forall|index: u8|
            index < LED_COUNT ==> #[trigger] bit_is_set(value as u32, index as u32) == (leds@[index as int] is On),
{
    let mut value: u8 = 0;
    let mut index: u8 = 0;
    while index < LED_COUNT
        invariant
            index <= LED_COUNT,
            value == number_of_first(leds@, index),
        decreases LED_COUNT - index,
    {
        match leds[index as usize] {
            LEDState::On => {
                value = value | (1u8 << index);
            },
            LEDState::Off => {
                assert(value | 0u8 == value) by (bit_vector);
            },
        }
        index += 1;
    }
    proof {
        lemma_number_of_first_all(leds@);
        law_number_of_bits(leds@);
    }
    value
}

/// Bit `index` of the byte that eight LED states show is set exactly when
/// LED `index` is on.
pub proof fn law_number_of_bits(leds: Seq<LEDState>)
    requires
        leds.len() == 8,
    ensures
        forall|index: u8|
            index < LED_COUNT ==> #[trigger] bit_is_set(number_of(leds) as u32, index as u32) == (
            leds[index as int] is On),
{
    let b0 = leds[0] is On;
    let b1 = leds[1] is On;
    let b2 = leds[2] is On;
    let b3 = leds[3] is On;
    let b4 = leds[4] is On;
    let b5 = leds[5] is On;
    let b6 = leds[6] is On;
    let b7 = leds[7] is On;
    lemma_led_weights();
    let number = number_of(leds);
    assert(number == byte_of_bits_plain(b0, b1, b2, b3, b4, b5, b6, b7));
    assert forall|index: u8| index < LED_COUNT implies #[trigger] bit_is_set(
        number as u32,
        index as u32,
    ) == (leds[index as int] is On) by {
        let lit = leds[index as int] is On;
        assert(lit == (if index == 0 {
            b0
        } else if index == 1 {
            b1
        } else if index == 2 {
            b2
        } else if index == 3 {
            b3
        } else if index == 4 {
            b4
        } else if index == 5 {
            b5
        } else if index == 6 {
            b6
        } else {
            b7
        }));
        assert(bit_is_set(number as u32, index as u32) == lit) by (bit_vector)
            requires
                index < 8,
                number == byte_of_bits_plain(b0, b1, b2, b3, b4, b5, b6, b7),
                lit == (if index == 0 {
                    b0
                } else if index == 1 {
                    b1
                } else if index == 2 {
                    b2
                } else if index == 3 {
                    b3
                } else if index == 4 {
                    b4
                } else if index == 5 {
                    b5
                } else if index == 6 {
                    b6
                } else {
                    b7
                }),
        ;
    }
}

/// Switching one LED gives that LED the requested state and leaves every
/// other bit of the output word, and every other register, as it was.
pub proof fn law_with_led(registers: Registers, index: u8, state: LEDState)
    requires
        index < LED_COUNT,
    ensures
        registers.with_led(index, state).led(index) == state,
        forall|position: u32|
            position < 32 && position != pin_of_led(index) ==> #[trigger] bit_is_set(
                registers.with_led(index, state).led_output,
                position,
            ) == bit_is_set(registers.led_output, position),
        forall|other: u8|
            other < LED_COUNT && other != index ==> #[trigger] registers.with_led(
                index,
                state,
            ).led(other) == registers.led(other),
        registers.with_led(index, state) == (Registers {
            led_output: registers.with_led(index, state).led_output,
            ..registers
        }),
{
    let before = registers.led_output;
    let pin = pin_of_led(index);
    let lit = state is On;
    let after = with_bit(before, pin, lit);
    crate::word::lemma_with_bit(before, pin, lit, pin);
    assert forall|position: u32| position < 32 && position != pin implies #[trigger] bit_is_set(
        after,
        position,
    ) == bit_is_set(before, position) by {
        crate::word::lemma_with_bit(before, pin, lit, position);
    }
    assert forall|other: u8|
        other < LED_COUNT && other != index implies #[trigger] registers.with_led(
        index,
        state,
    ).led(other) == registers.led(other) by {
        crate::word::lemma_with_bit(before, pin, lit, pin_of_led(other));
    }
}

/// Initialization leaves both banks clocked, the eight LED pins as outputs
/// and the button pin as a floating input.
pub proof fn law_init_configures(registers: Registers)
    ensures
        registers.with_clocks_enabled().clocks_enabled(),
        registers.with_pins_configured().pins_configured(),
        registers.after_init().initialized(),
{
    let clock = registers.clock_enable;
    let gated = with_bit(with_bit(clock, LED_BANK_CLOCK, true), BUTTON_BANK_CLOCK, true);
    assert(bit_is_set(gated, LED_BANK_CLOCK) && bit_is_set(gated, BUTTON_BANK_CLOCK))
        by (bit_vector)
        requires
            gated == with_bit(with_bit(clock, LED_BANK_CLOCK, true), BUTTON_BANK_CLOCK, true),
    ;
    lemma_led_modes_configured(registers.led_mode);
    crate::word::lemma_with_pin_field(registers.button_mode, BUTTON_PIN, MODE_INPUT, BUTTON_PIN);
    crate::word::lemma_with_pin_field(
        registers.button_pull,
        BUTTON_PIN,
        PULL_FLOATING,
        BUTTON_PIN,
    );
}

/// A mode word whose LED fields were overwritten holds an output field for
/// each LED pin.
proof fn lemma_led_modes_configured(led_mode: u32)
    ensures
        forall|index: u8|
            index < LED_COUNT ==> #[trigger] pin_field(
                (led_mode & !LED_MODE_BITS) | LED_MODE_OUTPUTS,
                pin_of_led(index),
            ) == MODE_OUTPUT,
{
    assert forall|index: u8| index < LED_COUNT implies #[trigger] pin_field(
        (led_mode & !LED_MODE_BITS) | LED_MODE_OUTPUTS,
        pin_of_led(index),
    ) == MODE_OUTPUT by {
        assert(pin_field((led_mode & !LED_MODE_BITS) | LED_MODE_OUTPUTS, pin_of_led(index))
            == MODE_OUTPUT) by (bit_vector)
            requires
                index < LED_COUNT,
        ;
    }
}

/// Initialization changes the two clock gates, the mode fields of the LED
/// pins, and the mode and pull fields of the button pin. Every other bit and
/// field, the output word and the input word stay as they were.
pub proof fn law_init_frame(registers: Registers)
    ensures
        forall|position: u32|
            position < 32 && position != LED_BANK_CLOCK && position != BUTTON_BANK_CLOCK
                ==> #[trigger] bit_is_set(registers.after_init().clock_enable, position)
                == bit_is_set(registers.clock_enable, position),
        forall|pin: u32|
            pin < 8 ==> #[trigger] pin_field(registers.after_init().led_mode, pin) == pin_field(
                registers.led_mode,
                pin,
            ),
        forall|pin: u32|
            pin < 16 && pin != BUTTON_PIN ==> #[trigger] pin_field(
                registers.after_init().button_mode,
                pin,
            ) == pin_field(registers.button_mode, pin),
        forall|pin: u32|
            pin < 16 && pin != BUTTON_PIN ==> #[trigger] pin_field(
                registers.after_init().button_pull,
                pin,
            ) == pin_field(registers.button_pull, pin),
        registers.after_init().led_output == registers.led_output,
        registers.after_init().button_input == registers.button_input,
{
    let clock = registers.clock_enable;
    let led_mode = registers.led_mode;
    assert forall|position: u32|
        position < 32 && position != LED_BANK_CLOCK && position != BUTTON_BANK_CLOCK implies #[trigger] bit_is_set(
        registers.after_init().clock_enable,
        position,
    ) == bit_is_set(clock, position) by {
        assert(bit_is_set(
            with_bit(with_bit(clock, LED_BANK_CLOCK, true), BUTTON_BANK_CLOCK, true),
            position,
        ) == bit_is_set(clock, position)) by (bit_vector)
            requires
                position < 32,
                position != LED_BANK_CLOCK,
                position != BUTTON_BANK_CLOCK,
        ;
    }
    assert forall|pin: u32| pin < 8 implies #[trigger] pin_field(
        registers.after_init().led_mode,
        pin,
    ) == pin_field(led_mode, pin) by {
        assert(pin_field((led_mode & !LED_MODE_BITS) | LED_MODE_OUTPUTS, pin) == pin_field(
            led_mode,
            pin,
        )) by (bit_vector)
            requires
                pin < 8,
        ;
    }
    assert forall|pin: u32| pin < 16 && pin != BUTTON_PIN implies #[trigger] pin_field(
        registers.after_init().button_mode,
        pin,
    ) == pin_field(registers.button_mode, pin) by {
        crate::word::lemma_with_pin_field(registers.button_mode, BUTTON_PIN, MODE_INPUT, pin);
    }
    assert forall|pin: u32| pin < 16 && pin != BUTTON_PIN implies #[trigger] pin_field(
        registers.after_init().button_pull,
        pin,
    ) == pin_field(registers.button_pull, pin) by {
        crate::word::lemma_with_pin_field(registers.button_pull, BUTTON_PIN, PULL_FLOATING, pin);
    }
}

/// Initialization changes nothing on registers that are already initialized.
pub proof fn law_init_keeps_initialized(registers: Registers)
    requires
        registers.initialized(),
    ensures
        registers.after_init() == registers,
{
    let clock = registers.clock_enable;
    let led_mode = registers.led_mode;
    let button_mode = registers.button_mode;
    let button_pull = registers.button_pull;
    assert(with_bit(with_bit(clock, LED_BANK_CLOCK, true), BUTTON_BANK_CLOCK, true) == clock)
        by (bit_vector)
        requires
            bit_is_set(clock, LED_BANK_CLOCK),
            bit_is_set(clock, BUTTON_BANK_CLOCK),
    ;
    assert(pin_field(led_mode, pin_of_led(0)) == MODE_OUTPUT);
    assert(pin_field(led_mode, pin_of_led(1)) == MODE_OUTPUT);
    assert(pin_field(led_mode, pin_of_led(2)) == MODE_OUTPUT);
    assert(pin_field(led_mode, pin_of_led(3)) == MODE_OUTPUT);
    assert(pin_field(led_mode, pin_of_led(4)) == MODE_OUTPUT);
    assert(pin_field(led_mode, pin_of_led(5)) == MODE_OUTPUT);
    assert(pin_field(led_mode, pin_of_led(6)) == MODE_OUTPUT);
    assert(pin_field(led_mode, pin_of_led(7)) == MODE_OUTPUT);
    assert((led_mode & !LED_MODE_BITS) | LED_MODE_OUTPUTS == led_mode) by (bit_vector)
        requires
            pin_field(led_mode, pin_of_led(0)) == MODE_OUTPUT,
            pin_field(led_mode, pin_of_led(1)) == MODE_OUTPUT,
            pin_field(led_mode, pin_of_led(2)) == MODE_OUTPUT,
            pin_field(led_mode, pin_of_led(3)) == MODE_OUTPUT,
            pin_field(led_mode, pin_of_led(4)) == MODE_OUTPUT,
            pin_field(led_mode, pin_of_led(5)) == MODE_OUTPUT,
            pin_field(led_mode, pin_of_led(6)) == MODE_OUTPUT,
            pin_field(led_mode, pin_of_led(7)) == MODE_OUTPUT,
    ;
    assert(with_pin_field(button_mode, BUTTON_PIN, MODE_INPUT) == button_mode) by (bit_vector)
        requires
            pin_field(button_mode, BUTTON_PIN) == MODE_INPUT,
    ;
    assert(with_pin_field(button_pull, BUTTON_PIN, PULL_FLOATING) == button_pull)
        by (bit_vector)
        requires
            pin_field(button_pull, BUTTON_PIN) == PULL_FLOATING,
    ;
}

/// Initializing twice leaves the registers as initializing once does.
pub proof fn law_init_idempotent(registers: Registers)
    ensures
        registers.after_init().after_init() == registers.after_init(),
{
    law_init_configures(registers);
    law_init_keeps_initialized(registers.after_init());
}

/// Showing a number lights exactly the LEDs whose bit is set in it, and
/// leaves every other bit of the output word as it was.
pub proof fn law_with_number(registers: Registers, value: u8)
    ensures
        forall|index: u8|
            index < LED_COUNT ==> #[trigger] registers.with_number(value).led(index)
                == led_state_of(bit_is_set(value as u32, index as u32)),
        forall|position: u32|
            position < 32 && !(8 <= position < 16) ==> #[trigger] bit_is_set(
                registers.with_number(value).led_output,
                position,
            ) == bit_is_set(registers.led_output, position),
{
    let before = registers.led_output;
    let after = registers.with_number(value).led_output;
    assert forall|index: u8| index < LED_COUNT implies #[trigger] registers.with_number(
        value,
    ).led(index) == led_state_of(bit_is_set(value as u32, index as u32)) by {
        assert(bit_is_set(
            (before & !LED_OUTPUT_BITS) | ((value as u32) << 8),
            pin_of_led(index),
        ) == bit_is_set(value as u32, index as u32)) by (bit_vector)
            requires
                index < LED_COUNT,
        ;
    }
    assert forall|position: u32| position < 32 && !(8 <= position < 16) implies #[trigger] bit_is_set(
        after,
        position,
    ) == bit_is_set(before, position) by {
        assert(bit_is_set((before & !LED_OUTPUT_BITS) | ((value as u32) << 8), position)
            == bit_is_set(before, position)) by (bit_vector)
            requires
                position < 32,
                !(8 <= position < 16),
        ;
    }
}

/// The byte whose bit `i` is `b_i`.
spec fn byte_of_bits(
    b0: bool,
    b1: bool,
    b2: bool,
    b3: bool,
    b4: bool,
    b5: bool,
    b6: bool,
    b7: bool,
) -> u8 {
    led_weight(led_state_of(b0), 0) | led_weight(led_state_of(b1), 1) | led_weight(
        led_state_of(b2),
        2,
    ) | led_weight(led_state_of(b3), 3) | led_weight(led_state_of(b4), 4) | led_weight(
        led_state_of(b5),
        5,
    ) | led_weight(led_state_of(b6), 6) | led_weight(led_state_of(b7), 7)
}

/// The weights of eight bits, written without LED states.
spec fn byte_of_bits_plain(
    b0: bool,
    b1: bool,
    b2: bool,
    b3: bool,
    b4: bool,
    b5: bool,
    b6: bool,
    b7: bool,
) -> u8 {
    (if b0 { 1u8 } else { 0u8 }) | (if b1 { 2u8 } else { 0u8 }) | (if b2 { 4u8 } else { 0u8 }) | (
    if b3 { 8u8 } else { 0u8 }) | (if b4 { 16u8 } else { 0u8 }) | (if b5 { 32u8 } else { 0u8 })
        | (if b6 { 64u8 } else { 0u8 }) | (if b7 { 128u8 } else { 0u8 })
}

proof fn lemma_led_weights()
    ensures
        forall|index: u8|
            index < LED_COUNT ==> #[trigger] led_weight(LEDState::Off, index) == 0,
        led_weight(LEDState::On, 0) == 1,
        led_weight(LEDState::On, 1) == 2,
        led_weight(LEDState::On, 2) == 4,
        led_weight(LEDState::On, 3) == 8,
        led_weight(LEDState::On, 4) == 16,
        led_weight(LEDState::On, 5) == 32,
        led_weight(LEDState::On, 6) == 64,
        led_weight(LEDState::On, 7) == 128,
{
    assert(1u8 << 0u8 == 1 && 1u8 << 1u8 == 2 && 1u8 << 2u8 == 4 && 1u8 << 3u8 == 8 && 1u8 << 4u8
        == 16 && 1u8 << 5u8 == 32 && 1u8 << 6u8 == 64 && 1u8 << 7u8 == 128) by (bit_vector);
}

/// The byte that the LEDs show is the second byte of the output word.
pub proof fn law_number_of_output(registers: Registers)
    ensures
        number_of(registers.led_states()) == ((registers.led_output >> 8) & 0xff) as u8,
{
    let output = registers.led_output;
    let leds = registers.led_states();
    let b0 = bit_is_set(output, 8);
    let b1 = bit_is_set(output, 9);
    let b2 = bit_is_set(output, 10);
    let b3 = bit_is_set(output, 11);
    let b4 = bit_is_set(output, 12);
    let b5 = bit_is_set(output, 13);
    let b6 = bit_is_set(output, 14);
    let b7 = bit_is_set(output, 15);
    assert(leds[0] == led_state_of(b0)) by {
        assert(pin_of_led(0) == 8);
    }
    assert(leds[1] == led_state_of(b1)) by {
        assert(pin_of_led(1) == 9);
    }
    assert(leds[2] == led_state_of(b2)) by {
        assert(pin_of_led(2) == 10);
    }
    assert(leds[3] == led_state_of(b3)) by {
        assert(pin_of_led(3) == 11);
    }
    assert(leds[4] == led_state_of(b4)) by {
        assert(pin_of_led(4) == 12);
    }
    assert(leds[5] == led_state_of(b5)) by {
        assert(pin_of_led(5) == 13);
    }
    assert(leds[6] == led_state_of(b6)) by {
        assert(pin_of_led(6) == 14);
    }
    assert(leds[7] == led_state_of(b7)) by {
        assert(pin_of_led(7) == 15);
    }
    let number = number_of(leds);
    assert(number == byte_of_bits(b0, b1, b2, b3, b4, b5, b6, b7));
    lemma_led_weights();
    let plain = byte_of_bits_plain(b0, b1, b2, b3, b4, b5, b6, b7);
    assert(number == plain);
    assert(plain == ((output >> 8) & 0xff) as u8) by (bit_vector)
        requires
            b0 == bit_is_set(output, 8),
            b1 == bit_is_set(output, 9),
            b2 == bit_is_set(output, 10),
            b3 == bit_is_set(output, 11),
            b4 == bit_is_set(output, 12),
            b5 == bit_is_set(output, 13),
            b6 == bit_is_set(output, 14),
            b7 == bit_is_set(output, 15),
            plain == byte_of_bits_plain(b0, b1, b2, b3, b4, b5, b6, b7),
    ;
}

/// Reading the LEDs back after a number was shown gives that number.
pub proof fn law_read_back(registers: Registers, value: u8)
    ensures
        number_of(registers.with_number(value).led_states()) == value,
{
    let before = registers.led_output;
    law_number_of_output(registers.with_number(value));
    assert(((((before & !LED_OUTPUT_BITS) | ((value as u32) << 8)) >> 8) & 0xff) as u8 == value)
        by (bit_vector);
}

/// Showing the number that the LEDs already show changes nothing.
pub proof fn law_show_again(registers: Registers)
    ensures
        registers.with_number(number_of(registers.led_states())) == registers,
{
    let output = registers.led_output;
    law_number_of_output(registers);
    assert((output & !LED_OUTPUT_BITS) | (((((output >> 8) & 0xff) as u8) as u32) << 8) == output)
        by (bit_vector);
}

} // verus!
