//! The byte-level command decoder: a state machine that turns a stream of
//! bytes into commands, one byte at a time.
use vstd::prelude::*;
use vstd::utf8::is_ascii_chars;

use crate::text::{decimal, lemma_decimal_ascii, lemma_decimal_len, lemma_pow10_values, pow10, push_ascii, push_decimal, text_new, text_of};

verus! {

/// Escape: abandons a command in progress.
pub const ESC: u8 = 27;

/// The last control byte; control bytes are ignored between commands.
pub const LAST_CONTROL: u8 = 31;

/// The ASCII digits.
pub const DIGIT_0: u8 = 48;
pub const DIGIT_9: u8 = 57;

/// The command letters, in both cases.
pub const STATUS_LOWER: u8 = 115;
pub const STATUS_UPPER: u8 = 83;
pub const VALVE_LOWER: u8 = 118;
pub const VALVE_UPPER: u8 = 86;
pub const LED_LOWER: u8 = 108;
pub const LED_UPPER: u8 = 76;

/// The commands of the protocol.
#[derive(PartialEq, Eq, Structural, Clone, Copy, Debug)]
pub enum Commands {
    Status,
    Valve,
    Led,
}

impl Commands {
    pub open spec fn spec_name(self) -> Seq<char> {
        match self {
            Commands::Status => "Status"@,
            Commands::Valve => "Valve"@,
            Commands::Led => "Led"@,
        }
    }

    /// The command's name as it appears in responses.
    pub fn name(&self) -> (r: &'static str)
        ensures
            r@ == self.spec_name(),
    {
        match self {
            Commands::Status => "Status",
            Commands::Valve => "Valve",
            Commands::Led => "Led",
        }
    }
}

/// What the decoder waits for next.
#[derive(PartialEq, Eq, Structural, Clone, Copy, Debug)]
pub enum DecodeState {
    /// A command letter (the neutral state).
    GetCommand,
    /// The target digit of a valve command.
    GetTarget,
    /// The first digit of the value.
    GetNextValue,
    /// Further digits of the value, or the terminator.
    GetValue,
}

/// The outcome of feeding one byte to the decoder.
pub enum DecodeResult {
    Nothing,
    Text(heapless::String<64>),
    Command(Commands, u8, u16),
}

/// The outcome of one byte, as a mathematical value.
pub enum Event {
    Quiet,
    Diagnostic(Seq<char>),
    Decoded(Commands, u8, u16),
}

impl DecodeResult {
    pub open spec fn view(&self) -> Event {
        match self {
            DecodeResult::Nothing => Event::Quiet,
            DecodeResult::Text(t) => Event::Diagnostic(text_of(*t)),
            DecodeResult::Command(c, t, v) => Event::Decoded(*c, *t, *v),
        }
    }
}

/// The decoder: what it waits for, and the parts of the command read so far.
#[derive(Clone, Copy, Debug)]
pub struct Decoder {
    pub state: DecodeState,
    /// The target digit of the last valve command; other commands keep it.
    pub target: u8,
    /// The value accumulated from the digits read so far.
    pub value: u16,
    /// The command being read.
    pub command: Commands,
}

pub open spec fn is_digit(c: u8) -> bool {
    DIGIT_0 <= c <= DIGIT_9
}

pub open spec fn is_control(c: u8) -> bool {
    c <= LAST_CONTROL
}

/// The diagnostic for a byte that names no command.
pub open spec fn unrecognised_text(c: u8) -> Seq<char> {
    "Err: unrecognised '"@ + decimal(c as nat) + "'\r\n"@
}

/// The diagnostic for a byte that is no target digit.
pub open spec fn bad_target_text(c: u8) -> Seq<char> {
    "Err: bad target '"@ + decimal(c as nat) + "'\r\n"@
}

/// The value after one more decimal digit, kept to 16 bits by wrapping.
pub open spec fn next_value(value: u16, c: u8) -> u16 {
    ((value * 10 + (c - DIGIT_0)) % 65536) as u16
}

impl Decoder {
    /// The decoder's state and event after the byte `c`.
    pub open spec fn step(self, c: u8) -> (Decoder, Event) {
        match self.state {
            DecodeState::GetCommand => {
                if c == STATUS_LOWER || c == STATUS_UPPER {
                    (self, Event::Decoded(Commands::Status, 0, 0))
                } else if c == VALVE_LOWER || c == VALVE_UPPER {
                    (Decoder { state: DecodeState::GetTarget, command: Commands::Valve, ..self }, Event::Quiet)
                } else if c == LED_LOWER || c == LED_UPPER {
                    (Decoder { state: DecodeState::GetNextValue, command: Commands::Led, ..self }, Event::Quiet)
                } else if is_control(c) {
                    (self, Event::Quiet)
                } else {
                    (self, Event::Diagnostic(unrecognised_text(c)))
                }
            },
            DecodeState::GetTarget => {
                if c == ESC {
                    (Decoder { state: DecodeState::GetCommand, ..self }, Event::Quiet)
                } else if is_digit(c) {
                    (Decoder { state: DecodeState::GetNextValue, target: (c - DIGIT_0) as u8, ..self }, Event::Quiet)
                } else if is_control(c) {
                    (self, Event::Quiet)
                } else {
                    (Decoder { state: DecodeState::GetCommand, ..self }, Event::Diagnostic(bad_target_text(c)))
                }
            },
            DecodeState::GetNextValue => {
                if c == ESC {
                    (Decoder { state: DecodeState::GetCommand, ..self }, Event::Quiet)
                } else if is_digit(c) {
                    (Decoder { state: DecodeState::GetValue, value: (c - DIGIT_0) as u16, ..self }, Event::Quiet)
                } else {
                    (self, Event::Quiet)
                }
            },
            DecodeState::GetValue => {
                if c == ESC {
                    (Decoder { state: DecodeState::GetCommand, ..self }, Event::Quiet)
                } else if is_digit(c) {
                    (Decoder { value: next_value(self.value, c), ..self }, Event::Quiet)
                } else {
                    (
                        Decoder { state: DecodeState::GetCommand, ..self },
                        Event::Decoded(self.command, self.target, self.value),
                    )
                }
            },
        }
    }

    /// A decoder in the neutral state.
    pub fn new() -> (r: Decoder)
        ensures
            r.state == DecodeState::GetCommand,
            r.target == 0,
            r.value == 0,
            r.command == Commands::Status,
    {
        Decoder { state: DecodeState::GetCommand, target: 0, value: 0, command: Commands::Status }
    }

    /// Feeds one byte.
    pub fn run(&mut self, c: &u8) -> (r: DecodeResult)
        ensures
            (*final(self), r@) == old(self).step(*c),
    {
        let c: u8 = *c;
        match self.state {
            DecodeState::GetCommand => {
                if c == STATUS_LOWER || c == STATUS_UPPER {
                    return DecodeResult::Command(Commands::Status, 0, 0);
                } else if c == VALVE_LOWER || c == VALVE_UPPER {
                    self.command = Commands::Valve;
                    self.state = DecodeState::GetTarget;
                } else if c == LED_LOWER || c == LED_UPPER {
                    self.command = Commands::Led;
                    self.state = DecodeState::GetNextValue;
                } else if c <= LAST_CONTROL {
                    // control codes are ignored
                } else {
                    return DecodeResult::Text(byte_diagnostic("Err: unrecognised '", c));
                }
            },
            DecodeState::GetTarget => {
                if c == ESC {
                    self.state = DecodeState::GetCommand;
                } else if DIGIT_0 <= c && c <= DIGIT_9 {
                    self.target = c - DIGIT_0;
                    self.state = DecodeState::GetNextValue;
                } else if c <= LAST_CONTROL {
                    // control codes are ignored
                } else {
                    self.state = DecodeState::GetCommand;
                    return DecodeResult::Text(byte_diagnostic("Err: bad target '", c));
                }
            },
            DecodeState::GetNextValue => {
                if c == ESC {
                    self.state = DecodeState::GetCommand;
                } else if DIGIT_0 <= c && c <= DIGIT_9 {
                    self.value = (c - DIGIT_0) as u16;
                    self.state = DecodeState::GetValue;
                }
            },
            DecodeState::GetValue => {
                if c == ESC {
                    self.state = DecodeState::GetCommand;
                } else if DIGIT_0 <= c && c <= DIGIT_9 {
                    let wide: u32 = (self.value as u32) * 10 + ((c - DIGIT_0) as u32);
                    self.value = (wide % 65536) as u16;
                } else {
                    self.state = DecodeState::GetCommand;
                    return DecodeResult::Command(self.command, self.target, self.value);
                }
            },
        }
        DecodeResult::Nothing
    }
}

/// Renders `prefix`, the decimal value of `c`, a closing quote and CR LF.
fn byte_diagnostic(prefix: &str, c: u8) -> (r: heapless::String<64>)
    requires
        prefix@ == "Err: unrecognised '"@ || prefix@ == "Err: bad target '"@,
    ensures
        text_of(r) == prefix@ + decimal(c as nat) + "'\r\n"@,
{
    proof {
        reveal_strlit("Err: unrecognised '");
        reveal_strlit("Err: bad target '");
        reveal_strlit("'\r\n");
        lemma_decimal_ascii(c as nat);
        lemma_pow10_values();
        lemma_decimal_len(c as nat, 3, pow10(3));
    }
    let mut t = text_new();
    assert(is_ascii_chars(prefix@));
    push_ascii(&mut t, prefix);
    push_decimal(&mut t, c as u64);
    push_ascii(&mut t, "'\r\n");
    t
}

} // verus!
