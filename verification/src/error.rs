//! The ways in which programming the device can fail.

use vstd::prelude::*;
use vstd::string::StringExecFns;

verus! {

/// Why a programming operation did not succeed.
#[derive(PartialEq, Eq, Structural, Debug, Clone, Copy)]
pub enum ProgramError {
    /// No channel to the device is open.
    NotConnected,
    /// No movie has been loaded.
    NoMovie,
    /// The movie holds more reset frames than the configuration blocks can
    /// record.
    TooManyResets,
    /// The device asked for block `block` with `received` in place of the
    /// sync byte.
    SyncMismatch { block: usize, received: u8 },
    /// The device closed a configuration transfer with `0` in place of the
    /// code for success.
    ConfigRejected(u8),
    /// The channel failed, timed out, or did not deliver what was asked of it.
    Transport,
}

/// The hexadecimal digit for a value below sixteen, in capitals.
pub open spec fn hex_digit(value: int) -> char {
    if value == 0 {
        '0'
    } else if value == 1 {
        '1'
    } else if value == 2 {
        '2'
    } else if value == 3 {
        '3'
    } else if value == 4 {
        '4'
    } else if value == 5 {
        '5'
    } else if value == 6 {
        '6'
    } else if value == 7 {
        '7'
    } else if value == 8 {
        '8'
    } else if value == 9 {
        '9'
    } else if value == 10 {
        'A'
    } else if value == 11 {
        'B'
    } else if value == 12 {
        'C'
    } else if value == 13 {
        'D'
    } else if value == 14 {
        'E'
    } else {
        'F'
    }
}

/// A byte as two hexadecimal digits.
pub open spec fn hex_byte(byte: u8) -> Seq<char> {
    seq![hex_digit(byte as int / 16), hex_digit(byte as int % 16)]
}

/// What to tell the user about an error.
pub open spec fn message_of(error: ProgramError) -> Seq<char> {
    match error {
        ProgramError::NotConnected => "Not connected to device."@,
        ProgramError::NoMovie => "No TAS loaded!"@,
        ProgramError::TooManyResets => "Movie contains too many resets!"@,
        ProgramError::SyncMismatch { .. } =>
            "Programming sync byte mismatch, programmed data could be corrupt!"@,
        ProgramError::ConfigRejected(status) => "Config programming failed: 0x"@ + hex_byte(status),
        ProgramError::Transport => "Communication with the device failed."@,
    }
}

/// The hexadecimal digit for a value below sixteen, as a string.
fn digit(value: u8) -> (text: &'static str)
    requires
        value < 16,
    ensures
        text@ == seq![hex_digit(value as int)],
{
    let text = if value == 0 {
        proof { reveal_strlit("0"); }
        "0"
    } else if value == 1 {
        proof { reveal_strlit("1"); }
        "1"
    } else if value == 2 {
        proof { reveal_strlit("2"); }
        "2"
    } else if value == 3 {
        proof { reveal_strlit("3"); }
        "3"
    } else if value == 4 {
        proof { reveal_strlit("4"); }
        "4"
    } else if value == 5 {
        proof { reveal_strlit("5"); }
        "5"
    } else if value == 6 {
        proof { reveal_strlit("6"); }
        "6"
    } else if value == 7 {
        proof { reveal_strlit("7"); }
        "7"
    } else if value == 8 {
        proof { reveal_strlit("8"); }
        "8"
    } else if value == 9 {
        proof { reveal_strlit("9"); }
        "9"
    } else if value == 10 {
        proof { reveal_strlit("A"); }
        "A"
    } else if value == 11 {
        proof { reveal_strlit("B"); }
        "B"
    } else if value == 12 {
        proof { reveal_strlit("C"); }
        "C"
    } else if value == 13 {
        proof { reveal_strlit("D"); }
        "D"
    } else if value == 14 {
        proof { reveal_strlit("E"); }
        "E"
    } else {
        proof { reveal_strlit("F"); }
        "F"
    };
    text
}

impl ProgramError {
    /// What to tell the user about this error.
    pub fn message(&self) -> (text: String)
        ensures
            text@ == message_of(*self),
    {
        match *self {
            ProgramError::NotConnected => String::from_str("Not connected to device."),
            ProgramError::NoMovie => String::from_str("No TAS loaded!"),
            ProgramError::TooManyResets => String::from_str("Movie contains too many resets!"),
            ProgramError::SyncMismatch { .. } => String::from_str(
                "Programming sync byte mismatch, programmed data could be corrupt!",
            ),
            ProgramError::ConfigRejected(status) => {
                let mut text = String::from_str("Config programming failed: 0x");
                text.append(digit(status / 16));
                text.append(digit(status % 16));
                text
            },
            ProgramError::Transport => String::from_str("Communication with the device failed."),
        }
    }
}

} // verus!
