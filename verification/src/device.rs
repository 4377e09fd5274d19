//! The device as the host sees it: one-byte commands with one-byte answers,
//! and the two transfers that program it.

use vstd::prelude::*;
use vstd::string::StringExecFns;
use crate::error::ProgramError;
use crate::layout::{blocks_view, config_blocks, input_blocks, reset_frames, MAX_RESETS};
use crate::parsers::{placements, FileType, InputsMovie, ResetRecord};
use crate::program::{Plan, Programming};
use crate::session::{Payload, Request, Session, Timeout};
use crate::transfer::{Action, Transfer};

verus! {

/// Command byte that asks the device whether it is there.
pub const CMD_PING: u8 = 0x01;

/// Command byte that resets the console and starts playback.
pub const CMD_RESET_START: u8 = 0x06;

/// Command byte that starts playback on an Atari console.
pub const CMD_ATARI_START: u8 = 0x08;

/// Answer to a ping from a device that is well.
pub const RES_OK: u8 = 0xEE;

/// Answer to a start command that the device has taken.
pub const ACKNOWLEDGED: u8 = 0xDD;

/// Speed of the serial link in baud.
pub const BAUD_RATE: u32 = 500000;

/// Seconds the channel may take for one read or write outside a transfer.
pub const CONNECT_TIMEOUT_SECS: u64 = 30;

/// The playback device, as far as the host keeps track of it.
#[derive(Debug)]
pub struct Device {
    /// Whether a channel to the device is open.
    pub connected: bool,
}

/// A command that the device answers with one byte.
#[derive(PartialEq, Eq, Structural, Debug, Clone, Copy)]
pub enum Command {
    /// Asks the device whether it is there.
    Ping,
    /// Resets the console and starts playback.
    ResetStart,
    /// Starts playback on an Atari console.
    AtariStart,
}

/// The byte that stands for a command.
pub open spec fn command_code(command: Command) -> u8 {
    match command {
        Command::Ping => CMD_PING,
        Command::ResetStart => CMD_RESET_START,
        Command::AtariStart => CMD_ATARI_START,
    }
}

/// The byte with which the device says that a command went well.
pub open spec fn success_code(command: Command) -> u8 {
    match command {
        Command::Ping => RES_OK,
        Command::ResetStart => ACKNOWLEDGED,
        Command::AtariStart => ACKNOWLEDGED,
    }
}

/// What to tell the user when a command went well.
pub open spec fn success_text(command: Command) -> Seq<char> {
    match command {
        Command::Ping => "pong!"@,
        Command::ResetStart => "Acknowledged, playback started!"@,
        Command::AtariStart => "Acknowledged, playback started!"@,
    }
}

/// What a command asks of the channel: the command byte out, one byte in. A
/// ping clears the channel first.
pub open spec fn command_requests(command: Command) -> Seq<Request> {
    let exchange = seq![Request::Write(seq![command_code(command)]), Request::Read(1)];
    if command is Ping {
        seq![Request::Clear] + exchange
    } else {
        exchange
    }
}

/// The requests that a list of actions stands for.
pub open spec fn requests_of(actions: Seq<Action>) -> Seq<Request> {
    Seq::new(actions.len(), |i: int| actions[i]@)
}

impl Command {
    /// The byte that stands for this command.
    pub fn code(&self) -> (byte: u8)
        ensures
            byte == command_code(*self),
    {
        match self {
            Command::Ping => CMD_PING,
            Command::ResetStart => CMD_RESET_START,
            Command::AtariStart => CMD_ATARI_START,
        }
    }

    /// What is to be done on the channel for this command, in order. The
    /// byte that the last action reads is the device's answer.
    pub fn actions(&self) -> (actions: Vec<Action>)
        ensures
            requests_of(actions@) == command_requests(*self),
    {
        let mut actions: Vec<Action> = Vec::new();
        match self {
            Command::Ping => {
                actions.push(Action::Clear);
            },
            _ => {},
        }
        let bytes: Vec<u8> = vec![self.code()];
        assert(bytes@ =~= seq![command_code(*self)]);
        actions.push(Action::Write(bytes));
        actions.push(Action::Read(1));
        actions
    }

    /// Reads the device's answer: success if it is the command's code for
    /// success, else the byte itself as the error.
    pub fn answer(&self, response: u8) -> (result: Result<String, u8>)
        ensures
            response == success_code(*self) ==> result is Ok && result->Ok_0@ == success_text(*self),
            response != success_code(*self) ==> result is Err && result->Err_0 == response,
    {
        match self {
            Command::Ping => {
                if response == RES_OK {
                    Ok(String::from_str("pong!"))
                } else {
                    Err(response)
                }
            },
            _ => {
                if response == ACKNOWLEDGED {
                    Ok(String::from_str("Acknowledged, playback started!"))
                } else {
                    Err(response)
                }
            },
        }
    }
}

/// The index of the port that the user chose among `available` ports, if what
/// was entered is the index of one.
pub fn port_choice(entered: isize, available: usize) -> (choice: Option<usize>)
    ensures
        0 <= entered < available ==> choice == Some(entered as usize),
        !(0 <= entered < available) ==> choice is None,
{
    if entered < 0 {
        None
    } else if (entered as usize) < available {
        Some(entered as usize)
    } else {
        None
    }
}

impl Device {
    /// A device to which no channel is open yet.
    pub fn new() -> (device: Self)
        ensures
            !device.connected,
    {
        Device { connected: false }
    }

    /// Reads the answer to a ping: success if it is the code for "ok", else
    /// the byte itself as the error. [`Command::actions`] tells how to get
    /// the answer.
    pub fn ping(&self, response: u8) -> (result: Result<String, u8>)
        ensures
            response == RES_OK ==> result is Ok && result->Ok_0@ == "pong!"@,
            response != RES_OK ==> result is Err && result->Err_0 == response,
    {
        Command::Ping.answer(response)
    }

    /// Reads the answer to the command that resets the console and starts
    /// playback: success if it is the code for "acknowledged", else the byte
    /// itself as the error.
    pub fn reset_start(&self, response: u8) -> (result: Result<String, u8>)
        ensures
            response == ACKNOWLEDGED ==> result is Ok && result->Ok_0@
                == "Acknowledged, playback started!"@,
            response != ACKNOWLEDGED ==> result is Err && result->Err_0 == response,
    {
        Command::ResetStart.answer(response)
    }

    /// Reads the answer to the command that starts playback on an Atari
    /// console: success if it is the code for "acknowledged", else the byte
    /// itself as the error.
    pub fn atari_start(&self, response: u8) -> (result: Result<String, u8>)
        ensures
            response == ACKNOWLEDGED ==> result is Ok && result->Ok_0@
                == "Acknowledged, playback started!"@,
            response != ACKNOWLEDGED ==> result is Err && result->Err_0 == response,
    {
        Command::AtariStart.answer(response)
    }

    /// Prepares the transfer of the movie's inputs. `saved` is the channel's
    /// timeout now.
    ///
    /// Fails, before anything is asked of the channel, if no movie is loaded
    /// or no channel is open.
    pub fn program_inputs(&self, movie: &InputsMovie, saved: Timeout) -> (result: Result<
        Transfer,
        ProgramError,
    >)
        ensures
            movie.file_type == FileType::NONE ==> result is Err && result->Err_0
                == ProgramError::NoMovie,
            movie.file_type != FileType::NONE && !self.connected ==> result is Err && result->Err_0
                == ProgramError::NotConnected,
            movie.file_type != FileType::NONE && self.connected ==> result is Ok && result->Ok_0@
                == Session::start(Payload::Inputs, input_blocks(movie.inputs@), saved),
            result is Ok ==> result->Ok_0@.wf(),
    {
        if movie.file_type == FileType::NONE {
            return Err(ProgramError::NoMovie);
        }
        if !self.connected {
            return Err(ProgramError::NotConnected);
        }
        let blocks = movie.input_blocks();
        Ok(Transfer::new(Payload::Inputs, blocks, saved))
    }

    /// Prepares the transfer of the movie's configuration and hands one
    /// record per reset to `sink`. `saved` is the channel's timeout
    /// now.
    ///
    /// Fails, before anything is asked of the channel, if no movie is loaded,
    /// no channel is open, or the movie holds more resets than can be
    /// recorded.
    pub fn program_config(
        &self,
        movie: &InputsMovie,
        saved: Timeout,
        sink: &mut Vec<ResetRecord>,
    ) -> (result: Result<Transfer, ProgramError>)
        ensures
            movie.file_type == FileType::NONE ==> result is Err && result->Err_0
                == ProgramError::NoMovie && final(sink)@ == old(sink)@,
            movie.file_type != FileType::NONE && !self.connected ==> result is Err && result->Err_0
                == ProgramError::NotConnected && final(sink)@ == old(sink)@,
            movie.file_type != FileType::NONE && self.connected && reset_frames(movie.inputs@).len()
                > MAX_RESETS ==> result is Err && result->Err_0 == ProgramError::TooManyResets
                && final(sink)@ == old(sink)@,
            movie.file_type != FileType::NONE && self.connected && reset_frames(movie.inputs@).len()
                <= MAX_RESETS ==> result is Ok && result->Ok_0@ == Session::start(
                Payload::Config,
                config_blocks(reset_frames(movie.inputs@)),
                saved,
            ) && final(sink)@ == old(sink)@ + placements(reset_frames(movie.inputs@)),
            result is Ok ==> result->Ok_0@.wf(),
    {
        if movie.file_type == FileType::NONE {
            return Err(ProgramError::NoMovie);
        }
        if !self.connected {
            return Err(ProgramError::NotConnected);
        }
        let encoded = match movie.config_blocks(sink) {
            Ok(encoded) => encoded,
            Err(error) => {
                return Err(error);
            },
        };
        let mut blocks: Vec<[u8; 256]> = Vec::new();
        let mut i: usize = 0;
        while i < 16
            invariant
                i <= 16,
                blocks@.len() == i,
                forall|k: int| 0 <= k < i ==> blocks@[k] == encoded@[k],
            decreases 16 - i,
        {
            blocks.push(encoded[i]);
            i += 1;
        }
        assert(blocks_view(blocks@) =~= blocks_view(encoded@));
        Ok(Transfer::new(Payload::Config, blocks, saved))
    }

    /// Prepares programming in full, the inputs and then the configuration,
    /// and hands one record per reset to `sink`. `saved` is the
    /// channel's timeout now.
    ///
    /// Fails, before anything is asked of the channel, if no channel is open,
    /// no movie is loaded, or the movie holds more resets than can be
    /// recorded.
    pub fn program(&self, movie: &InputsMovie, saved: Timeout, sink: &mut Vec<ResetRecord>) -> (result:
        Result<Programming, ProgramError>)
        ensures
            !self.connected ==> result is Err && result->Err_0 == ProgramError::NotConnected
                && final(sink)@ == old(sink)@,
            self.connected && movie.file_type == FileType::NONE ==> result is Err && result->Err_0
                == ProgramError::NoMovie && final(sink)@ == old(sink)@,
            self.connected && movie.file_type != FileType::NONE && reset_frames(movie.inputs@).len()
                > MAX_RESETS ==> result is Err && result->Err_0 == ProgramError::TooManyResets
                && final(sink)@ == old(sink)@,
            self.connected && movie.file_type != FileType::NONE && reset_frames(movie.inputs@).len()
                <= MAX_RESETS ==> result is Ok && result->Ok_0@ == Plan::start(
                input_blocks(movie.inputs@),
                config_blocks(reset_frames(movie.inputs@)),
                saved,
            ) && final(sink)@ == old(sink)@ + placements(reset_frames(movie.inputs@)),
            result is Ok ==> result->Ok_0@.wf(),
    {
        if !self.connected {
            return Err(ProgramError::NotConnected);
        }
        let inputs = match self.program_inputs(movie, saved) {
            Ok(inputs) => inputs,
            Err(error) => {
                return Err(error);
            },
        };
        let config = match self.program_config(movie, saved, sink) {
            Ok(config) => config,
            Err(error) => {
                return Err(error);
            },
        };
        Ok(Programming::new(inputs, config))
    }
}

} // verus!
