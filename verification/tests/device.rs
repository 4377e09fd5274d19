use tas_uplink::device::{
    port_choice, Command, Device, ACKNOWLEDGED, BAUD_RATE, CMD_ATARI_START, CMD_PING,
    CMD_RESET_START, RES_OK,
};
use tas_uplink::error::ProgramError;
use tas_uplink::parsers::{FileType, InputsMovie, ResetRecord};
use tas_uplink::program::{Programming, Stage};
use tas_uplink::session::{
    Payload, Phase, Progress, Timeout, CMD_PROGRAM_CONFIG, CMD_PROGRAM_INPUTS, NO_INPUTS_REMAIN,
    PROGRAMMING_DONE, PROGRAM_SYNC,
};
use tas_uplink::transfer::{Action, Event};

const SAVED: Timeout = Timeout { secs: 30, nanos: 0 };

fn connected() -> Device {
    let mut device = Device::new();
    device.connected = true;
    device
}

fn movie_of(inputs: Vec<u8>) -> InputsMovie {
    let mut movie = InputsMovie::new(FileType::R08);
    movie.inputs = inputs;
    movie
}

/// Answers every action as a device without faults would, closing with
/// `status`, and keeps what was written.
fn answer(action: &Action, last: &mut Vec<u8>, writes: &mut Vec<Vec<u8>>, blocks_left: &mut usize, status: u8) -> Event {
    match action {
        Action::Clear | Action::SetTimeout(_) => Event::Done,
        Action::Write(bytes) => {
            *last = bytes.clone();
            writes.push(bytes.clone());
            Event::Done
        }
        Action::Read(256) => {
            *blocks_left -= 1;
            Event::Data(last.clone())
        }
        Action::Read(_) => {
            if *blocks_left > 0 {
                Event::Data(vec![PROGRAM_SYNC])
            } else {
                Event::Data(vec![status])
            }
        }
        Action::Finish(_) => unreachable!(),
    }
}

fn run(programming: &mut Programming, inputs: usize, inputs_status: u8, config_status: u8) -> (Result<(), ProgramError>, Vec<Vec<u8>>, Vec<Progress>) {
    let mut told = Vec::new();
    let mut writes = Vec::new();
    let mut last = Vec::new();
    let mut left = inputs;
    let mut action = programming.pending();
    for _ in 0..1_000_000 {
        if let Action::Finish(result) = action {
            return (result, writes, told);
        }
        let stage = programming.stage();
        let status = if stage == Stage::Inputs { inputs_status } else { config_status };
        let event = answer(&action, &mut last, &mut writes, &mut left, status);
        action = programming.step(event, &mut told);
        if stage == Stage::Inputs && programming.stage() == Stage::Config {
            left = 16;
        }
    }
    panic!("programming does not end");
}

#[test]
fn the_protocol_bytes_are_what_the_device_knows() {
    assert_eq!(CMD_PING, 0x01);
    assert_eq!(CMD_RESET_START, 0x06);
    assert_eq!(CMD_ATARI_START, 0x08);
    assert_eq!(CMD_PROGRAM_INPUTS, 0xAA);
    assert_eq!(CMD_PROGRAM_CONFIG, 0xAB);
    assert_eq!(RES_OK, 0xEE);
    assert_eq!(ACKNOWLEDGED, 0xDD);
    assert_eq!(PROGRAM_SYNC, 0x01);
    assert_eq!(PROGRAMMING_DONE, 0xDD);
    assert_eq!(NO_INPUTS_REMAIN, 0x00);
    assert_eq!(BAUD_RATE, 500000);
    assert_eq!(Payload::Inputs.command(), 0xAA);
    assert_eq!(Payload::Config.command(), 0xAB);
    assert_eq!(Payload::Inputs.interval(), 16);
    assert_eq!(Payload::Config.interval(), 4);
}

#[test]
fn a_ping_clears_the_channel_and_exchanges_one_byte() {
    assert_eq!(Command::Ping.code(), 0x01);
    assert_eq!(
        Command::Ping.actions(),
        vec![Action::Clear, Action::Write(vec![0x01]), Action::Read(1)]
    );
    assert_eq!(Command::Ping.answer(0xEE), Ok(String::from("pong!")));
    assert_eq!(Command::Ping.answer(0xDD), Err(0xDD));
}

#[test]
fn a_start_command_exchanges_one_byte() {
    assert_eq!(Command::ResetStart.code(), 0x06);
    assert_eq!(Command::AtariStart.code(), 0x08);
    assert_eq!(Command::ResetStart.actions(), vec![Action::Write(vec![0x06]), Action::Read(1)]);
    assert_eq!(Command::AtariStart.actions(), vec![Action::Write(vec![0x08]), Action::Read(1)]);
    for command in [Command::ResetStart, Command::AtariStart] {
        assert_eq!(command.answer(0xDD), Ok(String::from("Acknowledged, playback started!")));
        assert_eq!(command.answer(0xEE), Err(0xEE));
        assert_eq!(command.answer(0x00), Err(0x00));
    }
}

#[test]
fn a_new_device_is_not_connected() {
    assert!(!Device::new().connected);
}

#[test]
fn ping_succeeds_on_the_code_for_ok_only() {
    let device = connected();
    assert_eq!(device.ping(0xEE), Ok(String::from("pong!")));
    for response in [0x00u8, 0x01, 0xDD, 0xED, 0xEF, 0xFF] {
        assert_eq!(device.ping(response), Err(response));
    }
}

#[test]
fn reset_start_succeeds_on_the_code_for_acknowledged_only() {
    let device = connected();
    assert_eq!(device.reset_start(0xDD), Ok(String::from("Acknowledged, playback started!")));
    for response in [0x00u8, 0x06, 0xDC, 0xDE, 0xEE, 0xFF] {
        assert_eq!(device.reset_start(response), Err(response));
    }
}

#[test]
fn atari_start_succeeds_on_the_code_for_acknowledged_only() {
    let device = connected();
    assert_eq!(device.atari_start(0xDD), Ok(String::from("Acknowledged, playback started!")));
    for response in [0x00u8, 0x08, 0xDC, 0xDE, 0xEE, 0xFF] {
        assert_eq!(device.atari_start(response), Err(response));
    }
}

#[test]
fn port_choice_takes_an_index_in_range() {
    assert_eq!(port_choice(0, 1), Some(0));
    assert_eq!(port_choice(2, 3), Some(2));
    assert_eq!(port_choice(3, 3), None);
    assert_eq!(port_choice(-1, 3), None);
    assert_eq!(port_choice(0, 0), None);
    assert_eq!(port_choice(isize::MIN, 5), None);
    assert_eq!(port_choice(isize::MAX, 5), None);
}

#[test]
fn error_messages_read_as_they_should() {
    assert_eq!(ProgramError::NotConnected.message(), "Not connected to device.");
    assert_eq!(ProgramError::NoMovie.message(), "No TAS loaded!");
    assert_eq!(ProgramError::TooManyResets.message(), "Movie contains too many resets!");
    assert_eq!(
        ProgramError::SyncMismatch { block: 3, received: 0x02 }.message(),
        "Programming sync byte mismatch, programmed data could be corrupt!"
    );
    assert_eq!(ProgramError::Transport.message(), "Communication with the device failed.");
}

#[test]
fn a_rejection_names_the_byte_in_hexadecimal() {
    assert_eq!(ProgramError::ConfigRejected(0x00).message(), "Config programming failed: 0x00");
    assert_eq!(ProgramError::ConfigRejected(0x0A).message(), "Config programming failed: 0x0A");
    assert_eq!(ProgramError::ConfigRejected(0x9F).message(), "Config programming failed: 0x9F");
    assert_eq!(ProgramError::ConfigRejected(0xEE).message(), "Config programming failed: 0xEE");
    assert_eq!(ProgramError::ConfigRejected(0xFF).message(), "Config programming failed: 0xFF");
    for byte in 0..=255u8 {
        assert_eq!(
            ProgramError::ConfigRejected(byte).message(),
            format!("Config programming failed: {:#04X}", byte)
        );
    }
}

#[test]
fn nothing_is_programmed_without_a_movie() {
    let device = connected();
    let movie = InputsMovie::none();
    let mut sink = Vec::new();
    assert_eq!(device.program_inputs(&movie, SAVED).err(), Some(ProgramError::NoMovie));
    assert_eq!(device.program_config(&movie, SAVED, &mut sink).err(), Some(ProgramError::NoMovie));
    assert_eq!(device.program(&movie, SAVED, &mut sink).err(), Some(ProgramError::NoMovie));
    assert!(sink.is_empty());
    // Without a movie and without a channel, the single transfers miss the
    // movie first; programming in full misses the channel first.
    let device = Device::new();
    assert_eq!(device.program_inputs(&movie, SAVED).err(), Some(ProgramError::NoMovie));
    assert_eq!(device.program_config(&movie, SAVED, &mut sink).err(), Some(ProgramError::NoMovie));
    assert_eq!(device.program(&movie, SAVED, &mut sink).err(), Some(ProgramError::NotConnected));
}

#[test]
fn nothing_is_programmed_without_a_channel() {
    let device = Device::new();
    let movie = movie_of(vec![0x01, 0x00, 0x02, 0x00]);
    let mut sink = Vec::new();
    assert_eq!(device.program_inputs(&movie, SAVED).err(), Some(ProgramError::NotConnected));
    assert_eq!(
        device.program_config(&movie, SAVED, &mut sink).err(),
        Some(ProgramError::NotConnected)
    );
    assert_eq!(device.program(&movie, SAVED, &mut sink).err(), Some(ProgramError::NotConnected));
    assert!(sink.is_empty());
}

#[test]
fn too_many_resets_stop_programming_before_it_begins() {
    let device = connected();
    let mut stream = vec![0u8; 2 * 961];
    for frame in 0..961 {
        stream[2 * frame] = 0x01;
    }
    let movie = movie_of(stream);
    let mut sink = Vec::new();
    assert_eq!(
        device.program_config(&movie, SAVED, &mut sink).err(),
        Some(ProgramError::TooManyResets)
    );
    assert!(sink.is_empty());
    assert_eq!(device.program(&movie, SAVED, &mut sink).err(), Some(ProgramError::TooManyResets));
    assert!(sink.is_empty());
    assert!(device.program_inputs(&movie, SAVED).is_ok());
}

#[test]
fn program_inputs_prepares_the_input_blocks() {
    let device = connected();
    let stream: Vec<u8> = (0..300).map(|i| (i % 253) as u8 | 0x02).collect();
    let movie = movie_of(stream.clone());
    let mut transfer = device.program_inputs(&movie, SAVED).unwrap();
    assert_eq!(transfer.payload(), Payload::Inputs);
    assert_eq!(transfer.total(), 2);
    assert_eq!(transfer.saved(), SAVED);
    assert_eq!(transfer.phase(), Phase::Idle);
    let mut told = Vec::new();
    transfer.step(Event::Done, &mut told);
    transfer.step(Event::Done, &mut told);
    transfer.step(Event::Done, &mut told);
    transfer.step(Event::Data(vec![0x01]), &mut told);
    let first = transfer.step(Event::Done, &mut told);
    assert_eq!(first, Action::Write(stream[..256].to_vec()));
    transfer.step(Event::Done, &mut told);
    transfer.step(Event::Data(stream[..256].to_vec()), &mut told);
    transfer.step(Event::Data(vec![0x01]), &mut told);
    let second = transfer.step(Event::Done, &mut told);
    let mut padded = stream[256..].to_vec();
    padded.resize(256, 0xFF);
    assert_eq!(second, Action::Write(padded));
}

#[test]
fn program_config_prepares_the_sixteen_blocks() {
    let device = connected();
    let movie = movie_of(vec![0x00, 0x00, 0x01, 0x00, 0x01, 0x00]);
    let mut sink = Vec::new();
    let mut transfer = device.program_config(&movie, SAVED, &mut sink).unwrap();
    assert_eq!(
        sink,
        vec![
            ResetRecord { frame: 1, block: 1, offset: 0 },
            ResetRecord { frame: 2, block: 1, offset: 4 },
        ]
    );
    assert_eq!(transfer.payload(), Payload::Config);
    assert_eq!(transfer.total(), 16);
    let mut told = Vec::new();
    let mut writes = Vec::new();
    let mut last = Vec::new();
    let mut left = 16;
    let mut action = transfer.pending();
    let result = loop {
        if let Action::Finish(result) = action {
            break result;
        }
        let event = answer(&action, &mut last, &mut writes, &mut left, 0xDD);
        action = transfer.step(event, &mut told);
    };
    assert_eq!(result, Ok(()));
    let blocks: Vec<&Vec<u8>> = writes.iter().filter(|bytes| bytes.len() == 256).collect();
    assert_eq!(blocks.len(), 16);
    assert_eq!(blocks[0], &vec![0u8; 256]);
    let mut first = vec![0xFFu8; 256];
    first[..8].copy_from_slice(&[0x00, 0x00, 0x01, 0x01, 0x00, 0x00, 0x02, 0x01]);
    assert_eq!(blocks[1], &first);
    for block in 2..16 {
        assert_eq!(blocks[block], &vec![0xFFu8; 256]);
    }
}

#[test]
fn programming_sends_the_inputs_and_then_the_config() {
    let device = connected();
    let stream: Vec<u8> = (0..600).map(|i| if i == 20 { 0x01 } else { 0x40 }).collect();
    let movie = movie_of(stream);
    let mut sink = Vec::new();
    let mut programming = device.program(&movie, SAVED, &mut sink).unwrap();
    assert_eq!(sink, vec![ResetRecord { frame: 10, block: 1, offset: 0 }]);
    assert_eq!(programming.stage(), Stage::Inputs);
    assert_eq!(programming.result(), None);
    let (result, writes, told) = run(&mut programming, 3, 0x01, 0xDD);
    assert_eq!(result, Ok(()));
    assert_eq!(programming.stage(), Stage::Config);
    assert_eq!(programming.result(), Some(Ok(())));
    assert_eq!(programming.inputs().blocks_done(), 3);
    assert_eq!(programming.config().blocks_done(), 16);
    let commands: Vec<usize> = writes
        .iter()
        .enumerate()
        .filter(|(_, bytes)| bytes.len() == 1 && (bytes[0] == 0xAA || bytes[0] == 0xAB))
        .map(|(at, _)| at)
        .collect();
    assert_eq!(commands, vec![0, 1 + 3 * 2 + 1]);
    assert_eq!(writes[0], vec![0xAA]);
    assert_eq!(writes[7], vec![0x00]);
    assert_eq!(writes[8], vec![0xAB]);
    assert_eq!(writes.len(), 8 + 1 + 16 * 2);
    assert_eq!(
        told,
        vec![
            Progress::Blocks { done: 4, total: 16 },
            Progress::Blocks { done: 8, total: 16 },
            Progress::Blocks { done: 12, total: 16 },
            Progress::Blocks { done: 16, total: 16 },
        ]
    );
}

#[test]
fn a_rejected_config_fails_programming() {
    let device = connected();
    let movie = movie_of(vec![0x40; 100]);
    let mut sink = Vec::new();
    let mut programming = device.program(&movie, SAVED, &mut sink).unwrap();
    let (result, _, _) = run(&mut programming, 1, 0x01, 0x55);
    assert_eq!(result, Err(ProgramError::ConfigRejected(0x55)));
    assert_eq!(programming.result(), Some(Err(ProgramError::ConfigRejected(0x55))));
    assert_eq!(programming.stage(), Stage::Config);
}

#[test]
fn failed_inputs_keep_the_config_from_starting() {
    let device = connected();
    let movie = movie_of(vec![0x40; 100]);
    let mut sink = Vec::new();
    let mut programming = device.program(&movie, SAVED, &mut sink).unwrap();
    let mut told = Vec::new();
    assert_eq!(programming.pending(), Action::Clear);
    assert_eq!(programming.step(Event::Done, &mut told), Action::SetTimeout(Timeout { secs: 60, nanos: 0 }));
    assert_eq!(programming.step(Event::Done, &mut told), Action::Write(vec![0xAA]));
    assert_eq!(programming.step(Event::Done, &mut told), Action::Read(1));
    assert_eq!(programming.step(Event::Data(vec![0x7F]), &mut told), Action::Clear);
    assert_eq!(programming.step(Event::Done, &mut told), Action::SetTimeout(SAVED));
    let error = ProgramError::SyncMismatch { block: 0, received: 0x7F };
    assert_eq!(programming.step(Event::Done, &mut told), Action::Finish(Err(error)));
    assert_eq!(programming.stage(), Stage::Inputs);
    assert_eq!(programming.result(), Some(Err(error)));
    assert_eq!(programming.config().phase(), Phase::Idle);
    assert_eq!(programming.step(Event::Done, &mut told), Action::Finish(Err(error)));
    assert_eq!(programming.config().phase(), Phase::Idle);
}
