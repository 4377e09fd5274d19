use tas_uplink::error::ProgramError;
use tas_uplink::session::{Payload, Phase, Progress, Timeout};
use tas_uplink::transfer::{Action, Event, Transfer};

const SAVED: Timeout = Timeout { secs: 10, nanos: 500 };
const RAISED: Timeout = Timeout { secs: 60, nanos: 0 };

/// A device on a channel, played back in memory.
struct Channel {
    timeout: Timeout,
    /// Blocks the device expects before its closing byte.
    expects: usize,
    /// Block, counted from 0, that the device asks for with a wrong byte.
    wrong_sync: Option<(usize, u8)>,
    /// Blocks that the device echoes with one byte changed.
    garbled: Vec<usize>,
    /// The device's closing byte.
    status: u8,
    /// Number of the action, counted from 0, at which the channel fails.
    fails_at: Option<usize>,
    /// Length of what a read of one byte delivers, if not one byte.
    short_read: bool,
    performed: usize,
    echoed: usize,
    last_written: Vec<u8>,
    clears: usize,
    timeouts: Vec<Timeout>,
    writes: Vec<Vec<u8>>,
    reads: Vec<usize>,
}

impl Channel {
    fn new(expects: usize) -> Channel {
        Channel {
            timeout: SAVED,
            expects,
            wrong_sync: None,
            garbled: Vec::new(),
            status: 0xDD,
            fails_at: None,
            short_read: false,
            performed: 0,
            echoed: 0,
            last_written: Vec::new(),
            clears: 0,
            timeouts: Vec::new(),
            writes: Vec::new(),
            reads: Vec::new(),
        }
    }

    fn perform(&mut self, action: &Action) -> Event {
        let number = self.performed;
        self.performed += 1;
        if self.fails_at == Some(number) {
            return Event::Failed;
        }
        match action {
            Action::Clear => {
                self.clears += 1;
                Event::Done
            }
            Action::SetTimeout(timeout) => {
                self.timeout = *timeout;
                self.timeouts.push(*timeout);
                Event::Done
            }
            Action::Write(bytes) => {
                self.writes.push(bytes.clone());
                self.last_written = bytes.clone();
                Event::Done
            }
            Action::Read(count) => {
                self.reads.push(*count);
                if *count == 256 {
                    let mut echo = self.last_written.clone();
                    if self.garbled.contains(&self.echoed) {
                        echo[17] ^= 0x40;
                    }
                    self.echoed += 1;
                    Event::Data(echo)
                } else if self.short_read {
                    Event::Data(Vec::new())
                } else if self.echoed < self.expects {
                    match self.wrong_sync {
                        Some((block, byte)) if block == self.echoed => Event::Data(vec![byte]),
                        _ => Event::Data(vec![0x01]),
                    }
                } else {
                    Event::Data(vec![self.status])
                }
            }
            Action::Finish(_) => unreachable!(),
        }
    }

    fn blocks_written(&self) -> Vec<Vec<u8>> {
        self.writes.iter().filter(|bytes| bytes.len() == 256).cloned().collect()
    }
}

fn blocks(count: usize) -> Vec<[u8; 256]> {
    (0..count)
        .map(|i| {
            let mut block = [0u8; 256];
            for j in 0..256 {
                block[j] = ((i * 37 + j) % 256) as u8;
            }
            block
        })
        .collect()
}

fn drive(transfer: &mut Transfer, channel: &mut Channel) -> (Result<(), ProgramError>, Vec<Progress>) {
    let mut told = Vec::new();
    let mut action = transfer.pending();
    for _ in 0..1_000_000 {
        if let Action::Finish(result) = action {
            return (result, told);
        }
        let event = channel.perform(&action);
        action = transfer.step(event, &mut told);
    }
    panic!("the transfer does not end");
}

fn mismatches(told: &[Progress]) -> Vec<usize> {
    told.iter()
        .filter_map(|progress| match progress {
            Progress::Mismatch { block } => Some(*block),
            _ => None,
        })
        .collect()
}

fn counts(told: &[Progress]) -> Vec<(usize, usize)> {
    told.iter()
        .filter_map(|progress| match progress {
            Progress::Blocks { done, total } => Some((*done, *total)),
            _ => None,
        })
        .collect()
}

#[test]
fn a_new_transfer_has_done_nothing() {
    let transfer = Transfer::new(Payload::Inputs, blocks(3), SAVED);
    assert_eq!(transfer.phase(), Phase::Idle);
    assert_eq!(transfer.payload(), Payload::Inputs);
    assert_eq!(transfer.total(), 3);
    assert_eq!(transfer.blocks_done(), 0);
    assert_eq!(transfer.mismatches(), 0);
    assert_eq!(transfer.result(), None);
    assert_eq!(transfer.saved(), SAVED);
    assert_eq!(transfer.pending(), Action::Clear);
}

#[test]
fn inputs_go_through_step_by_step() {
    let sent = blocks(2);
    let mut transfer = Transfer::new(Payload::Inputs, sent.clone(), SAVED);
    let mut told = Vec::new();
    assert_eq!(transfer.pending(), Action::Clear);
    assert_eq!(transfer.step(Event::Done, &mut told), Action::SetTimeout(RAISED));
    assert_eq!(transfer.phase(), Phase::Preparing);
    assert_eq!(transfer.step(Event::Done, &mut told), Action::Write(vec![0xAA]));
    assert_eq!(transfer.phase(), Phase::Commanding);
    assert_eq!(transfer.step(Event::Done, &mut told), Action::Read(1));
    for (index, block) in sent.iter().enumerate() {
        assert_eq!(transfer.phase(), Phase::AwaitingSync);
        assert_eq!(transfer.blocks_done(), index);
        assert_eq!(transfer.pending(), Action::Read(1));
        assert_eq!(transfer.step(Event::Data(vec![0x01]), &mut told), Action::Write(vec![0x01]));
        assert_eq!(transfer.phase(), Phase::Acknowledging);
        assert_eq!(transfer.step(Event::Done, &mut told), Action::Write(block.to_vec()));
        assert_eq!(transfer.phase(), Phase::SendingBlock);
        assert_eq!(transfer.step(Event::Done, &mut told), Action::Read(256));
        assert_eq!(transfer.phase(), Phase::VerifyingBlock);
        assert_eq!(transfer.step(Event::Data(block.to_vec()), &mut told), Action::Read(1));
    }
    assert_eq!(transfer.phase(), Phase::AwaitingTermination);
    assert_eq!(transfer.blocks_done(), 2);
    assert_eq!(transfer.step(Event::Data(vec![0x01]), &mut told), Action::Write(vec![0x00]));
    assert_eq!(transfer.phase(), Phase::Terminating);
    assert_eq!(transfer.step(Event::Done, &mut told), Action::Clear);
    assert_eq!(transfer.phase(), Phase::Flushing);
    assert_eq!(transfer.result(), None);
    assert_eq!(transfer.step(Event::Done, &mut told), Action::SetTimeout(SAVED));
    assert_eq!(transfer.phase(), Phase::Restoring);
    assert_eq!(transfer.step(Event::Done, &mut told), Action::Finish(Ok(())));
    assert_eq!(transfer.phase(), Phase::Done);
    assert_eq!(transfer.result(), Some(Ok(())));
    assert!(told.is_empty());
}

#[test]
fn a_finished_transfer_stays_finished() {
    let mut transfer = Transfer::new(Payload::Config, blocks(1), SAVED);
    let mut channel = Channel::new(1);
    let (result, _) = drive(&mut transfer, &mut channel);
    assert_eq!(result, Ok(()));
    let mut told = Vec::new();
    assert_eq!(transfer.step(Event::Done, &mut told), Action::Finish(Ok(())));
    assert_eq!(transfer.step(Event::Failed, &mut told), Action::Finish(Ok(())));
    assert_eq!(transfer.step(Event::Data(vec![1, 2, 3]), &mut told), Action::Finish(Ok(())));
    assert_eq!(transfer.phase(), Phase::Done);
    assert_eq!(transfer.blocks_done(), 1);
    assert!(told.is_empty());
}

#[test]
fn inputs_reach_the_device_in_order() {
    let sent = blocks(5);
    let mut transfer = Transfer::new(Payload::Inputs, sent.clone(), SAVED);
    let mut channel = Channel::new(5);
    let (result, told) = drive(&mut transfer, &mut channel);
    assert_eq!(result, Ok(()));
    assert!(told.is_empty());
    let expected: Vec<Vec<u8>> = sent.iter().map(|block| block.to_vec()).collect();
    assert_eq!(channel.blocks_written(), expected);
    assert_eq!(channel.writes.first(), Some(&vec![0xAA]));
    assert_eq!(channel.writes.last(), Some(&vec![0x00]));
    assert_eq!(channel.writes.len(), 1 + 5 * 2 + 1);
    assert_eq!(channel.reads, vec![1, 256, 1, 256, 1, 256, 1, 256, 1, 256, 1]);
    assert_eq!(channel.clears, 2);
    assert_eq!(channel.timeouts, vec![RAISED, SAVED]);
    assert_eq!(channel.timeout, SAVED);
    assert_eq!(transfer.blocks_done(), 5);
    assert_eq!(transfer.mismatches(), 0);
}

#[test]
fn inputs_end_whatever_the_closing_byte() {
    for status in [0x00u8, 0x01, 0xDD, 0xEE, 0xFF] {
        let mut transfer = Transfer::new(Payload::Inputs, blocks(2), SAVED);
        let mut channel = Channel::new(2);
        channel.status = status;
        let (result, _) = drive(&mut transfer, &mut channel);
        assert_eq!(result, Ok(()));
        assert_eq!(channel.writes.last(), Some(&vec![0x00]));
        assert_eq!(channel.timeout, SAVED);
    }
}

#[test]
fn no_blocks_still_make_a_whole_handshake() {
    let mut transfer = Transfer::new(Payload::Inputs, Vec::new(), SAVED);
    let mut channel = Channel::new(0);
    let (result, told) = drive(&mut transfer, &mut channel);
    assert_eq!(result, Ok(()));
    assert!(told.is_empty());
    assert_eq!(channel.writes, vec![vec![0xAA], vec![0x00]]);
    assert_eq!(channel.reads, vec![1]);
    assert_eq!(channel.clears, 2);
    assert_eq!(channel.timeouts, vec![RAISED, SAVED]);
}

#[test]
fn wrong_sync_on_block_2_of_5_aborts_after_block_1() {
    let sent = blocks(5);
    let mut transfer = Transfer::new(Payload::Inputs, sent.clone(), SAVED);
    let mut channel = Channel::new(5);
    channel.wrong_sync = Some((1, 0x02));
    let (result, told) = drive(&mut transfer, &mut channel);
    assert_eq!(result, Err(ProgramError::SyncMismatch { block: 1, received: 0x02 }));
    assert!(told.is_empty());
    assert_eq!(channel.blocks_written(), vec![sent[0].to_vec()]);
    assert_eq!(channel.writes, vec![vec![0xAA], vec![0x01], sent[0].to_vec()]);
    assert_eq!(channel.reads, vec![1, 256, 1]);
    assert_eq!(transfer.blocks_done(), 1);
    assert_eq!(channel.clears, 2);
    assert_eq!(channel.timeouts, vec![RAISED, SAVED]);
    assert_eq!(channel.timeout, SAVED);
    assert_eq!(transfer.phase(), Phase::Done);
}

#[test]
fn wrong_sync_on_the_first_block_sends_no_block() {
    let mut transfer = Transfer::new(Payload::Config, blocks(16), SAVED);
    let mut channel = Channel::new(16);
    channel.wrong_sync = Some((0, 0x00));
    let (result, _) = drive(&mut transfer, &mut channel);
    assert_eq!(result, Err(ProgramError::SyncMismatch { block: 0, received: 0x00 }));
    assert_eq!(channel.writes, vec![vec![0xAB]]);
    assert_eq!(channel.timeout, SAVED);
    assert_eq!(transfer.blocks_done(), 0);
}

#[test]
fn a_garbled_echo_does_not_stop_the_transfer() {
    let sent = blocks(5);
    let mut transfer = Transfer::new(Payload::Inputs, sent.clone(), SAVED);
    let mut channel = Channel::new(5);
    channel.garbled = vec![1, 3];
    let (result, told) = drive(&mut transfer, &mut channel);
    assert_eq!(result, Ok(()));
    assert_eq!(told, vec![Progress::Mismatch { block: 1 }, Progress::Mismatch { block: 3 }]);
    assert_eq!(channel.blocks_written().len(), 5);
    assert_eq!(transfer.blocks_done(), 5);
    assert_eq!(transfer.mismatches(), 2);
    assert_eq!(channel.timeout, SAVED);
}

#[test]
fn every_garbled_echo_is_told_and_no_other() {
    for garbled in [vec![], vec![0], vec![19], vec![0, 1, 2], vec![4, 9, 15, 16, 19]] {
        let mut transfer = Transfer::new(Payload::Inputs, blocks(20), SAVED);
        let mut channel = Channel::new(20);
        channel.garbled = garbled.clone();
        let (result, told) = drive(&mut transfer, &mut channel);
        assert_eq!(result, Ok(()));
        assert_eq!(mismatches(&told), garbled);
        assert_eq!(transfer.mismatches(), garbled.len());
        assert_eq!(counts(&told), vec![(16, 20)]);
    }
}

#[test]
fn a_mismatch_is_told_before_the_count() {
    let mut transfer = Transfer::new(Payload::Config, blocks(4), SAVED);
    let mut channel = Channel::new(4);
    channel.garbled = vec![3];
    let (result, told) = drive(&mut transfer, &mut channel);
    assert_eq!(result, Ok(()));
    assert_eq!(
        told,
        vec![Progress::Mismatch { block: 3 }, Progress::Blocks { done: 4, total: 4 }]
    );
}

#[test]
fn inputs_count_every_sixteen_blocks() {
    let mut transfer = Transfer::new(Payload::Inputs, blocks(40), SAVED);
    let mut channel = Channel::new(40);
    let (result, told) = drive(&mut transfer, &mut channel);
    assert_eq!(result, Ok(()));
    assert_eq!(
        told,
        vec![Progress::Blocks { done: 16, total: 40 }, Progress::Blocks { done: 32, total: 40 }]
    );
}

#[test]
fn config_counts_every_four_blocks() {
    let mut transfer = Transfer::new(Payload::Config, blocks(16), SAVED);
    let mut channel = Channel::new(16);
    let (result, told) = drive(&mut transfer, &mut channel);
    assert_eq!(result, Ok(()));
    assert_eq!(counts(&told), vec![(4, 16), (8, 16), (12, 16), (16, 16)]);
    assert_eq!(told.len(), 4);
}

#[test]
fn config_succeeds_on_the_code_for_done() {
    let sent = blocks(16);
    let mut transfer = Transfer::new(Payload::Config, sent.clone(), SAVED);
    let mut channel = Channel::new(16);
    channel.status = 0xDD;
    let (result, _) = drive(&mut transfer, &mut channel);
    assert_eq!(result, Ok(()));
    assert_eq!(channel.writes.first(), Some(&vec![0xAB]));
    assert_eq!(channel.writes.len(), 1 + 16 * 2);
    assert_eq!(channel.blocks_written().len(), 16);
    assert_eq!(channel.timeouts, vec![RAISED, SAVED]);
    assert_eq!(channel.clears, 2);
}

#[test]
fn config_is_rejected_on_any_other_byte() {
    for status in [0x00u8, 0x01, 0xDC, 0xDE, 0xEE, 0xFF] {
        let mut transfer = Transfer::new(Payload::Config, blocks(16), SAVED);
        let mut channel = Channel::new(16);
        channel.status = status;
        let (result, _) = drive(&mut transfer, &mut channel);
        assert_eq!(result, Err(ProgramError::ConfigRejected(status)));
        assert_eq!(channel.blocks_written().len(), 16);
        assert_eq!(channel.timeout, SAVED);
        assert_eq!(channel.clears, 2);
        assert_eq!(transfer.blocks_done(), 16);
    }
}

#[test]
fn a_failure_anywhere_is_a_transport_error_and_restores_the_timeout() {
    // 3 opening actions, 4 per block, 2 at the end of the inputs.
    for fails_at in 0..(3 + 4 * 3 + 2) {
        let mut transfer = Transfer::new(Payload::Inputs, blocks(3), SAVED);
        let mut channel = Channel::new(3);
        channel.fails_at = Some(fails_at);
        let (result, _) = drive(&mut transfer, &mut channel);
        assert_eq!(result, Err(ProgramError::Transport));
        assert_eq!(channel.timeout, SAVED);
        assert_eq!(channel.timeouts.last(), Some(&SAVED));
        assert_eq!(channel.performed, fails_at + 3);
        assert_eq!(transfer.phase(), Phase::Done);
    }
}

#[test]
fn a_failure_on_the_way_out_spoils_success_only() {
    // The last clear fails: what was a success becomes a transport error.
    let mut transfer = Transfer::new(Payload::Inputs, blocks(1), SAVED);
    let mut channel = Channel::new(1);
    channel.fails_at = Some(3 + 4 + 2);
    let (result, _) = drive(&mut transfer, &mut channel);
    assert_eq!(result, Err(ProgramError::Transport));
    assert_eq!(channel.timeout, SAVED);
    // The last timeout change fails the same way.
    let mut transfer = Transfer::new(Payload::Inputs, blocks(1), SAVED);
    let mut channel = Channel::new(1);
    channel.fails_at = Some(3 + 4 + 3);
    let (result, _) = drive(&mut transfer, &mut channel);
    assert_eq!(result, Err(ProgramError::Transport));
    // The clear after a rejection fails: the rejection stays the result.
    let mut transfer = Transfer::new(Payload::Config, blocks(1), SAVED);
    let mut channel = Channel::new(1);
    channel.status = 0x13;
    channel.fails_at = Some(3 + 4 + 1);
    let (result, _) = drive(&mut transfer, &mut channel);
    assert_eq!(result, Err(ProgramError::ConfigRejected(0x13)));
    assert_eq!(channel.timeout, SAVED);
}

#[test]
fn a_read_of_the_wrong_length_is_a_transport_error() {
    let mut transfer = Transfer::new(Payload::Inputs, blocks(2), SAVED);
    let mut channel = Channel::new(2);
    channel.short_read = true;
    let (result, _) = drive(&mut transfer, &mut channel);
    assert_eq!(result, Err(ProgramError::Transport));
    assert!(channel.blocks_written().is_empty());
    assert_eq!(channel.timeout, SAVED);

    let mut transfer = Transfer::new(Payload::Inputs, blocks(2), SAVED);
    let mut told = Vec::new();
    transfer.step(Event::Done, &mut told);
    transfer.step(Event::Done, &mut told);
    transfer.step(Event::Done, &mut told);
    transfer.step(Event::Data(vec![0x01]), &mut told);
    transfer.step(Event::Done, &mut told);
    assert_eq!(transfer.step(Event::Done, &mut told), Action::Read(256));
    assert_eq!(transfer.step(Event::Data(vec![0u8; 255]), &mut told), Action::Clear);
    assert_eq!(transfer.phase(), Phase::Flushing);
    assert_eq!(transfer.blocks_done(), 0);
    assert!(told.is_empty());
    assert_eq!(transfer.step(Event::Done, &mut told), Action::SetTimeout(SAVED));
    assert_eq!(transfer.step(Event::Done, &mut told), Action::Finish(Err(ProgramError::Transport)));
}

#[test]
fn an_answer_of_the_wrong_kind_is_a_transport_error() {
    // Bytes where a plain success was due.
    let mut transfer = Transfer::new(Payload::Inputs, blocks(1), SAVED);
    let mut told = Vec::new();
    assert_eq!(transfer.step(Event::Data(vec![0x01]), &mut told), Action::Clear);
    assert_eq!(transfer.step(Event::Done, &mut told), Action::SetTimeout(SAVED));
    assert_eq!(transfer.step(Event::Done, &mut told), Action::Finish(Err(ProgramError::Transport)));
    // A plain success where bytes were due.
    let mut transfer = Transfer::new(Payload::Inputs, blocks(1), SAVED);
    transfer.step(Event::Done, &mut told);
    transfer.step(Event::Done, &mut told);
    assert_eq!(transfer.step(Event::Done, &mut told), Action::Read(1));
    assert_eq!(transfer.step(Event::Done, &mut told), Action::Clear);
    assert_eq!(transfer.step(Event::Failed, &mut told), Action::SetTimeout(SAVED));
    assert_eq!(transfer.step(Event::Failed, &mut told), Action::Finish(Err(ProgramError::Transport)));
}

#[test]
fn reports_go_behind_what_the_sink_holds() {
    let mut transfer = Transfer::new(Payload::Config, blocks(4), SAVED);
    let mut channel = Channel::new(4);
    let mut told = vec![Progress::Mismatch { block: 99 }];
    let mut action = transfer.pending();
    loop {
        if let Action::Finish(result) = action {
            assert_eq!(result, Ok(()));
            break;
        }
        let event = channel.perform(&action);
        action = transfer.step(event, &mut told);
    }
    assert_eq!(
        told,
        vec![Progress::Mismatch { block: 99 }, Progress::Blocks { done: 4, total: 4 }]
    );
}
