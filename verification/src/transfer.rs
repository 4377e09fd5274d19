//! The host side of a block transfer as a state machine.
//!
//! A [`Transfer`] never touches the channel. It names the next thing to do on
//! it as an [`Action`]; whoever owns the channel does that and hands back what
//! came of it as an [`Event`]. What the machine decides is written down in
//! [`Session`], of which a `Transfer` is the executable form.

use vstd::prelude::*;
use crate::error::ProgramError;
use crate::layout::blocks_view;
use crate::session::{
    command_byte, lemma_next_wf, Payload, Phase, Progress, Reply, Request, Session, Timeout,
    NO_INPUTS_REMAIN, PROGRAMMING_DONE, PROGRAM_SYNC, TRANSFER_TIMEOUT_SECS,
};

verus! {

/// What is to be done on the channel next.
#[derive(Debug, PartialEq, Eq)]
pub enum Action {
    /// Discard whatever the channel has buffered, in both directions.
    Clear,
    /// Set the read and write timeout.
    SetTimeout(Timeout),
    /// Write all of these bytes.
    Write(Vec<u8>),
    /// Read exactly this many bytes.
    Read(usize),
    /// Nothing: the transfer is over, with this result.
    Finish(Result<(), ProgramError>),
}

/// What came of the last action.
#[derive(Debug, PartialEq, Eq)]
pub enum Event {
    /// A clear, a timeout change or a write went through.
    Done,
    /// A read delivered these bytes.
    Data(Vec<u8>),
    /// The channel reported an error or timed out.
    Failed,
}

impl View for Action {
    type V = Request;

    open spec fn view(&self) -> Request {
        match *self {
            Action::Clear => Request::Clear,
            Action::SetTimeout(timeout) => Request::SetTimeout(timeout),
            Action::Write(bytes) => Request::Write(bytes@),
            Action::Read(count) => Request::Read(count as nat),
            Action::Finish(result) => Request::Finish(result),
        }
    }
}

impl View for Event {
    type V = Reply;

    open spec fn view(&self) -> Reply {
        match *self {
            Event::Done => Reply::Done,
            Event::Data(bytes) => Reply::Data(bytes@),
            Event::Failed => Reply::Failed,
        }
    }
}

/// The part of a transfer's state that changes from step to step.
#[derive(Debug, Clone, Copy)]
struct Cursor {
    phase: Phase,
    index: usize,
    mismatches: usize,
    outcome: Result<(), ProgramError>,
}

/// One block transfer in progress.
#[derive(Debug)]
pub struct Transfer {
    payload: Payload,
    blocks: Vec<[u8; 256]>,
    saved: Timeout,
    cursor: Cursor,
}

impl View for Transfer {
    type V = Session;

    closed spec fn view(&self) -> Session {
        Session {
            payload: self.payload,
            blocks: blocks_view(self.blocks@),
            saved: self.saved,
            phase: self.cursor.phase,
            index: self.cursor.index as nat,
            mismatches: self.cursor.mismatches as nat,
            outcome: self.cursor.outcome,
        }
    }
}

/// The bytes of a block as a vector.
fn block_bytes(block: &[u8; 256]) -> (bytes: Vec<u8>)
    ensures
        bytes@ == block@,
{
    let mut bytes: Vec<u8> = Vec::with_capacity(256);
    let mut i: usize = 0;
    while i < 256
        invariant
            i <= 256,
            bytes@.len() == i,
            forall|k: int| 0 <= k < i ==> bytes@[k] == block@[k],
        decreases 256 - i,
    {
        bytes.push(block[i]);
        i += 1;
    }
    bytes
}

/// Whether an echo of 256 bytes differs from the block it answers.
fn echo_differs(block: &[u8; 256], echo: &Vec<u8>) -> (differs: bool)
    requires
        echo@.len() == 256,
    ensures
        differs == (echo@ != block@),
{
    let mut i: usize = 0;
    while i < 256
        invariant
            i <= 256,
            echo@.len() == 256,
            forall|k: int| 0 <= k < i ==> echo@[k] == block@[k],
        decreases 256 - i,
    {
        if echo[i] != block[i] {
            return true;
        }
        i += 1;
    }
    assert(echo@ =~= block@);
    false
}

impl Transfer {
    #[verifier::type_invariant]
    spec fn inv(self) -> bool {
        self@.wf()
    }

    /// A transfer of `blocks` that has not begun. `saved` is the channel's
    /// timeout now, which the transfer puts back before it ends.
    pub fn new(payload: Payload, blocks: Vec<[u8; 256]>, saved: Timeout) -> (transfer: Transfer)
        ensures
            transfer@ == Session::start(payload, blocks_view(blocks@), saved),
            transfer@.wf(),
    {
        let cursor = Cursor { phase: Phase::Idle, index: 0, mismatches: 0, outcome: Ok(()) };
        assert(blocks@.len() == blocks.len());
        Transfer { payload, blocks, saved, cursor }
    }

    /// What is to be done next.
    pub fn pending(&self) -> (action: Action)
        ensures
            action@ == self@.request(),
            self@.wf(),
    {
        proof {
            use_type_invariant(self);
        }
        match self.cursor.phase {
            Phase::Idle => Action::Clear,
            Phase::Preparing => Action::SetTimeout(
                Timeout { secs: TRANSFER_TIMEOUT_SECS, nanos: 0 },
            ),
            Phase::Commanding => {
                let bytes: Vec<u8> = vec![self.payload.command()];
                assert(bytes@ =~= seq![command_byte(self.payload)]);
                Action::Write(bytes)
            },
            Phase::AwaitingSync => Action::Read(1),
            Phase::Acknowledging => {
                let bytes: Vec<u8> = vec![PROGRAM_SYNC];
                assert(bytes@ =~= seq![PROGRAM_SYNC]);
                Action::Write(bytes)
            },
            Phase::SendingBlock => Action::Write(block_bytes(&self.blocks[self.cursor.index])),
            Phase::VerifyingBlock => Action::Read(256),
            Phase::AwaitingTermination => Action::Read(1),
            Phase::Terminating => {
                let bytes: Vec<u8> = vec![NO_INPUTS_REMAIN];
                assert(bytes@ =~= seq![NO_INPUTS_REMAIN]);
                Action::Write(bytes)
            },
            Phase::Flushing => Action::Clear,
            Phase::Restoring => Action::SetTimeout(self.saved),
            Phase::Done => Action::Finish(self.cursor.outcome),
        }
    }

    /// Takes what came of the pending action, tells `sink` what is worth
    /// telling, and returns what is to be done next.
    pub fn step(&mut self, event: Event, sink: &mut Vec<Progress>) -> (action: Action)
        ensures
            final(self)@ == old(self)@.next(event@),
            action@ == final(self)@.request(),
            final(sink)@ == old(sink)@ + old(self)@.reports(event@),
            old(self)@.wf(),
            final(self)@.wf(),
    {
        proof {
            use_type_invariant(&*self);
            lemma_next_wf(self@, event@);
        }
        let now: Cursor = self.cursor;
        let aborted = Cursor {
            phase: Phase::Flushing,
            outcome: Err(ProgramError::Transport),
            ..now
        };
        let next: Cursor = match now.phase {
            Phase::Done => now,
            Phase::Restoring => Cursor { phase: Phase::Done, outcome: settle(now.outcome, &event), ..now },
            Phase::Flushing => Cursor {
                phase: Phase::Restoring,
                outcome: settle(now.outcome, &event),
                ..now
            },
            Phase::AwaitingSync => match event {
                Event::Data(bytes) => {
                    if bytes.len() != 1 {
                        aborted
                    } else if bytes[0] == PROGRAM_SYNC {
                        Cursor { phase: Phase::Acknowledging, ..now }
                    } else {
                        Cursor {
                            phase: Phase::Flushing,
                            outcome: Err(
                                ProgramError::SyncMismatch { block: now.index, received: bytes[0] },
                            ),
                            ..now
                        }
                    }
                },
                _ => aborted,
            },
            Phase::VerifyingBlock => match event {
                Event::Data(bytes) => {
                    if bytes.len() != 256 {
                        aborted
                    } else {
                        let differs = echo_differs(&self.blocks[now.index], &bytes);
                        let done: usize = now.index + 1;
                        if differs {
                            sink.push(Progress::Mismatch { block: now.index });
                        }
                        if done % self.payload.interval() == 0 {
                            sink.push(Progress::Blocks { done: done, total: self.blocks.len() });
                        }
                        Cursor {
                            phase: if done < self.blocks.len() {
                                Phase::AwaitingSync
                            } else {
                                Phase::AwaitingTermination
                            },
                            index: done,
                            mismatches: if differs {
                                now.mismatches + 1
                            } else {
                                now.mismatches
                            },
                            ..now
                        }
                    }
                },
                _ => aborted,
            },
            Phase::AwaitingTermination => match event {
                Event::Data(bytes) => {
                    if bytes.len() != 1 {
                        aborted
                    } else {
                        match self.payload {
                            Payload::Inputs => Cursor { phase: Phase::Terminating, ..now },
                            Payload::Config => {
                                if bytes[0] == PROGRAMMING_DONE {
                                    Cursor { phase: Phase::Flushing, ..now }
                                } else {
                                    Cursor {
                                        phase: Phase::Flushing,
                                        outcome: Err(ProgramError::ConfigRejected(bytes[0])),
                                        ..now
                                    }
                                }
                            },
                        }
                    }
                },
                _ => aborted,
            },
            Phase::Idle => match event {
                Event::Done => Cursor { phase: Phase::Preparing, ..now },
                _ => aborted,
            },
            Phase::Preparing => match event {
                Event::Done => Cursor { phase: Phase::Commanding, ..now },
                _ => aborted,
            },
            Phase::Commanding => match event {
                Event::Done => Cursor {
                    phase: if self.blocks.len() > 0 {
                        Phase::AwaitingSync
                    } else {
                        Phase::AwaitingTermination
                    },
                    ..now
                },
                _ => aborted,
            },
            Phase::Acknowledging => match event {
                Event::Done => Cursor { phase: Phase::SendingBlock, ..now },
                _ => aborted,
            },
            Phase::SendingBlock => match event {
                Event::Done => Cursor { phase: Phase::VerifyingBlock, ..now },
                _ => aborted,
            },
            Phase::Terminating => match event {
                Event::Done => Cursor { phase: Phase::Flushing, ..now },
                _ => aborted,
            },
        };
        self.cursor = next;
        self.pending()
    }

    /// What the transfer waits for.
    pub fn phase(&self) -> (phase: Phase)
        ensures
            phase == self@.phase,
    {
        self.cursor.phase
    }

    /// What the transfer carries.
    pub fn payload(&self) -> (payload: Payload)
        ensures
            payload == self@.payload,
    {
        self.payload
    }

    /// Number of blocks to transfer.
    pub fn total(&self) -> (total: usize)
        ensures
            total == self@.blocks.len(),
    {
        self.blocks.len()
    }

    /// Number of blocks the device has taken and echoed.
    pub fn blocks_done(&self) -> (done: usize)
        ensures
            done == self@.index,
            done <= self@.blocks.len(),
    {
        proof {
            use_type_invariant(self);
        }
        self.cursor.index
    }

    /// Number of blocks whose echo differed from what was sent.
    pub fn mismatches(&self) -> (count: usize)
        ensures
            count == self@.mismatches,
            count <= self@.index,
    {
        proof {
            use_type_invariant(self);
        }
        self.cursor.mismatches
    }

    /// The result: `None` while the transfer runs, the outcome once it is
    /// over.
    pub fn result(&self) -> (result: Option<Result<(), ProgramError>>)
        ensures
            self@.phase is Done ==> result == Some(self@.outcome),
            !(self@.phase is Done) ==> result is None,
    {
        match self.cursor.phase {
            Phase::Done => Some(self.cursor.outcome),
            _ => None,
        }
    }

    /// The timeout that the transfer puts back before it ends.
    pub fn saved(&self) -> (saved: Timeout)
        ensures
            saved == self@.saved,
    {
        self.saved
    }
}

/// The result after one step of the way out.
fn settle(outcome: Result<(), ProgramError>, event: &Event) -> (settled: Result<(), ProgramError>)
    ensures
        settled == if event@ is Done || outcome is Err {
            outcome
        } else {
            Err(ProgramError::Transport)
        },
{
    match event {
        Event::Done => outcome,
        _ => match outcome {
            Ok(_) => Err(ProgramError::Transport),
            Err(_) => outcome,
        },
    }
}

} // verus!
