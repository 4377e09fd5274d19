//! What a block transfer decides, over plain mathematical values.
//!
//! A [`Session`] is the state of one transfer. It asks for one thing at a time
//! on the channel ([`Session::request`]) and moves on when it is told what came
//! of it ([`Session::next`]).

use vstd::prelude::*;
use crate::error::ProgramError;

verus! {

/// Command byte that opens a transfer of input blocks.
pub const CMD_PROGRAM_INPUTS: u8 = 0xAA;

/// Command byte that opens a transfer of configuration blocks.
pub const CMD_PROGRAM_CONFIG: u8 = 0xAB;

/// Byte with which the device asks for the next block, and with which the
/// host answers that it is ready.
pub const PROGRAM_SYNC: u8 = 0x01;

/// Byte that tells the device no more input blocks follow.
pub const NO_INPUTS_REMAIN: u8 = 0x00;

/// Status byte with which the device accepts a configuration.
pub const PROGRAMMING_DONE: u8 = 0xDD;

/// Seconds the channel may take for one read or write during a transfer.
pub const TRANSFER_TIMEOUT_SECS: u64 = 60;

/// Input blocks between two progress reports.
pub const INPUTS_REPORT_EVERY: usize = 16;

/// Configuration blocks between two progress reports.
pub const CONFIG_REPORT_EVERY: usize = 4;

/// What kind of blocks a transfer carries.
#[derive(PartialEq, Eq, Structural, Debug, Clone, Copy)]
pub enum Payload {
    Inputs,
    Config,
}

/// A read and write timeout of the channel.
#[derive(PartialEq, Eq, Structural, Debug, Clone, Copy)]
pub struct Timeout {
    pub secs: u64,
    pub nanos: u32,
}

/// Where a transfer stands, named by what it waits for.
#[derive(PartialEq, Eq, Structural, Debug, Clone, Copy)]
pub enum Phase {
    /// Nothing has happened yet; stale bytes are to be cleared.
    Idle,
    /// The timeout is to be raised.
    Preparing,
    /// The command byte is to be written.
    Commanding,
    /// The device is to ask for the current block.
    AwaitingSync,
    /// The sync byte is to be echoed.
    Acknowledging,
    /// The current block is to be written.
    SendingBlock,
    /// The device is to echo the current block.
    VerifyingBlock,
    /// The device is to send its closing byte.
    AwaitingTermination,
    /// The end of the inputs is to be announced.
    Terminating,
    /// The channel is to be cleared on the way out.
    Flushing,
    /// The timeout is to be put back on the way out.
    Restoring,
    /// The transfer is over.
    Done,
}

/// Something worth telling the user while a transfer runs.
#[derive(PartialEq, Eq, Structural, Debug, Clone, Copy)]
pub enum Progress {
    /// The device echoed block `block` differently from what was sent.
    Mismatch { block: usize },
    /// `done` of `total` blocks have been transferred.
    Blocks { done: usize, total: usize },
}

/// What is to be done on the channel next.
pub enum Request {
    /// Discard whatever the channel has buffered, in both directions.
    Clear,
    /// Set the read and write timeout.
    SetTimeout(Timeout),
    /// Write all of these bytes.
    Write(Seq<u8>),
    /// Read exactly this many bytes.
    Read(nat),
    /// Nothing: the transfer is over, with this result.
    Finish(Result<(), ProgramError>),
}

/// What came of the last request.
pub enum Reply {
    /// A clear, a timeout change or a write went through.
    Done,
    /// A read delivered these bytes.
    Data(Seq<u8>),
    /// The channel reported an error or timed out.
    Failed,
}

/// The command byte that announces a payload.
pub open spec fn command_byte(payload: Payload) -> u8 {
    match payload {
        Payload::Inputs => CMD_PROGRAM_INPUTS,
        Payload::Config => CMD_PROGRAM_CONFIG,
    }
}

/// The number of blocks between two progress reports for a payload.
pub open spec fn report_every(payload: Payload) -> nat {
    match payload {
        Payload::Inputs => INPUTS_REPORT_EVERY as nat,
        Payload::Config => CONFIG_REPORT_EVERY as nat,
    }
}

impl Payload {
    /// The command byte that announces this payload.
    pub fn command(&self) -> (byte: u8)
        ensures
            byte == command_byte(*self),
    {
        match self {
            Payload::Inputs => CMD_PROGRAM_INPUTS,
            Payload::Config => CMD_PROGRAM_CONFIG,
        }
    }

    /// The number of blocks between two progress reports.
    pub fn interval(&self) -> (blocks: usize)
        ensures
            blocks == report_every(*self),
    {
        match self {
            Payload::Inputs => INPUTS_REPORT_EVERY,
            Payload::Config => CONFIG_REPORT_EVERY,
        }
    }
}

/// The timeout in force while a transfer runs.
pub open spec fn transfer_timeout() -> Timeout {
    Timeout { secs: TRANSFER_TIMEOUT_SECS, nanos: 0 }
}

/// What is to be told the user once block `index` of `total` has been echoed:
/// a mismatch if the echo differs, then the count of blocks done if it is a
/// multiple of the payload's interval.
pub open spec fn block_reports(payload: Payload, total: nat, index: nat, differs: bool) -> Seq<
    Progress,
> {
    let done = index + 1;
    let mismatch = if differs {
        seq![Progress::Mismatch { block: index as usize }]
    } else {
        Seq::<Progress>::empty()
    };
    let count = if done % report_every(payload) == 0 {
        seq![Progress::Blocks { done: done as usize, total: total as usize }]
    } else {
        Seq::<Progress>::empty()
    };
    mismatch + count
}

/// The state of one transfer.
pub struct Session {
    /// What is being transferred.
    pub payload: Payload,
    /// The blocks to transfer, 256 bytes each.
    pub blocks: Seq<Seq<u8>>,
    /// The channel's timeout from before the transfer.
    pub saved: Timeout,
    /// What the transfer waits for.
    pub phase: Phase,
    /// Number of blocks the device has taken and echoed.
    pub index: nat,
    /// Number of those blocks whose echo differed.
    pub mismatches: nat,
    /// `Ok` until something fatal happens; then the first such thing.
    pub outcome: Result<(), ProgramError>,
}

impl Session {
    /// A transfer that has not begun.
    pub open spec fn start(payload: Payload, blocks: Seq<Seq<u8>>, saved: Timeout) -> Session {
        Session {
            payload,
            blocks,
            saved,
            phase: Phase::Idle,
            index: 0,
            mismatches: 0,
            outcome: Ok(()),
        }
    }

    /// Whether the phase is one in which a block is in flight.
    pub open spec fn in_block(self) -> bool {
        ||| self.phase is AwaitingSync
        ||| self.phase is Acknowledging
        ||| self.phase is SendingBlock
        ||| self.phase is VerifyingBlock
    }

    /// Whether the transfer is on its way out or over.
    pub open spec fn leaving(self) -> bool {
        ||| self.phase is Flushing
        ||| self.phase is Restoring
        ||| self.phase is Done
    }

    /// What every state that a transfer can reach satisfies.
    pub open spec fn wf(self) -> bool {
        &&& forall|i: int| 0 <= i < self.blocks.len() ==> (#[trigger] self.blocks[i]).len() == 256
        &&& self.blocks.len() <= usize::MAX
        &&& self.index <= self.blocks.len()
        &&& self.mismatches <= self.index
        &&& self.in_block() ==> self.index < self.blocks.len()
        &&& (self.phase is AwaitingTermination || self.phase is Terminating) ==> self.index
            == self.blocks.len()
        &&& (self.phase is Idle || self.phase is Preparing || self.phase is Commanding)
            ==> self.index == 0
        &&& !self.leaving() ==> self.outcome is Ok
    }

    /// What the transfer asks for in this state.
    pub open spec fn request(self) -> Request {
        match self.phase {
            Phase::Idle => Request::Clear,
            Phase::Preparing => Request::SetTimeout(transfer_timeout()),
            Phase::Commanding => Request::Write(seq![command_byte(self.payload)]),
            Phase::AwaitingSync => Request::Read(1),
            Phase::Acknowledging => Request::Write(seq![PROGRAM_SYNC]),
            Phase::SendingBlock => Request::Write(self.blocks[self.index as int]),
            Phase::VerifyingBlock => Request::Read(256),
            Phase::AwaitingTermination => Request::Read(1),
            Phase::Terminating => Request::Write(seq![NO_INPUTS_REMAIN]),
            Phase::Flushing => Request::Clear,
            Phase::Restoring => Request::SetTimeout(self.saved),
            Phase::Done => Request::Finish(self.outcome),
        }
    }

    /// Whether `reply` is what the pending request asked for: as many bytes
    /// as a read wanted, or the plain success of anything else.
    pub open spec fn answered_by(self, reply: Reply) -> bool {
        match self.request() {
            Request::Read(count) => reply matches Reply::Data(bytes) && bytes.len() == count,
            Request::Finish(_) => false,
            _ => reply is Done,
        }
    }

    /// The state that begins the way out with `error` as the result.
    pub open spec fn abort(self, error: ProgramError) -> Session {
        Session { phase: Phase::Flushing, outcome: Err(error), ..self }
    }

    /// The result after one step of the way out was answered by `reply`: a
    /// failure there turns success into a transport error and leaves an
    /// earlier error alone.
    pub open spec fn settled(self, reply: Reply) -> Result<(), ProgramError> {
        if reply is Done || self.outcome is Err {
            self.outcome
        } else {
            Err(ProgramError::Transport)
        }
    }

    /// The phase that follows the command byte or a verified block: the next
    /// block's sync if `done` blocks are not all, else the closing byte.
    pub open spec fn phase_after(self, done: nat) -> Phase {
        if done < self.blocks.len() {
            Phase::AwaitingSync
        } else {
            Phase::AwaitingTermination
        }
    }

    /// The state after a reply that answers the pending request, in a phase
    /// before the way out.
    pub open spec fn advance(self, reply: Reply) -> Session {
        match self.phase {
            Phase::Idle => Session { phase: Phase::Preparing, ..self },
            Phase::Preparing => Session { phase: Phase::Commanding, ..self },
            Phase::Commanding => Session { phase: self.phase_after(0), ..self },
            Phase::AwaitingSync => {
                let received = reply->Data_0[0];
                if received == PROGRAM_SYNC {
                    Session { phase: Phase::Acknowledging, ..self }
                } else {
                    self.abort(ProgramError::SyncMismatch { block: self.index as usize, received })
                }
            },
            Phase::Acknowledging => Session { phase: Phase::SendingBlock, ..self },
            Phase::SendingBlock => Session { phase: Phase::VerifyingBlock, ..self },
            Phase::VerifyingBlock => {
                let differs = reply->Data_0 != self.blocks[self.index as int];
                Session {
                    phase: self.phase_after(self.index + 1),
                    index: self.index + 1,
                    mismatches: if differs {
                        self.mismatches + 1
                    } else {
                        self.mismatches
                    },
                    ..self
                }
            },
            Phase::AwaitingTermination => {
                let status = reply->Data_0[0];
                match self.payload {
                    Payload::Inputs => Session { phase: Phase::Terminating, ..self },
                    Payload::Config => if status == PROGRAMMING_DONE {
                        Session { phase: Phase::Flushing, ..self }
                    } else {
                        self.abort(ProgramError::ConfigRejected(status))
                    },
                }
            },
            Phase::Terminating => Session { phase: Phase::Flushing, ..self },
            _ => self,
        }
    }

    /// The state after `reply`.
    ///
    /// Before the way out, a reply that does not answer the request is a
    /// transport failure and begins the way out. On the way out every reply
    /// moves on, so that the channel is cleared and the timeout put back
    /// whatever happens. Once over, the transfer stays as it is.
    pub open spec fn next(self, reply: Reply) -> Session {
        match self.phase {
            Phase::Done => self,
            Phase::Restoring => Session { phase: Phase::Done, outcome: self.settled(reply), ..self },
            Phase::Flushing => Session {
                phase: Phase::Restoring,
                outcome: self.settled(reply),
                ..self
            },
            _ => if self.answered_by(reply) {
                self.advance(reply)
            } else {
                self.abort(ProgramError::Transport)
            },
        }
    }

    /// What is to be told the user when `reply` arrives in this state:
    /// something only when it is the echo of a block.
    pub open spec fn reports(self, reply: Reply) -> Seq<Progress> {
        if self.phase is VerifyingBlock && self.answered_by(reply) {
            block_reports(
                self.payload,
                self.blocks.len(),
                self.index,
                reply->Data_0 != self.blocks[self.index as int],
            )
        } else {
            Seq::<Progress>::empty()
        }
    }
}

/// A transfer of blocks of 256 bytes begins well-formed.
pub proof fn lemma_start_wf(payload: Payload, blocks: Seq<Seq<u8>>, saved: Timeout)
    requires
        blocks.len() <= usize::MAX,
        forall|i: int| 0 <= i < blocks.len() ==> (#[trigger] blocks[i]).len() == 256,
    ensures
        Session::start(payload, blocks, saved).wf(),
        Session::start(payload, blocks, saved).request() == Request::Clear,
{
}

/// Every step keeps a well-formed session well-formed, and never touches the
/// payload, the blocks or the saved timeout.
pub proof fn lemma_next_wf(s: Session, reply: Reply)
    requires
        s.wf(),
    ensures
        s.next(reply).wf(),
        s.next(reply).payload == s.payload,
        s.next(reply).blocks == s.blocks,
        s.next(reply).saved == s.saved,
{
}

/// There is one way out, and every transfer takes it: it ends only on the
/// answer to its request to put the saved timeout back, it makes that request
/// only on the answer to its request to clear the channel, and on the way out
/// no answer, good or bad, holds it up. Once over it stays over.
pub proof fn lemma_one_way_out(s: Session, reply: Reply)
    requires
        s.wf(),
    ensures
        s.next(reply).phase is Done && !(s.phase is Done) ==> s.phase is Restoring && s.request()
            == Request::SetTimeout(s.saved),
        s.next(reply).phase is Restoring ==> s.phase is Flushing && s.request() == Request::Clear,
        s.phase is Flushing ==> s.next(reply).phase is Restoring,
        s.phase is Restoring ==> s.next(reply).phase is Done,
        s.phase is Done ==> s.next(reply) == s,
        s.leaving() ==> s.next(reply).leaving(),
        s.leaving() ==> s.next(reply).index == s.index && s.next(reply).mismatches == s.mismatches,
        s.leaving() && s.outcome is Err ==> s.next(reply).outcome == s.outcome,
        s.leaving() && reply is Done ==> s.next(reply).outcome == s.outcome,
        s.leaving() ==> s.reports(reply).len() == 0,
{
}

/// Before the way out, an answer that is not what was asked for (a failure,
/// bytes where none were due, too few or too many bytes) is a transport error
/// and begins the way out; nothing is told and no block is counted.
pub proof fn lemma_failure_is_fatal(s: Session, reply: Reply)
    requires
        s.wf(),
        !s.leaving(),
        !s.answered_by(reply),
    ensures
        s.next(reply).phase is Flushing,
        s.next(reply).outcome == Err::<(), ProgramError>(ProgramError::Transport),
        s.next(reply).index == s.index,
        s.next(reply).mismatches == s.mismatches,
        s.reports(reply).len() == 0,
{
}

/// A byte other than the sync byte where the device should ask for a block
/// ends the transfer: the way out begins at once, with an error that names
/// the block and the byte, and the block is not sent.
pub proof fn lemma_wrong_sync_aborts(s: Session, received: u8)
    requires
        s.wf(),
        s.phase is AwaitingSync,
    ensures
        received != PROGRAM_SYNC ==> {
            let after = s.next(Reply::Data(seq![received]));
            &&& after.phase is Flushing
            &&& after.outcome == Err::<(), ProgramError>(
                ProgramError::SyncMismatch { block: s.index as usize, received },
            )
            &&& after.index == s.index
        },
        received == PROGRAM_SYNC ==> {
            let after = s.next(Reply::Data(seq![received]));
            &&& after.phase is Acknowledging
            &&& after.request() == Request::Write(seq![PROGRAM_SYNC])
            &&& after.outcome == s.outcome
            &&& after.index == s.index
        },
{
}

/// An echo that differs from the block sent does not end the transfer: the
/// block counts as done, the next block or the closing byte is awaited, the
/// result stays as it was, and the mismatch is told, with the block's index,
/// if and only if the echo differs.
pub proof fn lemma_mismatch_is_not_fatal(s: Session, echo: Seq<u8>)
    requires
        s.wf(),
        s.phase is VerifyingBlock,
        echo.len() == 256,
    ensures
        ({
            let after = s.next(Reply::Data(echo));
            let told = s.reports(Reply::Data(echo));
            let differs = echo != s.blocks[s.index as int];
            let mismatch = Progress::Mismatch { block: s.index as usize };
            let count = Progress::Blocks {
                done: (s.index + 1) as usize,
                total: s.blocks.len() as usize,
            };
            &&& after.index == s.index + 1
            &&& after.outcome == s.outcome
            &&& after.outcome is Ok
            &&& after.phase == if after.index < s.blocks.len() {
                Phase::AwaitingSync
            } else {
                Phase::AwaitingTermination
            }
            &&& after.mismatches == s.mismatches + if differs { 1nat } else { 0nat }
            &&& told.contains(mismatch) <==> differs
            &&& told.contains(count) <==> (s.index + 1) % report_every(s.payload) == 0
            &&& forall|p: Progress| told.contains(p) ==> p == mismatch || p == count
        }),
{
    let told = s.reports(Reply::Data(echo));
    let differs = echo != s.blocks[s.index as int];
    let mismatch = Progress::Mismatch { block: s.index as usize };
    let count = Progress::Blocks { done: (s.index + 1) as usize, total: s.blocks.len() as usize };
    let due = (s.index + 1) % report_every(s.payload) == 0;
    if differs && due {
        assert(told[0] == mismatch && told[1] == count);
    }
}

/// The closing byte of a configuration transfer decides its result: the code
/// for success leaves it `Ok`, any other byte makes it a rejection that
/// carries the byte. Either way the way out begins.
pub proof fn lemma_config_status_decides(s: Session, status: u8)
    requires
        s.wf(),
        s.phase is AwaitingTermination,
        s.payload is Config,
    ensures
        s.next(Reply::Data(seq![status])).phase is Flushing,
        status == PROGRAMMING_DONE ==> s.next(Reply::Data(seq![status])).outcome is Ok,
        status != PROGRAMMING_DONE ==> s.next(Reply::Data(seq![status])).outcome == Err::<
            (),
            ProgramError,
        >(ProgramError::ConfigRejected(status)),
{
}

/// The closing byte of an input transfer is not looked at: whatever it is,
/// the end of the inputs is announced next, and once that is written the way
/// out begins with the result still `Ok`.
pub proof fn lemma_inputs_end_unchecked(s: Session, status: u8)
    requires
        s.wf(),
        s.phase is AwaitingTermination,
        s.payload is Inputs,
    ensures
        ({
            let announced = s.next(Reply::Data(seq![status]));
            &&& announced.phase is Terminating
            &&& announced.request() == Request::Write(seq![NO_INPUTS_REMAIN])
            &&& announced.next(Reply::Done).phase is Flushing
            &&& announced.next(Reply::Done).outcome is Ok
        }),
{
}

} // verus!
