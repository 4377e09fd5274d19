//! Whole runs of a transfer: what it asks for, tells and ends with when a
//! device answers in a given way.

use vstd::prelude::*;
use crate::error::ProgramError;
use crate::session::{
    block_reports, command_byte, lemma_next_wf, lemma_one_way_out, transfer_timeout, Payload,
    Progress, Reply, Request, Session, NO_INPUTS_REMAIN, PROGRAMMING_DONE, PROGRAM_SYNC,
};

verus! {

impl Session {
    /// The state after all of `replies`, taken in order.
    pub open spec fn run(self, replies: Seq<Reply>) -> Session
        decreases replies.len(),
    {
        if replies.len() == 0 {
            self
        } else {
            self.next(replies.first()).run(replies.drop_first())
        }
    }

    /// Everything told the user while `replies` arrive.
    pub open spec fn told(self, replies: Seq<Reply>) -> Seq<Progress>
        decreases replies.len(),
    {
        if replies.len() == 0 {
            Seq::empty()
        } else {
            self.reports(replies.first()) + self.next(replies.first()).told(replies.drop_first())
        }
    }

    /// The requests that `replies` answer, one each: the pending one first.
    pub open spec fn asked(self, replies: Seq<Reply>) -> Seq<Request>
        decreases replies.len(),
    {
        if replies.len() == 0 {
            Seq::empty()
        } else {
            seq![self.request()] + self.next(replies.first()).asked(replies.drop_first())
        }
    }
}

/// The answers of a channel on which the opening of a transfer goes through.
pub open spec fn opening() -> Seq<Reply> {
    seq![Reply::Done, Reply::Done, Reply::Done]
}

/// The answers of a device that takes one block and echoes it as `echo`.
pub open spec fn exchange(echo: Seq<u8>) -> Seq<Reply> {
    seq![Reply::Data(seq![PROGRAM_SYNC]), Reply::Done, Reply::Done, Reply::Data(echo)]
}

/// The answers of a device that takes one block after the other and echoes
/// them as `echoes`.
pub open spec fn exchanges(echoes: Seq<Seq<u8>>) -> Seq<Reply>
    decreases echoes.len(),
{
    if echoes.len() == 0 {
        Seq::empty()
    } else {
        exchanges(echoes.drop_last()) + exchange(echoes.last())
    }
}

/// The answers of a device that closes a transfer with `status`, on a channel
/// on which the way out goes through.
pub open spec fn closing(payload: Payload, status: u8) -> Seq<Reply> {
    match payload {
        Payload::Inputs => seq![
            Reply::Data(seq![status]),
            Reply::Done,
            Reply::Done,
            Reply::Done,
        ],
        Payload::Config => seq![Reply::Data(seq![status]), Reply::Done, Reply::Done],
    }
}

/// What the opening of a transfer asks for.
pub open spec fn opening_requests(payload: Payload) -> Seq<Request> {
    seq![
        Request::Clear,
        Request::SetTimeout(transfer_timeout()),
        Request::Write(seq![command_byte(payload)]),
    ]
}

/// What the transfer of one block asks for.
pub open spec fn exchange_requests(block: Seq<u8>) -> Seq<Request> {
    seq![
        Request::Read(1),
        Request::Write(seq![PROGRAM_SYNC]),
        Request::Write(block),
        Request::Read(256),
    ]
}

/// What the transfer of the first `count` blocks asks for.
pub open spec fn exchanges_requests(blocks: Seq<Seq<u8>>, count: nat) -> Seq<Request>
    decreases count,
{
    if count == 0 {
        Seq::empty()
    } else {
        exchanges_requests(blocks, (count - 1) as nat) + exchange_requests(blocks[count - 1])
    }
}

/// What the end of a transfer asks for, the way out included.
pub open spec fn closing_requests(payload: Payload, saved: crate::session::Timeout) -> Seq<Request> {
    match payload {
        Payload::Inputs => seq![
            Request::Read(1),
            Request::Write(seq![NO_INPUTS_REMAIN]),
            Request::Clear,
            Request::SetTimeout(saved),
        ],
        Payload::Config => seq![Request::Read(1), Request::Clear, Request::SetTimeout(saved)],
    }
}

/// What is told the user while the first blocks are echoed as `echoes`.
pub open spec fn exchanges_reports(payload: Payload, blocks: Seq<Seq<u8>>, echoes: Seq<Seq<u8>>) -> Seq<
    Progress,
>
    decreases echoes.len(),
{
    if echoes.len() == 0 {
        Seq::empty()
    } else {
        let index = (echoes.len() - 1) as nat;
        exchanges_reports(payload, blocks, echoes.drop_last()) + block_reports(
            payload,
            blocks.len(),
            index,
            echoes.last() != blocks[index as int],
        )
    }
}

/// The number of echoes that differ from the block they answer.
pub open spec fn mismatch_count(blocks: Seq<Seq<u8>>, echoes: Seq<Seq<u8>>) -> nat
    decreases echoes.len(),
{
    if echoes.len() == 0 {
        0
    } else {
        let index = echoes.len() - 1;
        mismatch_count(blocks, echoes.drop_last()) + if echoes.last() != blocks[index] {
            1nat
        } else {
            0nat
        }
    }
}

/// The result that a device's closing byte gives a transfer.
pub open spec fn verdict(payload: Payload, status: u8) -> Result<(), ProgramError> {
    if payload is Config && status != PROGRAMMING_DONE {
        Err(ProgramError::ConfigRejected(status))
    } else {
        Ok(())
    }
}

/// A run over one reply is one step.
pub proof fn lemma_run_one(s: Session, reply: Reply)
    ensures
        s.run(seq![reply]) == s.next(reply),
        s.told(seq![reply]) == s.reports(reply),
        s.asked(seq![reply]) == seq![s.request()],
{
    let replies = seq![reply];
    assert(s.next(reply).run(replies.drop_first()) == s.next(reply));
    assert(s.next(reply).told(replies.drop_first()) =~= Seq::<Progress>::empty());
    assert(s.next(reply).asked(replies.drop_first()) =~= Seq::<Request>::empty());
    assert(s.told(replies) =~= s.reports(reply));
}

/// A run over replies put one behind the other is the run over the first,
/// continued over the second.
pub proof fn lemma_run_concat(s: Session, first: Seq<Reply>, second: Seq<Reply>)
    ensures
        s.run(first + second) == s.run(first).run(second),
        s.told(first + second) == s.told(first) + s.run(first).told(second),
        s.asked(first + second) == s.asked(first) + s.run(first).asked(second),
    decreases first.len(),
{
    if first.len() == 0 {
        assert(first + second =~= second);
        assert(s.told(first) + s.run(first).told(second) =~= s.told(second));
    } else {
        let all = first + second;
        assert(all.drop_first() =~= first.drop_first() + second);
        let t = s.next(first.first());
        lemma_run_concat(t, first.drop_first(), second);
    }
}

/// A run keeps a well-formed session well-formed, and never touches the
/// payload, the blocks or the saved timeout.
pub proof fn lemma_run_wf(s: Session, replies: Seq<Reply>)
    requires
        s.wf(),
    ensures
        s.run(replies).wf(),
        s.run(replies).payload == s.payload,
        s.run(replies).blocks == s.blocks,
        s.run(replies).saved == s.saved,
        s.asked(replies).len() == replies.len(),
    decreases replies.len(),
{
    if replies.len() > 0 {
        lemma_next_wf(s, replies.first());
        lemma_run_wf(s.next(replies.first()), replies.drop_first());
    }
}

/// A run over replies with one more behind them is the run over those
/// replies, then one step.
pub proof fn lemma_run_push(s: Session, replies: Seq<Reply>, reply: Reply)
    ensures
        s.run(replies.push(reply)) == s.run(replies).next(reply),
        s.told(replies.push(reply)) == s.told(replies) + s.run(replies).reports(reply),
        s.asked(replies.push(reply)) == s.asked(replies).push(s.run(replies).request()),
{
    assert(replies.push(reply) =~= replies + seq![reply]);
    lemma_run_concat(s, replies, seq![reply]);
    lemma_run_one(s.run(replies), reply);
}

/// The opening of a transfer, on a channel on which it goes through: the
/// channel is cleared, the timeout raised and the command written, and the
/// first block's sync, or with no blocks the closing byte, is awaited.
pub proof fn lemma_opening_run(s: Session)
    requires
        s.wf(),
        s.phase is Idle,
    ensures
        s.run(opening()) == (Session { phase: s.phase_after(0), ..s }),
        s.asked(opening()) == opening_requests(s.payload),
        s.told(opening()).len() == 0,
{
    let one = seq![Reply::Done];
    assert(opening() =~= one + one + one);
    let a = s.next(Reply::Done);
    let b = a.next(Reply::Done);
    lemma_run_one(s, Reply::Done);
    lemma_run_one(a, Reply::Done);
    lemma_run_one(b, Reply::Done);
    lemma_run_concat(s, one, one);
    lemma_run_concat(s, one + one, one);
}

/// One block taken by the device and echoed: the block counts as done and
/// what is awaited next is the next block's sync or the closing byte, whether
/// or not the echo agrees.
pub proof fn lemma_exchange_run(s: Session, echo: Seq<u8>)
    requires
        s.wf(),
        s.phase is AwaitingSync,
        echo.len() == 256,
    ensures
        s.run(exchange(echo)) == (Session {
            phase: s.phase_after(s.index + 1),
            index: s.index + 1,
            mismatches: s.mismatches + if echo != s.blocks[s.index as int] {
                1nat
            } else {
                0nat
            },
            ..s
        }),
        s.asked(exchange(echo)) == exchange_requests(s.blocks[s.index as int]),
        s.told(exchange(echo)) == block_reports(
            s.payload,
            s.blocks.len(),
            s.index,
            echo != s.blocks[s.index as int],
        ),
{
    let r0 = Reply::Data(seq![PROGRAM_SYNC]);
    let r1 = Reply::Done;
    let r3 = Reply::Data(echo);
    assert(exchange(echo) =~= seq![r0] + seq![r1] + seq![r1] + seq![r3]);
    let a = s.next(r0);
    let b = a.next(r1);
    let c = b.next(r1);
    lemma_run_one(s, r0);
    lemma_run_one(a, r1);
    lemma_run_one(b, r1);
    lemma_run_one(c, r3);
    lemma_run_concat(s, seq![r0], seq![r1]);
    lemma_run_concat(s, seq![r0] + seq![r1], seq![r1]);
    lemma_run_concat(s, seq![r0] + seq![r1] + seq![r1], seq![r3]);
}

/// No more echoes differ than there are.
pub proof fn lemma_mismatch_count_bound(blocks: Seq<Seq<u8>>, echoes: Seq<Seq<u8>>)
    ensures
        mismatch_count(blocks, echoes) <= echoes.len(),
    decreases echoes.len(),
{
    if echoes.len() > 0 {
        lemma_mismatch_count_bound(blocks, echoes.drop_last());
    }
}

/// The first blocks taken by the device and echoed as `echoes`: as many
/// blocks count as done as there are echoes, whatever the echoes hold.
pub proof fn lemma_exchanges_run(s: Session, echoes: Seq<Seq<u8>>)
    requires
        s.wf(),
        s.phase is AwaitingSync,
        s.index == 0,
        s.mismatches == 0,
        echoes.len() <= s.blocks.len(),
        forall|i: int| 0 <= i < echoes.len() ==> (#[trigger] echoes[i]).len() == 256,
    ensures
        s.run(exchanges(echoes)) == (Session {
            phase: s.phase_after(echoes.len()),
            index: echoes.len(),
            mismatches: mismatch_count(s.blocks, echoes),
            ..s
        }),
        s.asked(exchanges(echoes)) == exchanges_requests(s.blocks, echoes.len()),
        s.told(exchanges(echoes)) == exchanges_reports(s.payload, s.blocks, echoes),
    decreases echoes.len(),
{
    if echoes.len() > 0 {
        let init = echoes.drop_last();
        let last = echoes.last();
        lemma_exchanges_run(s, init);
        lemma_mismatch_count_bound(s.blocks, init);
        let mid = s.run(exchanges(init));
        lemma_run_wf(s, exchanges(init));
        lemma_exchange_run(mid, last);
        lemma_run_concat(s, exchanges(init), exchange(last));
    }
}

/// A transfer on which nothing fails and every sync byte is right runs to
/// its end whatever the device echoes.
///
/// It asks for the opening, then block by block for every block, then for
/// the end and the way out, and for nothing else. All blocks count as done.
/// The result is `Ok` for inputs whatever the closing byte, and for a
/// configuration `Ok` if the closing byte is the code for success and else a
/// rejection that carries the byte. What it tells is, block by block, the
/// mismatch if the echo differed and the count if it was due: the mismatches
/// told are those of the blocks whose echo differed, and no others.
pub proof fn lemma_whole_run(s: Session, echoes: Seq<Seq<u8>>, status: u8)
    requires
        s.wf(),
        s.phase is Idle,
        s.mismatches == 0,
        echoes.len() == s.blocks.len(),
        forall|i: int| 0 <= i < echoes.len() ==> (#[trigger] echoes[i]).len() == 256,
    ensures
        ({
            let replies = opening() + exchanges(echoes) + closing(s.payload, status);
            let end = s.run(replies);
            &&& end.phase is Done
            &&& end.index == s.blocks.len()
            &&& end.mismatches == mismatch_count(s.blocks, echoes)
            &&& end.outcome is Ok <==> verdict(s.payload, status) is Ok
            &&& end.outcome is Err ==> end.outcome == verdict(s.payload, status)
            &&& end.request() == Request::Finish(end.outcome)
            &&& s.asked(replies) == opening_requests(s.payload) + exchanges_requests(
                s.blocks,
                s.blocks.len(),
            ) + closing_requests(s.payload, s.saved)
            &&& s.told(replies) == exchanges_reports(s.payload, s.blocks, echoes)
            &&& s.told(replies).filter(|p: Progress| p is Mismatch) == mismatches_told(
                s.blocks,
                echoes,
            )
            &&& forall|block: usize|
                #[trigger] mismatches_told(s.blocks, echoes).contains(Progress::Mismatch { block })
                    <==> (block < echoes.len() && echoes[block as int] != s.blocks[block as int])
        }),
{
    let opened = s.run(opening());
    lemma_opening_run(s);
    lemma_run_wf(s, opening());
    lemma_mismatches_told(s.payload, s.blocks, echoes);
    let sent = opened.run(exchanges(echoes));
    if echoes.len() == 0 {
        assert(sent == opened);
    } else {
        lemma_exchanges_run(opened, echoes);
    }
    lemma_mismatch_count_bound(s.blocks, echoes);
    lemma_run_concat(s, opening(), exchanges(echoes));
    lemma_run_concat(s, opening() + exchanges(echoes), closing(s.payload, status));
    lemma_closing_run(sent, status);
}

/// The end of a transfer, on a channel on which it goes through.
pub proof fn lemma_closing_run(s: Session, status: u8)
    requires
        s.wf(),
        s.phase is AwaitingTermination,
    ensures
        ({
            let end = s.run(closing(s.payload, status));
            &&& end.phase is Done
            &&& end.index == s.index
            &&& end.mismatches == s.mismatches
            &&& end.outcome is Ok <==> verdict(s.payload, status) is Ok
            &&& end.outcome is Err ==> end.outcome == verdict(s.payload, status)
        }),
        s.asked(closing(s.payload, status)) == closing_requests(s.payload, s.saved),
        s.told(closing(s.payload, status)).len() == 0,
{
    let r0 = Reply::Data(seq![status]);
    let d = Reply::Done;
    let a = s.next(r0);
    let b = a.next(d);
    let c = b.next(d);
    lemma_run_one(s, r0);
    lemma_run_one(a, d);
    lemma_run_one(b, d);
    lemma_run_one(c, d);
    lemma_run_concat(s, seq![r0], seq![d]);
    lemma_run_concat(s, seq![r0] + seq![d], seq![d]);
    match s.payload {
        Payload::Inputs => {
            assert(closing(s.payload, status) =~= seq![r0] + seq![d] + seq![d] + seq![d]);
            lemma_run_concat(s, seq![r0] + seq![d] + seq![d], seq![d]);
        },
        Payload::Config => {
            assert(closing(s.payload, status) =~= seq![r0] + seq![d] + seq![d]);
        },
    }
}

/// A wrong sync byte ends the transfer where it stands.
///
/// With the blocks before it taken and echoed as `echoes`, the transfer has
/// asked for the opening and for those blocks; on the wrong byte it asks to
/// clear the channel and to put the saved timeout back, and for nothing
/// else, whatever comes of those two requests. The block that the byte
/// should have asked for, and all behind it, are never written. The result
/// is the sync mismatch, with that block's index and the byte.
pub proof fn lemma_wrong_sync_run(
    s: Session,
    echoes: Seq<Seq<u8>>,
    received: u8,
    cleared: Reply,
    restored: Reply,
)
    requires
        s.wf(),
        s.phase is Idle,
        s.mismatches == 0,
        echoes.len() < s.blocks.len(),
        forall|i: int| 0 <= i < echoes.len() ==> (#[trigger] echoes[i]).len() == 256,
        received != PROGRAM_SYNC,
    ensures
        ({
            let replies = opening() + exchanges(echoes) + seq![
                Reply::Data(seq![received]),
                cleared,
                restored,
            ];
            let end = s.run(replies);
            &&& end.phase is Done
            &&& end.index == echoes.len()
            &&& end.outcome == Err::<(), ProgramError>(
                ProgramError::SyncMismatch { block: echoes.len() as usize, received },
            )
            &&& end.request() == Request::Finish(end.outcome)
            &&& s.asked(replies) == opening_requests(s.payload) + exchanges_requests(
                s.blocks,
                echoes.len(),
            ) + seq![Request::Read(1), Request::Clear, Request::SetTimeout(s.saved)]
            &&& s.told(replies) == exchanges_reports(s.payload, s.blocks, echoes)
        }),
{
    let tail = seq![Reply::Data(seq![received]), cleared, restored];
    let opened = s.run(opening());
    lemma_opening_run(s);
    lemma_run_wf(s, opening());
    let sent = opened.run(exchanges(echoes));
    if echoes.len() > 0 {
        lemma_exchanges_run(opened, echoes);
    }
    lemma_mismatch_count_bound(s.blocks, echoes);
    lemma_run_concat(s, opening(), exchanges(echoes));
    lemma_run_concat(s, opening() + exchanges(echoes), tail);
    let r0 = Reply::Data(seq![received]);
    let a = sent.next(r0);
    let b = a.next(cleared);
    assert(tail =~= seq![r0] + seq![cleared] + seq![restored]);
    lemma_run_one(sent, r0);
    lemma_run_one(a, cleared);
    lemma_run_one(b, restored);
    lemma_run_concat(sent, seq![r0], seq![cleared]);
    lemma_run_concat(sent, seq![r0] + seq![cleared], seq![restored]);
    assert(sent.asked(tail) =~= seq![
        Request::Read(1),
        Request::Clear,
        Request::SetTimeout(s.saved),
    ]);
}

/// A failure of the channel ends the transfer wherever it stands: it asks to
/// clear the channel and to put the saved timeout back, and ends with a
/// transport error, whatever comes of those two requests.
pub proof fn lemma_failure_run(s: Session, failure: Reply, cleared: Reply, restored: Reply)
    requires
        s.wf(),
        !s.leaving(),
        !s.answered_by(failure),
    ensures
        ({
            let replies = seq![failure, cleared, restored];
            let end = s.run(replies);
            &&& end.phase is Done
            &&& end.index == s.index
            &&& end.outcome == Err::<(), ProgramError>(ProgramError::Transport)
            &&& s.asked(replies) == seq![
                s.request(),
                Request::Clear,
                Request::SetTimeout(s.saved),
            ]
            &&& s.told(replies).len() == 0
        }),
{
    let replies = seq![failure, cleared, restored];
    let a = s.next(failure);
    let b = a.next(cleared);
    assert(replies =~= seq![failure] + seq![cleared] + seq![restored]);
    lemma_run_one(s, failure);
    lemma_run_one(a, cleared);
    lemma_run_one(b, restored);
    lemma_run_concat(s, seq![failure], seq![cleared]);
    lemma_run_concat(s, seq![failure] + seq![cleared], seq![restored]);
}

/// However a transfer comes to its end, the last two things it asked for
/// were to clear the channel and to put the saved timeout back, in that
/// order.
pub proof fn lemma_every_end_restores(s: Session, replies: Seq<Reply>)
    requires
        s.wf(),
        !s.leaving(),
        replies.len() > 0,
        s.run(replies).phase is Done,
        !(s.run(replies.drop_last()).phase is Done),
    ensures
        replies.len() >= 3,
        s.asked(replies).len() == replies.len(),
        s.asked(replies)[replies.len() - 2] == Request::Clear,
        s.asked(replies)[replies.len() - 1] == Request::SetTimeout(s.saved),
{
    let init = replies.drop_last();
    let before = s.run(init);
    assert(replies =~= init.push(replies.last()));
    lemma_run_push(s, init, replies.last());
    lemma_run_wf(s, init);
    lemma_run_wf(s, replies);
    lemma_one_way_out(before, replies.last());
    assert(before.phase is Restoring);
    let start = init.drop_last();
    let earlier = s.run(start);
    assert(init =~= start.push(init.last()));
    lemma_run_push(s, start, init.last());
    lemma_run_wf(s, start);
    lemma_one_way_out(earlier, init.last());
}

/// The mismatches to tell when the first blocks are echoed as `echoes`: one
/// for each echo that differs, in the order of the blocks.
pub open spec fn mismatches_told(blocks: Seq<Seq<u8>>, echoes: Seq<Seq<u8>>) -> Seq<Progress>
    decreases echoes.len(),
{
    if echoes.len() == 0 {
        Seq::empty()
    } else {
        let index = echoes.len() - 1;
        mismatches_told(blocks, echoes.drop_last()) + if echoes.last() != blocks[index] {
            seq![Progress::Mismatch { block: index as usize }]
        } else {
            Seq::<Progress>::empty()
        }
    }
}

/// What a transfer tells of mismatches is exact: left to themselves, the
/// mismatches among what is told are those of the echoes that differ, each
/// once, in the order of the blocks.
pub proof fn lemma_mismatches_told(payload: Payload, blocks: Seq<Seq<u8>>, echoes: Seq<Seq<u8>>)
    requires
        echoes.len() <= blocks.len() <= usize::MAX,
    ensures
        exchanges_reports(payload, blocks, echoes).filter(|p: Progress| p is Mismatch)
            == mismatches_told(blocks, echoes),
        mismatches_told(blocks, echoes).len() == mismatch_count(blocks, echoes),
        forall|block: usize|
            #[trigger] mismatches_told(blocks, echoes).contains(Progress::Mismatch { block }) <==> (
            block < echoes.len() && echoes[block as int] != blocks[block as int]),
    decreases echoes.len(),
{
    let only = |p: Progress| p is Mismatch;
    if echoes.len() == 0 {
        assert(exchanges_reports(payload, blocks, echoes).filter(only) =~= Seq::<Progress>::empty())
            by {
            reveal(Seq::filter);
        }
    } else {
        let init = echoes.drop_last();
        let index = (echoes.len() - 1) as nat;
        let differs = echoes.last() != blocks[index as int];
        let here = block_reports(payload, blocks.len(), index, differs);
        let mismatch = Progress::Mismatch { block: index as usize };
        let found = if differs {
            seq![mismatch]
        } else {
            Seq::<Progress>::empty()
        };
        lemma_mismatches_told(payload, blocks, init);
        Seq::filter_distributes_over_add(exchanges_reports(payload, blocks, init), here, only);
        assert(here.filter(only) =~= found) by {
            lemma_block_reports_filter(payload, blocks.len(), index, differs);
        }
        let all = mismatches_told(blocks, echoes);
        let earlier = mismatches_told(blocks, init);
        assert(all =~= earlier + found);
        assert forall|block: usize|
            #[trigger] all.contains(Progress::Mismatch { block }) <==> (block < echoes.len()
                && echoes[block as int] != blocks[block as int]) by {
            let wanted = Progress::Mismatch { block };
            if all.contains(wanted) {
                let k = choose|k: int| 0 <= k < all.len() && all[k] == wanted;
                if k < earlier.len() {
                    assert(earlier.contains(wanted));
                }
            }
            if block < echoes.len() && echoes[block as int] != blocks[block as int] {
                if block < init.len() {
                    assert(earlier.contains(wanted));
                    let k = choose|k: int| 0 <= k < earlier.len() && earlier[k] == wanted;
                    assert(all[k] == wanted);
                } else {
                    assert(all[earlier.len() as int] == wanted);
                }
            }
        }
    }
}

/// Of what is told after one block, the mismatch is the part that says the
/// echo differed.
pub proof fn lemma_block_reports_filter(payload: Payload, total: nat, index: nat, differs: bool)
    ensures
        block_reports(payload, total, index, differs).filter(|p: Progress| p is Mismatch) == if differs {
            seq![Progress::Mismatch { block: index as usize }]
        } else {
            Seq::<Progress>::empty()
        },
{
    let only = |p: Progress| p is Mismatch;
    let mismatch = Progress::Mismatch { block: index as usize };
    let count = Progress::Blocks { done: (index + 1) as usize, total: total as usize };
    let none = Seq::<Progress>::empty();
    assert(none.filter(only) =~= none) by {
        reveal(Seq::filter);
    }
    assert(seq![mismatch].filter(only) =~= seq![mismatch]) by {
        reveal(Seq::filter);
    }
    assert(seq![count].filter(only) =~= none) by {
        reveal(Seq::filter);
        assert(seq![count].drop_last() =~= none);
    }
    let first = if differs {
        seq![mismatch]
    } else {
        none
    };
    let second = if (index + 1) % crate::session::report_every(payload) == 0 {
        seq![count]
    } else {
        none
    };
    Seq::filter_distributes_over_add(first, second, only);
}

} // verus!
