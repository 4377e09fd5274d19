//! The block layouts as mathematics: which byte stands where in the input
//! blocks and in the configuration blocks of a stream.

use vstd::prelude::*;

verus! {

/// Size of one transfer block in bytes.
pub const BLOCK_SIZE: usize = 256;

/// Byte that fills every position no input and no record occupies.
pub const PAD: u8 = 0xFF;

/// Value of a port-1 sample that asks for a console reset, and last byte of
/// every reset record.
pub const RESET_MARKER: u8 = 0x01;

/// Number of configuration blocks, the header block included.
pub const CONFIG_BLOCKS: usize = 16;

/// Size of one reset record in bytes.
pub const RECORD_SIZE: usize = 4;

/// Reset records that fit into one block.
pub const RECORDS_PER_BLOCK: usize = 64;

/// Reset records that fit into the fifteen blocks after the header.
pub const MAX_RESETS: usize = 960;

/// Blocks as sequences of bytes.
pub open spec fn blocks_view(blocks: Seq<[u8; 256]>) -> Seq<Seq<u8>> {
    Seq::new(blocks.len(), |i: int| blocks[i]@)
}

/// Quotient of `a` by `b`, rounded up.
pub open spec fn ceil_div(a: int, b: int) -> int {
    (a + b - 1) / b
}

/// Number of input blocks a stream of `len` bytes is split into.
pub open spec fn block_count(len: nat) -> nat {
    ceil_div(len as int, 256) as nat
}

/// Byte at position `offset` of input block `block`: the stream's byte where
/// the stream reaches that far, padding behind its end.
pub open spec fn input_byte(stream: Seq<u8>, block: int, offset: int) -> u8 {
    let index = block * 256 + offset;
    if 0 <= index < stream.len() {
        stream[index]
    } else {
        PAD
    }
}

/// Input block `block` of a stream.
pub open spec fn input_block(stream: Seq<u8>, block: int) -> Seq<u8> {
    Seq::new(256, |offset: int| input_byte(stream, block, offset))
}

/// All input blocks of a stream, in order.
pub open spec fn input_blocks(stream: Seq<u8>) -> Seq<Seq<u8>> {
    Seq::new(block_count(stream.len()), |block: int| input_block(stream, block))
}

/// Number of whole frames in a stream of two interleaved ports. A trailing
/// odd byte belongs to no frame.
pub open spec fn frame_count(stream: Seq<u8>) -> nat {
    stream.len() / 2
}

/// Whether the stream asks for a reset at `frame`: its port-1 sample there is
/// the reset marker.
pub open spec fn is_reset(stream: Seq<u8>, frame: int) -> bool {
    0 <= frame < frame_count(stream) && stream[2 * frame] == RESET_MARKER
}

/// The reset frames among the first `frames` frames, ascending.
pub open spec fn resets_before(stream: Seq<u8>, frames: nat) -> Seq<int>
    decreases frames,
{
    if frames == 0 {
        Seq::empty()
    } else {
        let frame = frames - 1;
        let earlier = resets_before(stream, frame as nat);
        if stream[2 * frame] == RESET_MARKER {
            earlier.push(frame)
        } else {
            earlier
        }
    }
}

/// All reset frames of a stream, ascending.
pub open spec fn reset_frames(stream: Seq<u8>) -> Seq<int> {
    resets_before(stream, frame_count(stream))
}

/// Byte `k` of the record for `frame`: the low 24 bits of the frame number,
/// most significant byte first, then the marker.
pub open spec fn record_byte(frame: int, k: int) -> u8 {
    if k == 0 {
        ((frame / 0x10000) % 0x100) as u8
    } else if k == 1 {
        ((frame / 0x100) % 0x100) as u8
    } else if k == 2 {
        (frame % 0x100) as u8
    } else {
        RESET_MARKER
    }
}

/// Index of the record that covers position `offset` of configuration block
/// `block`, for a block behind the header.
pub open spec fn record_slot(block: int, offset: int) -> int {
    (block - 1) * 64 + offset / 4
}

/// Byte at position `offset` of configuration block `block`, given the reset
/// frames to record: zero in the header block, record bytes while records
/// last, padding behind them.
pub open spec fn config_byte(resets: Seq<int>, block: int, offset: int) -> u8 {
    if block == 0 {
        0
    } else if record_slot(block, offset) < resets.len() {
        record_byte(resets[record_slot(block, offset)], offset % 4)
    } else {
        PAD
    }
}

/// Configuration block `block` for the given reset frames.
pub open spec fn config_block(resets: Seq<int>, block: int) -> Seq<u8> {
    Seq::new(256, |offset: int| config_byte(resets, block, offset))
}

/// All sixteen configuration blocks for the given reset frames.
pub open spec fn config_blocks(resets: Seq<int>) -> Seq<Seq<u8>> {
    Seq::new(16, |block: int| config_block(resets, block))
}

/// `ceil_div(a, b)` is the least number of groups of `b` that hold `a` items.
pub proof fn lemma_ceil_div_least(a: int, b: int)
    requires
        0 <= a,
        0 < b,
    ensures
        0 <= ceil_div(a, b) <= a,
        ceil_div(a, b) * b >= a,
        (ceil_div(a, b) - 1) * b < a || a == 0,
        ceil_div(a, b) == if a % b == 0 { a / b } else { a / b + 1 },
{
    let q = a / b;
    let r = a % b;
    assert(a == b * q + r && 0 <= r < b) by {
        vstd::arithmetic::div_mod::lemma_fundamental_div_mod(a, b);
    }
    assert(0 <= q) by (nonlinear_arith)
        requires a == b * q + r, 0 <= r < b, 0 < b, 0 <= a;
    if r == 0 {
        assert(a + b - 1 == q * b + (b - 1)) by (nonlinear_arith)
            requires a == b * q;
        vstd::arithmetic::div_mod::lemma_fundamental_div_mod_converse(a + b - 1, b, q, b - 1);
        assert(q <= a) by (nonlinear_arith)
            requires a == b * q, 0 < b, 0 <= q;
        assert(q * b == a) by (nonlinear_arith)
            requires a == b * q;
        assert((q - 1) * b < a || a == 0) by (nonlinear_arith)
            requires a == b * q, 0 < b, 0 <= q;
    } else {
        assert(a + b - 1 == (q + 1) * b + (r - 1)) by (nonlinear_arith)
            requires a == b * q + r;
        vstd::arithmetic::div_mod::lemma_fundamental_div_mod_converse(a + b - 1, b, q + 1, r - 1);
        assert(q + 1 <= a) by (nonlinear_arith)
            requires a == b * q + r, 0 < r < b, 0 <= q;
        assert((q + 1) * b >= a) by (nonlinear_arith)
            requires a == b * q + r, 0 < r < b;
        assert(q * b < a) by (nonlinear_arith)
            requires a == b * q + r, 0 < r < b;
    }
}

/// Concatenating blocks of 256 bytes puts byte `offset` of block `block` at
/// position `block * 256 + offset`.
pub proof fn lemma_flatten_blocks(blocks: Seq<Seq<u8>>)
    requires
        forall|i: int| 0 <= i < blocks.len() ==> (#[trigger] blocks[i]).len() == 256,
    ensures
        blocks.flatten().len() == blocks.len() * 256,
        forall|k: int|
            0 <= k < blocks.len() * 256 ==> #[trigger] blocks.flatten()[k] == blocks[k / 256][k % 256],
    decreases blocks.len(),
{
    if blocks.len() > 0 {
        let init = blocks.drop_last();
        let last = blocks.last();
        assert(blocks =~= init.push(last));
        lemma_flatten_blocks(init);
        init.lemma_flatten_push(last);
        assert forall|k: int| 0 <= k < blocks.len() * 256 implies #[trigger] blocks.flatten()[k]
            == blocks[k / 256][k % 256] by {}
    }
}

/// The input blocks hold the stream and nothing else: there are
/// `ceil(len / 256)` of them, 256 bytes each; put one behind the other and cut
/// to the stream's length they give the stream back; and every byte behind the
/// stream's end is padding.
pub proof fn lemma_input_blocks_round_trip(stream: Seq<u8>)
    ensures
        input_blocks(stream).len() == ceil_div(stream.len() as int, 256),
        forall|i: int| 0 <= i < input_blocks(stream).len() ==> (#[trigger] input_blocks(stream)[i]).len() == 256,
        input_blocks(stream).flatten().len() == 256 * input_blocks(stream).len(),
        stream.len() <= input_blocks(stream).flatten().len() < stream.len() + 256,
        input_blocks(stream).flatten().take(stream.len() as int) == stream,
        forall|k: int|
            stream.len() <= k < input_blocks(stream).flatten().len() ==> #[trigger] input_blocks(
                stream,
            ).flatten()[k] == PAD,
{
    let blocks = input_blocks(stream);
    let flat = blocks.flatten();
    lemma_ceil_div_least(stream.len() as int, 256);
    lemma_flatten_blocks(blocks);
    assert forall|k: int| 0 <= k < flat.len() implies #[trigger] flat[k] == (if k < stream.len() {
        stream[k]
    } else {
        PAD
    }) by {}
}

/// A stream has no input blocks if and only if it is empty, and an empty
/// stream has no resets: its configuration is the zero header and fifteen
/// blocks of padding.
pub proof fn lemma_empty_stream(stream: Seq<u8>)
    ensures
        stream.len() == 0 <==> input_blocks(stream).len() == 0,
        stream.len() == 0 ==> reset_frames(stream).len() == 0,
        stream.len() == 0 ==> forall|block: int, offset: int|
            1 <= block < 16 && 0 <= offset < 256 ==> #[trigger] config_byte(
                reset_frames(stream),
                block,
                offset,
            ) == PAD,
{
    lemma_ceil_div_least(stream.len() as int, 256);
}

/// Whatever the resets, there are sixteen configuration blocks of 256 bytes,
/// and the first of them is all zero.
pub proof fn lemma_config_blocks_shape(resets: Seq<int>)
    ensures
        config_blocks(resets).len() == CONFIG_BLOCKS,
        forall|block: int|
            0 <= block < 16 ==> (#[trigger] config_blocks(resets)[block]).len() == BLOCK_SIZE,
        forall|offset: int| 0 <= offset < 256 ==> #[trigger] config_blocks(resets)[0][offset] == 0,
{
}

/// The reset frames found among the first `frames` frames are exactly the
/// frames below `frames` whose port-1 sample is the marker, each once, in
/// ascending order.
pub proof fn lemma_resets_before_exact(stream: Seq<u8>, frames: nat)
    ensures
        resets_before(stream, frames).len() <= frames,
        forall|k: int|
            0 <= k < resets_before(stream, frames).len() ==> {
                &&& 0 <= #[trigger] resets_before(stream, frames)[k] < frames
                &&& stream[2 * resets_before(stream, frames)[k]] == RESET_MARKER
            },
        forall|k: int, m: int|
            0 <= k < m < resets_before(stream, frames).len() ==> #[trigger] resets_before(
                stream,
                frames,
            )[k] < #[trigger] resets_before(stream, frames)[m],
        forall|frame: int|
            0 <= frame < frames && #[trigger] stream[2 * frame] == RESET_MARKER ==> resets_before(
                stream,
                frames,
            ).contains(frame),
    decreases frames,
{
    if frames > 0 {
        let last = frames - 1;
        let earlier = resets_before(stream, last as nat);
        let all = resets_before(stream, frames);
        lemma_resets_before_exact(stream, last as nat);
        assert forall|frame: int|
            0 <= frame < frames && #[trigger] stream[2 * frame] == RESET_MARKER implies all.contains(
            frame,
        ) by {
            if frame < last {
                let k = choose|k: int| 0 <= k < earlier.len() && earlier[k] == frame;
                assert(all[k] == frame);
            } else {
                assert(all[all.len() - 1] == frame);
            }
        }
    }
}

/// The reset frames of a stream are exactly its frames with a reset, each
/// once, in ascending order. The sample behind an odd number of bytes belongs
/// to no frame and is never one of them.
pub proof fn lemma_reset_frames_exact(stream: Seq<u8>)
    ensures
        reset_frames(stream).len() <= frame_count(stream),
        forall|k: int|
            0 <= k < reset_frames(stream).len() ==> is_reset(stream, #[trigger] reset_frames(stream)[k]),
        forall|k: int, m: int|
            0 <= k < m < reset_frames(stream).len() ==> #[trigger] reset_frames(stream)[k]
                < #[trigger] reset_frames(stream)[m],
        forall|frame: int| #[trigger]
            is_reset(stream, frame) ==> reset_frames(stream).contains(frame),
{
    lemma_resets_before_exact(stream, frame_count(stream));
}

/// Every record lies whole in one block behind the header: record `slot`
/// fills the four bytes from offset `4 * (slot % 64)` of block
/// `1 + slot / 64` with the frame number, most significant byte first, and the
/// marker. The fifteen blocks hold 960 records and no more.
pub proof fn lemma_record_position(resets: Seq<int>, slot: int)
    requires
        0 <= slot < resets.len(),
        slot < MAX_RESETS,
    ensures
        1 <= 1 + slot / 64 < CONFIG_BLOCKS,
        0 <= 4 * (slot % 64) && 4 * (slot % 64) + 3 < BLOCK_SIZE,
        forall|k: int|
            0 <= k < 4 ==> #[trigger] config_byte(resets, 1 + slot / 64, 4 * (slot % 64) + k) == record_byte(
                resets[slot],
                k,
            ),
        RECORDS_PER_BLOCK * RECORD_SIZE == BLOCK_SIZE,
        MAX_RESETS == (CONFIG_BLOCKS - 1) * RECORDS_PER_BLOCK,
{
    assert forall|k: int| 0 <= k < 4 implies #[trigger] config_byte(
        resets,
        1 + slot / 64,
        4 * (slot % 64) + k,
    ) == record_byte(resets[slot], k) by {}
}

/// The bytes of a record spell the low 24 bits of its frame number.
pub proof fn lemma_record_value(frame: int)
    requires
        0 <= frame,
    ensures
        record_byte(frame, 0) * 0x10000 + record_byte(frame, 1) * 0x100 + record_byte(frame, 2)
            == frame % 0x1000000,
        record_byte(frame, 3) == RESET_MARKER,
{
}

/// The header block is zero whatever the resets, and without resets every
/// byte behind it is padding.
pub proof fn lemma_config_header_and_padding(resets: Seq<int>, block: int, offset: int)
    requires
        0 <= block < CONFIG_BLOCKS,
        0 <= offset < BLOCK_SIZE,
    ensures
        block == 0 ==> config_byte(resets, block, offset) == 0,
        block > 0 && record_slot(block, offset) >= resets.len() ==> config_byte(resets, block, offset)
            == PAD,
        block > 0 && resets.len() == 0 ==> config_byte(resets, block, offset) == PAD,
{
}

} // verus!
