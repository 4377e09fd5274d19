//! The input movie and its two block encodings.

use vstd::prelude::*;
use vstd::string::StringSliceAdditionalSpecFns;
use crate::error::ProgramError;
use crate::layout::{
    block_count, blocks_view, ceil_div, config_blocks, config_byte, input_blocks, input_byte,
    lemma_ceil_div_least, record_slot, reset_frames, resets_before, BLOCK_SIZE, MAX_RESETS, PAD,
    RESET_MARKER,
};

verus! {

/// Container format a movie was loaded from.
#[allow(non_camel_case_types)]
#[derive(PartialEq, Eq, Structural, Debug, Clone, Copy)]
pub enum FileType {
    TASD,
    M64,
    R08,
    R16M,
    A2600Bin,
    NONE,
}

/// A normalized input movie: one byte per controller sample, the ports of a
/// frame interleaved.
#[derive(Debug, Clone)]
pub struct InputsMovie {
    pub inputs: Vec<u8>,
    pub file_type: FileType,
}

/// Where one reset record went: the frame it marks, and the block and the
/// offset at which its four bytes start.
#[derive(PartialEq, Eq, Structural, Debug, Clone, Copy)]
pub struct ResetRecord {
    pub frame: usize,
    pub block: usize,
    pub offset: usize,
}

/// The record that the reset at `frame` gets when `slot` records precede it.
pub open spec fn placed(frame: int, slot: int) -> ResetRecord {
    ResetRecord {
        frame: frame as usize,
        block: (1 + slot / 64) as usize,
        offset: (4 * (slot % 64)) as usize,
    }
}

/// The records of the given reset frames, in order.
pub open spec fn placements(resets: Seq<int>) -> Seq<ResetRecord> {
    Seq::new(resets.len(), |slot: int| placed(resets[slot], slot))
}

/// A byte with all its bits inverted.
pub open spec fn inverted(byte: u8) -> u8 {
    byte ^ 0xFF
}

/// `bytes`, each inverted if `invert` is set.
pub open spec fn prepared(bytes: Seq<u8>, invert: bool) -> Seq<u8> {
    Seq::new(
        bytes.len(),
        |i: int|
            if invert {
                inverted(bytes[i])
            } else {
                bytes[i]
            },
    )
}

/// Inverting a byte takes it to its distance from 255, and inverting twice
/// gives the byte back.
pub proof fn lemma_inverted(byte: u8)
    ensures
        inverted(byte) == 255 - byte,
        inverted(inverted(byte)) == byte,
{
    assert(byte ^ 0xFF == 255 - byte) by (bit_vector);
    assert((byte ^ 0xFF) ^ 0xFF == byte) by (bit_vector);
}

/// Copies `bytes`, inverting each if `invert` is set.
pub fn prepare(bytes: &[u8], invert: bool) -> (out: Vec<u8>)
    ensures
        out@ == prepared(bytes@, invert),
{
    let mut out: Vec<u8> = Vec::new();
    let mut i: usize = 0;
    while i < bytes.len()
        invariant
            i <= bytes@.len(),
            out@.len() == i,
            forall|k: int| 0 <= k < i ==> out@[k] == prepared(bytes@, invert)[k],
        decreases bytes@.len() - i,
    {
        let byte: u8 = bytes[i];
        if invert {
            out.push(byte ^ 0xFF);
        } else {
            out.push(byte);
        }
        i += 1;
    }
    out
}

/// Divides `a` by `b` and rounds up.
pub fn div_up(a: usize, b: usize) -> (q: usize)
    requires
        b > 0,
    ensures
        q as int == ceil_div(a as int, b as int),
{
    proof {
        lemma_ceil_div_least(a as int, b as int);
    }
    if a % b != 0 {
        a / b + 1
    } else {
        a / b
    }
}

impl InputsMovie {
    /// An empty movie of the given format.
    pub fn new(file_type: FileType) -> (movie: Self)
        ensures
            movie.inputs@ == Seq::<u8>::empty(),
            movie.file_type == file_type,
    {
        InputsMovie { inputs: Vec::new(), file_type: file_type }
    }

    /// The state before any movie is loaded: no inputs, no format.
    pub fn none() -> (movie: Self)
        ensures
            movie.inputs@ == Seq::<u8>::empty(),
            movie.file_type == FileType::NONE,
    {
        Self::new(FileType::NONE)
    }

    /// Puts `bytes` in front of the inputs, each with all its bits inverted
    /// if `invert` is set.
    pub fn prepend(&mut self, bytes: &[u8], invert: bool)
        ensures
            final(self).inputs@ == prepared(bytes@, invert) + old(self).inputs@,
            final(self).file_type == old(self).file_type,
    {
        let mut inputs: Vec<u8> = prepare(bytes, invert);
        inputs.append(&mut self.inputs);
        self.inputs = inputs;
    }

    /// Splits the inputs into 256-byte blocks, the last one padded.
    pub fn input_blocks(&self) -> (blocks: Vec<[u8; 256]>)
        ensures
            blocks_view(blocks@) == input_blocks(self.inputs@),
            blocks@.len() == block_count(self.inputs@.len()),
            forall|i: int, j: int|
                0 <= i < blocks@.len() && 0 <= j < 256 ==> #[trigger] blocks@[i]@[j] == input_byte(
                    self.inputs@,
                    i,
                    j,
                ),
    {
        let mut blocks: Vec<[u8; 256]> = Vec::new();
        let len: usize = self.inputs.len();
        let count: usize = div_up(len, BLOCK_SIZE);
        proof {
            lemma_ceil_div_least(len as int, 256);
        }
        let mut i: usize = 0;
        while i < count
            invariant
                len == self.inputs@.len(),
                count == block_count(len as nat),
                (count - 1) * 256 < len || len == 0,
                i <= count,
                blocks@.len() == i,
                forall|a: int, b: int|
                    0 <= a < i && 0 <= b < 256 ==> #[trigger] blocks@[a]@[b] == input_byte(
                        self.inputs@,
                        a,
                        b,
                    ),
            decreases count - i,
        {
            let mut block: [u8; 256] = [PAD; 256];
            let base: usize = i * BLOCK_SIZE;
            let mut j: usize = 0;
            while j < BLOCK_SIZE
                invariant
                    len == self.inputs@.len(),
                    base == i * 256,
                    base < len,
                    j <= 256,
                    forall|b: int| 0 <= b < j ==> #[trigger] block@[b] == input_byte(self.inputs@, i as int, b),
                decreases 256 - j,
            {
                let mut byte: u8 = PAD;
                if j < len - base {
                    byte = self.inputs[base + j];
                }
                block[j] = byte;
                j += 1;
            }
            blocks.push(block);
            i += 1;
        }
        assert forall|a: int| 0 <= a < blocks@.len() implies blocks_view(blocks@)[a] =~= input_blocks(
            self.inputs@,
        )[a] by {}
        blocks
    }

    /// Encodes the reset frames into the sixteen configuration blocks and
    /// hands one record per reset to `sink`.
    ///
    /// Fails when the stream holds more resets than the blocks can record;
    /// `sink` is then left as it was.
    pub fn config_blocks(&self, sink: &mut Vec<ResetRecord>) -> (result: Result<
        [[u8; 256]; 16],
        ProgramError,
    >)
        ensures
            result is Ok <==> reset_frames(self.inputs@).len() <= MAX_RESETS,
            result is Err ==> result->Err_0 == ProgramError::TooManyResets,
            result is Ok ==> blocks_view(result->Ok_0@) == config_blocks(reset_frames(self.inputs@)),
            result is Ok ==> forall|b: int, j: int|
                0 <= b < 16 && 0 <= j < 256 ==> #[trigger] result->Ok_0@[b]@[j] == config_byte(
                    reset_frames(self.inputs@),
                    b,
                    j,
                ),
            result is Ok ==> forall|j: int| 0 <= j < 256 ==> #[trigger] result->Ok_0@[0]@[j] == 0,
            result is Ok ==> final(sink)@ == old(sink)@ + placements(reset_frames(self.inputs@)),
            result is Err ==> final(sink)@ == old(sink)@,
    {
        let mut records: Vec<ResetRecord> = Vec::new();
        let mut blocks: [[u8; 256]; 16] = [[PAD; 256]; 16];
        blocks[0] = [0u8; 256];
        let frames: usize = self.inputs.len() / 2;
        let mut block: usize = 1;
        let mut offset: usize = 0;
        let mut count: usize = 0;
        let mut i: usize = 0;
        while i < frames
            invariant
                frames == self.inputs@.len() / 2,
                2 * frames <= self.inputs.len(),
                i <= frames,
                count == resets_before(self.inputs@, i as nat).len(),
                count <= MAX_RESETS,
                block == 1 + count / 64,
                offset == 4 * (count % 64),
                forall|b: int, j: int|
                    0 <= b < 16 && 0 <= j < 256 ==> #[trigger] blocks@[b]@[j] == config_byte(
                        resets_before(self.inputs@, i as nat),
                        b,
                        j,
                    ),
                sink@ == old(sink)@,
                records@ == placements(resets_before(self.inputs@, i as nat)),
            decreases frames - i,
        {
            if self.inputs[2 * i] == RESET_MARKER {
                if count == MAX_RESETS {
                    proof {
                        lemma_resets_grow(self.inputs@, (i + 1) as nat, frames as nat);
                    }
                    return Err(ProgramError::TooManyResets);
                }
                let ghost found = resets_before(self.inputs@, (i + 1) as nat);
                let high: u8 = ((i / 0x10000) % 0x100) as u8;
                let mid: u8 = ((i / 0x100) % 0x100) as u8;
                let low: u8 = (i % 0x100) as u8;
                let mut target: [u8; 256] = blocks[block];
                target[offset] = high;
                target[offset + 1] = mid;
                target[offset + 2] = low;
                target[offset + 3] = RESET_MARKER;
                blocks[block] = target;
                records.push(ResetRecord { frame: i, block: block, offset: offset });
                assert forall|b: int, j: int| 0 <= b < 16 && 0 <= j < 256 implies #[trigger] blocks@[b]@[j]
                    == config_byte(found, b, j) by {}
                count += 1;
                offset += 4;
                if offset >= BLOCK_SIZE {
                    block += 1;
                    offset = 0;
                }
            }
            i += 1;
        }
        assert forall|b: int| 0 <= b < 16 implies blocks_view(blocks@)[b] =~= config_blocks(
            reset_frames(self.inputs@),
        )[b] by {}
        sink.append(&mut records);
        Ok(blocks)
    }
}

/// Looking at more frames only adds resets behind those already found.
pub proof fn lemma_resets_grow(stream: Seq<u8>, fewer: nat, more: nat)
    requires
        fewer <= more,
    ensures
        resets_before(stream, fewer).len() <= resets_before(stream, more).len(),
        resets_before(stream, more).take(resets_before(stream, fewer).len() as int)
            == resets_before(stream, fewer),
    decreases more,
{
    if fewer < more {
        lemma_resets_grow(stream, fewer, (more - 1) as nat);
    }
}

/// The byte that separates a file name from its extension.
pub const DOT: u8 = 0x2E;

/// Padding samples put behind the inputs of a TASD movie.
pub const TASD_TAIL: usize = 48000;

/// Where the extension of a path begins: behind its last dot, or at its
/// start if it has none.
pub open spec fn extension_start(path: Seq<u8>) -> int
    decreases path.len(),
{
    if path.len() == 0 {
        0
    } else if path.last() == DOT {
        path.len() as int
    } else {
        extension_start(path.drop_last())
    }
}

/// An ASCII capital as its small letter, any other byte as it is.
pub open spec fn lowered(byte: u8) -> u8 {
    if 0x41 <= byte <= 0x5A {
        (byte + 0x20) as u8
    } else {
        byte
    }
}

/// The extension of a path, in small letters.
pub open spec fn extension(path: Seq<u8>) -> Seq<u8> {
    let tail = path.skip(extension_start(path));
    Seq::new(tail.len(), |i: int| lowered(tail[i]))
}

/// The format that an extension in small letters stands for: `tasd`, `m64`,
/// `r08`, `r16m` or `bin`.
pub open spec fn format_of(extension: Seq<u8>) -> Option<FileType> {
    if extension == seq![0x74u8, 0x61u8, 0x73u8, 0x64u8] {
        Some(FileType::TASD)
    } else if extension == seq![0x6Du8, 0x36u8, 0x34u8] {
        Some(FileType::M64)
    } else if extension == seq![0x72u8, 0x30u8, 0x38u8] {
        Some(FileType::R08)
    } else if extension == seq![0x72u8, 0x31u8, 0x36u8, 0x6Du8] {
        Some(FileType::R16M)
    } else if extension == seq![0x62u8, 0x69u8, 0x6Eu8] {
        Some(FileType::A2600Bin)
    } else {
        None
    }
}

/// The extension begins at `start` if no dot follows and a dot, or nothing,
/// precedes.
pub proof fn lemma_extension_start(path: Seq<u8>, start: int)
    requires
        0 <= start <= path.len(),
        forall|i: int| start <= i < path.len() ==> path[i] != DOT,
        start == 0 || path[start - 1] == DOT,
    ensures
        extension_start(path) == start,
    decreases path.len(),
{
    if path.len() > 0 && start < path.len() {
        lemma_extension_start(path.drop_last(), start);
    }
}

/// An ASCII capital as its small letter, any other byte as it is.
pub fn lower(byte: u8) -> (small: u8)
    ensures
        small == lowered(byte),
{
    if byte >= 0x41 && byte <= 0x5A {
        byte + 0x20
    } else {
        byte
    }
}

/// Whether the bytes from `start` on, in small letters, spell `word`.
fn spells(bytes: &[u8], start: usize, word: &[u8]) -> (same: bool)
    requires
        start <= bytes@.len(),
    ensures
        same == (Seq::new(bytes@.skip(start as int).len(), |i: int| lowered(bytes@.skip(start as int)[i]))
            == word@),
{
    let ghost tail = bytes@.skip(start as int);
    let ghost small = Seq::new(tail.len(), |i: int| lowered(tail[i]));
    if bytes.len() - start != word.len() {
        return false;
    }
    let mut i: usize = 0;
    while i < word.len()
        invariant
            start <= bytes@.len() <= usize::MAX,
            bytes@.len() - start == word@.len(),
            i <= word@.len(),
            tail == bytes@.skip(start as int),
            small == Seq::new(tail.len(), |i: int| lowered(tail[i])),
            forall|k: int| 0 <= k < i ==> small[k] == word@[k],
        decreases word@.len() - i,
    {
        if lower(bytes[start + i]) != word[i] {
            return false;
        }
        i += 1;
    }
    assert(small =~= word@);
    true
}

/// The format that the extension of `path` stands for, whatever the case of
/// its letters; `None` if it stands for none.
pub fn detect(path: &str) -> (format: Option<FileType>)
    ensures
        format == format_of(extension(path.spec_bytes())),
{
    let bytes = path.as_bytes();
    let mut start: usize = bytes.len();
    while start > 0 && bytes[start - 1] != DOT
        invariant
            start <= bytes@.len(),
            forall|i: int| start <= i < bytes@.len() ==> bytes@[i] != DOT,
        decreases start,
    {
        start -= 1;
    }
    proof {
        lemma_extension_start(bytes@, start as int);
    }
    let tasd: [u8; 4] = [0x74, 0x61, 0x73, 0x64];
    let m64: [u8; 3] = [0x6D, 0x36, 0x34];
    let r08: [u8; 3] = [0x72, 0x30, 0x38];
    let r16m: [u8; 4] = [0x72, 0x31, 0x36, 0x6D];
    let bin: [u8; 3] = [0x62, 0x69, 0x6E];
    if spells(bytes, start, tasd.as_slice()) {
        Some(FileType::TASD)
    } else if spells(bytes, start, m64.as_slice()) {
        Some(FileType::M64)
    } else if spells(bytes, start, r08.as_slice()) {
        Some(FileType::R08)
    } else if spells(bytes, start, r16m.as_slice()) {
        Some(FileType::R16M)
    } else if spells(bytes, start, bin.as_slice()) {
        Some(FileType::A2600Bin)
    } else {
        None
    }
}

/// One run of samples of one controller port, as a TASD movie stores them.
#[derive(Debug, Clone)]
pub struct InputChunk {
    pub port: u8,
    pub payload: Vec<u8>,
}

/// Why a file did not become a movie.
#[derive(PartialEq, Eq, Structural, Debug, Clone, Copy)]
pub enum LoadError {
    /// The extension stands for no known format.
    UnknownExtension,
    /// The format is known but cannot be decoded.
    NoDecoder,
    /// The second port has fewer samples than the first.
    ShortPort,
}

/// The samples of `port` in the given chunks, in order.
pub open spec fn port_samples(chunks: Seq<InputChunk>, port: u8) -> Seq<u8>
    decreases chunks.len(),
{
    if chunks.len() == 0 {
        Seq::empty()
    } else {
        let earlier = port_samples(chunks.drop_last(), port);
        if chunks.last().port == port {
            earlier + chunks.last().payload@
        } else {
            earlier
        }
    }
}

/// Two ports as one stream: for every sample of the first, that sample and
/// then the second port's sample of the same frame.
pub open spec fn interleaved(first: Seq<u8>, second: Seq<u8>) -> Seq<u8> {
    Seq::new(
        2 * first.len(),
        |i: int|
            if i % 2 == 0 {
                first[i / 2]
            } else {
                second[i / 2]
            },
    )
}

/// The inputs of a TASD movie: ports 1 and 2 interleaved, then the tail of
/// padding samples.
pub open spec fn tasd_stream(chunks: Seq<InputChunk>) -> Seq<u8> {
    interleaved(port_samples(chunks, 1), port_samples(chunks, 2)) + Seq::new(
        TASD_TAIL as nat,
        |i: int| PAD,
    )
}

/// The inputs that a file of the given format holds. `bytes` is the file as
/// it is, `chunks` its input chunks if it is a TASD movie.
pub open spec fn loaded(format: FileType, bytes: Seq<u8>, chunks: Seq<InputChunk>) -> Result<
    Seq<u8>,
    LoadError,
> {
    match format {
        FileType::TASD => if port_samples(chunks, 2).len() >= port_samples(chunks, 1).len() {
            Ok(tasd_stream(chunks))
        } else {
            Err(LoadError::ShortPort)
        },
        FileType::M64 | FileType::R16M => Err(LoadError::NoDecoder),
        FileType::R08 => Ok(prepared(bytes, true)),
        FileType::A2600Bin => Ok(bytes),
        FileType::NONE => Ok(Seq::empty()),
    }
}

/// Collects the samples of `port` from the chunks.
pub fn samples_of(chunks: &Vec<InputChunk>, port: u8) -> (samples: Vec<u8>)
    ensures
        samples@ == port_samples(chunks@, port),
{
    let mut samples: Vec<u8> = Vec::new();
    let mut k: usize = 0;
    while k < chunks.len()
        invariant
            k <= chunks@.len(),
            samples@ == port_samples(chunks@.take(k as int), port),
        decreases chunks@.len() - k,
    {
        let ghost found = samples@;
        assert(chunks@.take(k + 1).drop_last() =~= chunks@.take(k as int));
        if chunks[k].port == port {
            let payload: &Vec<u8> = &chunks[k].payload;
            let mut i: usize = 0;
            while i < payload.len()
                invariant
                    i <= payload@.len(),
                    samples@ == found + payload@.take(i as int),
                decreases payload@.len() - i,
            {
                samples.push(payload[i]);
                i += 1;
            }
        }
        k += 1;
    }
    assert(chunks@.take(chunks@.len() as int) =~= chunks@);
    samples
}

/// Makes the movie that a file holds: the format by the extension of `path`,
/// the inputs from the file's `bytes` or, for a TASD movie, from its input
/// `chunks`.
pub fn parse(path: &str, bytes: &[u8], chunks: &Vec<InputChunk>) -> (result: Result<
    InputsMovie,
    LoadError,
>)
    ensures
        match format_of(extension(path.spec_bytes())) {
            None => result is Err && result->Err_0 == LoadError::UnknownExtension,
            Some(format) => match loaded(format, bytes@, chunks@) {
                Ok(stream) => {
                    &&& result is Ok
                    &&& result->Ok_0.inputs@ == stream
                    &&& result->Ok_0.file_type == format
                },
                Err(error) => result is Err && result->Err_0 == error,
            },
        },
{
    let format = match detect(path) {
        Some(format) => format,
        None => {
            return Err(LoadError::UnknownExtension);
        },
    };
    let mut movie = InputsMovie::new(format);
    match format {
        FileType::TASD => {
            let first = samples_of(chunks, 1);
            let second = samples_of(chunks, 2);
            if second.len() < first.len() {
                return Err(LoadError::ShortPort);
            }
            let mut i: usize = 0;
            while i < first.len()
                invariant
                    i <= first@.len(),
                    first@.len() <= second@.len(),
                    movie.file_type == format,
                    movie.inputs@ == interleaved(first@.take(i as int), second@),
                decreases first@.len() - i,
            {
                movie.inputs.push(first[i]);
                movie.inputs.push(second[i]);
                i += 1;
            }
            let ghost body = movie.inputs@;
            let mut t: usize = 0;
            while t < TASD_TAIL
                invariant
                    t <= TASD_TAIL,
                    movie.file_type == format,
                    movie.inputs@ == body + Seq::new(t as nat, |i: int| PAD),
                decreases TASD_TAIL - t,
            {
                movie.inputs.push(PAD);
                t += 1;
            }
        },
        FileType::M64 | FileType::R16M => {
            return Err(LoadError::NoDecoder);
        },
        FileType::R08 => {
            movie.inputs = prepare(bytes, true);
        },
        FileType::A2600Bin => {
            movie.inputs = prepare(bytes, false);
        },
        FileType::NONE => {},
    }
    Ok(movie)
}

} // verus!
