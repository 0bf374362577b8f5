//! Audio archive split: AUDIOT cut into its chunks by AUDIOHED, each chunk
//! tagged by the range of the sound enumeration it falls in.
use vstd::prelude::*;
use crate::assets::bytes::read_le_u32;
use crate::tools::extract::{audio_offsets, NUMSNDCHUNKS, STARTADLIBSOUNDS, STARTDIGISOUNDS, STARTMUSIC};

verus! {

/// One AUDIOT chunk, by kind.
pub enum AudioChunk {
    /// PC speaker sound (6-byte header, then timer bytes).
    PCSound(Vec<u8>),
    /// AdLib sound (instrument and note data).
    AdLib(Vec<u8>),
    /// Digitized sound.
    Digitized(Vec<u8>),
    /// IMF music.
    Music(Vec<u8>),
}

/// Number of chunks: one per pair of adjacent offsets.
pub open spec fn chunk_count(head: Seq<u8>) -> int {
    if audio_offsets(head).len() == 0 {
        0
    } else {
        audio_offsets(head).len() - 1
    }
}

/// Every chunk is a range of AUDIOT and its number lies in the sound
/// enumeration.
pub open spec fn chunks_ok(head: Seq<u8>, body: Seq<u8>) -> bool {
    forall|i: int| 0 <= i < chunk_count(head) ==> #[trigger] window_ok(head, body, i)
}

/// Chunk `i`'s offsets delimit a range of AUDIOT and `i` lies in the sound
/// enumeration.
pub open spec fn window_ok(head: Seq<u8>, body: Seq<u8>, i: int) -> bool {
    i < NUMSNDCHUNKS && audio_offsets(head)[i] <= audio_offsets(head)[i + 1] <= body.len()
}

/// `c` is chunk `i`: the bytes between its offsets, tagged by the range of
/// `i` (PC speaker, AdLib, digitized, music).
pub open spec fn chunk_of(c: AudioChunk, head: Seq<u8>, body: Seq<u8>, i: int) -> bool {
    let bytes = body.subrange(audio_offsets(head)[i], audio_offsets(head)[i + 1]);
    match c {
        AudioChunk::PCSound(v) => i < STARTADLIBSOUNDS && v@ == bytes,
        AudioChunk::AdLib(v) => STARTADLIBSOUNDS <= i < STARTDIGISOUNDS && v@ == bytes,
        AudioChunk::Digitized(v) => STARTDIGISOUNDS <= i < STARTMUSIC && v@ == bytes,
        AudioChunk::Music(v) => STARTMUSIC <= i < NUMSNDCHUNKS && v@ == bytes,
    }
}

/// Cuts AUDIOT into its chunks (see `chunk_of`).  `None` unless
/// `chunks_ok`.
pub fn split_audio_chunks(head: &[u8], body: &[u8]) -> (r: Option<Vec<AudioChunk>>)
    ensures
        r is Some <==> chunks_ok(head@, body@),
        r matches Some(v) ==> v@.len() == chunk_count(head@) && forall|i: int|
            0 <= i < v@.len() ==> chunk_of(#[trigger] v@[i], head@, body@, i),
{
    let hl = head.len();
    let n_offs = hl / 4;
    let count = if n_offs == 0 {
        0
    } else {
        n_offs - 1
    };
    let ghost offs = audio_offsets(head@);
    let mut chunks: Vec<AudioChunk> = Vec::new();
    let mut i: usize = 0;
    while i < count
        invariant
            i <= count,
            count == chunk_count(head@),
            hl == head@.len(),
            n_offs == head@.len() / 4,
            count < n_offs || count == 0,
            offs == audio_offsets(head@),
            chunks@.len() == i,
            forall|k: int| 0 <= k < i ==> #[trigger] window_ok(head@, body@, k),
            forall|k: int| 0 <= k < i ==> chunk_of(#[trigger] chunks@[k], head@, body@, k),
        decreases count - i,
    {
        assert(4 * i + 8 <= head@.len()) by (nonlinear_arith)
            requires
                i + 1 < n_offs,
                n_offs == head@.len() / 4,
        ;
        let start = read_le_u32(head, 4 * i) as usize;
        let end = read_le_u32(head, 4 * i + 4) as usize;
        if start > end || end > body.len() || i >= NUMSNDCHUNKS {
            assert(!window_ok(head@, body@, i as int));
            return None;
        }
        let bytes = vstd::slice::slice_to_vec(vstd::slice::slice_subrange(body, start, end));
        let chunk = if i < STARTADLIBSOUNDS {
            AudioChunk::PCSound(bytes)
        } else if i < STARTDIGISOUNDS {
            AudioChunk::AdLib(bytes)
        } else if i < STARTMUSIC {
            AudioChunk::Digitized(bytes)
        } else {
            AudioChunk::Music(bytes)
        };
        chunks.push(chunk);
        assert(window_ok(head@, body@, i as int));
        i = i + 1;
    }
    Some(chunks)
}

} // verus!
