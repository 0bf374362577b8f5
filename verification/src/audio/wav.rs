//! RIFF/WAVE containers built in memory, sample conversion from 8-bit
//! unsigned to 16-bit signed PCM, and the priority rule for sound effects.
use vstd::prelude::*;

verus! {

/// The two little-endian bytes of a 16-bit value.
pub open spec fn le_bytes16(v: int) -> Seq<u8> {
    seq![(v % 256) as u8, ((v / 256) % 256) as u8]
}

/// The four little-endian bytes of a 32-bit value.
pub open spec fn le_bytes32(v: int) -> Seq<u8> {
    seq![(v % 256) as u8, ((v / 256) % 256) as u8, ((v / 65536) % 256) as u8, ((v / 16777216) % 256) as u8]
}

/// The ASCII bytes "RIFF", "WAVE", "fmt " and "data".
pub open spec fn tag_riff() -> Seq<u8> {
    seq![0x52u8, 0x49u8, 0x46u8, 0x46u8]
}

pub open spec fn tag_wave() -> Seq<u8> {
    seq![0x57u8, 0x41u8, 0x56u8, 0x45u8]
}

pub open spec fn tag_fmt() -> Seq<u8> {
    seq![0x66u8, 0x6Du8, 0x74u8, 0x20u8]
}

pub open spec fn tag_data() -> Seq<u8> {
    seq![0x64u8, 0x61u8, 0x74u8, 0x61u8]
}

/// Appends the little-endian bytes of `v`.
pub fn push_le16(out: &mut Vec<u8>, v: u16)
    ensures
        final(out)@ == old(out)@ + le_bytes16(v as int),
{
    let ghost start = old(out)@;
    let b0 = (v & 0xFF) as u8;
    let b1 = ((v >> 8u16) & 0xFF) as u8;
    assert(b0 == (v as int % 256) as u8 && b1 == ((v as int / 256) % 256) as u8) by (bit_vector)
        requires
            b0 == (v & 0xFF) as u8,
            b1 == ((v >> 8u16) & 0xFF) as u8,
    ;
    out.push(b0);
    out.push(b1);
    assert(out@ =~= start + le_bytes16(v as int));
}

/// Appends the little-endian bytes of `v`.
pub fn push_le32(out: &mut Vec<u8>, v: u32)
    ensures
        final(out)@ == old(out)@ + le_bytes32(v as int),
{
    let ghost start = old(out)@;
    let b0 = (v & 0xFF) as u8;
    let b1 = ((v >> 8u32) & 0xFF) as u8;
    let b2 = ((v >> 16u32) & 0xFF) as u8;
    let b3 = ((v >> 24u32) & 0xFF) as u8;
    assert(b0 == (v as int % 256) as u8 && b1 == ((v as int / 256) % 256) as u8 && b2 == ((v as int / 65536)
        % 256) as u8 && b3 == ((v as int / 16777216) % 256) as u8) by (bit_vector)
        requires
            b0 == (v & 0xFF) as u8,
            b1 == ((v >> 8u32) & 0xFF) as u8,
            b2 == ((v >> 16u32) & 0xFF) as u8,
            b3 == ((v >> 24u32) & 0xFF) as u8,
    ;
    out.push(b0);
    out.push(b1);
    out.push(b2);
    out.push(b3);
    assert(out@ =~= start + le_bytes32(v as int));
}

/// Appends four bytes.
pub fn push4(out: &mut Vec<u8>, a: u8, b: u8, c: u8, d: u8)
    ensures
        final(out)@ == old(out)@ + seq![a, b, c, d],
{
    let ghost start = old(out)@;
    out.push(a);
    out.push(b);
    out.push(c);
    out.push(d);
    assert(out@ =~= start + seq![a, b, c, d]);
}

/// Appends all of `bytes`.
pub fn push_all(out: &mut Vec<u8>, bytes: &[u8])
    ensures
        final(out)@ == old(out)@ + bytes@,
{
    let ghost start = old(out)@;
    let mut i: usize = 0;
    while i < bytes.len()
        invariant
            i <= bytes@.len(),
            out@ == start + bytes@.subrange(0, i as int),
        decreases bytes@.len() - i,
    {
        out.push(bytes[i]);
        i = i + 1;
        assert(out@ =~= start + bytes@.subrange(0, i as int));
    }
    assert(bytes@.subrange(0, bytes@.len() as int) =~= bytes@);
}

/// A WAV file holding `pcm` as 16-bit PCM with the given rate and channel
/// count: the RIFF header (file length 36 + data length), the format chunk
/// (PCM, channels, rate, byte rate, block alignment, 16 bits) and the data
/// chunk.
pub open spec fn wav16(pcm: Seq<u8>, sample_rate: int, channels: int) -> Seq<u8> {
    tag_riff() + le_bytes32(36 + pcm.len() as int) + tag_wave() + tag_fmt() + le_bytes32(16) + le_bytes16(1)
        + le_bytes16(channels) + le_bytes32(sample_rate) + le_bytes32(sample_rate * channels * 16 / 8)
        + le_bytes16(channels * 16 / 8) + le_bytes16(16) + tag_data() + le_bytes32(pcm.len() as int) + pcm
}

/// Builds a 16-bit PCM WAV file in memory (see `wav16`).  The sizes must
/// fit their 32-bit and 16-bit header fields.
pub fn build_wav(pcm: Vec<u8>, sample_rate: u32, channels: u16) -> (wav: Vec<u8>)
    requires
        pcm@.len() + 36 <= u32::MAX,
        sample_rate * channels * 16 <= u32::MAX,
        channels * 16 <= u16::MAX,
    ensures
        wav@ == wav16(pcm@, sample_rate as int, channels as int),
{
    let bits_per_sample: u16 = 16;
    assert(sample_rate * (channels as u32) * 16 <= u32::MAX);
    let byte_rate = sample_rate * channels as u32 * bits_per_sample as u32 / 8;
    let block_align = channels * bits_per_sample / 8;
    let data_len = pcm.len() as u32;
    let file_len = 36 + data_len;
    let mut wav: Vec<u8> = Vec::new();
    push4(&mut wav, 0x52, 0x49, 0x46, 0x46);
    push_le32(&mut wav, file_len);
    push4(&mut wav, 0x57, 0x41, 0x56, 0x45);
    push4(&mut wav, 0x66, 0x6D, 0x74, 0x20);
    push_le32(&mut wav, 16);
    push_le16(&mut wav, 1);
    push_le16(&mut wav, channels);
    push_le32(&mut wav, sample_rate);
    push_le32(&mut wav, byte_rate);
    push_le16(&mut wav, block_align);
    push_le16(&mut wav, bits_per_sample);
    push4(&mut wav, 0x64, 0x61, 0x74, 0x61);
    push_le32(&mut wav, data_len);
    push_all(&mut wav, pcm.as_slice());
    assert(wav@ =~= wav16(pcm@, sample_rate as int, channels as int));
    wav
}

/// 8-bit unsigned samples as 16-bit signed little-endian samples: each is
/// recentred on 0 and scaled by 256.
pub open spec fn s16_from_u8(samples: Seq<u8>) -> Seq<u8> {
    Seq::new(
        2 * samples.len(),
        |i: int| {
            let v = (samples[i / 2] as int - 128) * 256;
            if i % 2 == 0 {
                (v % 256) as u8
            } else {
                ((v / 256) % 256) as u8
            }
        },
    )
}

/// Converts 8-bit unsigned samples to 16-bit signed little-endian samples
/// (see `s16_from_u8`).
pub fn pcm_s16_from_u8(samples: &[u8]) -> (pcm: Vec<u8>)
    ensures
        pcm@ == s16_from_u8(samples@),
{
    let mut pcm: Vec<u8> = Vec::new();
    let mut i: usize = 0;
    while i < samples.len()
        invariant
            i <= samples@.len(),
            pcm@ == s16_from_u8(samples@).subrange(0, 2 * i as int),
        decreases samples@.len() - i,
    {
        let s = samples[i];
        let signed: i16 = (s as i16 - 128) * 256;
        let lo = (signed as u16 & 0xFF) as u8;
        let hi = ((signed as u16 >> 8u16) & 0xFF) as u8;
        assert(lo == (((s as int - 128) * 256) % 256) as u8 && hi == ((((s as int - 128) * 256) / 256) % 256) as u8)
            by (bit_vector)
            requires
                signed == (s as i16 - 128) * 256,
                lo == (signed as u16 & 0xFF) as u8,
                hi == ((signed as u16 >> 8u16) & 0xFF) as u8,
        ;
        pcm.push(lo);
        pcm.push(hi);
        proof {
            let q = i as int;
            assert((2 * q) / 2 == q && (2 * q + 1) / 2 == q && (2 * q) % 2 == 0 && (2 * q + 1) % 2 == 1);
        }
        i = i + 1;
        assert(pcm@ =~= s16_from_u8(samples@).subrange(0, 2 * i as int));
    }
    assert(pcm@ =~= s16_from_u8(samples@));
    pcm
}

/// Whether a new sound effect starts: a lower-priority sound is dropped
/// while another one is still playing.
pub fn sfx_should_play(priority: u16, current: u16, channel_idle: bool) -> (r: bool)
    ensures
        r == !(priority < current && !channel_idle),
{
    !(priority < current && !channel_idle)
}

} // verus!
