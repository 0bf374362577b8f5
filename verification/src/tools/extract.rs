//! Asset extraction: decodes everything in the game's data files into
//! plain images, sound data and map grids, ready to be written out in
//! modern formats (PNG, WAV, JSON) by the extraction program.
//!
//! The decoders here are the forgiving variants used for bulk export:
//! truncated or inconsistent data yields empty or shortened output rather
//! than an error wherever that is possible.
use vstd::prelude::*;
use crate::assets::bytes::{
    le16, le32, lossy_utf8_string, read_le_i32, read_le_u16, read_le_u32, trim_whitespace, utf8_lossy,
    whitespace_trimmed,
};
use crate::assets::graphics::{
    component, huff_decoded, huffman_decode, huffman_nodes, read_vga_file_offsets,
    read_vga_huffman_tree, vga_offsets, HuffmanNode,
};
use crate::assets::maps::{carmack_words, copy_run, nul_trimmed, trimmed_len, word_of};
use crate::audio::wav::{le_bytes16, le_bytes32, push4, push_all, push_le16, push_le32, tag_data, tag_fmt, tag_riff, tag_wave};

verus! {

// ---------------------------------------------------------------------------
// Archive layout
// ---------------------------------------------------------------------------

/// VGAGRAPH: the picture table, the fonts, the pictures and the 8x8 tiles.
pub const STRUCTPIC: usize = 0;
pub const STARTFONT: usize = 1;
pub const NUMFONT: usize = 2;
pub const STARTPICS: usize = 3;
pub const NUMPICS: usize = 132;
pub const STARTTILE8: usize = 135;
pub const NUMTILE8: usize = 72;

/// GAMEMAPS: level slots and the planes that are exported.
pub const NUMMAPS: usize = 60;
pub const MAPPLANES: usize = 2;

/// Carmack compression tags (high byte of a command word).
pub const CARMACK_NEAR_TAG: u8 = 0xA7;
pub const CARMACK_FAR_TAG: u8 = 0xA8;

/// AUDIOT chunk ranges.
pub const STARTPCSOUNDS: usize = 0;
pub const STARTADLIBSOUNDS: usize = 87;
pub const STARTDIGISOUNDS: usize = 174;
pub const STARTMUSIC: usize = 261;
pub const NUMSNDCHUNKS: usize = 288;
pub const NUMSOUNDS: usize = 87;

/// VSWAP page size.
pub const PM_PAGE_SIZE: usize = 4096;

/// Playback rate of the digitized sounds.
pub const DIGI_SAMPLE_RATE: u32 = 7000;

// ---------------------------------------------------------------------------
// Carmack and RLEW expansion
// ---------------------------------------------------------------------------

/// `a - b`, or 0 when `b` is larger.
pub open spec fn sat_sub(a: int, b: int) -> int {
    if b > a {
        0
    } else {
        a - b
    }
}

/// Appends `count` words copied one at a time from index `from` on; an
/// index not yet produced reads as 0.  A run may read words it has just
/// appended.
pub open spec fn copy_run_or_zero(out: Seq<u16>, from: int, count: int) -> Seq<u16>
    decreases count,
{
    if count <= 0 {
        out
    } else {
        let w = if 0 <= from < out.len() {
            out[from]
        } else {
            0u16
        };
        copy_run_or_zero(out.push(w), from + 1, count - 1)
    }
}

/// Carmack expansion of `src` from byte `pos`, with `remaining` words still
/// wanted and `out` produced so far.  A word whose high byte is a tag
/// (0xA7 near, 0xA8 far) with a zero low byte is an escaped literal whose
/// low byte follows.  Otherwise its low byte is a count of words to copy:
/// a near copy starts that many words back (given by the next byte; from
/// the start when that is further back than the output), a far copy at the
/// absolute word index in the next two bytes.  Any other word is a literal.
/// Expansion stops when enough words are out or the input ends, a command
/// cut short by the end of input being dropped.
pub open spec fn carmack_expanded(src: Seq<u8>, pos: int, remaining: int, out: Seq<u16>) -> Seq<u16>
    decreases src.len() - pos,
{
    if remaining <= 0 || pos < 0 || pos + 1 >= src.len() {
        out
    } else {
        let lo = src[pos];
        let hi = src[pos + 1];
        let p = pos + 2;
        if hi == CARMACK_NEAR_TAG || hi == CARMACK_FAR_TAG {
            if p >= src.len() {
                out
            } else {
                let next = src[p];
                if lo == 0 {
                    carmack_expanded(src, p + 1, remaining - 1, out.push(word_of(hi, next)))
                } else if hi == CARMACK_NEAR_TAG {
                    let from = if next as int > out.len() {
                        0
                    } else {
                        out.len() - next
                    };
                    carmack_expanded(src, p + 1, sat_sub(remaining, lo as int), copy_run_or_zero(out, from, lo as int))
                } else if p + 1 >= src.len() {
                    out
                } else {
                    let at = word_of(src[p + 1], next) as int;
                    carmack_expanded(src, p + 2, sat_sub(remaining, lo as int), copy_run_or_zero(out, at, lo as int))
                }
            }
        } else {
            carmack_expanded(src, p, remaining - 1, out.push(word_of(hi, lo)))
        }
    }
}

/// Within what was produced, the two ways of copying a run agree.
proof fn lemma_copy_runs_agree(out: Seq<u16>, from: int, count: int)
    requires
        0 <= from < out.len(),
    ensures
        copy_run(out, from, count) == copy_run_or_zero(out, from, count),
    decreases count,
{
    if count > 0 {
        lemma_copy_runs_agree(out.push(out[from]), from + 1, count - 1);
    }
}

/// On well-formed input the two Carmack expanders agree: where the level
/// loader's strict expansion (`carmack_words`, behind `carmack_decompress`)
/// succeeds, the export tool's lenient one (`carmack_expanded`, behind
/// `carmack_expand`) gives the same words.
pub proof fn law_carmack_expand_agrees(src: Seq<u8>, pos: int, remaining: int, out: Seq<u16>)
    requires
        carmack_words(src, pos, remaining, out) is Some,
    ensures
        carmack_expanded(src, pos, remaining, out) == carmack_words(src, pos, remaining, out)->0,
    decreases remaining,
{
    if remaining > 0 {
        let lo = src[pos];
        let hi = src[pos + 1];
        if hi == CARMACK_NEAR_TAG || hi == CARMACK_FAR_TAG {
            if lo == 0 {
                law_carmack_expand_agrees(src, pos + 3, remaining - 1, out.push(word_of(hi, src[pos + 2])));
            } else if hi == CARMACK_NEAR_TAG {
                let back = src[pos + 2] as int;
                lemma_copy_runs_agree(out, out.len() - back, lo as int);
                law_carmack_expand_agrees(src, pos + 3, remaining - lo, copy_run(out, out.len() - back, lo as int));
            } else {
                let at = src[pos + 2] as int + 256 * src[pos + 3] as int;
                assert(word_of(src[pos + 3], src[pos + 2]) as int == at);
                lemma_copy_runs_agree(out, at, lo as int);
                law_carmack_expand_agrees(src, pos + 4, remaining - lo, copy_run(out, at, lo as int));
            }
        } else {
            law_carmack_expand_agrees(src, pos + 2, remaining - 1, out.push(word_of(hi, lo)));
        }
    }
}

/// Appends a run of `count` words from `from` on (see `copy_run_or_zero`).
fn push_run_or_zero(out: &mut Vec<u16>, from: usize, count: u8)
    requires
        from <= old(out)@.len() || from <= 0xFFFF,
    ensures
        final(out)@ == copy_run_or_zero(old(out)@, from as int, count as int),
{
    let ghost start = old(out)@;
    let mut copyptr = from;
    let mut k: u8 = 0;
    while k < count
        invariant
            k <= count,
            copyptr == from + k,
            out@.len() == start.len() + k,
            from <= start.len() || from <= 0xFFFF,
            copy_run_or_zero(start, from as int, count as int) == copy_run_or_zero(
                out@,
                copyptr as int,
                (count - k) as int,
            ),
        decreases count - k,
    {
        let w = if copyptr < out.len() {
            out[copyptr]
        } else {
            0
        };
        out.push(w);
        let _l = out.len();
        copyptr = copyptr + 1;
        k = k + 1;
    }
}

/// The 16-bit word with high byte `hi` and low byte `lo`.
fn make_word(hi: u8, lo: u8) -> (w: u16)
    ensures
        w == word_of(hi, lo),
{
    let w: u16 = ((hi as u16) << 8u16) | (lo as u16);
    assert(w == ((hi as u16) << 8u16) | (lo as u16));
    assert(((hi as u16) << 8u16) | (lo as u16) == (hi as int * 256 + lo as int) as u16) by (bit_vector);
    w
}

/// Carmack expansion of `compressed` into at most `expanded_bytes / 2`
/// words (see `carmack_expanded`).
pub fn carmack_expand(compressed: &[u8], expanded_bytes: usize) -> (r: Vec<u16>)
    ensures
        r@ == carmack_expanded(compressed@, 0, expanded_bytes as int / 2, Seq::empty()),
{
    let mut remaining_words = expanded_bytes / 2;
    let mut inptr: usize = 0;
    let mut out: Vec<u16> = Vec::new();
    let len = compressed.len();
    let ghost total = carmack_expanded(compressed@, 0, expanded_bytes as int / 2, Seq::empty());
    while remaining_words > 0 && len - inptr > 1
        invariant
            len == compressed@.len(),
            inptr <= len,
            total == carmack_expanded(compressed@, 0, expanded_bytes as int / 2, Seq::empty()),
            total == carmack_expanded(compressed@, inptr as int, remaining_words as int, out@),
        decreases len - inptr,
    {
        let lo = compressed[inptr];
        let hi = compressed[inptr + 1];
        inptr = inptr + 2;
        if hi == CARMACK_NEAR_TAG {
            if inptr >= len {
                return out;
            }
            let next = compressed[inptr];
            inptr = inptr + 1;
            if lo == 0 {
                out.push(make_word(hi, next));
                remaining_words = remaining_words - 1;
            } else {
                let count = lo;
                let copyptr = if (next as usize) > out.len() {
                    0
                } else {
                    out.len() - next as usize
                };
                push_run_or_zero(&mut out, copyptr, count);
                remaining_words = if (count as usize) > remaining_words {
                    0
                } else {
                    remaining_words - count as usize
                };
            }
        } else if hi == CARMACK_FAR_TAG {
            if inptr >= len {
                return out;
            }
            let next = compressed[inptr];
            inptr = inptr + 1;
            if lo == 0 {
                out.push(make_word(hi, next));
                remaining_words = remaining_words - 1;
            } else {
                if inptr >= len {
                    return out;
                }
                let next_hi = compressed[inptr];
                inptr = inptr + 1;
                let count = lo;
                let abs = make_word(next_hi, next);
                push_run_or_zero(&mut out, abs as usize, count);
                remaining_words = if (count as usize) > remaining_words {
                    0
                } else {
                    remaining_words - count as usize
                };
            }
        } else {
            out.push(make_word(hi, lo));
            remaining_words = remaining_words - 1;
        }
    }
    out
}

/// RLEW expansion of `src` from index `i` into at most `limit` words, with
/// `out` produced so far.  A word equal to `tag` is followed by a count and
/// a value, expanded to that many copies of the value (as many as fit);
/// a run cut short by the end of input ends the expansion.
pub open spec fn rlew_expanded(src: Seq<u16>, i: int, out: Seq<u16>, tag: u16, limit: int) -> Seq<u16>
    decreases src.len() - i,
{
    if out.len() >= limit || i < 0 || i >= src.len() {
        out
    } else if src[i] == tag {
        if i + 2 >= src.len() {
            out
        } else {
            let n = if src[i + 1] as int > limit - out.len() {
                limit - out.len()
            } else {
                src[i + 1] as int
            };
            rlew_expanded(src, i + 3, out + Seq::new(n as nat, |_k: int| src[i + 2]), tag, limit)
        }
    } else {
        rlew_expanded(src, i + 1, out.push(src[i]), tag, limit)
    }
}

/// RLEW expansion never produces more than the expected words: starting
/// below the bound, the output stays within it.
pub proof fn law_rlew_bounded(src: Seq<u16>, i: int, out: Seq<u16>, tag: u16, limit: int)
    requires
        out.len() <= limit,
    ensures
        rlew_expanded(src, i, out, tag, limit).len() <= limit,
        out.len() <= rlew_expanded(src, i, out, tag, limit).len(),
    decreases src.len() - i,
{
    if out.len() >= limit || i < 0 || i >= src.len() {
    } else if src[i] == tag {
        if i + 2 < src.len() {
            let n = if src[i + 1] as int > limit - out.len() {
                limit - out.len()
            } else {
                src[i + 1] as int
            };
            law_rlew_bounded(src, i + 3, out + Seq::new(n as nat, |_k: int| src[i + 2]), tag, limit);
        }
    } else {
        law_rlew_bounded(src, i + 1, out.push(src[i]), tag, limit);
    }
}

/// RLEW expansion bounded by `expected_words` (see `rlew_expanded`).
pub fn rlew_expand(compressed: &[u16], tag: u16, expected_words: usize) -> (r: Vec<u16>)
    ensures
        r@ == rlew_expanded(compressed@, 0, Seq::empty(), tag, expected_words as int),
{
    let mut out: Vec<u16> = Vec::new();
    let mut i: usize = 0;
    let len = compressed.len();
    let ghost total = rlew_expanded(compressed@, 0, Seq::empty(), tag, expected_words as int);
    while out.len() < expected_words && i < len
        invariant
            len == compressed@.len(),
            i <= len,
            out@.len() <= expected_words,
            total == rlew_expanded(compressed@, 0, Seq::empty(), tag, expected_words as int),
            total == rlew_expanded(compressed@, i as int, out@, tag, expected_words as int),
        decreases len - i,
    {
        let word = compressed[i];
        i = i + 1;
        if word == tag {
            if len - i <= 1 {
                return out;
            }
            let count = compressed[i] as usize;
            let value = compressed[i + 1];
            i = i + 2;
            let ghost before = out@;
            let mut k: usize = 0;
            while k < count && out.len() < expected_words
                invariant
                    k <= count,
                    out@.len() <= expected_words,
                    out@ == before + Seq::new(
                        (if k as int > expected_words - before.len() {
                            expected_words - before.len()
                        } else {
                            k as int
                        }) as nat,
                        |_j: int| value,
                    ),
                    before.len() <= expected_words,
                decreases count - k,
            {
                out.push(value);
                k = k + 1;
                assert(out@ =~= before + Seq::new(
                    (if k as int > expected_words - before.len() {
                        expected_words - before.len()
                    } else {
                        k as int
                    }) as nat,
                    |_j: int| value,
                ));
            }
            assert(out@ =~= before + Seq::new(
                (if count as int > expected_words - before.len() {
                    expected_words - before.len()
                } else {
                    count as int
                }) as nat,
                |_j: int| value,
            ));
        } else {
            out.push(word);
        }
    }
    out
}

// ---------------------------------------------------------------------------
// VGAGRAPH
// ---------------------------------------------------------------------------

/// A chunk with its 4-byte expanded-length prefix, decoded; a chunk too
/// short for the prefix decodes to nothing.  `None` when its codes leave
/// the tree.
pub open spec fn expanded_chunk(chunk: Seq<u8>, tree: Seq<HuffmanNode>) -> Option<Seq<u8>> {
    if chunk.len() < 4 {
        Some(Seq::<u8>::empty())
    } else {
        huff_decoded(chunk.subrange(4, chunk.len() as int), le32(chunk, 0), tree)
    }
}

/// Decodes a chunk that carries an expanded-length prefix (see
/// `expanded_chunk`).
pub fn huffman_expand(chunk: &[u8], tree: &[HuffmanNode]) -> (r: Option<Vec<u8>>)
    ensures
        match r {
            Some(v) => expanded_chunk(chunk@, tree@) == Some(v@),
            None => expanded_chunk(chunk@, tree@) is None,
        },
{
    if chunk.len() < 4 {
        return Some(Vec::new());
    }
    let expanded_len = read_le_u32(chunk, 0) as usize;
    let compressed = vstd::slice::slice_subrange(chunk, 4, chunk.len());
    huffman_decode(compressed, expanded_len, tree)
}

/// VGAGRAPH decoded for export: every chunk, and the width and height of
/// every picture.
pub struct VgaGraph {
    pub chunks: Vec<Vec<u8>>,
    /// Indexed by picture number (chunk - STARTPICS).
    pub pic_dims: Vec<(u16, u16)>,
}

/// Chunk `i` of VGAGRAPH decoded for export: empty when its offsets do not
/// delimit a non-empty part of the file; the tile chunk has no length
/// prefix and a fixed size of 72 tiles of 64 bytes.  `None` when its codes
/// leave the tree.
pub open spec fn vga_chunk(offs: Seq<u32>, tree: Seq<HuffmanNode>, graph: Seq<u8>, i: int) -> Option<Seq<u8>> {
    let s = offs[i] as int;
    let e = offs[i + 1] as int;
    if s >= e || e > graph.len() {
        Some(Seq::<u8>::empty())
    } else if i == STARTTILE8 {
        huff_decoded(graph.subrange(s, e), (NUMTILE8 * 64) as int, tree)
    } else {
        expanded_chunk(graph.subrange(s, e), tree)
    }
}

/// The archives can be decoded for export: the tree is whole, there is at
/// least one chunk, and every chunk decodes.
pub open spec fn vga_graph_ok(head: Seq<u8>, dict: Seq<u8>, graph: Seq<u8>) -> bool {
    let offs = vga_offsets(head);
    &&& dict.len() % 4 < 2
    &&& offs.len() >= 2
    &&& forall|i: int| 0 <= i < offs.len() - 1 ==> #[trigger] vga_chunk(offs, huffman_nodes(dict), graph, i) is Some
}

/// The dimensions of picture `i` from the picture table, (0, 0) when the
/// table is too short.
pub open spec fn pic_dim(pictable: Seq<u8>, i: int) -> (u16, u16) {
    if 4 * i + 4 > pictable.len() {
        (0u16, 0u16)
    } else {
        (le16(pictable, 4 * i) as u16, le16(pictable, 4 * i + 2) as u16)
    }
}

/// Decodes VGAHEAD, VGADICT and VGAGRAPH for export (see `vga_chunk` and
/// `pic_dim`).  `None` unless `vga_graph_ok`.
pub fn load_vga_graph(head: &[u8], dict: &[u8], graph: &[u8]) -> (r: Option<VgaGraph>)
    ensures
        r is Some <==> vga_graph_ok(head@, dict@, graph@),
        r matches Some(g) ==> {
            let offs = vga_offsets(head@);
            let tree = huffman_nodes(dict@);
            &&& g.chunks@.len() == offs.len() - 1
            &&& forall|i: int| 0 <= i < g.chunks@.len() ==> Some((#[trigger] g.chunks@[i])@) == vga_chunk(offs, tree, graph@, i)
            &&& g.pic_dims@.len() == NUMPICS
            &&& forall|i: int| 0 <= i < NUMPICS ==> #[trigger] g.pic_dims@[i] == pic_dim(g.chunks@[STRUCTPIC as int]@, i)
        },
{
    let offsets = read_vga_file_offsets(head);
    let tree = match read_vga_huffman_tree(dict) {
        Some(t) => t,
        None => return None,
    };
    let ghost offs = vga_offsets(head@);
    let ghost tr = huffman_nodes(dict@);
    let n = offsets.len();
    let len = graph.len();
    let mut chunks: Vec<Vec<u8>> = Vec::new();
    let mut i: usize = 0;
    while i + 1 < n
        invariant
            n == offsets@.len(),
            offsets@ == offs,
            offs == vga_offsets(head@),
            tree@ == tr,
            tr == huffman_nodes(dict@),
            len == graph@.len(),
            i <= n,
            i + 1 < n || i == 0 || i == n - 1,
            chunks@.len() == i,
            forall|j: int| 0 <= j < i ==> #[trigger] vga_chunk(offs, tr, graph@, j) is Some,
            forall|j: int| 0 <= j < i ==> Some((#[trigger] chunks@[j])@) == vga_chunk(offs, tr, graph@, j),
        decreases n - i,
    {
        let start = offsets[i] as usize;
        let end = offsets[i + 1] as usize;
        if start >= end || end > len {
            chunks.push(Vec::new());
        } else {
            let raw_chunk = vstd::slice::slice_subrange(graph, start, end);
            let d = if i == STARTTILE8 {
                huffman_decode(raw_chunk, NUMTILE8 * 64, tree.as_slice())
            } else {
                huffman_expand(raw_chunk, tree.as_slice())
            };
            match d {
                Some(v) => chunks.push(v),
                None => {
                    assert(vga_chunk(offs, tr, graph@, i as int) is None);
                    return None;
                },
            }
        }
        assert(vga_chunk(offs, tr, graph@, i as int) is Some);
        i = i + 1;
    }
    if chunks.len() == 0 {
        return None;
    }
    let mut pic_dims: Vec<(u16, u16)> = Vec::new();
    let pictable = &chunks[STRUCTPIC];
    let mut k: usize = 0;
    while k < NUMPICS
        invariant
            k <= NUMPICS,
            chunks@.len() >= 1,
            pictable@ == chunks@[STRUCTPIC as int]@,
            pic_dims@.len() == k,
            forall|j: int| 0 <= j < k ==> #[trigger] pic_dims@[j] == pic_dim(pictable@, j),
        decreases NUMPICS - k,
    {
        let off = k * 4;
        if off + 4 > pictable.len() {
            pic_dims.push((0, 0));
        } else {
            let w = read_le_u16(pictable.as_slice(), off);
            let h = read_le_u16(pictable.as_slice(), off + 2);
            pic_dims.push((w, h));
        }
        k = k + 1;
    }
    Some(VgaGraph { chunks, pic_dims })
}

/// Index in planar picture data of pixel (x, y) of a `w`-wide, `h`-high
/// picture: four planes of `(w / 4) * h` bytes, the pixel in plane `x % 4`.
pub open spec fn depic_index(w: int, h: int, x: int, y: int) -> int {
    (x % 4) * (w / 4) * h + y * (w / 4) + x / 4
}

/// The palette index of pixel (x, y): the planar byte, or 0 past the data.
pub open spec fn depic_pal(data: Seq<u8>, w: int, h: int, x: int, y: int) -> int {
    let idx = depic_index(w, h, x, y);
    if idx < data.len() {
        data[idx] as int
    } else {
        0
    }
}

/// A planar picture converted to row-major RGB.
pub open spec fn depic(data: Seq<u8>, w: int, h: int, palette: Seq<(u8, u8, u8)>) -> Seq<u8> {
    Seq::new(
        (w * h * 3) as nat,
        |i: int|
            {
                let p = i / 3;
                component(palette[depic_pal(data, w, h, p % w, p / w)], i % 3)
            },
    )
}

proof fn lemma_row_major(p: int, w: int, x: int, y: int)
    requires
        0 <= x < w,
        0 <= y,
        p == y * w + x,
    ensures
        p / w == y,
        p % w == x,
{
    assert(p / w == y && p % w == x) by (nonlinear_arith)
        requires
            0 <= x < w,
            0 <= y,
            p == y * w + x,
    ;
}

/// Converts a planar picture to row-major RGB (see `depic`).
pub fn depic_planar(data: &[u8], w: usize, h: usize, palette: &[(u8, u8, u8)]) -> (out: Vec<u8>)
    requires
        w * h * 3 <= usize::MAX,
        forall|x: int, y: int|
            0 <= x < w && 0 <= y < h ==> #[trigger] depic_pal(data@, w as int, h as int, x, y) < palette@.len(),
    ensures
        out@ == depic(data@, w as int, h as int, palette@),
{
    let plane_w = w / 4;
    let mut out: Vec<u8> = Vec::new();
    let ghost full = depic(data@, w as int, h as int, palette@);
    let mut y: usize = 0;
    while y < h
        invariant
            y <= h,
            plane_w == w / 4,
            w * h * 3 <= usize::MAX,
            full == depic(data@, w as int, h as int, palette@),
            forall|x: int, yy: int|
                0 <= x < w && 0 <= yy < h ==> #[trigger] depic_pal(data@, w as int, h as int, x, yy) < palette@.len(),
            out@ == full.subrange(0, 3 * (y * w) as int),
        decreases h - y,
    {
        let mut x: usize = 0;
        while x < w
            invariant
                y < h,
                x <= w,
                plane_w == w / 4,
                w * h * 3 <= usize::MAX,
                full == depic(data@, w as int, h as int, palette@),
                forall|xx: int, yy: int|
                    0 <= xx < w && 0 <= yy < h ==> #[trigger] depic_pal(data@, w as int, h as int, xx, yy) < palette@.len(),
                out@ == full.subrange(0, 3 * (y * w + x) as int),
            decreases w - x,
        {
            assert(y * w + x < w * h) by (nonlinear_arith)
                requires
                    y < h,
                    x < w,
            ;
            let plane = x % 4;
            assert(plane * plane_w <= 3 * plane_w) by (nonlinear_arith)
                requires
                    plane == x % 4,
            ;
            assert(plane * plane_w * h <= 3 * plane_w * h) by (nonlinear_arith)
                requires
                    plane * plane_w <= 3 * plane_w,
                    h >= 0,
            ;
            assert(plane * plane_w * h + y * plane_w + x / 4 <= w * h) by (nonlinear_arith)
                requires
                    plane == x % 4,
                    plane_w == w / 4,
                    y < h,
                    x < w,
            ;
            let idx = plane * plane_w * h + y * plane_w + x / 4;
            let pal_idx: usize = if idx < data.len() {
                data[idx] as usize
            } else {
                0
            };
            proof {
                assert(depic_pal(data@, w as int, h as int, x as int, y as int) == pal_idx);
                assert(pal_idx < palette@.len());
            }
            let (r, g, b) = palette[pal_idx];
            out.push(r);
            out.push(g);
            out.push(b);
            proof {
                let p = (y * w + x) as int;
                lemma_row_major(p, w as int, x as int, y as int);
                assert((3 * p) / 3 == p && (3 * p + 1) / 3 == p && (3 * p + 2) / 3 == p);
                assert(full[3 * p] == r && full[3 * p + 1] == g && full[3 * p + 2] == b);
                assert(out@ =~= full.subrange(0, 3 * (y * w + x + 1) as int));
            }
            x = x + 1;
        }
        assert((y + 1) * w == y * w + w) by (nonlinear_arith);
        y = y + 1;
    }
    assert(3 * (h * w) == w * h * 3) by (nonlinear_arith);
    assert(out@ =~= full);
    out
}

/// One picture ready to be written out.
pub struct PicImage {
    pub chunk: usize,
    pub width: u16,
    pub height: u16,
    /// Row-major RGB pixels.
    pub rgb: Vec<u8>,
}

/// The pictures among the first `n` that have data and non-zero size, as
/// (chunk, width, height, RGB pixels).
pub open spec fn pics_out(
    chunks: Seq<Vec<u8>>,
    dims: Seq<(u16, u16)>,
    palette: Seq<(u8, u8, u8)>,
    n: int,
) -> Seq<(int, u16, u16, Seq<u8>)>
    decreases n,
{
    if n <= 0 {
        Seq::empty()
    } else {
        let prev = pics_out(chunks, dims, palette, n - 1);
        let i = n - 1;
        let data = chunks[STARTPICS + i]@;
        let (w, h) = dims[i];
        if data.len() == 0 || w == 0 || h == 0 {
            prev
        } else {
            prev.push((STARTPICS + i, w, h, depic(data, w as int, h as int, palette)))
        }
    }
}

/// Picture `i`, when it is drawn at all, has a pixel count that fits in
/// memory.
pub open spec fn pic_fits(dims: Seq<(u16, u16)>, chunks: Seq<Vec<u8>>, i: int) -> bool {
    chunks[STARTPICS + i]@.len() == 0 || dims[i].0 == 0 || dims[i].1 == 0 || dims[i].0 * dims[i].1 * 3 <= usize::MAX
}

/// Every picture fits (see `pic_fits`).
pub open spec fn pics_fit(dims: Seq<(u16, u16)>, chunks: Seq<Vec<u8>>) -> bool {
    forall|i: int| 0 <= i < NUMPICS ==> #[trigger] pic_fits(dims, chunks, i)
}

/// Converts every picture chunk to RGB (see `pics_out`).  `None` when the
/// graph has fewer chunks or dimensions than there are pictures.
pub fn extract_pics(graph: &VgaGraph, palette: &[(u8, u8, u8)]) -> (r: Option<Vec<PicImage>>)
    requires
        palette@.len() >= 256,
    ensures
        r is Some <==> graph.chunks@.len() >= STARTPICS + NUMPICS && graph.pic_dims@.len() >= NUMPICS
            && pics_fit(graph.pic_dims@, graph.chunks@),
        r matches Some(v) ==> {
            let want = pics_out(graph.chunks@, graph.pic_dims@, palette@, NUMPICS as int);
            &&& v@.len() == want.len()
            &&& forall|j: int| 0 <= j < v@.len() ==> ((#[trigger] v@[j]).chunk as int, v@[j].width, v@[j].height, v@[j].rgb@) == want[j]
        },
{
    if graph.chunks.len() < STARTPICS + NUMPICS || graph.pic_dims.len() < NUMPICS {
        return None;
    }
    let mut images: Vec<PicImage> = Vec::new();
    let mut i: usize = 0;
    while i < NUMPICS
        invariant
            i <= NUMPICS,
            palette@.len() >= 256,
            graph.chunks@.len() >= STARTPICS + NUMPICS,
            graph.pic_dims@.len() >= NUMPICS,
            forall|j: int| 0 <= j < i ==> #[trigger] pic_fits(graph.pic_dims@, graph.chunks@, j),
            images@.len() == pics_out(graph.chunks@, graph.pic_dims@, palette@, i as int).len(),
            forall|j: int|
                0 <= j < images@.len() ==> ((#[trigger] images@[j]).chunk as int, images@[j].width, images@[j].height, images@[j].rgb@)
                    == pics_out(graph.chunks@, graph.pic_dims@, palette@, i as int)[j],
        decreases NUMPICS - i,
    {
        let chunk_idx = STARTPICS + i;
        let data = &graph.chunks[chunk_idx];
        let (w, h) = graph.pic_dims[i];
        assert(pic_fits(graph.pic_dims@, graph.chunks@, i as int) || !(data.len() == 0 || w == 0 || h == 0));
        if !(data.len() == 0 || w == 0 || h == 0) {
            let wu = w as usize;
            let hu = h as usize;
            let size = match wu.checked_mul(hu) {
                Some(a) => a.checked_mul(3),
                None => None,
            };
            if size.is_none() {
                assert(wu * hu * 3 > usize::MAX) by (nonlinear_arith)
                    requires
                        wu * hu > usize::MAX || wu * hu * 3 > usize::MAX,
                ;
                assert(!pic_fits(graph.pic_dims@, graph.chunks@, i as int));
                assert(!pics_fit(graph.pic_dims@, graph.chunks@));
                return None;
            }
            let pixels = depic_planar(data.as_slice(), wu, hu, palette);
            images.push(PicImage { chunk: chunk_idx, width: w, height: h, rgb: pixels });
        }
        assert(pic_fits(graph.pic_dims@, graph.chunks@, i as int));
        i = i + 1;
    }
    Some(images)
}

// ---------------------------------------------------------------------------
// Fonts
//
// A font chunk starts with a 770-byte header: the glyph height (16 bits),
// the byte offset of each of 256 glyphs (16 bits each) and the width of
// each glyph (one byte each).  A glyph's bitmap is `width * height` bytes,
// row-major; a non-zero byte is ink.  All glyphs are packed side by side
// into one atlas, one pixel row per glyph row.
// ---------------------------------------------------------------------------

/// Glyph height of a font chunk.
pub open spec fn font_h(d: Seq<u8>) -> int {
    le16(d, 0)
}

/// Byte offset of glyph `ch`'s bitmap.
pub open spec fn glyph_loc(d: Seq<u8>, ch: int) -> int {
    le16(d, 2 + 2 * ch)
}

/// Width of glyph `ch` (0 when it is missing).
pub open spec fn glyph_w(d: Seq<u8>, ch: int) -> int {
    d[514 + ch] as int
}

/// Sum of the widths of glyphs `0..n`.
pub open spec fn widths_total(d: Seq<u8>, n: int) -> int
    decreases n,
{
    if n <= 0 {
        0
    } else {
        widths_total(d, n - 1) + glyph_w(d, n - 1)
    }
}

/// Glyph `ch` is placed in the atlas: it has a width and its bitmap lies
/// within the chunk.
pub open spec fn glyph_placed(d: Seq<u8>, ch: int) -> bool {
    glyph_w(d, ch) > 0 && glyph_loc(d, ch) + glyph_w(d, ch) * font_h(d) <= d.len()
}

/// Atlas column at which glyph `n` would be placed: the widths of the
/// placed glyphs before it.
pub open spec fn glyph_x(d: Seq<u8>, n: int) -> int
    decreases n,
{
    if n <= 0 {
        0
    } else {
        glyph_x(d, n - 1) + if glyph_placed(d, n - 1) {
            glyph_w(d, n - 1)
        } else {
            0
        }
    }
}

/// The placed glyphs among `0..n` as (character, atlas column, width).
pub open spec fn glyph_list(d: Seq<u8>, n: int) -> Seq<(u8, int, u8)>
    decreases n,
{
    if n <= 0 {
        Seq::empty()
    } else {
        let prev = glyph_list(d, n - 1);
        if glyph_placed(d, n - 1) {
            prev.push(((n - 1) as u8, glyph_x(d, n - 1), glyph_w(d, n - 1) as u8))
        } else {
            prev
        }
    }
}

/// The placed glyph among `0..n` whose atlas columns cover column `px`.
pub open spec fn column_owner(d: Seq<u8>, px: int, n: int) -> Option<int>
    decreases n,
{
    if n <= 0 {
        None
    } else if glyph_placed(d, n - 1) && glyph_x(d, n - 1) <= px < glyph_x(d, n - 1) + glyph_w(d, n - 1) {
        Some(n - 1)
    } else {
        column_owner(d, px, n - 1)
    }
}

/// Atlas pixel (px, py) is ink: the glyph covering its column has ink there.
pub open spec fn atlas_ink(d: Seq<u8>, px: int, py: int) -> bool {
    match column_owner(d, px, 256) {
        Some(ch) => d[glyph_loc(d, ch) + py * glyph_w(d, ch) + (px - glyph_x(d, ch))] != 0,
        None => false,
    }
}

/// The RGBA atlas of a font: `widths_total` wide and `font_h` high, white
/// where a glyph has ink and transparent black elsewhere.
pub open spec fn font_atlas(d: Seq<u8>) -> Seq<u8> {
    let tw = widths_total(d, 256);
    Seq::new(
        (tw * font_h(d) * 4) as nat,
        |i: int|
            if atlas_ink(d, (i / 4) % tw, (i / 4) / tw) {
                255u8
            } else {
                0u8
            },
    )
}

/// A font chunk that yields an atlas: its header is complete, it has some
/// width and some height.
pub open spec fn font_usable(d: Seq<u8>) -> bool {
    d.len() >= 770 && widths_total(d, 256) > 0 && font_h(d) > 0
}

/// One font ready to be written out: its atlas image and glyph table.
pub struct FontAtlas {
    pub chunk: usize,
    pub height: usize,
    pub atlas_width: usize,
    /// RGBA pixels, `atlas_width * height`.
    pub atlas: Vec<u8>,
    /// (character, atlas column, width) of each placed glyph.
    pub glyphs: Vec<(u8, usize, u8)>,
}

/// `f` is the atlas of font chunk `d` stored as chunk `chunk`.
pub open spec fn atlas_of(f: FontAtlas, d: Seq<u8>, chunk: int) -> bool {
    &&& f.chunk == chunk
    &&& f.height == font_h(d)
    &&& f.atlas_width == widths_total(d, 256)
    &&& f.atlas@ == font_atlas(d)
    &&& f.glyphs@.len() == glyph_list(d, 256).len()
    &&& forall|j: int|
        0 <= j < f.glyphs@.len() ==> ((#[trigger] f.glyphs@[j]).0, f.glyphs@[j].1 as int, f.glyphs@[j].2)
            == glyph_list(d, 256)[j]
}

proof fn lemma_widths_monotone(d: Seq<u8>, m: int, n: int)
    requires
        0 <= m <= n,
    ensures
        widths_total(d, m) <= widths_total(d, n),
        glyph_x(d, m) <= widths_total(d, m),
    decreases n,
{
    if n > m {
        lemma_widths_monotone(d, m, n - 1);
    } else if m > 0 {
        lemma_widths_monotone(d, m - 1, m - 1);
    }
}

proof fn lemma_owner_covers(d: Seq<u8>, px: int, n: int)
    requires
        column_owner(d, px, n) is Some,
    ensures
        ({
            let ch = column_owner(d, px, n)->0;
            &&& 0 <= ch < n
            &&& glyph_placed(d, ch)
            &&& glyph_x(d, ch) <= px < glyph_x(d, ch) + glyph_w(d, ch)
        }),
    decreases n,
{
    if n > 0 && !(glyph_placed(d, n - 1) && glyph_x(d, n - 1) <= px < glyph_x(d, n - 1) + glyph_w(d, n - 1)) {
        lemma_owner_covers(d, px, n - 1);
    }
}

proof fn lemma_owner_beyond(d: Seq<u8>, px: int, n: int)
    requires
        px >= glyph_x(d, n),
        n >= 0,
    ensures
        column_owner(d, px, n) is None,
    decreases n,
{
    if n > 0 {
        lemma_owner_beyond(d, px, n - 1);
    }
}

/// The owner table entry for an optional glyph: the glyph, or 256 for none.
pub open spec fn owner_code(o: Option<int>) -> int {
    match o {
        Some(ch) => ch,
        None => 256,
    }
}

/// Builds the atlas and glyph table of one usable font chunk (see
/// `font_atlas` and `glyph_list`).  `None` when the atlas size does not fit
/// in memory.
fn build_font(data: &[u8], chunk: usize) -> (r: Option<FontAtlas>)
    requires
        font_usable(data@),
    ensures
        r is Some <==> widths_total(data@, 256) * font_h(data@) * 4 <= usize::MAX,
        r matches Some(f) ==> atlas_of(f, data@, chunk as int),
{
    let ghost d = data@;
    let len = data.len();
    let height = read_le_u16(data, 0) as usize;
    let mut total_w: usize = 0;
    let mut ch: usize = 0;
    while ch < 256
        invariant
            ch <= 256,
            len == d.len(),
            d == data@,
            len >= 770,
            total_w == widths_total(d, ch as int),
            total_w <= 255 * ch,
        decreases 256 - ch,
    {
        total_w = total_w + data[514 + ch] as usize;
        ch = ch + 1;
    }
    let size = match total_w.checked_mul(height) {
        Some(a) => a.checked_mul(4),
        None => None,
    };
    if size.is_none() {
        return None;
    }
    proof {
        lemma_widths_monotone(d, 0, 256);
    }
    // Place the glyphs: record each one's column and which glyph owns each
    // atlas column (256 for none).
    let mut owner: Vec<u16> = Vec::new();
    let mut k: usize = 0;
    while k < total_w
        invariant
            k <= total_w,
            owner@.len() == k,
            forall|j: int| 0 <= j < k ==> #[trigger] owner@[j] == 256,
        decreases total_w - k,
    {
        owner.push(256);
        k = k + 1;
    }
    let mut xs: Vec<usize> = Vec::new();
    let mut glyphs: Vec<(u8, usize, u8)> = Vec::new();
    let mut x_cursor: usize = 0;
    let mut ch: usize = 0;
    while ch < 256
        invariant
            ch <= 256,
            d == data@,
            len == d.len(),
            len >= 770,
            height as int == font_h(d),
            total_w as int == widths_total(d, 256),
            x_cursor as int == glyph_x(d, ch as int),
            x_cursor <= widths_total(d, ch as int),
            owner@.len() == total_w,
            forall|px: int| 0 <= px < total_w ==> #[trigger] owner@[px] as int == owner_code(column_owner(d, px, ch as int)),
            xs@.len() == ch,
            forall|c: int| 0 <= c < ch ==> #[trigger] xs@[c] as int == glyph_x(d, c),
            glyphs@.len() == glyph_list(d, ch as int).len(),
            forall|j: int|
                0 <= j < glyphs@.len() ==> ((#[trigger] glyphs@[j]).0, glyphs@[j].1 as int, glyphs@[j].2) == glyph_list(
                    d,
                    ch as int,
                )[j],
        decreases 256 - ch,
    {
        proof {
            lemma_widths_monotone(d, ch as int + 1, 256);
        }
        xs.push(x_cursor);
        let w = data[514 + ch] as usize;
        let loc = read_le_u16(data, 2 + 2 * ch) as usize;
        assert(w * height <= 255 * 65535) by (nonlinear_arith)
            requires
                w <= 255,
                height <= 65535,
        ;
        let placed = w > 0 && loc + w * height <= len;
        assert(placed == glyph_placed(d, ch as int)) by (nonlinear_arith)
            requires
                w as int == glyph_w(d, ch as int),
                loc as int == glyph_loc(d, ch as int),
                height as int == font_h(d),
                placed == (w > 0 && loc + w * height <= len),
                len == d.len(),
        ;
        if placed {
            let mut col: usize = 0;
            while col < w
                invariant
                    col <= w,
                    w as int == glyph_w(d, ch as int),
                    glyph_placed(d, ch as int),
                    x_cursor as int == glyph_x(d, ch as int),
                    x_cursor + w <= total_w,
                    ch < 256,
                    owner@.len() == total_w,
                    forall|px: int|
                        0 <= px < total_w ==> #[trigger] owner@[px] as int == (if x_cursor <= px < x_cursor + col {
                            ch as int
                        } else {
                            owner_code(column_owner(d, px, ch as int))
                        }),
                decreases w - col,
            {
                owner.set(x_cursor + col, ch as u16);
                col = col + 1;
            }
            glyphs.push((ch as u8, x_cursor, w as u8));
            x_cursor = x_cursor + w;
        }
        ch = ch + 1;
        assert(glyphs@.len() == glyph_list(d, ch as int).len());
    }
    // Paint the atlas pixel by pixel.
    let mut atlas: Vec<u8> = Vec::new();
    let ghost full = font_atlas(d);
    let mut py: usize = 0;
    while py < height
        invariant
            py <= height,
            d == data@,
            len == d.len(),
            len >= 770,
            height as int == font_h(d),
            height > 0,
            total_w as int == widths_total(d, 256),
            total_w > 0,
            total_w * height * 4 <= usize::MAX,
            full == font_atlas(d),
            owner@.len() == total_w,
            forall|px: int| 0 <= px < total_w ==> #[trigger] owner@[px] as int == owner_code(column_owner(d, px, 256)),
            xs@.len() == 256,
            forall|c: int| 0 <= c < 256 ==> #[trigger] xs@[c] as int == glyph_x(d, c),
            atlas@ == full.subrange(0, 4 * (py * total_w) as int),
        decreases height - py,
    {
        let mut px: usize = 0;
        while px < total_w
            invariant
                py < height,
                px <= total_w,
                d == data@,
                len == d.len(),
                len >= 770,
                height as int == font_h(d),
                total_w as int == widths_total(d, 256),
                total_w * height * 4 <= usize::MAX,
                full == font_atlas(d),
                owner@.len() == total_w,
                forall|q: int| 0 <= q < total_w ==> #[trigger] owner@[q] as int == owner_code(column_owner(d, q, 256)),
                xs@.len() == 256,
                forall|c: int| 0 <= c < 256 ==> #[trigger] xs@[c] as int == glyph_x(d, c),
                atlas@ == full.subrange(0, 4 * (py * total_w + px) as int),
            decreases total_w - px,
        {
            let o = owner[px] as usize;
            proof {
                if column_owner(d, px as int, 256) is Some {
                    lemma_owner_covers(d, px as int, 256);
                }
            }
            let mut ink = false;
            if o < 256 {
                assert(column_owner(d, px as int, 256) == Some(o as int));
                let w = data[514 + o] as usize;
                let loc = read_le_u16(data, 2 + 2 * o) as usize;
                let x0 = xs[o];
                assert(loc + py * w + (px - x0) < len) by (nonlinear_arith)
                    requires
                        py < height,
                        px - x0 < w,
                        loc + w * height <= len,
                ;
                ink = data[loc + py * w + (px - x0)] != 0;
            }
            proof {
                lemma_row_major((py * total_w + px) as int, total_w as int, px as int, py as int);
                assert(ink == atlas_ink(d, px as int, py as int));
            }
            let v: u8 = if ink {
                255
            } else {
                0
            };
            assert(py * total_w + px < total_w * height) by (nonlinear_arith)
                requires
                    py < height,
                    px < total_w,
            ;
            atlas.push(v);
            atlas.push(v);
            atlas.push(v);
            atlas.push(v);
            proof {
                let p = (py * total_w + px) as int;
                assert((4 * p) / 4 == p && (4 * p + 1) / 4 == p && (4 * p + 2) / 4 == p && (4 * p + 3) / 4 == p);
                assert(atlas@ =~= full.subrange(0, 4 * (py * total_w + px + 1) as int));
            }
            px = px + 1;
        }
        assert((py + 1) * total_w == py * total_w + total_w) by (nonlinear_arith);
        py = py + 1;
    }
    assert(4 * (height * total_w) == total_w * height * 4) by (nonlinear_arith);
    assert(atlas@ =~= full);
    Some(FontAtlas { chunk, height, atlas_width: total_w, atlas, glyphs })
}

/// Indices of the font chunks that yield an atlas, in order.
pub open spec fn usable_fonts(chunks: Seq<Vec<u8>>) -> Seq<int> {
    let a = if font_usable(chunks[STARTFONT as int]@) {
        seq![STARTFONT as int]
    } else {
        Seq::<int>::empty()
    };
    if font_usable(chunks[STARTFONT + 1]@) {
        a.push(STARTFONT + 1)
    } else {
        a
    }
}

/// Every usable font's atlas fits in memory.
pub open spec fn fonts_fit(chunks: Seq<Vec<u8>>) -> bool {
    forall|i: int|
        STARTFONT <= i < STARTFONT + NUMFONT && font_usable(#[trigger] chunks[i]@) ==> widths_total(chunks[i]@, 256)
            * font_h(chunks[i]@) * 4 <= usize::MAX
}

/// Builds the atlas of every usable font chunk (see `font_atlas`), in chunk
/// order.  `None` when the graph lacks the font chunks or an atlas does not
/// fit in memory.
pub fn extract_fonts(graph: &VgaGraph) -> (r: Option<Vec<FontAtlas>>)
    ensures
        r is Some <==> graph.chunks@.len() >= STARTFONT + NUMFONT && fonts_fit(graph.chunks@),
        r matches Some(v) ==> {
            let idx = usable_fonts(graph.chunks@);
            &&& v@.len() == idx.len()
            &&& forall|j: int| 0 <= j < v@.len() ==> atlas_of(#[trigger] v@[j], graph.chunks@[idx[j]]@, idx[j])
        },
{
    if graph.chunks.len() < STARTFONT + NUMFONT {
        return None;
    }
    let mut fonts: Vec<FontAtlas> = Vec::new();
    let d0 = graph.chunks[STARTFONT].as_slice();
    if font_usable_exec(d0) {
        match build_font(d0, STARTFONT) {
            Some(f) => fonts.push(f),
            None => {
                assert(!fonts_fit(graph.chunks@));
                return None;
            },
        }
    }
    let d1 = graph.chunks[STARTFONT + 1].as_slice();
    if font_usable_exec(d1) {
        match build_font(d1, STARTFONT + 1) {
            Some(f) => fonts.push(f),
            None => {
                assert(!fonts_fit(graph.chunks@));
                return None;
            },
        }
    }
    assert(fonts_fit(graph.chunks@));
    Some(fonts)
}

/// Whether a font chunk yields an atlas (see `font_usable`).
fn font_usable_exec(data: &[u8]) -> (r: bool)
    ensures
        r == font_usable(data@),
{
    if data.len() < 770 {
        return false;
    }
    let height = read_le_u16(data, 0);
    let mut total_w: usize = 0;
    let mut ch: usize = 0;
    while ch < 256
        invariant
            ch <= 256,
            data@.len() >= 770,
            total_w == widths_total(data@, ch as int),
            total_w <= 255 * ch,
        decreases 256 - ch,
    {
        total_w = total_w + data[514 + ch] as usize;
        ch = ch + 1;
    }
    total_w > 0 && height > 0
}

// ---------------------------------------------------------------------------
// VSWAP
// ---------------------------------------------------------------------------

/// The page file split into pages.
pub struct VSwap {
    /// Raw bytes of each page.
    pub pages: Vec<Vec<u8>>,
    pub sprite_start: usize,
    pub sound_start: usize,
}

/// Page `i` of a page file with `total` pages: the bytes from its offset
/// for its length, or nothing when the offset is zero or the page runs
/// past the end.
pub open spec fn vswap_page(b: Seq<u8>, total: int, i: int) -> Seq<u8> {
    let start = le32(b, 6 + 4 * i);
    let end = start + le16(b, 6 + 4 * total + 2 * i);
    if start == 0 || end > b.len() {
        Seq::<u8>::empty()
    } else {
        b.subrange(start, end)
    }
}

/// Splits a VSWAP file into pages (see `vswap_page`).  `None` when the
/// header or the page tables are cut short.
pub fn load_vswap(bytes: &[u8]) -> (r: Option<VSwap>)
    ensures
        r is Some <==> bytes@.len() >= 6 && 6 + 6 * le16(bytes@, 0) <= bytes@.len(),
        r matches Some(s) ==> {
            &&& s.sprite_start == le16(bytes@, 2)
            &&& s.sound_start == le16(bytes@, 4)
            &&& s.pages@.len() == le16(bytes@, 0)
            &&& forall|i: int| 0 <= i < s.pages@.len() ==> (#[trigger] s.pages@[i])@ == vswap_page(bytes@, le16(bytes@, 0), i)
        },
{
    let len = bytes.len();
    if len < 6 {
        return None;
    }
    let total = read_le_u16(bytes, 0) as usize;
    let sprite_start = read_le_u16(bytes, 2) as usize;
    let sound_start = read_le_u16(bytes, 4) as usize;
    if len - 6 < 6 * total {
        return None;
    }
    let mut pages: Vec<Vec<u8>> = Vec::new();
    let mut i: usize = 0;
    while i < total
        invariant
            i <= total,
            len == bytes@.len(),
            total as int == le16(bytes@, 0),
            6 + 6 * total <= len,
            pages@.len() == i,
            forall|j: int| 0 <= j < i ==> (#[trigger] pages@[j])@ == vswap_page(bytes@, total as int, j),
        decreases total - i,
    {
        let start = read_le_u32(bytes, 6 + 4 * i) as usize;
        let plen = read_le_u16(bytes, 6 + 4 * total + 2 * i) as usize;
        if start == 0 || start > len || len - start < plen {
            pages.push(Vec::new());
        } else {
            pages.push(vstd::slice::slice_to_vec(vstd::slice::slice_subrange(bytes, start, start + plen)));
        }
        i = i + 1;
    }
    Some(VSwap { pages, sprite_start, sound_start })
}

/// A 64x64 wall page (column-major palette indices) as row-major RGB.
pub open spec fn wall_rgb(page: Seq<u8>, palette: Seq<(u8, u8, u8)>) -> Seq<u8> {
    Seq::new(
        12288,
        |i: int|
            {
                let p = i / 3;
                component(palette[page[(p % 64) * 64 + p / 64] as int], i % 3)
            },
    )
}

/// The walls among the first `n` pages with a full 64x64 texture, as
/// (page index, RGB pixels).
pub open spec fn walls_out(pages: Seq<Vec<u8>>, palette: Seq<(u8, u8, u8)>, n: int) -> Seq<(int, Seq<u8>)>
    decreases n,
{
    if n <= 0 {
        Seq::empty()
    } else {
        let prev = walls_out(pages, palette, n - 1);
        if pages[n - 1]@.len() < 4096 {
            prev
        } else {
            prev.push((n - 1, wall_rgb(pages[n - 1]@, palette)))
        }
    }
}

/// Converts a wall page to RGB (see `wall_rgb`).
fn wall_pixels(page: &[u8], palette: &[(u8, u8, u8)]) -> (out: Vec<u8>)
    requires
        page@.len() >= 4096,
        palette@.len() >= 256,
    ensures
        out@ == wall_rgb(page@, palette@),
{
    let mut out: Vec<u8> = Vec::new();
    let mut p: usize = 0;
    while p < 4096
        invariant
            p <= 4096,
            page@.len() >= 4096,
            palette@.len() >= 256,
            out@ == wall_rgb(page@, palette@).subrange(0, 3 * p as int),
        decreases 4096 - p,
    {
        let x = p % 64;
        let y = p / 64;
        let (r, g, b) = palette[page[x * 64 + y] as usize];
        out.push(r);
        out.push(g);
        out.push(b);
        proof {
            let q = p as int;
            assert((3 * q) / 3 == q && (3 * q + 1) / 3 == q && (3 * q + 2) / 3 == q);
            assert(out@ =~= wall_rgb(page@, palette@).subrange(0, 3 * (p + 1) as int));
        }
        p = p + 1;
    }
    assert(out@ =~= wall_rgb(page@, palette@));
    out
}

/// Converts every wall page to RGB (see `walls_out`).  `None` when the
/// page file has fewer pages than its sprite start.
pub fn extract_walls(swap: &VSwap, palette: &[(u8, u8, u8)]) -> (r: Option<Vec<(usize, Vec<u8>)>>)
    requires
        palette@.len() >= 256,
    ensures
        r is Some <==> swap.sprite_start <= swap.pages@.len(),
        r matches Some(v) ==> {
            let want = walls_out(swap.pages@, palette@, swap.sprite_start as int);
            &&& v@.len() == want.len()
            &&& forall|j: int| 0 <= j < v@.len() ==> ((#[trigger] v@[j]).0 as int, v@[j].1@) == want[j]
        },
{
    let count = swap.sprite_start;
    if count > swap.pages.len() {
        return None;
    }
    let mut walls: Vec<(usize, Vec<u8>)> = Vec::new();
    let mut idx: usize = 0;
    while idx < count
        invariant
            idx <= count,
            count <= swap.pages@.len(),
            palette@.len() >= 256,
            walls@.len() == walls_out(swap.pages@, palette@, idx as int).len(),
            forall|j: int|
                0 <= j < walls@.len() ==> ((#[trigger] walls@[j]).0 as int, walls@[j].1@) == walls_out(
                    swap.pages@,
                    palette@,
                    idx as int,
                )[j],
        decreases count - idx,
    {
        let page = swap.pages[idx].as_slice();
        if page.len() >= 4096 {
            let pixels = wall_pixels(page, palette);
            walls.push((idx, pixels));
        }
        idx = idx + 1;
    }
    Some(walls)
}

/// Tile `t` of the tile chunk (64 bytes of planar 8x8 data: pixel (x, y)
/// at `(x % 4) * 16 + y * 2 + x / 4`) as row-major RGB.
pub open spec fn tile_rgb(chunk: Seq<u8>, t: int, palette: Seq<(u8, u8, u8)>) -> Seq<u8> {
    Seq::new(
        192,
        |i: int|
            {
                let p = i / 3;
                let x = p % 8;
                let y = p / 8;
                component(palette[chunk[t * 64 + (x % 4) * 16 + y * 2 + x / 4] as int], i % 3)
            },
    )
}

/// Converts the 72 8x8 tiles of the tile chunk to RGB (see `tile_rgb`).
/// `None` when the graph has no tile chunk or it is shorter than 72 tiles.
pub fn extract_tile8s(graph: &VgaGraph, palette: &[(u8, u8, u8)]) -> (r: Option<Vec<Vec<u8>>>)
    requires
        palette@.len() >= 256,
    ensures
        r is Some <==> graph.chunks@.len() > STARTTILE8 && graph.chunks@[STARTTILE8 as int]@.len() >= NUMTILE8 * 64,
        r matches Some(v) ==> v@.len() == NUMTILE8 && forall|t: int|
            0 <= t < NUMTILE8 ==> (#[trigger] v@[t])@ == tile_rgb(graph.chunks@[STARTTILE8 as int]@, t, palette@),
{
    if graph.chunks.len() <= STARTTILE8 {
        return None;
    }
    let chunk = graph.chunks[STARTTILE8].as_slice();
    if chunk.len() < NUMTILE8 * 64 {
        return None;
    }
    let mut tiles: Vec<Vec<u8>> = Vec::new();
    let mut t: usize = 0;
    while t < NUMTILE8
        invariant
            t <= NUMTILE8,
            chunk@ == graph.chunks@[STARTTILE8 as int]@,
            chunk@.len() >= NUMTILE8 * 64,
            palette@.len() >= 256,
            tiles@.len() == t,
            forall|k: int| 0 <= k < t ==> (#[trigger] tiles@[k])@ == tile_rgb(chunk@, k, palette@),
        decreases NUMTILE8 - t,
    {
        let base = t * 64;
        let mut pixels: Vec<u8> = Vec::new();
        let mut p: usize = 0;
        while p < 64
            invariant
                p <= 64,
                t < NUMTILE8,
                base == t * 64,
                chunk@.len() >= NUMTILE8 * 64,
                palette@.len() >= 256,
                pixels@ == tile_rgb(chunk@, t as int, palette@).subrange(0, 3 * p as int),
            decreases 64 - p,
        {
            let x = p % 8;
            let y = p / 8;
            let plane = x % 4;
            let (r, g, b) = palette[chunk[base + plane * 16 + y * 2 + x / 4] as usize];
            pixels.push(r);
            pixels.push(g);
            pixels.push(b);
            proof {
                let q = p as int;
                assert((3 * q) / 3 == q && (3 * q + 1) / 3 == q && (3 * q + 2) / 3 == q);
                assert(pixels@ =~= tile_rgb(chunk@, t as int, palette@).subrange(0, 3 * (p + 1) as int));
            }
            p = p + 1;
        }
        assert(pixels@ =~= tile_rgb(chunk@, t as int, palette@));
        tiles.push(pixels);
        t = t + 1;
    }
    Some(tiles)
}

// ---------------------------------------------------------------------------
// Sprites
//
// A sprite page starts with the leftmost and rightmost non-empty columns
// (16 bits each), then the offset of each column's command stream.  A
// stream is a list of posts ended by a zero: the post's end row doubled,
// an offset such that `page[offset + y]` is the pixel of row y, and the
// post's start row doubled.  Rows outside every post are transparent.
// ---------------------------------------------------------------------------

/// `img` with the RGBA pixel at byte offset `off` set to colour `c`, opaque.
pub open spec fn put_rgba(img: Seq<u8>, off: int, c: (u8, u8, u8)) -> Seq<u8> {
    img.update(off, c.0).update(off + 1, c.1).update(off + 2, c.2).update(off + 3, 255u8)
}

/// `img` after rows `y..end` of a post in column `x` are drawn; a row whose
/// pixel lies past the page is skipped.
pub open spec fn post_rows(
    img: Seq<u8>,
    page: Seq<u8>,
    palette: Seq<(u8, u8, u8)>,
    x: int,
    sprdataofs: int,
    y: int,
    end: int,
) -> Seq<u8>
    decreases end - y,
{
    if y >= end {
        img
    } else {
        let idx = sprdataofs + y;
        let img2 = if idx >= page.len() {
            img
        } else {
            put_rgba(img, (y * 64 + x) * 4, palette[page[idx] as int])
        };
        post_rows(img2, page, palette, x, sprdataofs, y + 1, end)
    }
}

/// `img` after the posts of column `x` from command offset `p` on are
/// drawn.  The list ends at a zero end row or where a command runs past the
/// page; a post with an end row past 64 or no rows is skipped.
pub open spec fn col_posts(img: Seq<u8>, page: Seq<u8>, palette: Seq<(u8, u8, u8)>, x: int, p: int) -> Seq<u8>
    decreases page.len() - p,
{
    if p < 0 || p + 2 > page.len() {
        img
    } else if le16(page, p) == 0 {
        img
    } else if p + 6 > page.len() {
        img
    } else {
        let e = le16(page, p) / 2;
        let st = le16(page, p + 4) / 2;
        let img2 = if e > 64 || st >= e {
            img
        } else {
            post_rows(img, page, palette, x, le16(page, p + 2), st, e)
        };
        col_posts(img2, page, palette, x, p + 6)
    }
}

/// `img` after the first `c` columns from `left` on are drawn; a column
/// whose command offset lies past the page (and so every later one) is
/// skipped.
pub open spec fn sprite_cols_img(img: Seq<u8>, page: Seq<u8>, palette: Seq<(u8, u8, u8)>, left: int, c: int) -> Seq<u8>
    decreases c,
{
    if c <= 0 {
        img
    } else {
        let prev = sprite_cols_img(img, page, palette, left, c - 1);
        let k = c - 1;
        if 4 + 2 * k + 2 > page.len() {
            prev
        } else {
            col_posts(prev, page, palette, left + k, le16(page, 4 + 2 * k))
        }
    }
}

/// A sprite page as a 64x64 RGBA image.  `None` when the page is too short
/// for its bounds or the bounds are not a column range within 0..63.
pub open spec fn sprite_rgba(page: Seq<u8>, palette: Seq<(u8, u8, u8)>) -> Option<Seq<u8>> {
    if page.len() < 4 {
        None
    } else {
        let left = le16(page, 0);
        let right = le16(page, 2);
        if right < left || right > 63 {
            None
        } else {
            Some(sprite_cols_img(Seq::new(16384, |_i: int| 0u8), page, palette, left, right - left + 1))
        }
    }
}

/// Draws rows `y0..end` of a post (see `post_rows`).
fn draw_post(
    img: &mut Vec<u8>,
    page: &[u8],
    palette: &[(u8, u8, u8)],
    x: usize,
    sprdataofs: usize,
    y0: usize,
    end: usize,
)
    requires
        old(img)@.len() == 16384,
        x < 64,
        end <= 64,
        sprdataofs <= 0xFFFF,
        palette@.len() >= 256,
    ensures
        final(img)@ == post_rows(old(img)@, page@, palette@, x as int, sprdataofs as int, y0 as int, end as int),
        final(img)@.len() == 16384,
{
    let ghost start = old(img)@;
    let ghost want = post_rows(start, page@, palette@, x as int, sprdataofs as int, y0 as int, end as int);
    let mut y = y0;
    while y < end
        invariant
            img@.len() == 16384,
            x < 64,
            end <= 64,
            sprdataofs <= 0xFFFF,
            palette@.len() >= 256,
            y0 <= y || y >= end,
            want == post_rows(start, page@, palette@, x as int, sprdataofs as int, y0 as int, end as int),
            want == post_rows(img@, page@, palette@, x as int, sprdataofs as int, y as int, end as int),
        decreases end - y,
    {
        let pixel_idx = sprdataofs + y;
        if pixel_idx < page.len() {
            let (r, g, b) = palette[page[pixel_idx] as usize];
            let dst = (y * 64 + x) * 4;
            img.set(dst, r);
            img.set(dst + 1, g);
            img.set(dst + 2, b);
            img.set(dst + 3, 255);
        }
        y = y + 1;
    }
}

/// Draws the posts of one column (see `col_posts`).
fn draw_column(img: &mut Vec<u8>, page: &[u8], palette: &[(u8, u8, u8)], x: usize, p0: usize)
    requires
        old(img)@.len() == 16384,
        x < 64,
        palette@.len() >= 256,
    ensures
        final(img)@ == col_posts(old(img)@, page@, palette@, x as int, p0 as int),
        final(img)@.len() == 16384,
{
    let ghost want = col_posts(old(img)@, page@, palette@, x as int, p0 as int);
    let len = page.len();
    let mut p = p0;
    loop
        invariant
            img@.len() == 16384,
            x < 64,
            palette@.len() >= 256,
            len == page@.len(),
            want == col_posts(old(img)@, page@, palette@, x as int, p0 as int),
            want == col_posts(img@, page@, palette@, x as int, p as int),
        decreases len - p,
    {
        if p > len || len - p < 2 {
            return;
        }
        let endy = read_le_u16(page, p);
        if endy == 0 {
            return;
        }
        if len - p < 6 {
            return;
        }
        let sprdataofs = read_le_u16(page, p + 2) as usize;
        let starty = read_le_u16(page, p + 4);
        p = p + 6;
        let e = (endy / 2) as usize;
        let st = (starty / 2) as usize;
        if !(e > 64 || st >= e) {
            draw_post(img, page, palette, x, sprdataofs, st, e);
        }
    }
}

/// Decodes one sprite page (see `sprite_rgba`).
fn sprite_image(page: &[u8], palette: &[(u8, u8, u8)]) -> (r: Option<Vec<u8>>)
    requires
        palette@.len() >= 256,
    ensures
        match r {
            Some(v) => sprite_rgba(page@, palette@) == Some(v@),
            None => sprite_rgba(page@, palette@) is None,
        },
{
    let len = page.len();
    if len < 4 {
        return None;
    }
    let leftpix = read_le_u16(page, 0) as usize;
    let rightpix = read_le_u16(page, 2) as usize;
    if rightpix < leftpix || rightpix > 63 {
        return None;
    }
    let mut rgba: Vec<u8> = Vec::new();
    let mut k: usize = 0;
    while k < 16384
        invariant
            k <= 16384,
            rgba@ == Seq::new(k as nat, |_i: int| 0u8),
        decreases 16384 - k,
    {
        rgba.push(0);
        k = k + 1;
        assert(rgba@ =~= Seq::new(k as nat, |_i: int| 0u8));
    }
    let ghost blank = rgba@;
    let n_cols = rightpix - leftpix + 1;
    let mut col_idx: usize = 0;
    while col_idx < n_cols
        invariant
            col_idx <= n_cols,
            n_cols == rightpix - leftpix + 1,
            leftpix <= rightpix <= 63,
            len == page@.len(),
            palette@.len() >= 256,
            blank == Seq::new(16384, |_i: int| 0u8),
            rgba@.len() == 16384,
            rgba@ == sprite_cols_img(blank, page@, palette@, leftpix as int, col_idx as int),
        decreases n_cols - col_idx,
    {
        let x = leftpix + col_idx;
        let dataofs_pos = 4 + col_idx * 2;
        if dataofs_pos + 2 <= len {
            let p = read_le_u16(page, dataofs_pos) as usize;
            draw_column(&mut rgba, page, palette, x, p);
        }
        col_idx = col_idx + 1;
    }
    Some(rgba)
}

/// The sprites among the first `n` sprite pages that decode, as (sprite
/// number, RGBA pixels).
pub open spec fn sprites_out(
    pages: Seq<Vec<u8>>,
    first: int,
    palette: Seq<(u8, u8, u8)>,
    n: int,
) -> Seq<(int, Seq<u8>)>
    decreases n,
{
    if n <= 0 {
        Seq::empty()
    } else {
        let prev = sprites_out(pages, first, palette, n - 1);
        match sprite_rgba(pages[first + n - 1]@, palette) {
            Some(img) => prev.push((n - 1, img)),
            None => prev,
        }
    }
}

/// Decodes every sprite page, from the sprite start up to the sound start
/// (see `sprite_rgba`).  `None` when the page file has fewer pages than its
/// sound start.
pub fn extract_sprites(swap: &VSwap, palette: &[(u8, u8, u8)]) -> (r: Option<Vec<(usize, Vec<u8>)>>)
    requires
        palette@.len() >= 256,
    ensures
        r is Some <==> swap.sound_start <= swap.sprite_start || swap.sound_start <= swap.pages@.len(),
        r matches Some(v) ==> {
            let count = sat_sub(swap.sound_start as int, swap.sprite_start as int);
            let want = sprites_out(swap.pages@, swap.sprite_start as int, palette@, count);
            &&& v@.len() == want.len()
            &&& forall|j: int| 0 <= j < v@.len() ==> ((#[trigger] v@[j]).0 as int, v@[j].1@) == want[j]
        },
{
    let count = if swap.sound_start > swap.sprite_start {
        swap.sound_start - swap.sprite_start
    } else {
        0
    };
    if count > 0 && swap.sound_start > swap.pages.len() {
        return None;
    }
    let mut sprites: Vec<(usize, Vec<u8>)> = Vec::new();
    let mut i: usize = 0;
    while i < count
        invariant
            i <= count,
            count == sat_sub(swap.sound_start as int, swap.sprite_start as int),
            count == 0 || swap.sprite_start + count <= swap.pages@.len(),
            palette@.len() >= 256,
            sprites@.len() == sprites_out(swap.pages@, swap.sprite_start as int, palette@, i as int).len(),
            forall|j: int|
                0 <= j < sprites@.len() ==> ((#[trigger] sprites@[j]).0 as int, sprites@[j].1@) == sprites_out(
                    swap.pages@,
                    swap.sprite_start as int,
                    palette@,
                    i as int,
                )[j],
        decreases count - i,
    {
        let page = swap.pages[swap.sprite_start + i].as_slice();
        match sprite_image(page, palette) {
            Some(img) => sprites.push((i, img)),
            None => {},
        }
        i = i + 1;
    }
    Some(sprites)
}

// ---------------------------------------------------------------------------
// Digitized sounds
//
// The last VSWAP page is the digi list: pairs of 16-bit values (first page
// relative to the sound start, length in bytes).  A sound's 8-bit unsigned
// mono samples span consecutive pages from its first page.
// ---------------------------------------------------------------------------

/// The bytes of pages `p..` appended to `acc` until at least `length` bytes
/// are gathered or the pages run out.
pub open spec fn pcm_gather(pages: Seq<Vec<u8>>, p: int, acc: Seq<u8>, length: int) -> Seq<u8>
    decreases pages.len() - p,
{
    if acc.len() >= length || p < 0 || p >= pages.len() {
        acc
    } else {
        pcm_gather(pages, p + 1, acc + pages[p]@, length)
    }
}

/// The samples of a sound of `length` bytes starting at page `start`.
pub open spec fn digi_pcm(pages: Seq<Vec<u8>>, start: int, length: int) -> Seq<u8> {
    let all = pcm_gather(pages, start, Seq::empty(), length);
    if all.len() > length {
        all.subrange(0, length)
    } else {
        all
    }
}

/// The sounds listed from entry `e` of the digi list on, as (entry,
/// samples); the list ends at its last whole entry, at a zero length, or at
/// a first page beyond the file.
pub open spec fn digi_entries(pages: Seq<Vec<u8>>, sound_start: int, list: Seq<u8>, e: int) -> Seq<(int, Seq<u8>)>
    decreases list.len() / 4 - e,
{
    if e < 0 || e >= list.len() / 4 {
        Seq::empty()
    } else {
        let length = le16(list, 4 * e + 2);
        let start = sound_start + le16(list, 4 * e);
        if length == 0 || start >= pages.len() {
            Seq::empty()
        } else {
            seq![(e, digi_pcm(pages, start, length))] + digi_entries(pages, sound_start, list, e + 1)
        }
    }
}

/// Gathers the samples of one sound (see `digi_pcm`).
fn gather_pcm(pages: &Vec<Vec<u8>>, start: usize, length: usize) -> (pcm: Vec<u8>)
    ensures
        pcm@ == digi_pcm(pages@, start as int, length as int),
{
    let mut pcm: Vec<u8> = Vec::new();
    let mut p = start;
    let ghost want = pcm_gather(pages@, start as int, Seq::empty(), length as int);
    while pcm.len() < length && p < pages.len()
        invariant
            start <= p,
            want == pcm_gather(pages@, start as int, Seq::empty(), length as int),
            want == pcm_gather(pages@, p as int, pcm@, length as int),
        decreases pages@.len() - p,
    {
        push_all(&mut pcm, pages[p].as_slice());
        p = p + 1;
    }
    pcm.truncate(length);
    pcm
}

/// Every sound of the digi list (see `digi_entries`).  `None` when the page
/// file has no pages.
pub fn extract_digi(swap: &VSwap) -> (r: Option<Vec<(usize, Vec<u8>)>>)
    ensures
        r is Some <==> swap.pages@.len() > 0,
        r matches Some(v) ==> {
            let want = digi_entries(
                swap.pages@,
                swap.sound_start as int,
                swap.pages@[swap.pages@.len() - 1]@,
                0,
            );
            &&& v@.len() == want.len()
            &&& forall|j: int| 0 <= j < v@.len() ==> ((#[trigger] v@[j]).0 as int, v@[j].1@) == want[j]
        },
{
    if swap.pages.len() == 0 {
        return None;
    }
    let last_idx = swap.pages.len() - 1;
    let list = swap.pages[last_idx].as_slice();
    let max_entries = list.len() / 4;
    let ghost total = digi_entries(swap.pages@, swap.sound_start as int, list@, 0);
    let ghost mut done: Seq<(int, Seq<u8>)> = Seq::empty();
    let mut sounds: Vec<(usize, Vec<u8>)> = Vec::new();
    let mut entry: usize = 0;
    let mut stop = false;
    while entry < max_entries && !stop
        invariant
            entry <= max_entries,
            swap.pages@.len() > 0,
            max_entries == list@.len() / 4,
            list@.len() <= usize::MAX,
            list@ == swap.pages@[swap.pages@.len() - 1]@,
            total == digi_entries(swap.pages@, swap.sound_start as int, list@, 0),
            total == done + digi_entries(swap.pages@, swap.sound_start as int, list@, entry as int),
            stop ==> digi_entries(swap.pages@, swap.sound_start as int, list@, entry as int).len() == 0,
            sounds@.len() == done.len(),
            forall|j: int| 0 <= j < sounds@.len() ==> ((#[trigger] sounds@[j]).0 as int, sounds@[j].1@) == done[j],
        decreases max_entries - entry, if stop { 0int } else { 1int },
    {
        assert(entry * 4 + 4 <= list@.len()) by (nonlinear_arith)
            requires
                entry < max_entries,
                max_entries == list@.len() / 4,
        ;
        let off = entry * 4;
        let page_offset = read_le_u16(list, off) as usize;
        let length = read_le_u16(list, off + 2) as usize;
        let start = match swap.sound_start.checked_add(page_offset) {
            Some(v) => v,
            None => usize::MAX,
        };
        if length == 0 || start >= swap.pages.len() {
            stop = true;
        } else {
            let pcm = gather_pcm(&swap.pages, start, length);
            proof {
                let item = (entry as int, pcm@);
                assert(digi_entries(swap.pages@, swap.sound_start as int, list@, entry as int) == seq![item]
                    + digi_entries(swap.pages@, swap.sound_start as int, list@, entry + 1));
                assert(done + seq![item] + digi_entries(swap.pages@, swap.sound_start as int, list@, entry + 1)
                    =~= done + (seq![item] + digi_entries(swap.pages@, swap.sound_start as int, list@, entry + 1)));
                done = done.push(item);
            }
            sounds.push((entry, pcm));
            entry = entry + 1;
        }
    }
    assert(done + digi_entries(swap.pages@, swap.sound_start as int, list@, entry as int) =~= done);
    Some(sounds)
}

/// A WAV file holding 8-bit unsigned mono samples at `sample_rate`.
pub open spec fn wav_u8(pcm: Seq<u8>, sample_rate: int) -> Seq<u8> {
    tag_riff() + le_bytes32(36 + pcm.len() as int) + tag_wave() + tag_fmt() + le_bytes32(16) + le_bytes16(1)
        + le_bytes16(1) + le_bytes32(sample_rate) + le_bytes32(sample_rate) + le_bytes16(1) + le_bytes16(8)
        + tag_data() + le_bytes32(pcm.len() as int) + pcm
}

/// Wraps 8-bit unsigned mono samples in a RIFF/WAVE container (see
/// `wav_u8`).  The sizes must fit the 32-bit header fields.
pub fn encode_wav_u8(pcm: &[u8], sample_rate: u32) -> (out: Vec<u8>)
    requires
        pcm@.len() + 36 <= u32::MAX,
    ensures
        out@ == wav_u8(pcm@, sample_rate as int),
{
    let data_len = pcm.len() as u32;
    let fmt_size: u32 = 16;
    let riff_size: u32 = 4 + (8 + fmt_size) + (8 + data_len);
    let mut out: Vec<u8> = Vec::new();
    push4(&mut out, 0x52, 0x49, 0x46, 0x46);
    push_le32(&mut out, riff_size);
    push4(&mut out, 0x57, 0x41, 0x56, 0x45);
    push4(&mut out, 0x66, 0x6D, 0x74, 0x20);
    push_le32(&mut out, fmt_size);
    push_le16(&mut out, 1);
    push_le16(&mut out, 1);
    push_le32(&mut out, sample_rate);
    push_le32(&mut out, sample_rate);
    push_le16(&mut out, 1);
    push_le16(&mut out, 8);
    push4(&mut out, 0x64, 0x61, 0x74, 0x61);
    push_le32(&mut out, data_len);
    push_all(&mut out, pcm);
    assert(out@ =~= wav_u8(pcm@, sample_rate as int));
    out
}

// ---------------------------------------------------------------------------
// AUDIOT
// ---------------------------------------------------------------------------

/// Kind of an AUDIOT chunk.
#[derive(Debug, Clone, Copy, PartialEq, Eq, Structural)]
pub enum AudioKind {
    /// PC speaker sound effect.
    PcSpeaker,
    /// AdLib sound effect.
    AdLib,
    /// IMF music track.
    Music,
}

/// The chunk offsets of AUDIOHED: one little-endian 32-bit value per four
/// bytes.
pub open spec fn audio_offsets(head: Seq<u8>) -> Seq<int> {
    Seq::new(head.len() / 4, |i: int| le32(head, 4 * i))
}

/// The kind and per-kind number of chunk `i`, when it is exported: sound
/// effects in the PC and AdLib ranges and music from `STARTMUSIC` on; the
/// digitized range is skipped.
pub open spec fn audio_class(i: int) -> Option<(AudioKind, int)> {
    if i < STARTADLIBSOUNDS {
        Some((AudioKind::PcSpeaker, i - STARTPCSOUNDS))
    } else if i < STARTDIGISOUNDS {
        Some((AudioKind::AdLib, i - STARTADLIBSOUNDS))
    } else if i < STARTMUSIC {
        None
    } else {
        Some((AudioKind::Music, i - STARTMUSIC))
    }
}

/// The exported chunks among the first `n`: those the offsets delimit as a
/// non-empty part of AUDIOT, with their kind, number and bytes.
pub open spec fn audiot_out(offs: Seq<int>, body: Seq<u8>, n: int) -> Seq<(AudioKind, int, Seq<u8>)>
    decreases n,
{
    if n <= 0 {
        Seq::empty()
    } else {
        let prev = audiot_out(offs, body, n - 1);
        let i = n - 1;
        let s = offs[i];
        let e = offs[i + 1];
        if s >= e || e > body.len() {
            prev
        } else {
            match audio_class(i) {
                Some(c) => prev.push((c.0, c.1, body.subrange(s, e))),
                None => prev,
            }
        }
    }
}

/// Number of AUDIOT chunks that are looked at: one per pair of adjacent
/// offsets, at most `NUMSNDCHUNKS`.
pub open spec fn audiot_count(head: Seq<u8>) -> int {
    let n = audio_offsets(head).len() - 1;
    if n < 0 {
        0
    } else if n > NUMSNDCHUNKS {
        NUMSNDCHUNKS as int
    } else {
        n
    }
}

/// Splits AUDIOT into its exported chunks (see `audiot_out`).
pub fn extract_audiot(head: &[u8], body: &[u8]) -> (r: Vec<(AudioKind, usize, Vec<u8>)>)
    ensures
        ({
            let want = audiot_out(audio_offsets(head@), body@, audiot_count(head@));
            &&& r@.len() == want.len()
            &&& forall|j: int| 0 <= j < r@.len() ==> ((#[trigger] r@[j]).0, r@[j].1 as int, r@[j].2@) == want[j]
        }),
{
    let n_offs = head.len() / 4;
    let count = if n_offs == 0 {
        0
    } else if n_offs - 1 > NUMSNDCHUNKS {
        NUMSNDCHUNKS
    } else {
        n_offs - 1
    };
    let ghost offs = audio_offsets(head@);
    let mut out: Vec<(AudioKind, usize, Vec<u8>)> = Vec::new();
    let mut i: usize = 0;
    while i < count
        invariant
            i <= count,
            count == audiot_count(head@),
            n_offs == head@.len() / 4,
            count < n_offs || count == 0,
            offs == audio_offsets(head@),
            out@.len() == audiot_out(offs, body@, i as int).len(),
            forall|j: int|
                0 <= j < out@.len() ==> ((#[trigger] out@[j]).0, out@[j].1 as int, out@[j].2@) == audiot_out(
                    offs,
                    body@,
                    i as int,
                )[j],
        decreases count - i,
    {
        assert(4 * i + 8 <= head@.len()) by (nonlinear_arith)
            requires
                i + 1 < n_offs,
                n_offs == head@.len() / 4,
        ;
        let start = read_le_u32(head, 4 * i) as usize;
        let end = read_le_u32(head, 4 * i + 4) as usize;
        assert(offs[i as int] == start && offs[i + 1] == end);
        if !(start >= end || end > body.len()) {
            let chunk = vstd::slice::slice_to_vec(vstd::slice::slice_subrange(body, start, end));
            if i < STARTADLIBSOUNDS {
                out.push((AudioKind::PcSpeaker, i - STARTPCSOUNDS, chunk));
            } else if i < STARTDIGISOUNDS {
                out.push((AudioKind::AdLib, i - STARTADLIBSOUNDS, chunk));
            } else if i >= STARTMUSIC {
                out.push((AudioKind::Music, i - STARTMUSIC, chunk));
            }
        }
        i = i + 1;
    }
    out
}

// ---------------------------------------------------------------------------
// Maps
//
// MAPHEAD holds the RLEW tag and 100 level offsets into GAMEMAPS (0 for no
// level).  Each level starts with a 38-byte header: three plane starts
// (32-bit signed), three compressed plane lengths, width, height (16 bits
// each) and a 16-byte name.  A plane's compressed bytes start with its
// Carmack-expanded size; the Carmack output, less its first word, is
// RLEW-compressed.
// ---------------------------------------------------------------------------

/// One level ready to be written out.
pub struct MapDump {
    pub index: usize,
    pub name: String,
    pub width: usize,
    pub height: usize,
    /// Walls and objects, each as a flat row-major word grid.
    pub planes: Vec<Vec<u16>>,
}

/// The words of one plane stored at `start` with `len` compressed bytes, for
/// a `w` x `h` level.  A plane without data (zero start, fewer than two
/// bytes, bytes past the end of the file) is empty.  `None` for a negative
/// start whose end would wrap past the address range, where no data can be
/// located.
pub open spec fn map_plane(body: Seq<u8>, tag: u16, start: int, len: int, w: int, h: int) -> Option<Seq<u16>> {
    if start < 0 {
        if len >= 2 && len >= -start {
            None
        } else {
            Some(Seq::<u16>::empty())
        }
    } else if start == 0 || len < 2 || start + len > body.len() {
        Some(Seq::<u16>::empty())
    } else {
        let c = body.subrange(start, start + len);
        let cw = carmack_expanded(c.subrange(2, len), 0, le16(c, 0) / 2, Seq::empty());
        let ri = if cw.len() > 0 {
            cw.subrange(1, cw.len() as int)
        } else {
            Seq::<u16>::empty()
        };
        Some(rlew_expanded(ri, 0, Seq::empty(), tag, w * h))
    }
}

/// The header at `pos` holds a level: a non-zero offset with the whole
/// header inside the file.
pub open spec fn map_slot(body: Seq<u8>, pos: int) -> bool {
    pos != 0 && pos + 38 <= body.len()
}

/// Plane `p` of the level whose header is at `pos`.
pub open spec fn slot_plane(body: Seq<u8>, tag: u16, pos: int, p: int) -> Option<Seq<u16>> {
    map_plane(
        body,
        tag,
        le32(body, pos + 4 * p) as i32 as int,
        le16(body, pos + 12 + 2 * p),
        le16(body, pos + 18),
        le16(body, pos + 20),
    )
}

/// The level at `pos` can be exported: both planes decode and the level
/// size fits in memory.
pub open spec fn slot_ok(body: Seq<u8>, tag: u16, pos: int) -> bool {
    map_slot(body, pos) ==> {
        &&& le16(body, pos + 18) * le16(body, pos + 20) <= usize::MAX
        &&& slot_plane(body, tag, pos, 0) is Some
        &&& slot_plane(body, tag, pos, 1) is Some
    }
}

/// `m` is the level stored at `pos` in slot `i`: its index, name (trailing
/// NULs and surrounding whitespace removed), size and both planes.
pub open spec fn dump_of(m: MapDump, body: Seq<u8>, tag: u16, pos: int, i: int) -> bool {
    &&& m.index == i
    &&& m.name@ == whitespace_trimmed(utf8_lossy(nul_trimmed(body.subrange(pos + 22, pos + 38))))
    &&& m.width == le16(body, pos + 18)
    &&& m.height == le16(body, pos + 20)
    &&& m.planes@.len() == MAPPLANES
    &&& forall|p: int| 0 <= p < MAPPLANES ==> Some((#[trigger] m.planes@[p])@) == slot_plane(body, tag, pos, p)
}

/// The level offset of slot `i` in MAPHEAD.
pub open spec fn head_offset(head: Seq<u8>, i: int) -> int {
    le32(head, 2 + 4 * i)
}

/// Slot numbers among the first `n` that hold a level, in order.
pub open spec fn map_slots(head: Seq<u8>, body: Seq<u8>, n: int) -> Seq<int>
    decreases n,
{
    if n <= 0 {
        Seq::empty()
    } else if map_slot(body, head_offset(head, n - 1)) {
        map_slots(head, body, n - 1).push(n - 1)
    } else {
        map_slots(head, body, n - 1)
    }
}

/// Decodes plane `p` of the level whose header is at `pos` (see
/// `slot_plane`).
fn read_plane(body: &[u8], tag: u16, pos: usize, p: usize, w: usize, h: usize) -> (r: Option<Vec<u16>>)
    requires
        pos + 38 <= body@.len(),
        p < 3,
        w as int == le16(body@, pos + 18),
        h as int == le16(body@, pos + 20),
        w * h <= usize::MAX,
    ensures
        match r {
            Some(v) => slot_plane(body@, tag, pos as int, p as int) == Some(v@),
            None => slot_plane(body@, tag, pos as int, p as int) is None,
        },
{
    let blen = body.len();
    let start = read_le_i32(body, pos + 4 * p);
    let len = read_le_u16(body, pos + 12 + 2 * p) as usize;
    if start < 0 {
        let back = (-(start as i64)) as usize;
        if len >= 2 && len >= back {
            return None;
        }
        return Some(Vec::new());
    }
    let s = start as usize;
    if s == 0 || len < 2 || s > blen || blen - s < len {
        return Some(Vec::new());
    }
    let compressed = vstd::slice::slice_subrange(body, s, s + len);
    let expanded_bytes = read_le_u16(compressed, 0) as usize;
    let carmack = carmack_expand(vstd::slice::slice_subrange(compressed, 2, len), expanded_bytes);
    let rlew = if carmack.len() > 0 {
        rlew_expand(vstd::slice::slice_subrange(carmack.as_slice(), 1, carmack.len()), tag, w * h)
    } else {
        let empty: Vec<u16> = Vec::new();
        rlew_expand(empty.as_slice(), tag, w * h)
    };
    Some(rlew)
}

/// Decodes every level of MAPHEAD and GAMEMAPS for export (see `dump_of`),
/// in slot order.  `None` when MAPHEAD is cut short or a level cannot be
/// exported (see `slot_ok`).
pub fn extract_maps(head: &[u8], body: &[u8]) -> (r: Option<Vec<MapDump>>)
    ensures
        r is Some <==> head@.len() >= 402 && forall|i: int|
            0 <= i < NUMMAPS ==> slot_ok(body@, le16(head@, 0) as u16, #[trigger] head_offset(head@, i)),
        r matches Some(v) ==> {
            let slots = map_slots(head@, body@, NUMMAPS as int);
            &&& v@.len() == slots.len()
            &&& forall|j: int|
                0 <= j < v@.len() ==> dump_of(
                    #[trigger] v@[j],
                    body@,
                    le16(head@, 0) as u16,
                    head_offset(head@, slots[j]),
                    slots[j],
                )
        },
{
    if head.len() < 402 {
        return None;
    }
    let rlew_tag = read_le_u16(head, 0);
    let blen = body.len();
    let mut maps: Vec<MapDump> = Vec::new();
    let mut i: usize = 0;
    while i < NUMMAPS
        invariant
            i <= NUMMAPS,
            head@.len() >= 402,
            rlew_tag as int == le16(head@, 0),
            blen == body@.len(),
            forall|k: int| 0 <= k < i ==> slot_ok(body@, rlew_tag, #[trigger] head_offset(head@, k)),
            maps@.len() == map_slots(head@, body@, i as int).len(),
            forall|j: int|
                0 <= j < maps@.len() ==> dump_of(
                    #[trigger] maps@[j],
                    body@,
                    rlew_tag,
                    head_offset(head@, map_slots(head@, body@, i as int)[j]),
                    map_slots(head@, body@, i as int)[j],
                ),
        decreases NUMMAPS - i,
    {
        let pos = read_le_u32(head, 2 + 4 * i) as usize;
        if !(pos == 0 || pos > blen || blen - pos < 38) {
            let width = read_le_u16(body, pos + 18) as usize;
            let height = read_le_u16(body, pos + 20) as usize;
            let size = width.checked_mul(height);
            if size.is_none() {
                assert(!slot_ok(body@, rlew_tag, head_offset(head@, i as int)));
                return None;
            }
            let name_bytes = vstd::slice::slice_subrange(body, pos + 22, pos + 38);
            let n = trimmed_len(name_bytes);
            let raw_name = lossy_utf8_string(vstd::slice::slice_subrange(name_bytes, 0, n));
            let name = trim_whitespace(raw_name.as_str());
            let mut planes: Vec<Vec<u16>> = Vec::new();
            let mut p: usize = 0;
            while p < MAPPLANES
                invariant
                    p <= MAPPLANES,
                    i < NUMMAPS,
                    head@.len() >= 402,
                    rlew_tag as int == le16(head@, 0),
                    blen == body@.len(),
                    pos as int == head_offset(head@, i as int),
                    map_slot(body@, pos as int),
                    pos + 38 <= body@.len(),
                    width as int == le16(body@, pos + 18),
                    height as int == le16(body@, pos + 20),
                    width * height <= usize::MAX,
                    planes@.len() == p,
                    forall|q: int| 0 <= q < p ==> Some((#[trigger] planes@[q])@) == slot_plane(body@, rlew_tag, pos as int, q),
                decreases MAPPLANES - p,
            {
                match read_plane(body, rlew_tag, pos, p, width, height) {
                    Some(words) => planes.push(words),
                    None => {
                        assert(!slot_ok(body@, rlew_tag, head_offset(head@, i as int)));
                        return None;
                    },
                }
                p = p + 1;
            }
            assert(Some(planes@[0]@) == slot_plane(body@, rlew_tag, pos as int, 0));
            assert(Some(planes@[1]@) == slot_plane(body@, rlew_tag, pos as int, 1));
            let dump = MapDump { index: i, name, width, height, planes };
            assert(name_bytes@.subrange(0, n as int) == nul_trimmed(body@.subrange(pos + 22, pos + 38)));
            maps.push(dump);
        }
        assert(slot_ok(body@, rlew_tag, head_offset(head@, i as int)));
        i = i + 1;
    }
    Some(maps)
}

// ---------------------------------------------------------------------------
// Palette
// ---------------------------------------------------------------------------

/// Why no palette could be read from GAMEPAL.
#[derive(Debug, Clone, Copy, PartialEq, Eq, Structural)]
pub enum PaletteError {
    /// No data record holds 768 palette bytes.
    NotFound,
    /// A data record is shorter than its own header.
    Malformed,
}

/// The palette payload found by scanning OMF records from byte `i`: the
/// body of the first data record (type 0xA0) that lies within the file and
/// whose payload, less three leading bytes and the trailing checksum, is
/// exactly 768 bytes.
pub open spec fn omf_scan(d: Seq<u8>, i: int) -> Result<Seq<u8>, PaletteError>
    decreases (if i < d.len() { d.len() - i } else { 0 }),
{
    if i < 0 || i + 3 > d.len() {
        Err(PaletteError::NotFound)
    } else {
        let t = d[i];
        let l = le16(d, i + 1);
        if t == 0xA0 && i + 3 + l <= d.len() {
            if l < 4 {
                Err(PaletteError::Malformed)
            } else if l == 772 {
                Ok(d.subrange(i + 6, i + 2 + l))
            } else {
                omf_scan(d, i + 3 + l)
            }
        } else {
            omf_scan(d, i + 3 + l)
        }
    }
}

/// The palette from its payload: 256 RGB triples, each 6-bit component
/// multiplied by 4 modulo 256.
pub open spec fn scaled_palette(p: Seq<u8>) -> Seq<(u8, u8, u8)> {
    Seq::new(
        256,
        |k: int| (((p[3 * k] * 4) % 256) as u8, ((p[3 * k + 1] * 4) % 256) as u8, ((p[3 * k + 2] * 4) % 256) as u8),
    )
}

/// Reads the palette out of GAMEPAL (see `omf_scan` and `scaled_palette`).
pub fn load_game_palette(data: &[u8]) -> (r: Result<Vec<(u8, u8, u8)>, PaletteError>)
    ensures
        match omf_scan(data@, 0) {
            Ok(p) => r matches Ok(v) && v@ == scaled_palette(p),
            Err(e) => r == Err::<Vec<(u8, u8, u8)>, PaletteError>(e),
        },
{
    let len = data.len();
    let mut i: usize = 0;
    while len - i >= 3
        invariant
            i <= len,
            len == data@.len(),
            omf_scan(data@, 0) == omf_scan(data@, i as int),
        decreases len - i,
    {
        let rec_type = data[i];
        let rec_len = read_le_u16(data, i + 1) as usize;
        if rec_type == 0xA0 && len - i - 3 >= rec_len {
            if rec_len < 4 {
                return Err(PaletteError::Malformed);
            }
            if rec_len == 772 {
                let payload = vstd::slice::slice_subrange(data, i + 6, i + 2 + rec_len);
                let mut pal: Vec<(u8, u8, u8)> = Vec::new();
                let mut k: usize = 0;
                while k < 256
                    invariant
                        k <= 256,
                        payload@.len() == 768,
                        pal@ == scaled_palette(payload@).subrange(0, k as int),
                    decreases 256 - k,
                {
                    let c = (
                        payload[3 * k].wrapping_mul(4),
                        payload[3 * k + 1].wrapping_mul(4),
                        payload[3 * k + 2].wrapping_mul(4),
                    );
                    pal.push(c);
                    k = k + 1;
                    assert(pal@ =~= scaled_palette(payload@).subrange(0, k as int));
                }
                assert(pal@ =~= scaled_palette(payload@));
                return Ok(pal);
            }
        }
        assert(omf_scan(data@, i as int) == omf_scan(data@, i + 3 + rec_len));
        if len - i - 3 < rec_len {
            assert(omf_scan(data@, i + 3 + rec_len) == Err::<Seq<u8>, PaletteError>(PaletteError::NotFound));
            return Err(PaletteError::NotFound);
        }
        i = i + 3 + rec_len;
    }
    Err(PaletteError::NotFound)
}

// ---------------------------------------------------------------------------
// JSON text
// ---------------------------------------------------------------------------

/// The lowercase hexadecimal digit of `v` (0..16).
pub open spec fn hex_digit(v: int) -> char {
    if v < 10 {
        ((48 + v) as u8) as char
    } else {
        ((87 + v) as u8) as char
    }
}

/// The JSON escape of one character: quote, backslash, newline, carriage
/// return and tab by their short escapes, other control characters as
/// `\u00XX`, everything else as itself.
pub open spec fn json_escape(c: char) -> Seq<char> {
    if c == '"' {
        seq!['\\', '"']
    } else if c == '\\' {
        seq!['\\', '\\']
    } else if c == '\n' {
        seq!['\\', 'n']
    } else if c == '\r' {
        seq!['\\', 'r']
    } else if c == '\t' {
        seq!['\\', 't']
    } else if (c as u32) < 0x20 {
        seq!['\\', 'u', '0', '0', hex_digit((c as u32) as int / 16), hex_digit((c as u32) as int % 16)]
    } else {
        seq![c]
    }
}

/// The escapes of the first `n` characters of `s`, in order.
pub open spec fn json_escaped(s: Seq<char>, n: int) -> Seq<char>
    decreases n,
{
    if n <= 0 {
        Seq::<char>::empty()
    } else {
        json_escaped(s, n - 1) + json_escape(s[n - 1])
    }
}

/// `s` as a quoted JSON string literal.
pub open spec fn json_quoted(s: Seq<char>) -> Seq<char> {
    seq!['"'] + json_escaped(s, s.len() as int) + seq!['"']
}

/// The hexadecimal digit for `v` (below 16).
fn hex_char(v: u32) -> (c: char)
    requires
        v < 16,
    ensures
        c == hex_digit(v as int),
{
    if v < 10 {
        ((48 + v) as u8) as char
    } else {
        ((87 + v) as u8) as char
    }
}

/// Appends the JSON escape of `c` (see `json_escape`).
fn push_escaped(out: &mut Vec<char>, c: char)
    ensures
        final(out)@ == old(out)@ + json_escape(c),
{
    let ghost start = old(out)@;
    if c == '"' {
        out.push('\\');
        out.push('"');
    } else if c == '\\' {
        out.push('\\');
        out.push('\\');
    } else if c == '\n' {
        out.push('\\');
        out.push('n');
    } else if c == '\r' {
        out.push('\\');
        out.push('r');
    } else if c == '\t' {
        out.push('\\');
        out.push('t');
    } else if (c as u32) < 0x20 {
        let v = c as u32;
        out.push('\\');
        out.push('u');
        out.push('0');
        out.push('0');
        out.push(hex_char(v / 16));
        out.push(hex_char(v % 16));
    } else {
        out.push(c);
    }
    assert(out@ =~= start + json_escape(c));
}

/// Quotes and escapes `s` for embedding in JSON (see `json_quoted`).
pub fn json_string(s: &str) -> (r: Vec<char>)
    ensures
        r@ == json_quoted(s@),
{
    let n = s.unicode_len();
    let mut out: Vec<char> = Vec::new();
    out.push('"');
    let mut i: usize = 0;
    while i < n
        invariant
            n == s@.len(),
            i <= n,
            out@ == seq!['"'] + json_escaped(s@, i as int),
        decreases n - i,
    {
        let c = s.get_char(i);
        push_escaped(&mut out, c);
        i = i + 1;
        assert(out@ =~= seq!['"'] + json_escaped(s@, i as int));
    }
    out.push('"');
    assert(out@ =~= json_quoted(s@));
    out
}

} // verus!
