//! Graphics archives: VGAHEAD (chunk offsets), VGADICT (Huffman tree),
//! VGAGRAPH (Huffman-compressed chunks), VSWAP (page file holding wall
//! textures, sprites and digitized sounds) and GAMEPAL (the palette, inside
//! an OMF object file).
//!
//! The archives are taken as byte slices; every decoder states exactly which
//! inputs it accepts and what it makes of them.
use vstd::prelude::*;
use crate::assets::bytes::{le16, le24, le32, read_le_u16, read_le_u24, read_le_u32};
use crate::engine::video::{parse_palette, parsed_palette};

verus! {

/// Chunk holding the picture table (width and height of every picture).
pub const PICTABLE_IDX: usize = 0;

/// First picture chunk.
pub const PICS_IDX: usize = 3;

/// Number of picture chunks.
pub const NUMPICS: usize = 132;

/// Node at which every Huffman code starts.
pub const HUFF_ROOT: u16 = 254;

/// Bytes of the OMF data record that holds the palette: 256 RGB triples.
pub const PALETTE_BYTES: usize = 768;

/// One node of the Huffman decode tree.  A value below 0x100 is a leaf (the
/// byte to emit); a value from 0x100 up names node `value - 0x100`.
#[derive(Clone, Copy, Debug, PartialEq, Eq, Structural)]
pub struct HuffmanNode {
    /// Followed on a 0 bit.
    pub val1: u16,
    /// Followed on a 1 bit.
    pub val2: u16,
}

/// A decoded graphics chunk.  The exact format depends on the chunk type
/// (pic, sprite, font, etc.).
pub struct GfxChunk {
    pub index: usize,
    pub data: Vec<u8>,
    pub width: u16,
    pub height: u16,
}

/// Sprite table entry.
#[derive(Debug, Clone)]
pub struct SpriteInfo {
    pub width: i16,
    pub height: i16,
    pub org_x: i16,
    pub org_y: i16,
    pub xl: i16,
    pub yl: i16,
    pub xh: i16,
    pub yh: i16,
    pub shifts: i16,
}

/// Header of a compiled sprite page: its leftmost and rightmost columns and
/// the offset of each column's drawing commands.
pub struct CompShape {
    pub leftpix: u16,
    pub rightpix: u16,
    pub dataofs: [u16; 64],
}

/// The pages of the VSWAP page file, by kind.
pub struct PageInfo {
    pub total_page_count: usize,
    /// Wall textures as 64x64 RGB images.
    pub wall_pages: Vec<Vec<u8>>,
    /// Headers of the sprite pages that are long enough to hold one.
    pub sprite_pages: Vec<CompShape>,
    /// Raw digitized-sound pages.
    pub sound_pages: Vec<Vec<u8>>,
}

pub struct GraphicsCache {
    /// Decoded picture chunks by chunk number: slot `k` holds chunk `k`
    /// (the slots before `PICS_IDX` are empty).
    pub chunks: Vec<Option<GfxChunk>>,
    /// RGB palette.
    pub palette: Vec<(u8, u8, u8)>,
    /// Sprite metadata table.
    pub sprites: Vec<SpriteInfo>,
    /// Wall textures (64x64 RGB) from VSWAP.
    pub wall_textures: Vec<Vec<u8>>,
}

// ---------------------------------------------------------------------------
// VGAHEAD
// ---------------------------------------------------------------------------

/// The chunk offsets in VGAHEAD: one little-endian 24-bit value per three
/// bytes; a trailing partial entry is ignored.
pub open spec fn vga_offsets(b: Seq<u8>) -> Seq<u32> {
    Seq::new(b.len() / 3, |i: int| le24(b, 3 * i) as u32)
}

/// Reads the chunk offsets of VGAHEAD (see `vga_offsets`).
pub fn read_vga_file_offsets(bytes: &[u8]) -> (r: Vec<u32>)
    ensures
        r@ == vga_offsets(bytes@),
{
    let mut offsets: Vec<u32> = Vec::new();
    let len = bytes.len();
    let n = len / 3;
    let mut k: usize = 0;
    while k < n
        invariant
            k <= n,
            len == bytes@.len(),
            n == len / 3,
            offsets@ == vga_offsets(bytes@).subrange(0, k as int),
        decreases n - k,
    {
        assert(3 * k + 3 <= bytes@.len()) by (nonlinear_arith)
            requires
                k < n,
                n == len / 3,
                len == bytes@.len(),
        ;
        let v = read_le_u24(bytes, 3 * k);
        offsets.push(v);
        k = k + 1;
        assert(offsets@ =~= vga_offsets(bytes@).subrange(0, k as int));
    }
    assert(offsets@ =~= vga_offsets(bytes@));
    offsets
}

// ---------------------------------------------------------------------------
// VGADICT
// ---------------------------------------------------------------------------

/// The Huffman nodes in VGADICT: two little-endian 16-bit values per four
/// bytes.
pub open spec fn huffman_nodes(b: Seq<u8>) -> Seq<HuffmanNode> {
    Seq::new(
        b.len() / 4,
        |i: int| HuffmanNode { val1: le16(b, 4 * i) as u16, val2: le16(b, 4 * i + 2) as u16 },
    )
}

/// Reads the Huffman tree of VGADICT (see `huffman_nodes`).  A trailing
/// byte is ignored; a node cut short after its first value (two or three
/// trailing bytes) makes the file unreadable.
pub fn read_vga_huffman_tree(bytes: &[u8]) -> (r: Option<Vec<HuffmanNode>>)
    ensures
        r is Some <==> bytes@.len() % 4 < 2,
        r matches Some(v) ==> v@ == huffman_nodes(bytes@),
{
    let mut nodes: Vec<HuffmanNode> = Vec::new();
    let len = bytes.len();
    let mut pos: usize = 0;
    while len - pos >= 2
        invariant
            len == bytes@.len(),
            pos <= len,
            pos % 4 == 0,
            nodes@ == huffman_nodes(bytes@).subrange(0, pos as int / 4),
        decreases len - pos,
    {
        let child0 = read_le_u16(bytes, pos);
        if len - pos < 4 {
            return None;
        }
        let child1 = read_le_u16(bytes, pos + 2);
        nodes.push(HuffmanNode { val1: child0, val2: child1 });
        pos = pos + 4;
        assert(nodes@ =~= huffman_nodes(bytes@).subrange(0, pos as int / 4));
    }
    assert(pos as int / 4 == len as int / 4);
    assert(nodes@ =~= huffman_nodes(bytes@));
    Some(nodes)
}

// ---------------------------------------------------------------------------
// GAMEPAL
// ---------------------------------------------------------------------------

/// The palette payload found by scanning the OMF records of `d` from byte
/// `i`.  Each record is a type byte, a little-endian 16-bit length and that
/// many bytes.  The payload of the first data record (type 0xA0) whose body,
/// less its three leading bytes and its trailing checksum, is exactly 768
/// bytes long is the palette.  `None` when no such record is found, or when
/// a record header or the body of a data record runs past the end.
pub open spec fn omf_palette(d: Seq<u8>, i: int) -> Option<Seq<u8>>
    decreases (if i < d.len() { d.len() - i } else { 0 }),
{
    if i < 0 || i >= d.len() {
        None
    } else if i + 3 > d.len() {
        None
    } else {
        let t = d[i];
        let l = le16(d, i + 1);
        if t == 0xA0 && (l < 4 || i + 2 + l > d.len()) {
            None
        } else if t == 0xA0 && l == PALETTE_BYTES + 4 {
            Some(d.subrange(i + 6, i + 2 + l))
        } else {
            omf_palette(d, i + 3 + l)
        }
    }
}

/// `true` when every byte of `p` is a 6-bit value.
pub open spec fn six_bit(p: Seq<u8>) -> bool {
    forall|k: int| 0 <= k < p.len() ==> #[trigger] p[k] < 64
}

/// The game palette held in a GAMEPAL object file: the found payload's
/// 6-bit components scaled by 4.  `None` when no payload is found or a
/// component does not fit 6 bits (its scaling would overflow).
pub open spec fn game_palette(d: Seq<u8>) -> Option<Seq<(u8, u8, u8)>> {
    match omf_palette(d, 0) {
        None => None,
        Some(p) => if six_bit(p) {
            Some(parsed_palette(p))
        } else {
            None
        },
    }
}

/// Reads the palette out of a GAMEPAL object file (see `game_palette`).
pub fn load_game_palette(data: &[u8]) -> (r: Option<Vec<(u8, u8, u8)>>)
    ensures
        match r {
            Some(v) => game_palette(data@) == Some(v@),
            None => game_palette(data@) is None,
        },
{
    let len = data.len();
    let mut i: usize = 0;
    while i < len
        invariant
            len == data@.len(),
            omf_palette(data@, 0) == omf_palette(data@, i as int),
        decreases len - i,
    {
        if len - i < 3 {
            return None;
        }
        let rec_type = data[i];
        let rec_len = read_le_u16(data, i + 1) as usize;
        if rec_type == 0xA0 && (rec_len < 4 || len - i - 2 < rec_len) {
            return None;
        }
        if rec_type == 0xA0 && rec_len == PALETTE_BYTES + 4 {
            let payload = vstd::slice::slice_subrange(data, i + 6, i + 2 + rec_len);
            assert(omf_palette(data@, 0) == Some(payload@));
            let mut k: usize = 0;
            while k < PALETTE_BYTES
                invariant
                    k <= PALETTE_BYTES,
                    payload@.len() == PALETTE_BYTES,
                    omf_palette(data@, 0) == Some(payload@),
                    forall|j: int| 0 <= j < k ==> #[trigger] payload@[j] < 64,
                decreases PALETTE_BYTES - k,
            {
                if payload[k] >= 64 {
                    assert(!six_bit(payload@));
                    return None;
                }
                k = k + 1;
            }
            return Some(parse_palette(payload));
        }
        assert(omf_palette(data@, i as int) == omf_palette(data@, i + 3 + rec_len));
        let next = match i.checked_add(3 + rec_len) {
            Some(v) => v,
            None => {
                assert(omf_palette(data@, i + 3 + rec_len) is None);
                return None;
            },
        };
        if next >= len {
            assert(omf_palette(data@, next as int) is None);
            return None;
        }
        i = next;
    }
    None
}

// ---------------------------------------------------------------------------
// Wall textures
// ---------------------------------------------------------------------------

/// Every byte of the first 4096 of `planar` names a palette entry.
pub open spec fn planar_in_palette(planar: Seq<u8>, palette: Seq<(u8, u8, u8)>) -> bool {
    planar.len() >= 4096 && forall|i: int| 0 <= i < 4096 ==> (#[trigger] planar[i] as int) < palette.len()
}

/// The component `k` (0 = red, 1 = green, 2 = blue) of a colour.
pub open spec fn component(c: (u8, u8, u8), k: int) -> u8 {
    if k == 0 {
        c.0
    } else if k == 1 {
        c.1
    } else {
        c.2
    }
}

/// A 64x64 VSWAP wall page, stored as 64 columns of 64 palette indices
/// (texel (x, y) at `x * 64 + y`), converted to row-major RGB.
pub open spec fn deplanarized(planar: Seq<u8>, palette: Seq<(u8, u8, u8)>) -> Seq<u8> {
    Seq::new(
        12288,
        |i: int|
            {
                let p = i / 3;
                let x = p % 64;
                let y = p / 64;
                component(palette[planar[x * 64 + y] as int], i % 3)
            },
    )
}

/// Converts a column-major wall page into row-major RGB (see `deplanarized`).
pub fn deplanarize(planar: &[u8], palette: &[(u8, u8, u8)]) -> (rgb: Vec<u8>)
    requires
        planar_in_palette(planar@, palette@),
    ensures
        rgb@ == deplanarized(planar@, palette@),
{
    let mut rgb: Vec<u8> = Vec::new();
    let mut p: usize = 0;
    while p < 4096
        invariant
            p <= 4096,
            planar_in_palette(planar@, palette@),
            rgb@ == deplanarized(planar@, palette@).subrange(0, 3 * p as int),
        decreases 4096 - p,
    {
        let x = p % 64;
        let y = p / 64;
        let src = x * 64 + y;
        let palette_idx = planar[src] as usize;
        let (r, g, b) = palette[palette_idx];
        rgb.push(r);
        rgb.push(g);
        rgb.push(b);
        proof {
            let d = deplanarized(planar@, palette@);
            assert((3 * p as int) / 3 == p);
            assert((3 * p as int + 1) / 3 == p);
            assert((3 * p as int + 2) / 3 == p);
            assert(d[3 * p as int] == r);
            assert(d[3 * p as int + 1] == g);
            assert(d[3 * p as int + 2] == b);
        }
        p = p + 1;
        assert(rgb@ =~= deplanarized(planar@, palette@).subrange(0, 3 * p as int));
    }
    assert(rgb@ =~= deplanarized(planar@, palette@));
    rgb
}

// ---------------------------------------------------------------------------
// Huffman decoding
// ---------------------------------------------------------------------------

/// Bit `i` (0 = least significant) of byte `b`.
pub open spec fn bit_of(b: u8, i: u8) -> bool {
    (b >> i) & 1u8 == 1u8
}

/// The decoder state (current node, bytes emitted) after the first `k` bits
/// of `comp`, each byte read least significant bit first.  Every code
/// starts at `HUFF_ROOT`; a bit selects `val1` (0) or `val2` (1) of the
/// current node; a leaf emits its byte and returns to the root, any other
/// value moves to node `value - 0x100`.  Once `limit` bytes
/// has been emitted, the state no longer changes.  `None` when a visited
/// node lies outside the tree.
pub open spec fn huff_walk(tree: Seq<HuffmanNode>, comp: Seq<u8>, limit: int, k: nat) -> Option<(u16, Seq<u8>)>
    decreases k,
{
    if k == 0 {
        Some((HUFF_ROOT, Seq::<u8>::empty()))
    } else {
        match huff_walk(tree, comp, limit, (k - 1) as nat) {
            None => None,
            Some(st) => {
                let node = st.0;
                let out = st.1;
                if out.len() == limit {
                    Some(st)
                } else if node >= tree.len() {
                    None
                } else {
                    let bit = bit_of(comp[(k - 1) / 8], ((k - 1) % 8) as u8);
                    let sel = if bit {
                        tree[node as int].val2
                    } else {
                        tree[node as int].val1
                    };
                    if sel < 0x100 {
                        Some((HUFF_ROOT, out.push(sel as u8)))
                    } else {
                        Some(((sel - 0x100) as u16, out))
                    }
                }
            },
        }
    }
}

/// The bytes decoded from all of `comp` (see `huff_walk`).
pub open spec fn huff_decoded(comp: Seq<u8>, limit: int, tree: Seq<HuffmanNode>) -> Option<Seq<u8>> {
    match huff_walk(tree, comp, limit, (8 * comp.len()) as nat) {
        None => None,
        Some(st) => Some(st.1),
    }
}

/// Decoding never emits more bytes than the limit:
/// after any number of bits the output is no longer than it.
pub proof fn law_huffman_bounded(tree: Seq<HuffmanNode>, comp: Seq<u8>, limit: int, k: nat)
    requires
        limit >= 0,
    ensures
        huff_walk(tree, comp, limit, k) matches Some(st) ==> st.1.len() <= limit,
    decreases k,
{
    if k > 0 {
        law_huffman_bounded(tree, comp, limit, (k - 1) as nat);
    }
}

/// Every code is read from the root: decoding starts at the root node, and
/// whenever a bit completes a code (a byte is emitted) the next bit is read
/// at the root again.  Each bit adds at most one byte and keeps the bytes
/// already decoded, so a run of codes decodes to each code's byte in turn.
pub proof fn law_codes_restart_at_root(tree: Seq<HuffmanNode>, comp: Seq<u8>, limit: int, k: nat)
    ensures
        huff_walk(tree, comp, limit, 0) == Some((HUFF_ROOT, Seq::<u8>::empty())),
        huff_walk(tree, comp, limit, k + 1) matches Some(st1) ==> (huff_walk(tree, comp, limit, k) matches Some(st0)
            && st1.1.len() <= st0.1.len() + 1 && st0.1 == st1.1.subrange(0, st0.1.len() as int) && (st1.1.len()
            == st0.1.len() + 1 ==> st1.0 == HUFF_ROOT)),
{
    if let Some(st1) = huff_walk(tree, comp, limit, k + 1) {
        let st0 = huff_walk(tree, comp, limit, k)->0;
        assert(st0.1 =~= st1.1.subrange(0, st0.1.len() as int));
    }
}

/// Once the limit is reached, further bits change nothing.
proof fn lemma_walk_done(tree: Seq<HuffmanNode>, comp: Seq<u8>, limit: int, k0: nat, k: nat)
    requires
        k0 <= k,
        huff_walk(tree, comp, limit, k0) matches Some(st) && st.1.len() == limit,
    ensures
        huff_walk(tree, comp, limit, k) == huff_walk(tree, comp, limit, k0),
    decreases k - k0,
{
    if k > k0 {
        lemma_walk_done(tree, comp, limit, k0, (k - 1) as nat);
    }
}

/// Decodes the bit-packed Huffman codes of `compressed` (see `huff_walk`)
/// into at most `expanded_len` bytes, stopping once that many are out.
/// `None` when a code leads outside the tree.
pub fn huffman_decode(compressed: &[u8], expanded_len: usize, tree: &[HuffmanNode]) -> (r: Option<Vec<u8>>)
    ensures
        match r {
            Some(v) => huff_decoded(compressed@, expanded_len as int, tree@) == Some(v@),
            None => huff_decoded(compressed@, expanded_len as int, tree@) is None,
        },
{
    let ghost limit = expanded_len as int;
    let len = compressed.len();
    let mut out: Vec<u8> = Vec::new();
    let mut node: u16 = HUFF_ROOT;
    let mut done = expanded_len == 0;
    let ghost mut k: nat = 0;
    let mut j: usize = 0;
    while j < len && !done
        invariant
            len == compressed@.len(),
            j <= len,
            k <= 8 * len,
            !done ==> k == 8 * j,
            done ==> out@.len() == limit,
            !done ==> out@.len() != limit,
            limit == expanded_len,
            huff_walk(tree@, compressed@, limit, k) == Some((node, out@)),
        decreases len - j,
    {
        let byte = compressed[j];
        let mut i: u8 = 0;
        while i < 8 && !done
            invariant
                len == compressed@.len(),
                j < len,
                i <= 8,
                k <= 8 * len,
                !done ==> k == 8 * j + i,
                done ==> out@.len() == limit,
                !done ==> out@.len() != limit,
                byte == compressed@[j as int],
                limit == expanded_len,
                huff_walk(tree@, compressed@, limit, k) == Some((node, out@)),
            decreases 8 - i,
        {
            assert((8 * j + i) / 8 == j && (8 * j + i) % 8 == i) by (nonlinear_arith)
                requires
                    i < 8,
                    j >= 0,
            ;
            if node as usize >= tree.len() {
                assert(huff_walk(tree@, compressed@, limit, k + 1) is None);
                proof {
                    lemma_walk_none(tree@, compressed@, limit, k + 1, (8 * len) as nat);
                }
                return None;
            }
            let n = tree[node as usize];
            let bit = (byte >> i) & 1u8;
            let sel = if bit == 1u8 {
                n.val2
            } else {
                n.val1
            };
            if sel < 0x100 {
                out.push(sel as u8);
                node = HUFF_ROOT;
                if out.len() == expanded_len {
                    done = true;
                }
            } else {
                node = sel - 0x100;
            }
            proof {
                k = k + 1;
            }
            i = i + 1;
        }
        j = j + 1;
    }
    proof {
        if done {
            lemma_walk_done(tree@, compressed@, limit, k, (8 * len) as nat);
        }
    }
    Some(out)
}

/// Once decoding has failed, it stays failed.
proof fn lemma_walk_none(tree: Seq<HuffmanNode>, comp: Seq<u8>, limit: int, k0: nat, k: nat)
    requires
        k0 <= k,
        huff_walk(tree, comp, limit, k0) is None,
    ensures
        huff_walk(tree, comp, limit, k) is None,
    decreases k - k0,
{
    if k > k0 {
        lemma_walk_none(tree, comp, limit, k0, (k - 1) as nat);
    }
}

/// A VGAGRAPH chunk decoded: its first four bytes give the expanded length
/// (little-endian), the rest is Huffman-coded.  `None` for a chunk shorter
/// than four bytes or one whose codes leave the tree.
pub open spec fn chunk_decoded(chunk: Seq<u8>, tree: Seq<HuffmanNode>) -> Option<Seq<u8>> {
    if chunk.len() < 4 {
        None
    } else {
        huff_decoded(chunk.subrange(4, chunk.len() as int), le32(chunk, 0), tree)
    }
}

/// Decompresses one VGAGRAPH chunk (see `chunk_decoded`).
pub fn decompress_graphics_chunk(chunk: &[u8], huffman_tree: &[HuffmanNode]) -> (r: Option<Vec<u8>>)
    ensures
        match r {
            Some(v) => chunk_decoded(chunk@, huffman_tree@) == Some(v@),
            None => chunk_decoded(chunk@, huffman_tree@) is None,
        },
{
    if chunk.len() < 4 {
        return None;
    }
    let expanded_len = read_le_u32(chunk, 0) as usize;
    let compressed = vstd::slice::slice_subrange(chunk, 4, chunk.len());
    huffman_decode(compressed, expanded_len, huffman_tree)
}

// ---------------------------------------------------------------------------
// VSWAP
// ---------------------------------------------------------------------------

/// Number of pages in a VSWAP file.
pub open spec fn vswap_total(b: Seq<u8>) -> int {
    le16(b, 0)
}

/// First sprite page.
pub open spec fn vswap_sprite_start(b: Seq<u8>) -> int {
    le16(b, 2)
}

/// First sound page.
pub open spec fn vswap_sound_start(b: Seq<u8>) -> int {
    le16(b, 4)
}

/// Byte offset of page `k`, from the table of 32-bit offsets after the
/// 6-byte header.
pub open spec fn page_offset(b: Seq<u8>, k: int) -> int {
    le32(b, 6 + 4 * k)
}

/// Length of page `k`, from the table of 16-bit lengths after the offsets.
pub open spec fn page_length(b: Seq<u8>, k: int) -> int {
    le16(b, 6 + 4 * vswap_total(b) + 2 * k)
}

/// The header and both page tables are present, and the page kinds come
/// in order: walls, then sprites from `sprite_start`, then sounds from
/// `sound_start`, up to the page count.
pub open spec fn vswap_header_ok(b: Seq<u8>) -> bool {
    &&& b.len() >= 6
    &&& 6 + 6 * vswap_total(b) <= b.len()
    &&& vswap_sprite_start(b) <= vswap_sound_start(b) <= vswap_total(b)
}

/// Page `k` can be read: it is empty or lies within the file.
pub open spec fn page_readable(b: Seq<u8>, k: int) -> bool {
    page_length(b, k) == 0 || page_offset(b, k) + page_length(b, k) <= b.len()
}

/// The bytes of page `k`.
pub open spec fn page_bytes(b: Seq<u8>, k: int) -> Seq<u8> {
    if page_length(b, k) == 0 {
        Seq::<u8>::empty()
    } else {
        b.subrange(page_offset(b, k), page_offset(b, k) + page_length(b, k))
    }
}

/// A VSWAP file that can be read with the given palette: the header is
/// well formed, every wall page can be read and holds a 64x64 planar
/// texture in the palette, every sprite page long enough to hold a shape
/// header (132 bytes) can be read, and so can every sound page.
pub open spec fn vswap_ok(b: Seq<u8>, palette: Seq<(u8, u8, u8)>) -> bool {
    &&& vswap_header_ok(b)
    &&& forall|k: int|
        0 <= k < vswap_sprite_start(b) ==> #[trigger] page_readable(b, k) && planar_in_palette(
            page_bytes(b, k),
            palette,
        )
    &&& forall|k: int|
        vswap_sprite_start(b) <= k < vswap_sound_start(b) && page_length(b, k) >= 132
            ==> #[trigger] page_readable(b, k)
    &&& forall|k: int| vswap_sound_start(b) <= k < vswap_total(b) ==> #[trigger] page_readable(b, k)
}

/// The pages among `from..to` long enough to hold a sprite shape header,
/// in order.
pub open spec fn long_pages(b: Seq<u8>, from: int, to: int) -> Seq<Seq<u8>>
    decreases to - from,
{
    if to <= from {
        Seq::<Seq<u8>>::empty()
    } else {
        let prev = long_pages(b, from, to - 1);
        if page_length(b, to - 1) >= 132 {
            prev.push(page_bytes(b, to - 1))
        } else {
            prev
        }
    }
}

/// `s` is the shape header at the start of `page`.
pub open spec fn shape_of(s: CompShape, page: Seq<u8>) -> bool {
    &&& s.leftpix as int == le16(page, 0)
    &&& s.rightpix as int == le16(page, 2)
    &&& forall|i: int| 0 <= i < 64 ==> #[trigger] s.dataofs@[i] as int == le16(page, 4 + 2 * i)
}

/// `p` holds the pages of the VSWAP file `b`: the page count, every wall
/// page as an RGB texture, the shape headers of the long sprite pages and
/// the raw sound pages.
pub open spec fn pages_of(p: PageInfo, b: Seq<u8>, palette: Seq<(u8, u8, u8)>) -> bool {
    &&& p.total_page_count == vswap_total(b)
    &&& p.wall_pages@.len() == vswap_sprite_start(b)
    &&& forall|k: int|
        0 <= k < vswap_sprite_start(b) ==> (#[trigger] p.wall_pages@[k])@ == deplanarized(page_bytes(b, k), palette)
    &&& p.sprite_pages@.len() == long_pages(b, vswap_sprite_start(b), vswap_sound_start(b)).len()
    &&& forall|j: int|
        0 <= j < p.sprite_pages@.len() ==> shape_of(
            #[trigger] p.sprite_pages@[j],
            long_pages(b, vswap_sprite_start(b), vswap_sound_start(b))[j],
        )
    &&& p.sound_pages@.len() == vswap_total(b) - vswap_sound_start(b)
    &&& forall|k: int|
        0 <= k < p.sound_pages@.len() ==> (#[trigger] p.sound_pages@[k])@ == page_bytes(
            b,
            vswap_sound_start(b) + k,
        )
}

/// The bytes of page `k`, when it can be read.
fn page_slice(bytes: &[u8], total: usize, k: usize) -> (r: Option<&[u8]>)
    requires
        total as int == vswap_total(bytes@),
        vswap_header_ok(bytes@),
        k < total,
    ensures
        r is Some <==> page_readable(bytes@, k as int),
        r matches Some(s) ==> s@ == page_bytes(bytes@, k as int),
{
    let len = bytes.len();
    let off = read_le_u32(bytes, 6 + 4 * k) as usize;
    let plen = read_le_u16(bytes, 6 + 4 * total + 2 * k) as usize;
    if plen == 0 {
        return Some(vstd::slice::slice_subrange(bytes, 0, 0));
    }
    if off > len || len - off < plen {
        return None;
    }
    Some(vstd::slice::slice_subrange(bytes, off, off + plen))
}

/// Whether `planar` holds a 64x64 texture in the palette.
fn in_palette(planar: &[u8], palette: &[(u8, u8, u8)]) -> (r: bool)
    ensures
        r == planar_in_palette(planar@, palette@),
{
    if planar.len() < 4096 {
        return false;
    }
    let mut i: usize = 0;
    while i < 4096
        invariant
            i <= 4096,
            planar@.len() >= 4096,
            forall|j: int| 0 <= j < i ==> (#[trigger] planar@[j] as int) < palette@.len(),
        decreases 4096 - i,
    {
        if planar[i] as usize >= palette.len() {
            return false;
        }
        i = i + 1;
    }
    true
}

/// Reads the shape header at the start of a sprite page.
fn comp_shape(page: &[u8]) -> (s: CompShape)
    requires
        page@.len() >= 132,
    ensures
        shape_of(s, page@),
{
    let leftpix = read_le_u16(page, 0);
    let rightpix = read_le_u16(page, 2);
    let mut dataofs = [0u16; 64];
    let mut i: usize = 0;
    while i < 64
        invariant
            i <= 64,
            page@.len() >= 132,
            forall|j: int| 0 <= j < i ==> #[trigger] dataofs@[j] as int == le16(page@, 4 + 2 * j),
        decreases 64 - i,
    {
        dataofs[i] = read_le_u16(page, 4 + 2 * i);
        i = i + 1;
    }
    CompShape { leftpix, rightpix, dataofs }
}

/// Reads the VSWAP page file: wall pages are converted to RGB textures with
/// `palette`, sprite pages long enough to hold one yield their shape header,
/// and sound pages are kept raw.  `None` unless the file is `vswap_ok`.
pub fn read_page_file(bytes: &[u8], palette: &[(u8, u8, u8)]) -> (r: Option<PageInfo>)
    ensures
        r is Some <==> vswap_ok(bytes@, palette@),
        r matches Some(p) ==> pages_of(p, bytes@, palette@),
{
    let len = bytes.len();
    if len < 6 {
        return None;
    }
    let total = read_le_u16(bytes, 0) as usize;
    let sprite_start = read_le_u16(bytes, 2) as usize;
    let sound_start = read_le_u16(bytes, 4) as usize;
    if len - 6 < 6 * total {
        return None;
    }
    if sprite_start > sound_start || sound_start > total {
        return None;
    }
    let ghost b = bytes@;
    assert(vswap_header_ok(b));

    let mut wall_pages: Vec<Vec<u8>> = Vec::new();
    let mut k: usize = 0;
    while k < sprite_start
        invariant
            b == bytes@,
            vswap_header_ok(b),
            total as int == vswap_total(b),
            sprite_start as int == vswap_sprite_start(b),
            k <= sprite_start,
            wall_pages@.len() == k,
            forall|j: int| 0 <= j < k ==> #[trigger] page_readable(b, j),
            forall|j: int| 0 <= j < k ==> planar_in_palette(#[trigger] page_bytes(b, j), palette@),
            forall|j: int| 0 <= j < k ==> (#[trigger] wall_pages@[j])@ == deplanarized(page_bytes(b, j), palette@),
        decreases sprite_start - k,
    {
        let page = match page_slice(bytes, total, k) {
            Some(s) => s,
            None => {
                assert(!vswap_ok(b, palette@));
                return None;
            },
        };
        if !in_palette(page, palette) {
            assert(!vswap_ok(b, palette@));
            return None;
        }
        let rgb = deplanarize(page, palette);
        wall_pages.push(rgb);
        assert(page_readable(b, k as int) && planar_in_palette(page_bytes(b, k as int), palette@));
        k = k + 1;
    }

    let mut sprite_pages: Vec<CompShape> = Vec::new();
    let mut k: usize = sprite_start;
    while k < sound_start
        invariant
            b == bytes@,
            vswap_header_ok(b),
            total as int == vswap_total(b),
            sprite_start as int == vswap_sprite_start(b),
            sound_start as int == vswap_sound_start(b),
            sprite_start <= k <= sound_start,
            forall|j: int| sprite_start <= j < k && page_length(b, j) >= 132 ==> #[trigger] page_readable(b, j),
            sprite_pages@.len() == long_pages(b, sprite_start as int, k as int).len(),
            forall|j: int|
                0 <= j < sprite_pages@.len() ==> shape_of(
                    #[trigger] sprite_pages@[j],
                    long_pages(b, sprite_start as int, k as int)[j],
                ),
        decreases sound_start - k,
    {
        let plen = read_le_u16(bytes, 6 + 4 * total + 2 * k) as usize;
        if plen >= 132 {
            let page = match page_slice(bytes, total, k) {
                Some(s) => s,
                None => {
                    assert(!vswap_ok(b, palette@));
                    return None;
                },
            };
            let shape = comp_shape(page);
            sprite_pages.push(shape);
        }
        k = k + 1;
        assert(long_pages(b, sprite_start as int, k as int) == (if page_length(b, k - 1) >= 132 {
            long_pages(b, sprite_start as int, k - 1).push(page_bytes(b, k - 1))
        } else {
            long_pages(b, sprite_start as int, k - 1)
        }));
    }

    let mut sound_pages: Vec<Vec<u8>> = Vec::new();
    let mut k: usize = sound_start;
    while k < total
        invariant
            b == bytes@,
            vswap_header_ok(b),
            total as int == vswap_total(b),
            sound_start as int == vswap_sound_start(b),
            sound_start <= k <= total,
            sound_pages@.len() == k - sound_start,
            forall|j: int| sound_start <= j < k ==> #[trigger] page_readable(b, j),
            forall|j: int|
                0 <= j < sound_pages@.len() ==> (#[trigger] sound_pages@[j])@ == page_bytes(b, sound_start + j),
        decreases total - k,
    {
        let page = match page_slice(bytes, total, k) {
            Some(s) => s,
            None => {
                assert(!vswap_ok(b, palette@));
                return None;
            },
        };
        sound_pages.push(vstd::slice::slice_to_vec(page));
        k = k + 1;
    }
    let info = PageInfo { total_page_count: total, wall_pages, sprite_pages, sound_pages };
    assert(vswap_ok(b, palette@));
    Some(info)
}

// ---------------------------------------------------------------------------
// The graphics cache
// ---------------------------------------------------------------------------

/// Chunk `k` of VGAGRAPH, decoded: the bytes from offset `k` up to offset
/// `k + 1`.  `None` when those offsets do not delimit a part of the file or
/// the chunk does not decode.
pub open spec fn graph_chunk(offs: Seq<u32>, tree: Seq<HuffmanNode>, graph: Seq<u8>, k: int) -> Option<Seq<u8>> {
    let s = offs[k] as int;
    let e = offs[k + 1] as int;
    if s <= e && e <= graph.len() {
        chunk_decoded(graph.subrange(s, e), tree)
    } else {
        None
    }
}

/// The archives decode into a graphics cache: the tree, palette and page
/// file read, VGAHEAD delimits at least the picture chunks, every chunk it
/// delimits decodes, and the picture table holds an entry for every
/// picture.
pub open spec fn archives_ok(head: Seq<u8>, dict: Seq<u8>, graph: Seq<u8>, vswap: Seq<u8>, pal: Seq<u8>) -> bool {
    let offs = vga_offsets(head);
    let tree = huffman_nodes(dict);
    &&& dict.len() % 4 < 2
    &&& game_palette(pal) is Some
    &&& vswap_ok(vswap, game_palette(pal)->0)
    &&& offs.len() >= PICS_IDX + NUMPICS + 1
    &&& forall|k: int| 0 <= k < offs.len() - 1 ==> #[trigger] graph_chunk(offs, tree, graph, k) is Some
    &&& graph_chunk(offs, tree, graph, PICTABLE_IDX as int)->0.len() >= 4 * NUMPICS
}

/// `gc` is the cache decoded from the archives: their palette, the wall
/// textures of the page file, no sprite metadata, and one chunk per picture
/// with its data and the width and height from the picture table, kept at
/// its own chunk number.
pub open spec fn cache_of(
    gc: GraphicsCache,
    head: Seq<u8>,
    dict: Seq<u8>,
    graph: Seq<u8>,
    vswap: Seq<u8>,
    pal: Seq<u8>,
) -> bool {
    let offs = vga_offsets(head);
    let tree = huffman_nodes(dict);
    let palette = game_palette(pal)->0;
    let pictable = graph_chunk(offs, tree, graph, PICTABLE_IDX as int)->0;
    &&& gc.palette@ == palette
    &&& gc.sprites@.len() == 0
    &&& gc.wall_textures@.len() == vswap_sprite_start(vswap)
    &&& forall|k: int|
        0 <= k < vswap_sprite_start(vswap) ==> (#[trigger] gc.wall_textures@[k])@ == deplanarized(
            page_bytes(vswap, k),
            palette,
        )
    &&& gc.chunks@.len() == PICS_IDX + NUMPICS
    &&& forall|k: int| 0 <= k < PICS_IDX ==> #[trigger] gc.chunks@[k] is None
    &&& forall|k: int|
        PICS_IDX <= k < PICS_IDX + NUMPICS ==> (#[trigger] gc.chunks@[k] matches Some(c) && c.index == k && c.data@
            == graph_chunk(offs, tree, graph, k)->0 && c.width as int == le16(pictable, 4 * (k - PICS_IDX))
            && c.height as int == le16(pictable, 4 * (k - PICS_IDX) + 2))
}

/// The RGBA8888 image of palette-indexed pixels.
pub open spec fn rgba_of(data: Seq<u8>, palette: Seq<(u8, u8, u8)>) -> Seq<u8> {
    Seq::new(
        4 * data.len(),
        |i: int|
            if i % 4 == 3 {
                0xFFu8
            } else {
                component(palette[data[i / 4] as int], i % 4)
            },
    )
}

impl GraphicsCache {
    /// Builds the cache from the contents of VGAHEAD, VGADICT, VGAGRAPH,
    /// VSWAP and GAMEPAL.  `None` unless `archives_ok`.
    pub fn from_archives(
        vgahead: &[u8],
        vgadict: &[u8],
        vgagraph: &[u8],
        vswap: &[u8],
        gamepal: &[u8],
    ) -> (r: Option<GraphicsCache>)
        ensures
            r is Some <==> archives_ok(vgahead@, vgadict@, vgagraph@, vswap@, gamepal@),
            r matches Some(gc) ==> cache_of(gc, vgahead@, vgadict@, vgagraph@, vswap@, gamepal@),
    {
        let ghost offs = vga_offsets(vgahead@);
        let data_offsets = read_vga_file_offsets(vgahead);
        let huffman_tree = match read_vga_huffman_tree(vgadict) {
            Some(t) => t,
            None => return None,
        };
        let ghost tree = huffman_tree@;
        let palette = match load_game_palette(gamepal) {
            Some(p) => p,
            None => return None,
        };
        let page_info = match read_page_file(vswap, palette.as_slice()) {
            Some(p) => p,
            None => return None,
        };
        let n = data_offsets.len();
        if n < PICS_IDX + NUMPICS + 1 {
            return None;
        }
        let len = vgagraph.len();
        let mut decompressed: Vec<Vec<u8>> = Vec::new();
        let mut k: usize = 0;
        while k < n - 1
            invariant
                n == data_offsets@.len(),
                n >= PICS_IDX + NUMPICS + 1,
                data_offsets@ == offs,
                offs == vga_offsets(vgahead@),
                huffman_tree@ == tree,
                tree == huffman_nodes(vgadict@),
                len == vgagraph@.len(),
                k <= n - 1,
                decompressed@.len() == k,
                forall|j: int| 0 <= j < k ==> #[trigger] graph_chunk(offs, tree, vgagraph@, j) is Some,
                forall|j: int|
                    0 <= j < k ==> Some((#[trigger] decompressed@[j])@) == graph_chunk(offs, tree, vgagraph@, j),
            decreases n - 1 - k,
        {
            let start = data_offsets[k] as usize;
            let end = data_offsets[k + 1] as usize;
            if start > end || end > len {
                assert(graph_chunk(offs, tree, vgagraph@, k as int) is None);
                return None;
            }
            let chunk = vstd::slice::slice_subrange(vgagraph, start, end);
            let d = match decompress_graphics_chunk(chunk, huffman_tree.as_slice()) {
                Some(d) => d,
                None => {
                    assert(graph_chunk(offs, tree, vgagraph@, k as int) is None);
                    return None;
                },
            };
            decompressed.push(d);
            assert(graph_chunk(offs, tree, vgagraph@, k as int) is Some);
            k = k + 1;
        }
        let pictable = &decompressed[PICTABLE_IDX];
        if pictable.len() < 4 * NUMPICS {
            return None;
        }
        let mut chunks: Vec<Option<GfxChunk>> = Vec::new();
        chunks.push(None);
        chunks.push(None);
        chunks.push(None);
        let mut i: usize = PICS_IDX;
        while i < PICS_IDX + NUMPICS
            invariant
                PICS_IDX <= i <= PICS_IDX + NUMPICS,
                decompressed@.len() == n - 1,
                n >= PICS_IDX + NUMPICS + 1,
                pictable@.len() >= 4 * NUMPICS,
                Some(pictable@) == graph_chunk(offs, tree, vgagraph@, PICTABLE_IDX as int),
                forall|j: int|
                    0 <= j < n - 1 ==> Some((#[trigger] decompressed@[j])@) == graph_chunk(offs, tree, vgagraph@, j),
                chunks@.len() == i,
                forall|j: int| 0 <= j < PICS_IDX ==> #[trigger] chunks@[j] is None,
                forall|j: int|
                    PICS_IDX <= j < i ==> (#[trigger] chunks@[j] matches Some(c) && c.index == j
                        && c.data@ == graph_chunk(offs, tree, vgagraph@, j)->0 && c.width as int
                        == le16(pictable@, 4 * (j - PICS_IDX)) && c.height as int == le16(pictable@, 4 * (j - PICS_IDX) + 2)),
            decreases PICS_IDX + NUMPICS - i,
        {
            let pic = &decompressed[i];
            let entry = (i - PICS_IDX) * 4;
            let width = read_le_u16(pictable.as_slice(), entry);
            let height = read_le_u16(pictable.as_slice(), entry + 2);
            let data = pic.clone();
            assert(data@ =~= pic@);
            chunks.push(Some(GfxChunk { index: i, data, width, height }));
            i = i + 1;
        }
        let gc = GraphicsCache { chunks, palette, sprites: Vec::new(), wall_textures: page_info.wall_pages };
        assert(archives_ok(vgahead@, vgadict@, vgagraph@, vswap@, gamepal@));
        Some(gc)
    }

    /// The decoded chunk numbered `index`, if loaded (slot `index`).
    pub fn chunk(&self, index: usize) -> (r: Option<&GfxChunk>)
        ensures
            r is Some <==> index < self.chunks@.len() && self.chunks@[index as int] is Some,
            r matches Some(c) ==> self.chunks@[index as int] == Some(*c),
    {
        if index < self.chunks.len() {
            match &self.chunks[index] {
                Some(c) => Some(c),
                None => None,
            }
        } else {
            None
        }
    }

    /// The picture at `index` as RGBA8888 pixels, with its width and
    /// height.  Every pixel of the chunk must name a palette entry.
    pub fn pic_rgba(&self, index: usize) -> (r: Option<(Vec<u8>, u16, u16)>)
        requires
            index < self.chunks@.len() ==> (self.chunks@[index as int] matches Some(c) ==> forall|i: int|
                0 <= i < c.data@.len() ==> (#[trigger] c.data@[i] as int) < self.palette@.len()),
        ensures
            r is Some <==> index < self.chunks@.len() && self.chunks@[index as int] is Some,
            r matches Some(t) ==> (self.chunks@[index as int] matches Some(c) && t.0@ == rgba_of(c.data@, self.palette@)
                && t.1 == c.width && t.2 == c.height),
    {
        match self.chunk(index) {
            Some(v) => {
                assert(self.chunks@[index as int] == Some(*v));
                assert forall|j: int| 0 <= j < v.data@.len() implies (#[trigger] v.data@[j] as int) < self.palette@.len() by {
                    let c = self.chunks@[index as int]->0;
                    assert(c == *v);
                    assert((c.data@[j] as int) < self.palette@.len());
                }
                let mut pixels: Vec<u8> = Vec::new();
                let mut i: usize = 0;
                while i < v.data.len()
                    invariant
                        i <= v.data@.len(),
                        forall|j: int| 0 <= j < v.data@.len() ==> (#[trigger] v.data@[j] as int) < self.palette@.len(),
                        pixels@ =~= rgba_of(v.data@, self.palette@).subrange(0, 4 * i as int),
                    decreases v.data@.len() - i,
                {
                    let (r, g, b) = self.palette[v.data[i] as usize];
                    pixels.push(r);
                    pixels.push(g);
                    pixels.push(b);
                    pixels.push(0xFF);
                    proof {
                        let q = rgba_of(v.data@, self.palette@);
                        assert((4 * i as int) / 4 == i && (4 * i as int) % 4 == 0);
                        assert((4 * i as int + 1) / 4 == i && (4 * i as int + 1) % 4 == 1);
                        assert((4 * i as int + 2) / 4 == i && (4 * i as int + 2) % 4 == 2);
                        assert((4 * i as int + 3) / 4 == i && (4 * i as int + 3) % 4 == 3);
                        assert(q[4 * i as int] == r);
                        assert(q[4 * i as int + 1] == g);
                        assert(q[4 * i as int + 2] == b);
                        assert(q[4 * i as int + 3] == 0xFF);
                    }
                    i = i + 1;
                    assert(pixels@ =~= rgba_of(v.data@, self.palette@).subrange(0, 4 * i as int));
                }
                assert(pixels@ =~= rgba_of(v.data@, self.palette@));
                Some((pixels, v.width, v.height))
            },
            None => None,
        }
    }
}

} // verus!
