//! Map dump: reads every level header of GAMEMAPS, decompresses both planes
//! of every level, and draws the wall plane of the first level as ASCII art.
use vstd::prelude::*;
use crate::assets::bytes::{le16, le32, lossy_utf8_string, read_le_i32, read_le_u16, read_le_u32, utf8_lossy};
use crate::assets::maps::{
    after_size_word, carmack_decompress, carmack_words, drop_size_word, header_spec, nul_trimmed, opt_words,
    parse_map_header, rlew_decompress, rlew_words, trimmed_len,
};

verus! {

/// Level slots read from the header.
pub const NUMMAPS: usize = 60;

/// Planes that are decompressed.
pub const MAPPLANES: usize = 2;

/// MAPHEAD: the RLEW tag, the level offsets and the tile information that
/// follows them.
pub struct MapFile {
    pub rlewtag: u16,
    pub headeroffsets: [u32; 100],
    pub tileinfo: Vec<u8>,
}

/// The header of one level.
#[derive(Debug)]
pub struct LevelHeader {
    pub planestart: [i32; 3],
    pub planelength: [u16; 3],
    pub width: u16,
    pub height: u16,
    pub name: String,
}

/// Reads MAPHEAD: the tag, 100 offsets and the remaining bytes.  `None`
/// when fewer than 402 bytes are given.
pub fn read_map_header(bytes: &[u8]) -> (r: Option<MapFile>)
    ensures
        r is Some <==> bytes@.len() >= 402,
        r matches Some(m) ==> (m.rlewtag, m.headeroffsets@) == header_spec(bytes@) && m.tileinfo@ == bytes@.subrange(
            402,
            bytes@.len() as int,
        ),
{
    match parse_map_header(bytes) {
        Some(h) => {
            let tileinfo = vstd::slice::slice_to_vec(vstd::slice::slice_subrange(bytes, 402, bytes.len()));
            Some(MapFile { rlewtag: h.rlewtag, headeroffsets: h.headeroffsets, tileinfo })
        },
        None => None,
    }
}

/// `m` is the level header stored at `pos`: three plane starts, three plane
/// lengths, width, height, and the name without its trailing NULs.
pub open spec fn map_header_at(m: LevelHeader, b: Seq<u8>, pos: int) -> bool {
    &&& forall|p: int| 0 <= p < 3 ==> #[trigger] m.planestart@[p] == le32(b, pos + 4 * p) as i32
    &&& forall|p: int| 0 <= p < 3 ==> #[trigger] m.planelength@[p] as int == le16(b, pos + 12 + 2 * p)
    &&& m.width as int == le16(b, pos + 18)
    &&& m.height as int == le16(b, pos + 20)
    &&& m.name@ == utf8_lossy(nul_trimmed(b.subrange(pos + 22, pos + 38)))
}

/// The decompressed words of a plane stored at `start` with `len` bytes:
/// the Carmack output, less its leading size word, RLEW-expanded.  `None` when the bytes lie outside the file, are fewer than the two-byte
/// size, or are malformed.
pub open spec fn plane_decoded(b: Seq<u8>, tag: u16, start: i32, len: u16) -> Option<Seq<u16>> {
    if start < 0 || start + len > b.len() || len < 2 {
        None
    } else {
        let c = b.subrange(start as int, start + len);
        match carmack_words(c.subrange(2, len as int), 0, le16(c, 0) / 2, Seq::empty()) {
            None => None,
            Some(w) => rlew_words(after_size_word(w), 0, Seq::empty(), tag),
        }
    }
}

/// The ASCII character drawn for a wall tile: floor, wall, door, elevator.
pub open spec fn ascii_tile(t: u16) -> char {
    if t == 0 {
        '.'
    } else if 1 <= t <= 63 {
        '#'
    } else if 90 <= t <= 101 {
        'D'
    } else if 106 <= t <= 107 {
        'W'
    } else {
        ' '
    }
}

/// A `w` x `h` plane drawn as rows of ASCII characters.
pub open spec fn ascii_rows(words: Seq<u16>, w: int, h: int) -> Seq<Seq<char>> {
    Seq::new(h as nat, |r: int| Seq::new(w as nat, |c: int| ascii_tile(words[r * w + c])))
}

/// The ASCII character for a wall tile (see `ascii_tile`).
fn tile_char(t: u16) -> (c: char)
    ensures
        c == ascii_tile(t),
{
    if t == 0 {
        '.'
    } else if t >= 1 && t <= 63 {
        '#'
    } else if t >= 90 && t <= 101 {
        'D'
    } else if t >= 106 && t <= 107 {
        'W'
    } else {
        ' '
    }
}

/// Draws a plane as ASCII rows (see `ascii_rows`).  `None` when the plane
/// holds fewer than `width * height` words.
pub fn render_plane(words: &[u16], width: usize, height: usize) -> (r: Option<Vec<Vec<char>>>)
    ensures
        r is Some <==> (height == 0 || width == 0 || width * height <= words@.len()),
        r matches Some(rows) ==> rows@.len() == height && forall|i: int|
            0 <= i < height ==> (#[trigger] rows@[i])@ == ascii_rows(words@, width as int, height as int)[i],
{
    let wl = words.len();
    if height > 0 && width > 0 {
        match width.checked_mul(height) {
            Some(n) => {
                if n > words.len() {
                    return None;
                }
            },
            None => {
                assert(width * height > words@.len());
                return None;
            },
        }
    }
    let mut rows: Vec<Vec<char>> = Vec::new();
    let mut row: usize = 0;
    while row < height
        invariant
            row <= height,
            wl == words@.len(),
            height == 0 || width == 0 || width * height <= words@.len(),
            rows@.len() == row,
            forall|i: int| 0 <= i < row ==> (#[trigger] rows@[i])@ == ascii_rows(words@, width as int, height as int)[i],
        decreases height - row,
    {
        let mut line: Vec<char> = Vec::new();
        let mut col: usize = 0;
        while col < width
            invariant
                row < height,
                col <= width,
                wl == words@.len(),
                height == 0 || width == 0 || width * height <= words@.len(),
                line@ == Seq::new(col as nat, |c: int| ascii_tile(words@[row * width + c])),
            decreases width - col,
        {
            assert(row * width + col < width * height) by (nonlinear_arith)
                requires
                    row < height,
                    col < width,
            ;
            line.push(tile_char(words[row * width + col]));
            col = col + 1;
            assert(line@ =~= Seq::new(col as nat, |c: int| ascii_tile(words@[row * width + c])));
        }
        assert(line@ =~= ascii_rows(words@, width as int, height as int)[row as int]);
        rows.push(line);
        row = row + 1;
    }
    Some(rows)
}

/// Reads the level header at `pos` (see `map_header_at`).
fn read_map(b: &[u8], pos: usize) -> (m: LevelHeader)
    requires
        pos + 38 <= b@.len(),
    ensures
        map_header_at(m, b@, pos as int),
{
    let blen = b.len();
    let mut planestart = [0i32; 3];
    let mut planelength = [0u16; 3];
    let mut j: usize = 0;
    while j < 3
        invariant
            j <= 3,
            blen == b@.len(),
            pos + 38 <= b@.len(),
            forall|p: int| 0 <= p < j ==> #[trigger] planestart@[p] == le32(b@, pos + 4 * p) as i32,
            forall|p: int| 0 <= p < j ==> #[trigger] planelength@[p] as int == le16(b@, pos + 12 + 2 * p),
        decreases 3 - j,
    {
        planestart[j] = read_le_i32(b, pos + 4 * j);
        planelength[j] = read_le_u16(b, pos + 12 + 2 * j);
        j = j + 1;
    }
    let width = read_le_u16(b, pos + 18);
    let height = read_le_u16(b, pos + 20);
    let name_bytes = vstd::slice::slice_subrange(b, pos + 22, pos + 38);
    let n = trimmed_len(name_bytes);
    let name = lossy_utf8_string(vstd::slice::slice_subrange(name_bytes, 0, n));
    LevelHeader { planestart, planelength, width, height, name }
}

/// Decompresses one plane (see `plane_decoded`).
fn decode_plane(b: &[u8], tag: u16, start: i32, len: u16) -> (r: Option<Vec<u16>>)
    ensures
        opt_words(r) == plane_decoded(b@, tag, start, len),
{
    let blen = b.len();
    if start < 0 {
        return None;
    }
    let s = start as usize;
    let l = len as usize;
    if s > blen || blen - s < l || l < 2 {
        return None;
    }
    let compressed = vstd::slice::slice_subrange(b, s, s + l);
    let decompressed_len = read_le_u16(compressed, 0);
    let words = match carmack_decompress(vstd::slice::slice_subrange(compressed, 2, l), decompressed_len) {
        Some(w) => w,
        None => return None,
    };
    rlew_decompress(drop_size_word(words), tag)
}

/// The level headers can all be read: every one of the 60 offsets leaves
/// room for a 38-byte header.
pub open spec fn headers_ok(b: Seq<u8>, offs: Seq<u32>) -> bool {
    forall|i: int| 0 <= i < NUMMAPS ==> #[trigger] offs[i] + 38 <= b.len()
}

/// Both planes of every level decompress.
pub open spec fn planes_ok(b: Seq<u8>, tag: u16, offs: Seq<u32>) -> bool {
    forall|i: int, p: int|
        0 <= i < NUMMAPS && 0 <= p < MAPPLANES ==> #[trigger] plane_decoded(
            b,
            tag,
            le32(b, offs[i] + 4 * p) as i32,
            le16(b, offs[i] + 12 + 2 * p) as u16,
        ) is Some
}

/// Level `i`'s wall plane can be drawn when it has the first level's name:
/// it holds at least `width * height` words.
pub open spec fn drawable(b: Seq<u8>, tag: u16, offs: Seq<u32>, i: int) -> bool {
    let pos = offs[i] as int;
    let words = plane_decoded(b, tag, le32(b, pos) as i32, le16(b, pos + 12) as u16)->0;
    let w = le16(b, pos + 18);
    let h = le16(b, pos + 20);
    utf8_lossy(nul_trimmed(b.subrange(pos + 22, pos + 38))) == utf8_lossy(nul_trimmed(b.subrange(offs[0] + 22, offs[0] + 38)))
        ==> (h == 0 || w == 0 || w * h <= words.len())
}

/// Level slot `i` has the first level's name.
pub open spec fn same_name(b: Seq<u8>, offs: Seq<u32>, i: int) -> bool {
    let pos = offs[i] as int;
    utf8_lossy(nul_trimmed(b.subrange(pos + 22, pos + 38))) == utf8_lossy(nul_trimmed(b.subrange(offs[0] + 22, offs[0] + 38)))
}

/// The ASCII drawing of level slot `i`'s wall plane (see `ascii_rows`).
pub open spec fn slot_drawing(b: Seq<u8>, tag: u16, offs: Seq<u32>, i: int) -> Seq<Seq<char>> {
    let pos = offs[i] as int;
    ascii_rows(
        plane_decoded(b, tag, le32(b, pos) as i32, le16(b, pos + 12) as u16)->0,
        le16(b, pos + 18),
        le16(b, pos + 20),
    )
}

/// The drawings of the wall planes of the levels among the first `n` slots
/// that have the first level's name, in slot order.
pub open spec fn drawings_upto(b: Seq<u8>, tag: u16, offs: Seq<u32>, n: int) -> Seq<Seq<Seq<char>>>
    decreases n,
{
    if n <= 0 {
        Seq::empty()
    } else {
        let prev = drawings_upto(b, tag, offs, n - 1);
        if same_name(b, offs, n - 1) {
            prev.push(slot_drawing(b, tag, offs, n - 1))
        } else {
            prev
        }
    }
}

/// The rows of a drawing as character sequences.
pub open spec fn rows_view(d: Vec<Vec<char>>) -> Seq<Seq<char>> {
    d@.map_values(|r: Vec<char>| r@)
}

/// `d` holds the drawings `want`, one by one.
pub open spec fn drawings_match(d: Seq<Vec<Vec<char>>>, want: Seq<Seq<Seq<char>>>) -> bool {
    &&& d.len() == want.len()
    &&& forall|j: int| 0 <= j < d.len() ==> rows_view(#[trigger] d[j]) == want[j]
}

/// Reads the 60 level headers of GAMEMAPS and decompresses both planes of
/// each level; the wall plane of every level named like the first one is
/// drawn as ASCII rows.  `None` when a header or plane cannot be read or a
/// drawn plane is too short for its level.
pub fn parse_and_decompress_game_maps(b: &[u8], header_info: &MapFile) -> (r: Option<(Vec<LevelHeader>, Vec<Vec<Vec<char>>>)>)
    ensures
        r is Some <==> {
            let offs = header_info.headeroffsets@;
            let tag = header_info.rlewtag;
            &&& headers_ok(b@, offs)
            &&& planes_ok(b@, tag, offs)
            &&& forall|i: int| 0 <= i < NUMMAPS ==> #[trigger] drawable(b@, tag, offs, i)
        },
        r matches Some((maps, drawings)) ==> {
            let offs = header_info.headeroffsets@;
            &&& maps@.len() == NUMMAPS
            &&& forall|i: int| 0 <= i < NUMMAPS ==> map_header_at(#[trigger] maps@[i], b@, offs[i] as int)
            &&& drawings_match(drawings@, drawings_upto(b@, header_info.rlewtag, offs, NUMMAPS as int))
        },
{
    let ghost offs = header_info.headeroffsets@;
    let tag = header_info.rlewtag;
    let blen = b.len();
    let mut maps: Vec<LevelHeader> = Vec::new();
    let mut i: usize = 0;
    while i < NUMMAPS
        invariant
            i <= NUMMAPS,
            blen == b@.len(),
            offs == header_info.headeroffsets@,
            offs.len() == 100,
            maps@.len() == i,
            forall|k: int| 0 <= k < i ==> #[trigger] offs[k] + 38 <= b@.len(),
            forall|k: int| 0 <= k < i ==> map_header_at(#[trigger] maps@[k], b@, offs[k] as int),
        decreases NUMMAPS - i,
    {
        let pos = header_info.headeroffsets[i] as usize;
        if pos > blen || blen - pos < 38 {
            assert(!headers_ok(b@, offs));
            return None;
        }
        maps.push(read_map(b, pos));
        i = i + 1;
    }
    assert(headers_ok(b@, offs));
    let mut drawings: Vec<Vec<Vec<char>>> = Vec::new();
    let mut i: usize = 0;
    while i < NUMMAPS
        invariant
            i <= NUMMAPS,
            blen == b@.len(),
            offs == header_info.headeroffsets@,
            offs.len() == 100,
            tag == header_info.rlewtag,
            maps@.len() == NUMMAPS,
            headers_ok(b@, offs),
            forall|k: int| 0 <= k < NUMMAPS ==> map_header_at(#[trigger] maps@[k], b@, offs[k] as int),
            forall|k: int, p: int|
                0 <= k < i && 0 <= p < MAPPLANES ==> #[trigger] plane_decoded(
                    b@,
                    tag,
                    le32(b@, offs[k] + 4 * p) as i32,
                    le16(b@, offs[k] + 12 + 2 * p) as u16,
                ) is Some,
            forall|k: int| 0 <= k < i ==> #[trigger] drawable(b@, tag, offs, k),
            drawings_match(drawings@, drawings_upto(b@, tag, offs, i as int)),
        decreases NUMMAPS - i,
    {
        let ghost pos = offs[i as int] as int;
        assert(map_header_at(maps@[i as int], b@, pos));
        assert(map_header_at(maps@[0], b@, offs[0] as int));
        let mut plane: usize = 0;
        while plane < MAPPLANES
            invariant
                plane <= MAPPLANES,
                i < NUMMAPS,
                blen == b@.len(),
                offs == header_info.headeroffsets@,
                offs.len() == 100,
                tag == header_info.rlewtag,
                maps@.len() == NUMMAPS,
                headers_ok(b@, offs),
                pos == offs[i as int] as int,
                forall|k: int| 0 <= k < NUMMAPS ==> map_header_at(#[trigger] maps@[k], b@, offs[k] as int),
                forall|k: int, p: int|
                    (0 <= k < i && 0 <= p < MAPPLANES) || (k == i && 0 <= p < plane) ==> #[trigger] plane_decoded(
                        b@,
                        tag,
                        le32(b@, offs[k] + 4 * p) as i32,
                        le16(b@, offs[k] + 12 + 2 * p) as u16,
                    ) is Some,
                plane > 0 ==> drawable(b@, tag, offs, i as int),
                plane == 0 ==> drawings_match(drawings@, drawings_upto(b@, tag, offs, i as int)),
                plane > 0 ==> drawings_match(drawings@, drawings_upto(b@, tag, offs, i + 1)),
            decreases MAPPLANES - plane,
        {
            let map = &maps[i];
            let start = map.planestart[plane];
            let len = map.planelength[plane];
            assert(start == le32(b@, offs[i as int] + 4 * plane) as i32);
            assert(len == le16(b@, offs[i as int] + 12 + 2 * plane) as u16);
            let decompressed = match decode_plane(b, tag, start, len) {
                Some(w) => w,
                None => {
                    assert(plane_decoded(b@, tag, le32(b@, offs[i as int] + 4 * plane) as i32, le16(b@, offs[i as int] + 12 + 2 * plane) as u16) is None);
                    assert(!planes_ok(b@, tag, offs));
                    return None;
                },
            };
            if plane == 0 {
                let same = map.name == maps[0].name;
                assert(same == same_name(b@, offs, i as int));
                if same {
                    match render_plane(decompressed.as_slice(), map.width as usize, map.height as usize) {
                        Some(rows) => {
                            let ghost want = slot_drawing(b@, tag, offs, i as int);
                            assert(rows_view(rows) =~= want);
                            let ghost before = drawings@;
                            drawings.push(rows);
                            assert(drawings_match(drawings@, drawings_upto(b@, tag, offs, i + 1))) by {
                                assert(drawings@ == before.push(rows));
                                assert forall|j: int| 0 <= j < drawings@.len() implies rows_view(#[trigger] drawings@[j])
                                    == drawings_upto(b@, tag, offs, i + 1)[j] by {
                                    if j < before.len() {
                                        assert(drawings@[j] == before[j]);
                                    }
                                }
                            }
                        },
                        None => {
                            assert(!drawable(b@, tag, offs, i as int));
                            return None;
                        },
                    }
                }
                assert(drawable(b@, tag, offs, i as int));
                assert(drawings_match(drawings@, drawings_upto(b@, tag, offs, i + 1)));
            }
            plane = plane + 1;
        }
        i = i + 1;
    }
    Some((maps, drawings))
}

} // verus!
