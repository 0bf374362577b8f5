//! Map decoding: the GAMEMAPS archive indexed by MAPHEAD.
//!
//! Each level is stored as three 64x64 word planes:
//!   Plane 0 - wall tile numbers (door tiles re-encoded at load time)
//!   Plane 1 - sprite/actor spawn codes
//!   Plane 2 - area/property codes
//!
//! Planes are Carmack-compressed, and the expanded words are RLEW-compressed.
//! After loading, door tiles (raw values 90-101) in plane 0 are replaced with
//! (door_index | 0x80); every other tile keeps its raw code.  The jamb sides
//! of a door (the tiles on either side of its face) follow from
//! `Level::door_spawns` and get no flag in the plane: a 0x40 flag would make
//! a wall on a jamb side indistinguishable from a floor code that already
//! has that bit (such as 107).  The door tiles as loaded are kept in
//! `Level::door_spawns`.
use vstd::prelude::*;
use crate::assets::bytes::{
    le16, le32, lossy_utf8_string, read_le_i32, read_le_u16, read_le_u32, utf8_lossy,
};

verus! {

/// Tiles along each side of a level.
pub const MAP_SIZE: usize = 64;

/// Words in one plane (`MAP_SIZE * MAP_SIZE`).
pub const PLANE_WORDS: usize = 4096;

/// Planes stored per level.
pub const NUM_PLANES: usize = 3;

/// Level slots read from the header.
pub const NUMMAPS: usize = 60;

/// Planes that are decoded (plane 2 is left empty).
pub const MAPPLANES: usize = 2;

/// Offsets stored in MAPHEAD after the RLEW tag.
pub const HEADER_OFFSETS: usize = 100;

/// Carmack near-pointer tag (high byte of a command word).
pub const NEAR_TAG: u8 = 0xA7;

/// Carmack far-pointer tag (high byte of a command word).
pub const FAR_TAG: u8 = 0xA8;

/// MAPHEAD contents: the RLEW tag and the offset of each level header.
pub struct MapHeader {
    pub rlewtag: u16,
    pub headeroffsets: [u32; 100],
}

/// Door spawn data extracted from plane 0 before tile re-encoding.
#[derive(Debug, Clone, Copy, PartialEq, Eq, Structural)]
pub struct DoorSpawn {
    pub tile_x: usize,
    pub tile_y: usize,
    /// True = door face runs N-S (hit by E/W ray crossing).
    pub is_vertical: bool,
    /// Lock type: 0=normal, 1=gold key, 2=silver key, 5=elevator.
    pub lock: u8,
}

/// Decoded level data.
#[derive(Debug)]
pub struct Level {
    pub name: String,
    /// Plane data indexed as [plane][y * MAP_SIZE + x].
    pub planes: [[u16; 4096]; 3],
    pub width: usize,
    pub height: usize,
    /// One entry per door on the level, in spawn order (index matches the
    /// door index stored in plane 0).
    pub door_spawns: Vec<DoorSpawn>,
}

/// Some door among the first `n` stands at tile (x, y).
pub open spec fn door_among(doors: Seq<DoorSpawn>, x: int, y: int, n: int) -> bool
    decreases n,
{
    if n <= 0 {
        false
    } else {
        door_among(doors, x, y, n - 1) || (doors[n - 1].tile_x == x && doors[n - 1].tile_y == y)
    }
}

/// Tile (x, y) of the level is solid architecture: its wall code lies in
/// 1..=63.
pub open spec fn solid_at(level: Level, x: int, y: int) -> bool {
    1 <= level.planes[0]@[y * level.width + x] <= 63
}

impl Level {
    /// The dimensions every decoded level has: 64 x 64 tiles.
    pub open spec fn wf(&self) -> bool {
        self.width == 64 && self.height == 64
    }

    /// Raw plane-0 tile at (x, y).  May include the 0x40/0x80 flags.
    pub fn wall_at(&self, x: usize, y: usize) -> (r: u16)
        requires
            y * self.width + x < PLANE_WORDS,
        ensures
            r == self.planes[0]@[y * self.width + x],
    {
        self.planes[0][y * self.width + x]
    }

    /// Plane-1 spawn code at (x, y).
    pub fn sprite_at(&self, x: usize, y: usize) -> (r: u16)
        requires
            y * self.width + x < PLANE_WORDS,
        ensures
            r == self.planes[1]@[y * self.width + x],
    {
        self.planes[1][y * self.width + x]
    }

    /// Plane-2 property code at (x, y).
    pub fn prop_at(&self, x: usize, y: usize) -> (r: u16)
        requires
            y * self.width + x < PLANE_WORDS,
        ensures
            r == self.planes[2]@[y * self.width + x],
    {
        self.planes[2][y * self.width + x]
    }

    /// True for wall tiles 1-63 (solid architecture); floor and area codes
    /// (64 and up) and doors (`door_index | 0x80`) are not solid.
    pub fn is_solid_wall(&self, x: usize, y: usize) -> (r: bool)
        requires
            y * self.width + x < PLANE_WORDS,
        ensures
            r == solid_at(*self, x as int, y as int),
    {
        let tile = self.planes[0][y * self.width + x];
        tile >= 1 && tile <= 63
    }

    /// True when a door of the level stands at (x, y).
    pub fn is_door(&self, x: usize, y: usize) -> (r: bool)
        requires
            y * self.width + x < PLANE_WORDS,
        ensures
            r == door_among(self.door_spawns@, x as int, y as int, self.door_spawns@.len() as int),
    {
        let n = self.door_spawns.len();
        let mut i: usize = 0;
        let mut found = false;
        while i < n
            invariant
                n == self.door_spawns@.len(),
                i <= n,
                found == door_among(self.door_spawns@, x as int, y as int, i as int),
            decreases n - i,
        {
            let d = self.door_spawns[i];
            found = found || (d.tile_x == x && d.tile_y == y);
            i = i + 1;
        }
        found
    }
}

/// All decoded levels, indexed by `episode * 10 + map`.
pub struct MapCache {
    pub levels: Vec<Option<Level>>,
}

impl MapCache {
    /// Builds the cache from the raw MAPHEAD and GAMEMAPS archives.  `None`
    /// when MAPHEAD is too short or a level's data is malformed (see
    /// `parse_map_header` and `load_levels`).
    pub fn from_archives(maphead: &[u8], gamemaps: &[u8]) -> (r: Option<MapCache>)
        ensures
            r is Some <==> (maphead@.len() >= 402 && levels_decodable(
                gamemaps@,
                header_spec(maphead@),
            )),
            r matches Some(c) ==> levels_match(gamemaps@, header_spec(maphead@), c.levels@),
    {
        match parse_map_header(maphead) {
            Some(header) => match load_levels(gamemaps, &header) {
                Some(levels) => Some(MapCache { levels }),
                None => None,
            },
            None => None,
        }
    }

    /// The level for `episode` and `map` (slot `episode * 10 + map`), if one
    /// was loaded there.
    pub fn level(&self, episode: usize, map: usize) -> (r: Option<&Level>)
        requires
            episode * 10 + map <= usize::MAX,
        ensures
            r is Some <==> (episode * 10 + map < self.levels@.len() && self.levels@[episode * 10
                + map] is Some),
            r matches Some(l) ==> *l == self.levels@[episode * 10 + map]->0,
    {
        let index = episode * 10 + map;
        if index < self.levels.len() {
            match &self.levels[index] {
                Some(l) => Some(l),
                None => None,
            }
        } else {
            None
        }
    }
}

/// MAPHEAD as a spec value: the tag and the 100 offsets.
pub open spec fn header_spec(maphead: Seq<u8>) -> (u16, Seq<u32>) {
    (
        le16(maphead, 0) as u16,
        Seq::new(100, |i: int| le32(maphead, 2 + 4 * i) as u32),
    )
}

/// Reads MAPHEAD: a `u16` RLEW tag followed by 100 `u32` offsets.  `None`
/// when fewer than 402 bytes are given.
pub fn parse_map_header(bytes: &[u8]) -> (r: Option<MapHeader>)
    ensures
        r is Some <==> bytes@.len() >= 402,
        r matches Some(h) ==> (h.rlewtag, h.headeroffsets@) == header_spec(bytes@),
{
    if bytes.len() < 402 {
        return None;
    }
    let rlewtag = read_le_u16(bytes, 0);
    let mut headeroffsets = [0u32; 100];
    let mut i: usize = 0;
    while i < 100
        invariant
            bytes@.len() >= 402,
            0 <= i <= 100,
            headeroffsets@.len() == 100,
            forall|k: int| 0 <= k < i ==> headeroffsets@[k] == le32(bytes@, 2 + 4 * k) as u32,
        decreases 100 - i,
    {
        headeroffsets[i] = read_le_u32(bytes, 2 + 4 * i);
        i = i + 1;
    }
    let header = MapHeader { rlewtag, headeroffsets };
    assert(header.headeroffsets@ =~= header_spec(bytes@).1);
    Some(header)
}

// ---------------------------------------------------------------------------
// Carmack expansion
// ---------------------------------------------------------------------------

/// The word whose high byte is `hi` and low byte is `lo`.
pub open spec fn word_of(hi: u8, lo: u8) -> u16 {
    (hi as int * 256 + lo as int) as u16
}

/// Appends `count` words copied one at a time from index `from` onward; a run
/// may read words that it has just appended.
pub open spec fn copy_run(out: Seq<u16>, from: int, count: int) -> Seq<u16>
    decreases count,
{
    if count <= 0 {
        out
    } else {
        copy_run(out.push(out[from]), from + 1, count - 1)
    }
}

/// Carmack expansion of `src` from byte `pos`, with `remaining` words still
/// owed and `out` produced so far.  `None` when the data runs out early, a
/// copy reaches outside what was produced, or a run is longer than the words
/// still owed.
pub open spec fn carmack_words(src: Seq<u8>, pos: int, remaining: int, out: Seq<u16>) -> Option<
    Seq<u16>,
>
    decreases remaining,
{
    if remaining <= 0 {
        Some(out)
    } else if pos < 0 || pos + 2 > src.len() {
        None
    } else {
        let lo = src[pos];
        let hi = src[pos + 1];
        if hi == NEAR_TAG || hi == FAR_TAG {
            if pos + 3 > src.len() {
                None
            } else if lo == 0 {
                carmack_words(src, pos + 3, remaining - 1, out.push(word_of(hi, src[pos + 2])))
            } else if hi == NEAR_TAG {
                let back = src[pos + 2] as int;
                if back == 0 || back > out.len() || lo > remaining {
                    None
                } else {
                    carmack_words(
                        src,
                        pos + 3,
                        remaining - lo,
                        copy_run(out, out.len() - back, lo as int),
                    )
                }
            } else if pos + 4 > src.len() {
                None
            } else {
                let at = src[pos + 2] as int + 256 * src[pos + 3] as int;
                if at >= out.len() || lo > remaining {
                    None
                } else {
                    carmack_words(src, pos + 4, remaining - lo, copy_run(out, at, lo as int))
                }
            }
        } else {
            carmack_words(src, pos + 2, remaining - 1, out.push(word_of(hi, lo)))
        }
    }
}

/// Carmack expansion that succeeds produces exactly the words owed: the
/// output so far plus `remaining` words.
pub proof fn law_carmack_exact_length(src: Seq<u8>, pos: int, remaining: int, out: Seq<u16>)
    requires
        remaining >= 0,
    ensures
        carmack_words(src, pos, remaining, out) matches Some(w) ==> w.len() == out.len() + remaining,
    decreases remaining,
{
    if remaining > 0 && !(pos < 0 || pos + 2 > src.len()) {
        let lo = src[pos];
        let hi = src[pos + 1];
        if hi == NEAR_TAG || hi == FAR_TAG {
            if pos + 3 <= src.len() {
                if lo == 0 {
                    law_carmack_exact_length(src, pos + 3, remaining - 1, out.push(word_of(hi, src[pos + 2])));
                } else if hi == NEAR_TAG {
                    let back = src[pos + 2] as int;
                    if !(back == 0 || back > out.len() || lo > remaining) {
                        lemma_copy_run_len(out, out.len() - back, lo as int);
                        law_carmack_exact_length(src, pos + 3, remaining - lo, copy_run(out, out.len() - back, lo as int));
                    }
                } else if pos + 4 <= src.len() {
                    let at = src[pos + 2] as int + 256 * src[pos + 3] as int;
                    if !(at >= out.len() || lo > remaining) {
                        lemma_copy_run_len(out, at, lo as int);
                        law_carmack_exact_length(src, pos + 4, remaining - lo, copy_run(out, at, lo as int));
                    }
                }
            }
        } else {
            law_carmack_exact_length(src, pos + 2, remaining - 1, out.push(word_of(hi, lo)));
        }
    }
}

/// The view of an optional word vector.
pub open spec fn opt_words(r: Option<Vec<u16>>) -> Option<Seq<u16>> {
    match r {
        Some(v) => Some(v@),
        None => None,
    }
}

proof fn lemma_copy_run_len(out: Seq<u16>, from: int, count: int)
    ensures
        copy_run(out, from, count).len() == out.len() + (if count > 0 { count } else { 0 }),
    decreases count,
{
    if count > 0 {
        lemma_copy_run_len(out.push(out[from]), from + 1, count - 1);
    }
}

/// Appends a copied run: `count` words read one at a time from `from` on.
fn push_copy_run(ret: &mut Vec<u16>, from: usize, count: u8)
    requires
        from < old(ret)@.len(),
    ensures
        final(ret)@ == copy_run(old(ret)@, from as int, count as int),
{
    let ghost start = old(ret)@;
    let mut copyptr = from;
    let mut left = count;
    while left > 0
        invariant
            copyptr < ret@.len(),
            copy_run(start, from as int, count as int) == copy_run(
                ret@,
                copyptr as int,
                left as int,
            ),
        decreases left,
    {
        let _n = ret.len();
        let ch = ret[copyptr];
        ret.push(ch);
        copyptr = copyptr + 1;
        left = left - 1;
    }
}

/// Carmack expansion of a compressed plane (after its 2-byte length
/// prefix); `length` is the expanded size in bytes.  `None` exactly where
/// `carmack_words` says the data is malformed.
pub fn carmack_decompress(compressed: &[u8], length: u16) -> (r: Option<Vec<u16>>)
    ensures
        opt_words(r) == carmack_words(compressed@, 0, length as int / 2, Seq::empty()),
{
    let mut remaining: u16 = length / 2;
    let mut inptr: usize = 0;
    let mut ret: Vec<u16> = Vec::new();
    let ghost total = carmack_words(compressed@, 0, length as int / 2, Seq::empty());

    while remaining > 0
        invariant
            inptr <= compressed@.len(),
            total == carmack_words(compressed@, 0, length as int / 2, Seq::empty()),
            total == carmack_words(compressed@, inptr as int, remaining as int, ret@),
        decreases remaining,
    {
        if compressed.len() - inptr < 2 {
            return None;
        }
        let ch_low = compressed[inptr];
        let ch_high = compressed[inptr + 1];
        inptr = inptr + 2;
        if ch_high == NEAR_TAG || ch_high == FAR_TAG {
            if compressed.len() - inptr < 1 {
                return None;
            }
            let next_byte = compressed[inptr];
            inptr = inptr + 1;
            if ch_low == 0 {
                let ch: u16 = (ch_high as u16) * 256 + next_byte as u16;
                ret.push(ch);
                remaining = remaining - 1;
            } else if ch_high == NEAR_TAG {
                let offset = next_byte as usize;
                if offset == 0 || offset > ret.len() || ch_low as u16 > remaining {
                    return None;
                }
                let copyptr = ret.len() - offset;
                remaining = remaining - ch_low as u16;
                push_copy_run(&mut ret, copyptr, ch_low);
            } else {
                if compressed.len() - inptr < 1 {
                    return None;
                }
                let next_high = compressed[inptr];
                inptr = inptr + 1;
                let offset = (next_high as usize) * 256 + next_byte as usize;
                if offset >= ret.len() || ch_low as u16 > remaining {
                    return None;
                }
                remaining = remaining - ch_low as u16;
                push_copy_run(&mut ret, offset, ch_low);
            }
        } else {
            ret.push((ch_high as u16) * 256 + ch_low as u16);
            remaining = remaining - 1;
        }
    }
    Some(ret)
}

// ---------------------------------------------------------------------------
// RLEW expansion
// ---------------------------------------------------------------------------

/// RLEW expansion of `src` from index `i`, with `out` produced so far.  A
/// word equal to `tag` is followed by a count and a value, expanded to
/// `count` copies of the value; `None` when such a run is cut short.
pub open spec fn rlew_words(src: Seq<u16>, i: int, out: Seq<u16>, tag: u16) -> Option<Seq<u16>>
    decreases src.len() - i,
{
    if i < 0 || i >= src.len() {
        Some(out)
    } else if src[i] == tag {
        if i + 2 >= src.len() {
            None
        } else {
            rlew_words(src, i + 3, out + Seq::new(src[i + 1] as nat, |_k: int| src[i + 2]), tag)
        }
    } else {
        rlew_words(src, i + 1, out.push(src[i]), tag)
    }
}

/// Appends `count` copies of `value`.
fn push_repeated(out: &mut Vec<u16>, value: u16, count: u16)
    ensures
        final(out)@ == old(out)@ + Seq::new(count as nat, |_k: int| value),
{
    let ghost start = old(out)@;
    let mut k: u16 = 0;
    while k < count
        invariant
            k <= count,
            out@ == start + Seq::new(k as nat, |_j: int| value),
        decreases count - k,
    {
        out.push(value);
        k = k + 1;
        assert(out@ =~= start + Seq::new(k as nat, |_j: int| value));
    }
}

/// RLEW expansion of a word stream.  `None` exactly where `rlew_words` says
/// a run is cut short.
pub fn rlew_decompress(compressed: Vec<u16>, rlew_tag: u16) -> (r: Option<Vec<u16>>)
    ensures
        opt_words(r) == rlew_words(compressed@, 0, Seq::empty(), rlew_tag),
{
    let mut out: Vec<u16> = Vec::new();
    let mut i: usize = 0;
    let ghost total = rlew_words(compressed@, 0, Seq::empty(), rlew_tag);
    while i < compressed.len()
        invariant
            i <= compressed@.len(),
            total == rlew_words(compressed@, 0, Seq::empty(), rlew_tag),
            total == rlew_words(compressed@, i as int, out@, rlew_tag),
        decreases compressed@.len() - i,
    {
        let word = compressed[i];
        if word == rlew_tag {
            if compressed.len() - i <= 2 {
                return None;
            }
            let count = compressed[i + 1];
            let value = compressed[i + 2];
            push_repeated(&mut out, value, count);
            i = i + 3;
        } else {
            out.push(word);
            i = i + 1;
        }
    }
    Some(out)
}


// ---------------------------------------------------------------------------
// Level decoding
// ---------------------------------------------------------------------------

/// Decoded words of one plane stored at `start` with `len` compressed bytes:
/// Carmack expansion, then RLEW expansion of everything after the leading
/// size word.  A plane with no data (non-positive start, fewer than 2 bytes, or bytes
/// past the end of the archive) decodes to no words; `None` when the
/// compressed data is malformed.
pub open spec fn plane_words(raw: Seq<u8>, tag: u16, start: i32, len: u16) -> Option<Seq<u16>> {
    if start <= 0 || len < 2 || start + len > raw.len() {
        Some(Seq::empty())
    } else {
        let c = raw.subrange(start as int, start + len);
        match carmack_words(c.subrange(2, len as int), 0, le16(c, 0) / 2, Seq::empty()) {
            Some(w) => rlew_words(after_size_word(w), 0, Seq::empty(), tag),
            None => None,
        }
    }
}

/// The Carmack output less its first word, which holds the RLEW-expanded
/// size in bytes; the rest is the RLEW stream.
pub open spec fn after_size_word(w: Seq<u16>) -> Seq<u16> {
    if w.len() == 0 {
        w
    } else {
        w.subrange(1, w.len() as int)
    }
}

/// Drops the leading size word of a Carmack output (see `after_size_word`).
pub(crate) fn drop_size_word(words: Vec<u16>) -> (r: Vec<u16>)
    ensures
        r@ == after_size_word(words@),
{
    if words.len() == 0 {
        words
    } else {
        vstd::slice::slice_to_vec(vstd::slice::slice_subrange(words.as_slice(), 1, words.len()))
    }
}

/// A full plane: the decoded words, zero past their end, cut at 4096.
pub open spec fn fill_plane(words: Seq<u16>) -> Seq<u16> {
    Seq::new(4096, |k: int| if k < words.len() { words[k] } else { 0u16 })
}

/// Raw plane-0 values 90-101 are doors.
pub open spec fn is_door_tile(t: u16) -> bool {
    90 <= t <= 101
}

/// The spawn record for a door tile `t` at plane index `n`: even tiles are
/// vertical doors, and the lock is `(t - 90) / 2`.
pub open spec fn door_spawn_at(n: int, t: u16) -> DoorSpawn {
    DoorSpawn {
        tile_x: (n % 64) as usize,
        tile_y: (n / 64) as usize,
        is_vertical: t % 2 == 0,
        lock: ((t - 90) / 2) as u8,
    }
}

/// Doors among the first `n` tiles of a plane, in row-major order.
pub open spec fn door_scan(plane: Seq<u16>, n: int) -> Seq<DoorSpawn>
    decreases n,
{
    if n <= 0 {
        Seq::empty()
    } else if is_door_tile(plane[n - 1]) {
        door_scan(plane, n - 1).push(door_spawn_at(n - 1, plane[n - 1]))
    } else {
        door_scan(plane, n - 1)
    }
}

/// Re-encodes door `idx`: its tile becomes `idx | 0x80`.
pub open spec fn apply_door(p: Seq<u16>, d: DoorSpawn, idx: int) -> Seq<u16> {
    p.update(d.tile_y * 64 + d.tile_x, (idx as u16) | 0x80u16)
}

/// Plane 0 after the first `k` doors have been re-encoded, in order.
pub open spec fn reencode(plane: Seq<u16>, doors: Seq<DoorSpawn>, k: int) -> Seq<u16>
    decreases k,
{
    if k <= 0 {
        plane
    } else {
        apply_door(reencode(plane, doors, k - 1), doors[k - 1], k - 1)
    }
}

/// Bytes with trailing NULs removed.
pub open spec fn nul_trimmed(b: Seq<u8>) -> Seq<u8>
    decreases b.len(),
{
    if b.len() > 0 && b.last() == 0 {
        nul_trimmed(b.drop_last())
    } else {
        b
    }
}

/// Start of plane `p` in the level header at `pos`.
pub open spec fn plane_start(raw: Seq<u8>, pos: int, p: int) -> i32 {
    le32(raw, pos + 4 * p) as i32
}

/// Compressed length of plane `p` in the level header at `pos`.
pub open spec fn plane_len(raw: Seq<u8>, pos: int, p: int) -> u16 {
    le16(raw, pos + 12 + 2 * p) as u16
}

/// A level is stored at `pos` when the offset is neither 0 nor all ones and
/// its three plane starts can be read.
pub open spec fn slot_present(raw: Seq<u8>, pos: u32) -> bool {
    pos != 0 && pos != 0xFFFF_FFFF && pos + 12 <= raw.len()
}

/// The slot at `pos` decodes without fault: absent, or with a complete
/// 38-byte header and well-formed planes 0 and 1.
pub open spec fn slot_decodable(raw: Seq<u8>, tag: u16, pos: u32) -> bool {
    slot_present(raw, pos) ==> {
        &&& pos + 38 <= raw.len()
        &&& plane_words(raw, tag, plane_start(raw, pos as int, 0), plane_len(raw, pos as int, 0)) is Some
        &&& plane_words(raw, tag, plane_start(raw, pos as int, 1), plane_len(raw, pos as int, 1)) is Some
    }
}

/// `l` is the level decoded from the header at `pos`.
pub open spec fn level_matches(raw: Seq<u8>, tag: u16, pos: u32, l: Level) -> bool {
    let w0 = plane_words(raw, tag, plane_start(raw, pos as int, 0), plane_len(raw, pos as int, 0))->0;
    let w1 = plane_words(raw, tag, plane_start(raw, pos as int, 1), plane_len(raw, pos as int, 1))->0;
    let p0 = fill_plane(w0);
    let doors = door_scan(p0, 4096);
    &&& l.width == 64
    &&& l.height == 64
    &&& l.name@ == utf8_lossy(nul_trimmed(raw.subrange(pos + 22, pos + 38)))
    &&& l.door_spawns@ == doors
    &&& l.planes[0]@ == reencode(p0, doors, doors.len() as int)
    &&& l.planes[1]@ == fill_plane(w1)
    &&& l.planes[2]@ == Seq::new(4096, |_k: int| 0u16)
}

/// Every one of the 60 level slots decodes without fault.
pub open spec fn levels_decodable(raw: Seq<u8>, header: (u16, Seq<u32>)) -> bool {
    forall|i: int| 0 <= i < 60 ==> slot_decodable(raw, header.0, #[trigger] header.1[i])
}

/// `levels` holds, for each of the 60 slots, the level stored there.
pub open spec fn levels_match(raw: Seq<u8>, header: (u16, Seq<u32>), levels: Seq<Option<Level>>) -> bool {
    &&& levels.len() == 60
    &&& forall|i: int|
        0 <= i < 60 ==> (#[trigger] levels[i] is Some <==> slot_present(raw, header.1[i]))
    &&& forall|i: int|
        0 <= i < 60 ==> (#[trigger] levels[i] matches Some(l) ==> level_matches(
            raw,
            header.0,
            header.1[i],
            l,
        ))
}

proof fn lemma_door_scan_bounds(plane: Seq<u16>, n: int)
    requires
        0 <= n <= 4096,
    ensures
        door_scan(plane, n).len() <= n,
        forall|k: int|
            0 <= k < door_scan(plane, n).len() ==> (#[trigger] door_scan(plane, n)[k]).tile_x < 64
                && door_scan(plane, n)[k].tile_y < 64,
    decreases n,
{
    if n > 0 {
        lemma_door_scan_bounds(plane, n - 1);
    }
}

/// The plane index of a door's tile.
pub open spec fn spawn_index(d: DoorSpawn) -> int {
    d.tile_y * 64 + d.tile_x
}

/// The last door among the first `m` whose tile is plane index `i`.
pub open spec fn door_slot(doors: Seq<DoorSpawn>, i: int, m: int) -> Option<int>
    decreases m,
{
    if m <= 0 {
        None
    } else if spawn_index(doors[m - 1]) == i {
        Some(m - 1)
    } else {
        door_slot(doors, i, m - 1)
    }
}

proof fn lemma_door_slot(doors: Seq<DoorSpawn>, i: int, m: int)
    ensures
        door_slot(doors, i, m) matches Some(k) ==> 0 <= k < m && spawn_index(doors[k]) == i,
    decreases m,
{
    if m > 0 {
        lemma_door_slot(doors, i, m - 1);
    }
}

/// With door tiles in increasing plane order, door `k`'s tile belongs to
/// door `k` alone.
proof fn lemma_door_slot_unique(doors: Seq<DoorSpawn>, k: int, m: int)
    requires
        0 <= k < m <= doors.len(),
        forall|a: int, b: int| 0 <= a < b < doors.len() ==> spawn_index(#[trigger] doors[a]) < spawn_index(#[trigger] doors[b]),
    ensures
        door_slot(doors, spawn_index(doors[k]), m) == Some(k),
    decreases m,
{
    if m - 1 > k {
        assert(spawn_index(doors[k]) < spawn_index(doors[m - 1]));
        lemma_door_slot_unique(doors, k, m - 1);
    }
}

/// A plane after re-encoding: a door's tile holds its index with the door
/// flag; every other tile is unchanged.
proof fn lemma_reencode_at(plane: Seq<u16>, doors: Seq<DoorSpawn>, m: int, i: int)
    requires
        0 <= m <= doors.len(),
        0 <= i < plane.len(),
        forall|k: int| 0 <= k < doors.len() ==> 0 <= spawn_index(#[trigger] doors[k]) < plane.len(),
    ensures
        reencode(plane, doors, m).len() == plane.len(),
        reencode(plane, doors, m)[i] == match door_slot(doors, i, m) {
            Some(k) => (k as u16) | 0x80u16,
            None => plane[i],
        },
    decreases m,
{
    if m > 0 {
        lemma_reencode_at(plane, doors, m - 1, i);
        let d = doors[m - 1];
        assert(0 <= spawn_index(d) < plane.len());
        lemma_reencode_at(plane, doors, m - 1, spawn_index(d));
    }
}

/// The doors found in the first `n` tiles of a plane lie on door tiles
/// below `n`, in increasing plane order.
proof fn lemma_door_scan_index(plane: Seq<u16>, n: int)
    requires
        0 <= n <= plane.len(),
        plane.len() <= 4096,
    ensures
        forall|k: int|
            0 <= k < door_scan(plane, n).len() ==> 0 <= spawn_index(#[trigger] door_scan(plane, n)[k]) < n
                && is_door_tile(plane[spawn_index(door_scan(plane, n)[k])])
                && door_scan(plane, n)[k] == door_spawn_at(
                    spawn_index(door_scan(plane, n)[k]),
                    plane[spawn_index(door_scan(plane, n)[k])],
                ),
        forall|a: int, b: int|
            0 <= a < b < door_scan(plane, n).len() ==> spawn_index(#[trigger] door_scan(plane, n)[a]) < spawn_index(
                #[trigger] door_scan(plane, n)[b],
            ),
    decreases n,
{
    if n > 0 {
        lemma_door_scan_index(plane, n - 1);
        let prev = door_scan(plane, n - 1);
        if is_door_tile(plane[n - 1]) {
            let d = door_spawn_at(n - 1, plane[n - 1]);
            let m = n - 1;
            assert(0 <= m % 64 < 64 && 0 <= m / 64 < 64 && (m / 64) * 64 + m % 64 == m);
            assert(d.tile_x as int == m % 64);
            assert(d.tile_y as int == m / 64);
            assert(spawn_index(d) == n - 1);
            let cur = door_scan(plane, n);
            assert(cur == prev.push(d));
            assert forall|k: int| 0 <= k < cur.len() implies 0 <= spawn_index(#[trigger] cur[k]) < n
                && is_door_tile(plane[spawn_index(cur[k])]) && cur[k] == door_spawn_at(
                spawn_index(cur[k]),
                plane[spawn_index(cur[k])],
            ) by {
                if k < prev.len() {
                    assert(cur[k] == prev[k]);
                }
            }
            assert forall|a: int, b: int| 0 <= a < b < cur.len() implies spawn_index(#[trigger] cur[a]) < spawn_index(
                #[trigger] cur[b],
            ) by {
                assert(cur[a] == prev[a]);
                if b < prev.len() {
                    assert(cur[b] == prev[b]);
                }
            }
        }
    }
}

/// A door among the first `n` at (x, y) makes `door_among` hold.
proof fn lemma_door_among(doors: Seq<DoorSpawn>, k: int, n: int)
    requires
        0 <= k < n <= doors.len(),
    ensures
        door_among(doors, doors[k].tile_x as int, doors[k].tile_y as int, n),
    decreases n,
{
    if n - 1 > k {
        lemma_door_among(doors, k, n - 1);
    }
}

/// Door locks in a loaded level: a door's raw tile is `90 + 2 * lock` when
/// its face runs north-south and `91 + 2 * lock` otherwise, so both tiles of
/// a pair give the same lock and differ only in orientation; tiles 90 and 91
/// are unlocked doors (lock 0).
pub proof fn law_door_lock(raw: Seq<u8>, tag: u16, pos: u32, l: Level, k: int)
    requires
        level_matches(raw, tag, pos, l),
        0 <= k < l.door_spawns@.len(),
    ensures
        ({
            let p0 = fill_plane(
                plane_words(raw, tag, plane_start(raw, pos as int, 0), plane_len(raw, pos as int, 0))->0,
            );
            let d = l.door_spawns@[k];
            let t = p0[spawn_index(d)];
            &&& d.lock <= 5
            &&& d.is_vertical ==> t == 90 + 2 * d.lock
            &&& !d.is_vertical ==> t == 91 + 2 * d.lock
        }),
{
    let p0 = fill_plane(plane_words(raw, tag, plane_start(raw, pos as int, 0), plane_len(raw, pos as int, 0))->0);
    lemma_door_scan_index(p0, 4096);
    let d = l.door_spawns@[k];
    let t = p0[spawn_index(d)];
    assert(is_door_tile(t));
    assert(d == door_spawn_at(spawn_index(d), t));
}

/// In a loaded level a tile is solid exactly when its raw code, before the
/// doors were re-encoded, is a wall 1..=63: doors, floor and area codes are
/// not solid.
pub proof fn law_solid_is_raw_wall(raw: Seq<u8>, tag: u16, pos: u32, l: Level, x: int, y: int)
    requires
        level_matches(raw, tag, pos, l),
        0 <= x < 64,
        0 <= y < 64,
    ensures
        solid_at(l, x, y) == (1 <= fill_plane(
            plane_words(raw, tag, plane_start(raw, pos as int, 0), plane_len(raw, pos as int, 0))->0,
        )[y * 64 + x] <= 63),
{
    let p0 = fill_plane(plane_words(raw, tag, plane_start(raw, pos as int, 0), plane_len(raw, pos as int, 0))->0);
    let doors = door_scan(p0, 4096);
    lemma_door_scan_bounds(p0, 4096);
    lemma_door_scan_index(p0, 4096);
    let i = y * 64 + x;
    lemma_reencode_at(p0, doors, doors.len() as int, i);
    lemma_door_slot(doors, i, doors.len() as int);
    match door_slot(doors, i, doors.len() as int) {
        Some(k) => {
            let v = k as u16;
            assert((v | 0x80u16) >= 0x80u16) by (bit_vector);
            assert(is_door_tile(p0[spawn_index(doors[k])]));
        },
        None => {},
    }
}

/// In a loaded level with at most 128 doors, the tile of door `k` carries
/// the door flag and `k` in its low seven bits, and `is_door` holds there.
pub proof fn law_door_tile_index(raw: Seq<u8>, tag: u16, pos: u32, l: Level, k: int)
    requires
        level_matches(raw, tag, pos, l),
        0 <= k < l.door_spawns@.len(),
        l.door_spawns@.len() <= 128,
    ensures
        l.planes[0]@[spawn_index(l.door_spawns@[k])] & 0x80u16 != 0,
        (l.planes[0]@[spawn_index(l.door_spawns@[k])] & 0x7Fu16) as int == k,
        door_among(
            l.door_spawns@,
            l.door_spawns@[k].tile_x as int,
            l.door_spawns@[k].tile_y as int,
            l.door_spawns@.len() as int,
        ),
{
    let p0 = fill_plane(plane_words(raw, tag, plane_start(raw, pos as int, 0), plane_len(raw, pos as int, 0))->0);
    let doors = door_scan(p0, 4096);
    lemma_door_scan_bounds(p0, 4096);
    lemma_door_scan_index(p0, 4096);
    let i = spawn_index(doors[k]);
    lemma_reencode_at(p0, doors, doors.len() as int, i);
    lemma_door_slot_unique(doors, k, doors.len() as int);
    let v = k as u16;
    assert(v < 128);
    assert((v | 0x80u16) & 0x80u16 != 0 && ((v | 0x80u16) & 0x7Fu16) == v) by (bit_vector)
        requires
            v < 128,
    ;
    lemma_door_among(doors, k, doors.len() as int);
}

/// Decodes one plane (see `plane_words`).
fn decode_plane(raw: &[u8], tag: u16, start: i32, len: u16) -> (r: Option<Vec<u16>>)
    ensures
        opt_words(r) == plane_words(raw@, tag, start, len),
{
    if start <= 0 || len < 2 {
        return Some(Vec::new());
    }
    let s = start as usize;
    let n = len as usize;
    if s > raw.len() || raw.len() - s < n {
        return Some(Vec::new());
    }
    let compressed = &raw[s..s + n];
    let expand_len = read_le_u16(compressed, 0);
    let body = &compressed[2..n];
    match carmack_decompress(body, expand_len) {
        Some(words) => rlew_decompress(drop_size_word(words), tag),
        None => None,
    }
}

/// Copies the first `min(4096, words.len())` words into a zeroed plane.
fn fill_plane_from(plane: &mut [u16; 4096], words: &Vec<u16>)
    requires
        forall|k: int| 0 <= k < 4096 ==> old(plane)@[k] == 0,
    ensures
        final(plane)@ == fill_plane(words@),
{
    let count = if words.len() < 4096 { words.len() } else { 4096 };
    let mut k: usize = 0;
    while k < count
        invariant
            count <= 4096,
            count <= words@.len(),
            count == 4096 || count == words@.len(),
            k <= count,
            plane@.len() == 4096,
            forall|j: int| 0 <= j < k ==> plane@[j] == words@[j],
            forall|j: int| k <= j < 4096 ==> plane@[j] == 0,
        decreases count - k,
    {
        plane[k] = words[k];
        k = k + 1;
    }
    assert(plane@ =~= fill_plane(words@));
}

/// Collects door spawns from a raw plane 0, in row-major order.
fn scan_doors(plane: &[u16; 4096]) -> (r: Vec<DoorSpawn>)
    ensures
        r@ == door_scan(plane@, 4096),
{
    let mut doors: Vec<DoorSpawn> = Vec::new();
    let mut n: usize = 0;
    while n < 4096
        invariant
            n <= 4096,
            doors@ == door_scan(plane@, n as int),
        decreases 4096 - n,
    {
        let tile = plane[n];
        if tile >= 90 && tile <= 101 {
            doors.push(
                DoorSpawn {
                    tile_x: n % 64,
                    tile_y: n / 64,
                    is_vertical: tile % 2 == 0,
                    lock: ((tile - 90) / 2) as u8,
                },
            );
        }
        n = n + 1;
    }
    doors
}

/// Re-encodes every door in `doors` into plane 0, in order.
fn reencode_doors(plane: &mut [u16; 4096], doors: &Vec<DoorSpawn>)
    requires
        doors@.len() <= 4096,
        forall|k: int| 0 <= k < doors@.len() ==> (#[trigger] doors@[k]).tile_x < 64 && doors@[k].tile_y < 64,
    ensures
        final(plane)@ == reencode(old(plane)@, doors@, doors@.len() as int),
{
    let ghost orig = old(plane)@;
    let mut idx: usize = 0;
    while idx < doors.len()
        invariant
            idx <= doors@.len(),
            doors@.len() <= 4096,
            forall|k: int| 0 <= k < doors@.len() ==> (#[trigger] doors@[k]).tile_x < 64 && doors@[k].tile_y < 64,
            plane@ == reencode(orig, doors@, idx as int),
        decreases doors@.len() - idx,
    {
        let d = doors[idx];
        let x = d.tile_x;
        let y = d.tile_y;
        let at = y * 64 + x;
        let ghost before = plane@;
        plane[at] = (idx as u16) | 0x80u16;
        assert(plane@ =~= apply_door(before, d, idx as int));
        idx = idx + 1;
    }
}

/// Length of `name` once trailing NULs are removed.
pub fn trimmed_len(name: &[u8]) -> (n: usize)
    ensures
        n <= name@.len(),
        name@.subrange(0, n as int) == nul_trimmed(name@),
{
    let mut n = name.len();
    assert(name@.subrange(0, n as int) =~= name@);
    while n > 0 && name[n - 1] == 0
        invariant
            n <= name@.len(),
            nul_trimmed(name@.subrange(0, n as int)) == nul_trimmed(name@),
        decreases n,
    {
        assert(name@.subrange(0, n as int).drop_last() =~= name@.subrange(0, n - 1));
        n = n - 1;
    }
    n
}

/// Decodes the level slot at `pos`.  The outer `None` marks a malformed slot
/// (see `slot_decodable`); the inner `None` an empty slot.
fn decode_level(raw: &[u8], tag: u16, pos: u32) -> (r: Option<Option<Level>>)
    ensures
        r is Some <==> slot_decodable(raw@, tag, pos),
        r matches Some(slot) ==> ((slot is Some <==> slot_present(raw@, pos)) && (slot matches Some(
            l,
        ) ==> level_matches(raw@, tag, pos, l))),
{
    if pos == 0 || pos == 0xFFFF_FFFFu32 {
        return Some(None);
    }
    let p = pos as usize;
    if p > raw.len() || raw.len() - p < 12 {
        return Some(None);
    }
    if raw.len() - p < 38 {
        return None;
    }
    let start0 = read_le_i32(raw, p);
    let start1 = read_le_i32(raw, p + 4);
    let len0 = read_le_u16(raw, p + 12);
    let len1 = read_le_u16(raw, p + 14);
    let name_bytes = &raw[p + 22..p + 38];
    let n = trimmed_len(name_bytes);
    let name = lossy_utf8_string(&name_bytes[0..n]);

    let words0 = match decode_plane(raw, tag, start0, len0) {
        Some(w) => w,
        None => return None,
    };
    let words1 = match decode_plane(raw, tag, start1, len1) {
        Some(w) => w,
        None => return None,
    };
    let mut planes = [[0u16; 4096]; 3];
    let mut plane0 = [0u16; 4096];
    fill_plane_from(&mut plane0, &words0);
    let mut plane1 = [0u16; 4096];
    fill_plane_from(&mut plane1, &words1);

    let door_spawns = scan_doors(&plane0);
    proof {
        lemma_door_scan_bounds(plane0@, 4096);
    }
    let ghost raw_plane0 = plane0@;
    reencode_doors(&mut plane0, &door_spawns);
    planes[0] = plane0;
    planes[1] = plane1;
    let level = Level { name, planes, width: 64, height: 64, door_spawns };
    assert(level.planes[2]@ =~= Seq::new(4096, |_k: int| 0u16));
    Some(Some(level))
}

/// Decodes all 60 level slots of GAMEMAPS.  `None` when some slot is
/// malformed (see `slot_decodable`).
pub fn load_levels(raw: &[u8], header: &MapHeader) -> (r: Option<Vec<Option<Level>>>)
    ensures
        r is Some <==> levels_decodable(raw@, (header.rlewtag, header.headeroffsets@)),
        r matches Some(levels) ==> levels_match(
            raw@,
            (header.rlewtag, header.headeroffsets@),
            levels@,
        ),
{
    let ghost h = (header.rlewtag, header.headeroffsets@);
    let mut levels: Vec<Option<Level>> = Vec::new();
    let mut i: usize = 0;
    while i < NUMMAPS
        invariant
            i <= 60,
            h == (header.rlewtag, header.headeroffsets@),
            header.headeroffsets@.len() == 100,
            levels@.len() == i,
            forall|k: int| 0 <= k < i ==> slot_decodable(raw@, h.0, #[trigger] h.1[k]),
            forall|k: int|
                0 <= k < i ==> (#[trigger] levels@[k] is Some <==> slot_present(raw@, h.1[k])),
            forall|k: int|
                0 <= k < i ==> (#[trigger] levels@[k] matches Some(l) ==> level_matches(
                    raw@,
                    h.0,
                    h.1[k],
                    l,
                )),
        decreases 60 - i,
    {
        match decode_level(raw, header.rlewtag, header.headeroffsets[i]) {
            Some(slot) => levels.push(slot),
            None => {
                assert(!slot_decodable(raw@, h.0, h.1[i as int]));
                return None;
            },
        }
        i = i + 1;
    }
    Some(levels)
}

} // verus!
