//! Video utilities on an RGBA8888 framebuffer: palette conversion and fills.
use vstd::prelude::*;

verus! {

/// `fb` with every complete 4-byte pixel set to `rgba`; a trailing partial
/// pixel is left as it was.
pub open spec fn filled(fb: Seq<u8>, rgba: [u8; 4]) -> Seq<u8> {
    Seq::new(
        fb.len(),
        |i: int| if i < (fb.len() / 4) * 4 { rgba@[i % 4] } else { fb[i] },
    )
}

/// Sets every complete 4-byte pixel of `fb` to `rgba`.
pub fn fill_pixels(fb: &mut [u8], rgba: [u8; 4])
    ensures
        final(fb)@ == filled(old(fb)@, rgba),
{
    let ghost start = old(fb)@;
    let len = fb.len();
    let n = len / 4;
    let mut p: usize = 0;
    assert(n * 4 <= start.len()) by (nonlinear_arith)
        requires
            n == start.len() / 4,
    ;
    while p < n
        invariant
            len == start.len(),
            n == start.len() / 4,
            n * 4 <= start.len(),
            fb@.len() == start.len(),
            p <= n,
            forall|i: int| 0 <= i < p * 4 ==> #[trigger] fb@[i] == rgba@[i % 4],
            forall|i: int| p * 4 <= i < start.len() ==> #[trigger] fb@[i] == start[i],
        decreases n - p,
    {
        assert(p * 4 + 4 <= start.len()) by (nonlinear_arith)
            requires
                p < n,
                n * 4 <= start.len(),
        ;
        let off = p * 4;
        fb[off] = rgba[0];
        fb[off + 1] = rgba[1];
        fb[off + 2] = rgba[2];
        fb[off + 3] = rgba[3];
        p = p + 1;
    }
    assert(fb@ =~= filled(start, rgba));
}

/// `fb` with the pixel at byte offset `off` set to `px`, when all four of
/// its bytes lie inside `fb`; otherwise `fb` unchanged.
pub open spec fn put_px(fb: Seq<u8>, off: int, px: [u8; 4]) -> Seq<u8> {
    if 0 <= off && off + 3 < fb.len() {
        fb.update(off, px@[0]).update(off + 1, px@[1]).update(off + 2, px@[2]).update(
            off + 3,
            px@[3],
        )
    } else {
        fb
    }
}

/// Writes one RGBA pixel at byte offset `off` if it fits in `fb`.
pub fn write_px(fb: &mut [u8], off: usize, px: [u8; 4])
    ensures
        final(fb)@ == put_px(old(fb)@, off as int, px),
{
    if off < fb.len() && fb.len() - off > 3 {
        fb[off] = px[0];
        fb[off + 1] = px[1];
        fb[off + 2] = px[2];
        fb[off + 3] = px[3];
    }
}

/// The 16 standard CGA colours that open the built-in palette.
pub open spec fn cga_color(i: int) -> (u8, u8, u8) {
    if i == 0 { (0, 0, 0) }
    else if i == 1 { (0, 0, 170) }
    else if i == 2 { (0, 170, 0) }
    else if i == 3 { (0, 170, 170) }
    else if i == 4 { (170, 0, 0) }
    else if i == 5 { (170, 0, 170) }
    else if i == 6 { (170, 85, 0) }
    else if i == 7 { (170, 170, 170) }
    else if i == 8 { (85, 85, 85) }
    else if i == 9 { (85, 85, 255) }
    else if i == 10 { (85, 255, 85) }
    else if i == 11 { (85, 255, 255) }
    else if i == 12 { (255, 85, 85) }
    else if i == 13 { (255, 85, 255) }
    else if i == 14 { (255, 255, 85) }
    else { (255, 255, 255) }
}

/// The built-in palette: the CGA colours, then black for the 240 entries
/// that are filled from game data at runtime.
pub open spec fn wolf_palette(i: int) -> (u8, u8, u8) {
    if 0 <= i < 16 { cga_color(i) } else { (0, 0, 0) }
}

fn cga_entry(i: usize) -> (r: (u8, u8, u8))
    requires
        i < 16,
    ensures
        r == cga_color(i as int),
{
    let cga: [(u8, u8, u8); 16] = [
        (0, 0, 0),
        (0, 0, 170),
        (0, 170, 0),
        (0, 170, 170),
        (170, 0, 0),
        (170, 0, 170),
        (170, 85, 0),
        (170, 170, 170),
        (85, 85, 85),
        (85, 85, 255),
        (85, 255, 85),
        (85, 255, 255),
        (255, 85, 85),
        (255, 85, 255),
        (255, 255, 85),
        (255, 255, 255),
    ];
    cga[i]
}

/// The built-in 256-colour palette (see `wolf_palette`).
pub fn include_palette() -> (p: [(u8, u8, u8); 256])
    ensures
        forall|i: int| 0 <= i < 256 ==> #[trigger] p@[i] == wolf_palette(i),
{
    let mut p = [(0u8, 0u8, 0u8); 256];
    let mut i: usize = 0;
    while i < 16
        invariant
            i <= 16,
            forall|k: int| 0 <= k < i ==> #[trigger] p@[k] == cga_color(k),
            forall|k: int| i <= k < 256 ==> #[trigger] p@[k] == (0u8, 0u8, 0u8),
        decreases 16 - i,
    {
        p[i] = cga_entry(i);
        i = i + 1;
    }
    p
}

/// The RGBA8888 pixel of a palette index in the built-in palette.
pub open spec fn palette_rgba(index: u8) -> [u8; 4] {
    let (r, g, b) = wolf_palette(index as int);
    [r, g, b, 0xFF]
}

/// Converts a palette index to an opaque RGBA8888 pixel.
pub fn palette_to_rgba(index: u8) -> (r: [u8; 4])
    ensures
        r == palette_rgba(index),
{
    let (r, g, b) = if index < 16 { cga_entry(index as usize) } else { (0u8, 0u8, 0u8) };
    [r, g, b, 0xFF]
}

/// `dst` after `blit_indexed(src, dst)`: pixel `p` holds the colour of
/// `src[p]` when `src` has such an entry and the whole pixel fits in `dst`.
pub open spec fn blitted(src: Seq<u8>, dst: Seq<u8>) -> Seq<u8> {
    Seq::new(
        dst.len(),
        |j: int|
            if j / 4 < src.len() && (j / 4) * 4 + 3 < dst.len() {
                palette_rgba(src[j / 4])@[j % 4]
            } else {
                dst[j]
            },
    )
}

/// Converts palette-indexed pixels to RGBA8888, writing into `dst`; pixels
/// that do not fit are skipped.
pub fn blit_indexed(src: &[u8], dst: &mut [u8])
    requires
        src@.len() * 4 + 3 <= usize::MAX,
    ensures
        final(dst)@ == blitted(src@, old(dst)@),
{
    let ghost start = old(dst)@;
    let mut i: usize = 0;
    while i < src.len()
        invariant
            i <= src@.len(),
            src@.len() * 4 + 3 <= usize::MAX,
            dst@.len() == start.len(),
            forall|j: int| 0 <= j < dst@.len() ==> #[trigger] dst@[j] == (if j / 4 < i && (j / 4) * 4 + 3 < start.len() {
                palette_rgba(src@[j / 4])@[j % 4]
            } else {
                start[j]
            }),
        decreases src@.len() - i,
    {
        let off = i * 4;
        if off + 3 < dst.len() {
            let rgba = palette_to_rgba(src[i]);
            dst[off] = rgba[0];
            dst[off + 1] = rgba[1];
            dst[off + 2] = rgba[2];
            dst[off + 3] = rgba[3];
        }
        i = i + 1;
    }
    assert(dst@ =~= blitted(src@, start));
}

/// The runtime palette read from 768 bytes of VGA DAC data: 256 (R, G, B)
/// triples of 6-bit values, each scaled by 4.
pub open spec fn parsed_palette(raw: Seq<u8>) -> Seq<(u8, u8, u8)> {
    Seq::new(
        256,
        |k: int| ((raw[3 * k] * 4) as u8, (raw[3 * k + 1] * 4) as u8, (raw[3 * k + 2] * 4) as u8),
    )
}

/// Loads a runtime palette from raw VGA DAC data (at least 768 bytes of
/// 6-bit values; larger values would overflow the scaling).
pub fn parse_palette(raw: &[u8]) -> (p: Vec<(u8, u8, u8)>)
    requires
        raw@.len() >= 768,
        forall|i: int| 0 <= i < 768 ==> #[trigger] raw@[i] < 64,
    ensures
        p@ == parsed_palette(raw@),
{
    let mut p: Vec<(u8, u8, u8)> = Vec::new();
    let mut k: usize = 0;
    while k < 256
        invariant
            k <= 256,
            raw@.len() >= 768,
            forall|i: int| 0 <= i < 768 ==> #[trigger] raw@[i] < 64,
            p@ == parsed_palette(raw@).subrange(0, k as int),
        decreases 256 - k,
    {
        let r = raw[3 * k];
        let g = raw[3 * k + 1];
        let b = raw[3 * k + 2];
        p.push((r * 4, g * 4, b * 4));
        assert(p@ =~= parsed_palette(raw@).subrange(0, k + 1));
        k = k + 1;
    }
    assert(p@ =~= parsed_palette(raw@));
    p
}

} // verus!
