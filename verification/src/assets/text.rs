//! Proportional bitmap fonts: an RGBA atlas with one row of glyphs, and the
//! drawing of strings into the 320-pixel-wide framebuffer.
use vstd::prelude::*;
use crate::assets::colors::{BKGDCOLOR, TEXTCOLOR};
use vstd::string::StringSliceAdditionalSpecFns;

verus! {

/// Width of the framebuffer strings are drawn into.
pub const TEXT_FB_WIDTH: u32 = 320;

/// A glyph's columns in the font atlas.
#[derive(Debug, Clone, Copy, PartialEq, Eq, Structural)]
pub struct FontGlyph {
    pub x: u32,
    pub width: u32,
}

/// The glyph table of a font: glyph height, atlas width and, by character
/// code, each glyph's position (none for a missing glyph).
pub struct FontMetadata {
    pub height: u32,
    pub atlas_width: u32,
    pub glyphs: Vec<Option<FontGlyph>>,
}

/// A font: its RGBA atlas pixels (one row of glyphs) and its glyph table.
pub struct FontStruct {
    pub data: Vec<u8>,
    pub metadata: FontMetadata,
}

/// Why a string could not be drawn.
#[derive(Debug, Clone, Copy, PartialEq, Eq, Structural)]
pub enum TextError {
    /// Fonts are numbered 1 and 2.
    InvalidFont(u32),
    /// The font has no glyph for this character.
    MissingGlyph(u8),
    /// A glyph row lies outside the atlas or the framebuffer, or a
    /// coordinate does not fit in 32 bits.
    OutOfRange,
}

impl FontStruct {
    /// The atlas column and width of the glyph for `ascii`.
    pub fn character(&self, ascii: u32) -> (r: (u32, u32))
        requires
            ascii < self.metadata.glyphs@.len(),
            self.metadata.glyphs@[ascii as int] is Some,
        ensures
            r == (self.metadata.glyphs@[ascii as int]->0.x, self.metadata.glyphs@[ascii as int]->0.width),
    {
        match self.metadata.glyphs[ascii as usize] {
            Some(g) => (g.x, g.width),
            None => (0, 0),
        }
    }
}

/// `fb` with `n` bytes from `src` at `s` copied over its bytes at `d`.
pub open spec fn copied(fb: Seq<u8>, d: int, src: Seq<u8>, s: int, n: int) -> Seq<u8> {
    Seq::new(fb.len(), |i: int| if d <= i < d + n { src[s + (i - d)] } else { fb[i] })
}

/// The framebuffer after rows `row..h` of a glyph (atlas column `gx`,
/// width `w`) are copied to (x, dest_y + row), with whether every row fit.
/// Each row copies `w` RGBA pixels from atlas row `row`; all coordinates are
/// 32-bit and every range must lie in the atlas and the framebuffer.
pub open spec fn glyph_rows(
    fb: Seq<u8>,
    atlas: Seq<u8>,
    aw: int,
    gx: int,
    w: int,
    dest_y: int,
    x: int,
    row: int,
    h: int,
) -> (Seq<u8>, bool)
    decreases h - row,
{
    if row >= h {
        (fb, true)
    } else {
        let dy = dest_y + row;
        let s = (row * aw + gx) * 4;
        let d = (dy * 320 + x) * 4;
        if dy > u32::MAX || row * aw + gx > u32::MAX || s > u32::MAX || w * 4 > u32::MAX || dy * 320 + x > u32::MAX
            || d > u32::MAX || d + w * 4 > u32::MAX || s + w * 4 > atlas.len() || d + w * 4 > fb.len() {
            (fb, false)
        } else {
            glyph_rows(copied(fb, d, atlas, s, w * 4), atlas, aw, gx, w, dest_y, x, row + 1, h)
        }
    }
}

/// The framebuffer after the characters of `bytes` from index `i` up to the
/// first NUL are drawn from atlas column `x` on, with the final column or
/// the error that stopped the drawing.
pub open spec fn text_drawn(
    fb: Seq<u8>,
    font: FontStruct,
    bytes: Seq<u8>,
    i: int,
    x: int,
    dest_y: int,
) -> (Seq<u8>, Result<int, TextError>)
    decreases bytes.len() - i,
{
    if i < 0 || i >= bytes.len() || bytes[i] == 0 {
        (fb, Ok(x))
    } else {
        let b = bytes[i];
        if b as int >= font.metadata.glyphs@.len() || font.metadata.glyphs@[b as int] is None {
            (fb, Err(TextError::MissingGlyph(b)))
        } else {
            let g = font.metadata.glyphs@[b as int]->0;
            let rows = glyph_rows(
                fb,
                font.data@,
                font.metadata.atlas_width as int,
                g.x as int,
                g.width as int,
                dest_y,
                x,
                0,
                font.metadata.height as int,
            );
            if !rows.1 {
                (rows.0, Err(TextError::OutOfRange))
            } else if x + g.width > u32::MAX {
                (rows.0, Err(TextError::OutOfRange))
            } else {
                text_drawn(rows.0, font, bytes, i + 1, x + g.width, dest_y)
            }
        }
    }
}

pub struct TextDrawContext {
    pub font_color: [u8; 4],
    pub back_color: [u8; 4],
    pub current_font: i16,
    pub fonts: [FontStruct; 2],
}

/// Copies `n` bytes of `src` from `s` over `fb` at `d`.
fn copy_bytes(fb: &mut [u8], d: usize, src: &[u8], s: usize, n: usize)
    requires
        d + n <= old(fb)@.len(),
        s + n <= src@.len(),
    ensures
        final(fb)@ == copied(old(fb)@, d as int, src@, s as int, n as int),
{
    let ghost start = old(fb)@;
    let flen = fb.len();
    let slen = src.len();
    let mut k: usize = 0;
    while k < n
        invariant
            k <= n,
            flen == start.len(),
            slen == src@.len(),
            d + n <= start.len(),
            s + n <= src@.len(),
            fb@.len() == start.len(),
            forall|i: int| 0 <= i < fb@.len() ==> #[trigger] fb@[i] == (if d <= i < d + k {
                src@[s + (i - d)]
            } else {
                start[i]
            }),
        decreases n - k,
    {
        fb[d + k] = src[s + k];
        k = k + 1;
    }
    assert(fb@ =~= copied(start, d as int, src@, s as int, n as int));
}

/// Draws the rows of one glyph (see `glyph_rows`); returns whether every
/// row fit.
fn draw_glyph(fb: &mut [u8], font: &FontStruct, gx: u32, w: u32, dest_y: u32, x: u32) -> (ok: bool)
    ensures
        (final(fb)@, ok) == glyph_rows(
            old(fb)@,
            font.data@,
            font.metadata.atlas_width as int,
            gx as int,
            w as int,
            dest_y as int,
            x as int,
            0,
            font.metadata.height as int,
        ),
{
    let ghost want = glyph_rows(
        old(fb)@,
        font.data@,
        font.metadata.atlas_width as int,
        gx as int,
        w as int,
        dest_y as int,
        x as int,
        0,
        font.metadata.height as int,
    );
    let aw = font.metadata.atlas_width;
    let h = font.metadata.height;
    let mut row: u32 = 0;
    while row < h
        invariant
            row <= h,
            aw == font.metadata.atlas_width,
            h == font.metadata.height,
            want == glyph_rows(
                old(fb)@,
                font.data@,
                font.metadata.atlas_width as int,
                gx as int,
                w as int,
                dest_y as int,
                x as int,
                0,
                font.metadata.height as int,
            ),
            want == glyph_rows(
                fb@,
                font.data@,
                aw as int,
                gx as int,
                w as int,
                dest_y as int,
                x as int,
                row as int,
                h as int,
            ),
        decreases h - row,
    {
        let dy = match dest_y.checked_add(row) {
            Some(v) => v,
            None => return false,
        };
        let s0 = match row.checked_mul(aw) {
            Some(v) => match v.checked_add(gx) {
                Some(t) => t,
                None => return false,
            },
            None => return false,
        };
        let s = match s0.checked_mul(4) {
            Some(v) => v,
            None => return false,
        };
        let w4 = match w.checked_mul(4) {
            Some(v) => v,
            None => return false,
        };
        let d0 = match dy.checked_mul(TEXT_FB_WIDTH) {
            Some(v) => match v.checked_add(x) {
                Some(t) => t,
                None => return false,
            },
            None => return false,
        };
        let d = match d0.checked_mul(4) {
            Some(v) => v,
            None => return false,
        };
        let d_end = match d.checked_add(w4) {
            Some(v) => v,
            None => return false,
        };
        let su = s as usize;
        let du = d as usize;
        let wu = w4 as usize;
        if su > font.data.len() || font.data.len() - su < wu || d_end as usize > fb.len() {
            return false;
        }
        copy_bytes(fb, du, font.data.as_slice(), su, wu);
        row = row + 1;
    }
    true
}

impl TextDrawContext {
    /// A drawing context over the two game fonts, in the menu text and
    /// background colours, with the first font current.
    pub fn new(font1: FontStruct, font2: FontStruct) -> (r: TextDrawContext)
        ensures
            r.font_color == TEXTCOLOR,
            r.back_color == BKGDCOLOR,
            r.current_font == 0,
            r.fonts@[0] == font1,
            r.fonts@[1] == font2,
    {
        TextDrawContext { font_color: TEXTCOLOR, back_color: BKGDCOLOR, current_font: 0, fonts: [font1, font2] }
    }

    /// Font 1 or font 2.
    pub fn font_from_number(&self, font_number: u32) -> (r: Result<&FontStruct, TextError>)
        ensures
            font_number == 1 ==> r == Ok::<&FontStruct, TextError>(&self.fonts@[0]),
            font_number == 2 ==> r == Ok::<&FontStruct, TextError>(&self.fonts@[1]),
            font_number != 1 && font_number != 2 ==> r == Err::<&FontStruct, TextError>(TextError::InvalidFont(font_number)),
    {
        if font_number == 1 {
            Ok(&self.fonts[0])
        } else if font_number == 2 {
            Ok(&self.fonts[1])
        } else {
            Err(TextError::InvalidFont(font_number))
        }
    }

    /// Draws the characters of `s` up to the first NUL in one row, from
    /// column `dest_x` of row `dest_y` of the 320-pixel-wide framebuffer
    /// `fb`, with font `font_number` (see `text_drawn`).  Gives the column
    /// after the last character and the font height.
    pub fn draw_string(&mut self, s: &str, fb: &mut [u8], dest_x: u32, dest_y: u32, font_number: u32) -> (r: Result<
        (u32, u32),
        TextError,
    >)
        ensures
            font_number != 1 && font_number != 2 ==> r == Err::<(u32, u32), TextError>(TextError::InvalidFont(font_number))
                && final(fb)@ == old(fb)@,
            (font_number == 1 || font_number == 2) ==> {
                let font = if font_number == 1 {
                    old(self).fonts@[0]
                } else {
                    old(self).fonts@[1]
                };
                let out = text_drawn(old(fb)@, font, s.spec_bytes(), 0, dest_x as int, dest_y as int);
                &&& final(fb)@ == out.0
                &&& match out.1 {
                    Ok(x) => r == Ok::<(u32, u32), TextError>((x as u32, font.metadata.height)),
                    Err(e) => r == Err::<(u32, u32), TextError>(e),
                }
            },
            *final(self) == *old(self),
    {
        let font = match self.font_from_number(font_number) {
            Ok(f) => f,
            Err(e) => return Err(e),
        };
        let bytes = s.as_bytes();
        let ghost want = text_drawn(fb@, *font, bytes@, 0, dest_x as int, dest_y as int);
        let mut fb_offset_x = dest_x;
        let mut i: usize = 0;
        while i < bytes.len() && bytes[i] != 0
            invariant
                i <= bytes@.len(),
                bytes@ == s.spec_bytes(),
                font_number == 1 || font_number == 2,
                *font == (if font_number == 1 {
                    self.fonts@[0]
                } else {
                    self.fonts@[1]
                }),
                *self == *old(self),
                want == text_drawn(old(fb)@, *font, bytes@, 0, dest_x as int, dest_y as int),
                want == text_drawn(fb@, *font, bytes@, i as int, fb_offset_x as int, dest_y as int),
            decreases bytes@.len() - i,
        {
            let b = bytes[i];
            if b as usize >= font.metadata.glyphs.len() {
                return Err(TextError::MissingGlyph(b));
            }
            let present = match font.metadata.glyphs[b as usize] {
                Some(_) => true,
                None => false,
            };
            if !present {
                return Err(TextError::MissingGlyph(b));
            }
            let (offset, width) = font.character(b as u32);
            if !draw_glyph(fb, font, offset, width, dest_y, fb_offset_x) {
                return Err(TextError::OutOfRange);
            }
            fb_offset_x = match fb_offset_x.checked_add(width) {
                Some(v) => v,
                None => return Err(TextError::OutOfRange),
            };
            i = i + 1;
        }
        Ok((fb_offset_x, font.metadata.height))
    }
}

} // verus!
