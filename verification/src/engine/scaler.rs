//! Sprite scaler: draws square sprites, scaled to a given screen height,
//! over the walls of a frame.
//!
//! Each sprite is centred on its screen column and vertically on the
//! horizon; texels with zero alpha are transparent.  Sprites are drawn after
//! the walls, and the raycaster's depth buffer clips the columns where a
//! wall stands in front of the sprite.
use vstd::prelude::*;
use crate::engine::renderer::{HALF_HEIGHT, VIEW_HEIGHT};
use crate::engine::video::{put_px, write_px};
use crate::math::fixed::{Fixed, fits_i32, trunc_div};

verus! {

/// One sprite instance to be drawn this frame.
pub struct SpriteInst {
    /// World position (tile-space fixed-point).
    pub world_x: Fixed,
    pub world_y: Fixed,
    /// Index into the graphics chunk sprite array.
    pub sprite_index: usize,
    /// Pre-computed screen X centre column (set by the sprite sorter).
    pub screen_x: i32,
    /// Pre-computed screen height in pixels.
    pub screen_h: i32,
}

/// Half the sprite's width (sprites are square), rounded toward zero.
pub open spec fn half_width(s: SpriteInst) -> int {
    trunc_div(s.screen_h as int, 2)
}

/// The sprite's screen coordinates stay in range: its first and last
/// column fit in an `i32`, and its height is at most 2^25 pixels.
pub open spec fn sprite_in_range(s: SpriteInst) -> bool {
    &&& fits_i32(s.screen_x - half_width(s))
    &&& fits_i32(s.screen_x + half_width(s))
    &&& s.screen_h <= 0x200_0000
}

/// The sprite's height, at least 1 (the divisor of the texture scaling).
pub open spec fn scale_of(s: SpriteInst) -> int {
    if s.screen_h < 1 {
        1
    } else {
        s.screen_h as int
    }
}

/// The distance a sprite was projected from: walls are drawn
/// `VIEW_HEIGHT / distance` pixels high (16.16 distances), so a sprite of
/// height `h` lies at `VIEW_HEIGHT * 65536 / h`.
pub open spec fn sprite_depth(s: SpriteInst) -> int {
    VIEW_HEIGHT * 65536 / scale_of(s)
}

/// Screen column `col` of the sprite is hidden: the depth buffer records a
/// wall nearer than the sprite there.
pub open spec fn occluded(depth: Seq<Fixed>, col: int, s: SpriteInst) -> bool {
    0 <= col < depth.len() && depth[col].0 < sprite_depth(s)
}

/// The RGBA texel at byte offset `off` of the sprite data.
pub open spec fn texel_at(data: Seq<u8>, off: int) -> [u8; 4] {
    [data[off], data[off + 1], data[off + 2], data[off + 3]]
}

/// `fb` after the first `n` rows of one sprite column are drawn at screen
/// column `col` from texture column `tex_x`, starting at view row `top`.
/// Rows below the view, texels outside the data and transparent texels are
/// skipped.
pub open spec fn sprite_rows(
    fb: Seq<u8>,
    stride: int,
    s: SpriteInst,
    data: Seq<u8>,
    col: int,
    tex_x: int,
    top: int,
    n: nat,
) -> Seq<u8>
    decreases n,
{
    if n == 0 {
        fb
    } else {
        let prev = sprite_rows(fb, stride, s, data, col, tex_x, top, (n - 1) as nat);
        let row = n - 1;
        let y = top + row;
        let tex_y = row * 64 / scale_of(s);
        let tex_off = (tex_y * 64 + tex_x) * 4;
        if y >= VIEW_HEIGHT || tex_off + 3 >= data.len() || data[tex_off + 3] == 0 {
            prev
        } else {
            put_px(prev, (y * stride + col) * 4, texel_at(data, tex_off))
        }
    }
}

/// `fb` after the first `n` of the sprite's columns are drawn.  Columns left
/// of the screen, at or beyond `stride`, or behind a nearer wall (see
/// `occluded`) are skipped; a sprite whose top lies above the view draws no
/// rows.
pub open spec fn sprite_cols(
    fb: Seq<u8>,
    stride: int,
    depth: Seq<Fixed>,
    s: SpriteInst,
    data: Seq<u8>,
    n: nat,
) -> Seq<u8>
    decreases n,
{
    if n == 0 {
        fb
    } else {
        let prev = sprite_cols(fb, stride, depth, s, data, (n - 1) as nat);
        let k = n - 1;
        let col = s.screen_x - half_width(s) + k;
        let top = HALF_HEIGHT - trunc_div(s.screen_h as int, 2);
        if col < 0 || col >= stride {
            prev
        } else if top < 0 || occluded(depth, col, s) {
            prev
        } else {
            sprite_rows(prev, stride, s, data, col, k * 64 / scale_of(s), top, s.screen_h as nat)
        }
    }
}

/// Number of screen columns a sprite spans: twice its half width.
pub open spec fn sprite_span(s: SpriteInst) -> nat {
    if half_width(s) > 0 {
        (2 * half_width(s)) as nat
    } else {
        0
    }
}

/// `fb` after the first `n` sprites are drawn in order; a sprite whose
/// graphics index is out of range is skipped.
pub open spec fn sprites_drawn(
    fb: Seq<u8>,
    stride: int,
    depth: Seq<Fixed>,
    sprites: Seq<SpriteInst>,
    gfx: Seq<Vec<u8>>,
    n: nat,
) -> Seq<u8>
    decreases n,
{
    if n == 0 {
        fb
    } else {
        let prev = sprites_drawn(fb, stride, depth, sprites, gfx, (n - 1) as nat);
        let s = sprites[n - 1];
        if s.sprite_index < gfx.len() {
            sprite_cols(prev, stride, depth, s, gfx[s.sprite_index as int]@, sprite_span(s))
        } else {
            prev
        }
    }
}

/// Draws all sprites for one frame, in the given order (back to front), into
/// the RGBA8888 framebuffer `fb` with `stride` pixels per row.  `gfx` holds
/// 64x64 RGBA sprite images.  A column is skipped where `depth_buf` (the
/// raycaster's per-column wall distances) holds a wall nearer than the
/// sprite (see `occluded`).
pub fn draw_sprites(
    fb: &mut [u8],
    stride: usize,
    depth_buf: &[Fixed],
    sprites: &[SpriteInst],
    gfx: &[Vec<u8>],
)
    requires
        VIEW_HEIGHT * stride * 4 + 3 <= usize::MAX,
        forall|i: int| 0 <= i < sprites@.len() ==> sprite_in_range(#[trigger] sprites@[i]),
    ensures
        final(fb)@ == sprites_drawn(old(fb)@, stride as int, depth_buf@, sprites@, gfx@, sprites@.len()),
{
    let ghost start = old(fb)@;
    let mut i: usize = 0;
    while i < sprites.len()
        invariant
            i <= sprites@.len(),
            VIEW_HEIGHT * stride * 4 + 3 <= usize::MAX,
            forall|j: int| 0 <= j < sprites@.len() ==> sprite_in_range(#[trigger] sprites@[j]),
            fb@ == sprites_drawn(start, stride as int, depth_buf@, sprites@, gfx@, i as nat),
        decreases sprites@.len() - i,
    {
        let sprite = &sprites[i];
        assert(sprite_in_range(sprites@[i as int]));
        if sprite.sprite_index < gfx.len() {
            let data = &gfx[sprite.sprite_index];
            draw_one(fb, stride, depth_buf, sprite, data);
        }
        i = i + 1;
    }
}

/// Draws the columns of one sprite (see `sprite_cols`).
fn draw_one(fb: &mut [u8], stride: usize, depth_buf: &[Fixed], sprite: &SpriteInst, data: &Vec<u8>)
    requires
        VIEW_HEIGHT * stride * 4 + 3 <= usize::MAX,
        sprite_in_range(*sprite),
    ensures
        final(fb)@ == sprite_cols(old(fb)@, stride as int, depth_buf@, *sprite, data@, sprite_span(*sprite)),
{
    let ghost start = old(fb)@;
    let h = sprite.screen_h;
    let half_w: i32 = match h.checked_div(2) {
        Some(v) => v,
        None => 0,
    };
    assert(half_w as int == half_width(*sprite));
    let col_start = sprite.screen_x - half_w;
    let col_end = sprite.screen_x + half_w;
    let top: i32 = HALF_HEIGHT as i32 - half_w;
    let scale: i32 = if h < 1 { 1 } else { h };
    if col_start >= col_end {
        assert(sprite_span(*sprite) == 0);
        return;
    }
    let span: i32 = col_end - col_start;
    assert(span as int == sprite_span(*sprite));
    let sprite_dist: i32 = 9961472 / scale;
    assert(sprite_dist as int == sprite_depth(*sprite));
    let mut k: i32 = 0;
    while k < span
        invariant
            0 <= k <= span,
            span as int == sprite_span(*sprite),
            span == 2 * half_w,
            half_w as int == half_width(*sprite),
            col_start == sprite.screen_x - half_w,
            top == HALF_HEIGHT - half_w,
            scale as int == scale_of(*sprite),
            h == sprite.screen_h,
            1 <= h <= 0x200_0000,
            sprite_in_range(*sprite),
            sprite_dist as int == sprite_depth(*sprite),
            VIEW_HEIGHT * stride * 4 + 3 <= usize::MAX,
            fb@ == sprite_cols(start, stride as int, depth_buf@, *sprite, data@, k as nat),
        decreases span - k,
    {
        let col_screen = col_start + k;
        let hidden = col_screen >= 0 && (col_screen as usize) < depth_buf.len()
            && depth_buf[col_screen as usize].0 < sprite_dist;
        if col_screen >= 0 && (col_screen as usize) < stride && top >= 0 && !hidden {
            assert(k * 64 < 0x7fff_ffff) by (nonlinear_arith)
                requires
                    0 <= k < span,
                    span <= h,
                    h <= 0x200_0000,
            ;
            let tex_x: usize = match (k * 64).checked_div(scale) {
                Some(v) => v as usize,
                None => 0,
            };
            assert(tex_x as int == k * 64 / scale_of(*sprite));
            assert(k * 64 / (scale as int) < 64) by (nonlinear_arith)
                requires
                    0 <= k < span,
                    span <= scale,
            ;
            draw_rows(fb, stride, sprite, data, col_screen as usize, tex_x, top as usize);
        }
        k = k + 1;
    }
}

/// Draws the rows of one sprite column (see `sprite_rows`).
fn draw_rows(
    fb: &mut [u8],
    stride: usize,
    sprite: &SpriteInst,
    data: &Vec<u8>,
    col: usize,
    tex_x: usize,
    top: usize,
)
    requires
        VIEW_HEIGHT * stride * 4 + 3 <= usize::MAX,
        col < stride,
        tex_x < 64,
        top <= HALF_HEIGHT,
        1 <= sprite.screen_h <= 0x200_0000,
    ensures
        final(fb)@ == sprite_rows(
            old(fb)@,
            stride as int,
            *sprite,
            data@,
            col as int,
            tex_x as int,
            top as int,
            sprite.screen_h as nat,
        ),
{
    let ghost start = old(fb)@;
    let n: usize = sprite.screen_h as usize;
    let scale: usize = sprite.screen_h as usize;
    let mut row: usize = 0;
    while row < n
        invariant
            row <= n,
            start == old(fb)@,
            n == sprite.screen_h,
            scale == sprite.screen_h,
            scale as int == scale_of(*sprite),
            VIEW_HEIGHT * stride * 4 + 3 <= usize::MAX,
            col < stride,
            tex_x < 64,
            top <= HALF_HEIGHT,
            fb@ == sprite_rows(start, stride as int, *sprite, data@, col as int, tex_x as int, top as int, row as nat),
        decreases n - row,
    {
        let y = top + row;
        if y >= VIEW_HEIGHT {
            // Every later row is lower still: the rest of the column is off
            // the view.
            proof {
                lemma_rows_below(start, stride as int, *sprite, data@, col as int, tex_x as int, top as int, row as nat, n as nat);
            }
            return;
        }
        assert(row * 64 / (scale as int) < 64) by (nonlinear_arith)
            requires
                row < scale,
        ;
        let tex_y = row * 64 / scale;
        let tex_off = (tex_y * 64 + tex_x) * 4;
        if tex_off + 3 < data.len() && data[tex_off + 3] != 0 {
            assert(y * stride + col < VIEW_HEIGHT * stride) by (nonlinear_arith)
                requires
                    y < VIEW_HEIGHT,
                    col < stride,
            ;
            let fb_off = (y * stride + col) * 4;
            let px: [u8; 4] = [data[tex_off], data[tex_off + 1], data[tex_off + 2], data[tex_off + 3]];
            write_px(fb, fb_off, px);
        }
        row = row + 1;
    }
}

/// Once a row lies below the view, the remaining rows of the column change
/// nothing.
proof fn lemma_rows_below(
    fb: Seq<u8>,
    stride: int,
    s: SpriteInst,
    data: Seq<u8>,
    col: int,
    tex_x: int,
    top: int,
    from: nat,
    to: nat,
)
    requires
        from <= to,
        top + from >= VIEW_HEIGHT,
    ensures
        sprite_rows(fb, stride, s, data, col, tex_x, top, to) == sprite_rows(fb, stride, s, data, col, tex_x, top, from),
    decreases to - from,
{
    if to > from {
        lemma_rows_below(fb, stride, s, data, col, tex_x, top, from, (to - 1) as nat);
    }
}

} // verus!
