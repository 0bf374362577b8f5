//! Status bar HUD: the bottom 40-pixel strip of the screen.
use vstd::prelude::*;
use crate::game::player::Player;

verus! {

/// Height of the status bar in pixels.
pub const HUD_HEIGHT: usize = 40;

/// Status bar background colour.
pub open spec fn hud_bg() -> [u8; 4] {
    [0x38, 0x24, 0x18, 0xFF]
}

/// The framebuffer after the status bar is drawn: every complete pixel of
/// the bottom 40 rows of a `width`-wide, `height`-high screen that fits in
/// `fb` takes the background colour.
pub open spec fn hud_drawn(fb: Seq<u8>, width: int, height: int) -> Seq<u8> {
    Seq::new(
        fb.len(),
        |i: int|
            if width > 0 && height - 40 <= (i / 4) / width < height && (i / 4) * 4 + 3 < fb.len() {
                hud_bg()@[i % 4]
            } else {
                fb[i]
            },
    )
}

/// Draws the status bar background into the framebuffer.
pub fn draw(fb: &mut [u8], width: usize, height: usize, player: &Player)
    requires
        height >= HUD_HEIGHT,
        height * width * 4 + 3 <= usize::MAX,
    ensures
        final(fb)@ == hud_drawn(old(fb)@, width as int, height as int),
{
    let ghost start = old(fb)@;
    let hud_top = height - HUD_HEIGHT;
    let bg: [u8; 4] = [0x38, 0x24, 0x18, 0xFF];
    let mut y = hud_top;
    while y < height
        invariant
            hud_top == height - 40,
            hud_top <= y <= height,
            height * width * 4 + 3 <= usize::MAX,
            fb@.len() == start.len(),
            bg == hud_bg(),
            forall|i: int| 0 <= i < fb@.len() ==> #[trigger] fb@[i] == (if width > 0 && hud_top <= (i / 4) / (width as int) < y && (i / 4) * 4 + 3 < start.len() {
                bg@[i % 4]
            } else {
                start[i]
            }),
        decreases height - y,
    {
        let mut x: usize = 0;
        while x < width
            invariant
                hud_top == height - 40,
                hud_top <= y < height,
                x <= width,
                height * width * 4 + 3 <= usize::MAX,
                fb@.len() == start.len(),
                bg == hud_bg(),
                forall|i: int| 0 <= i < fb@.len() ==> #[trigger] fb@[i] == (if width > 0 && (hud_top <= (i / 4) / (width as int) < y || ((i / 4) / (width as int) == y && (i / 4) % (width as int) < x)) && (i / 4) * 4 + 3 < start.len() {
                    bg@[i % 4]
                } else {
                    start[i]
                }),
            decreases width - x,
        {
            assert(y * width + x < height * width) by (nonlinear_arith)
                requires
                    y < height,
                    x < width,
            ;
            let off = (y * width + x) * 4;
            if off + 3 < fb.len() {
                fb[off] = bg[0];
                fb[off + 1] = bg[1];
                fb[off + 2] = bg[2];
                fb[off + 3] = bg[3];
            }
            assert forall|i: int| 0 <= i < fb@.len() implies #[trigger] fb@[i] == (if width > 0 && (hud_top <= (i / 4) / (width as int) < y || ((i / 4) / (width as int) == y && (i / 4) % (width as int) < x + 1)) && (i / 4) * 4 + 3 < start.len() {
                bg@[i % 4]
            } else {
                start[i]
            }) by {
                let q = i / 4;
                assert(q == y * width + x <==> (q / (width as int) == y && q % (width as int) == x)) by (nonlinear_arith)
                    requires
                        width > 0,
                        x < width,
                        q >= 0,
                ;
                assert(i / 4 == (y * width + x) <==> off <= i < off + 4);
            }
            x = x + 1;
        }
        assert forall|i: int| 0 <= i < fb@.len() implies #[trigger] fb@[i] == (if width > 0 && hud_top <= (i / 4) / (width as int) < y + 1 && (i / 4) * 4 + 3 < start.len() {
            bg@[i % 4]
        } else {
            start[i]
        }) by {
            let q = i / 4;
            if width > 0 {
                assert((q / (width as int) == y) ==> q % (width as int) < width) by (nonlinear_arith)
                    requires
                        width > 0,
                        q >= 0,
                ;
            }
        }
        y = y + 1;
    }
    assert(fb@ =~= hud_drawn(start, width as int, height as int));
}

} // verus!
