//! Raycasting renderer.
//!
//! For each screen column a ray is cast from the player position in the
//! direction of the player angle plus the column offset; a DDA steps along the
//! ray through the tile grid until it hits a wall or a closed part of a door.
//! The perpendicular distance gives the projected wall height; wall columns
//! are textured, floor and ceiling are flat colours.
//!
//! All distances use 16.16 fixed-point arithmetic.  Where the 32-bit
//! arithmetic would leave the `i32` range or index outside the level, the
//! frame is refused with `RayFault`.
use vstd::prelude::*;
use vstd::view::View as SpecView;
use crate::assets::maps::{Level, PLANE_WORDS};
use crate::math::fixed::{Fixed, fits_i32, fixed_mul_spec, fixed_div_spec};
use crate::math::tables::{TrigTables, FINEANGLES};
use crate::engine::video::{put_px, write_px};

verus! {

pub const VIEW_WIDTH: usize = 256;
pub const VIEW_HEIGHT: usize = 152;
pub const HALF_HEIGHT: usize = 76;

/// VSWAP wall texture index for the standard door face.
pub const DOOR_TEXTURE: u16 = 98;

/// Iterations after which a ray gives up.
pub const MAX_ITER: u8 = 100;

/// Distance recorded for a ray that gives up: 64 tiles.
pub const FAR_DIST: i32 = 4194304;

/// Player view parameters passed to each frame.
pub struct View {
    pub x: Fixed,
    pub y: Fixed,
    /// Player angle in fine-angle units (0..FINEANGLES).
    pub angle: usize,
}

/// One entry per screen column produced by the raycaster.
#[derive(Debug, Clone, Copy, PartialEq, Eq, Structural)]
pub struct ColumnHit {
    /// Perpendicular (fisheye-corrected) distance to the wall.
    pub dist: Fixed,
    pub texture: u16,
    /// Horizontal texture coordinate (0..63).
    pub tex_x: u8,
    /// True if the hit was on an E/W wall face; false for N/S.
    pub ew_face: bool,
}

/// A frame that cannot be drawn: the ray for this column overflows the
/// fixed-point range or reads outside the level.
#[derive(Debug, Clone, Copy, PartialEq, Eq, Structural)]
pub struct RayFault {
    pub column: usize,
}

pub struct Renderer {
    pub trig: TrigTables,
    pub columns: Vec<ColumnHit>,
    /// Depth buffer (perpendicular distances) used for sprite clipping.
    pub depth_buf: Vec<Fixed>,
}

/// How a column's ray ends.
pub enum RayOutcome {
    /// It hit a wall, a door, or gave up; the column takes this entry.
    Hit(ColumnHit),
    /// It left the map through a negative coordinate; the column keeps its
    /// previous entry.
    Escaped,
    /// The 32-bit arithmetic or the level lookup would fail.
    Fault,
}

/// The per-column constants of a ray.
pub struct Ray {
    pub angle_diff: usize,
    pub cos: Fixed,
    pub sin: Fixed,
    pub delta_x: Fixed,
    pub delta_y: Fixed,
    pub step_x: i32,
    pub step_y: i32,
}

/// The empty column entry.
pub open spec fn blank_hit() -> ColumnHit {
    ColumnHit { dist: Fixed(0), texture: 0, tex_x: 0, ew_face: false }
}

/// The ray angle of screen column `col`: the view angle minus 30 degrees,
/// plus `col * 600 / 256` fine angles.
pub open spec fn ray_angle_spec(view_angle: usize, col: int) -> int {
    ((view_angle + FINEANGLES - 300) % 3600 + col * 600 / 256) % 3600
}

/// Distance along the ray between grid lines of one axis: `|1 / c|`, or
/// 64 tiles when `c` is zero.  `None` when the quotient is `i32::MIN`.
pub open spec fn delta_spec(c: Fixed) -> Option<Fixed> {
    if c.0 == 0 {
        Some(Fixed(FAR_DIST))
    } else {
        let q = fixed_div_spec(65536, c.0);
        if q == i32::MIN {
            None
        } else {
            Some(Fixed(if q < 0 { -q } else { q as int } as i32))
        }
    }
}

/// The ray constants for column `col`.
pub open spec fn ray_spec(view: View, trig: TrigTables, col: int) -> Option<Ray> {
    let ra = ray_angle_spec(view.angle, col);
    let c = trig.cos@[ra];
    let s = trig.sin@[ra];
    match (delta_spec(c), delta_spec(s)) {
        (Some(dx), Some(dy)) => Some(
            Ray {
                angle_diff: ((ra + FINEANGLES - view.angle) % 3600) as usize,
                cos: c,
                sin: s,
                delta_x: dx,
                delta_y: dy,
                step_x: if c.0 < 0 { -1i32 } else { 1i32 },
                step_y: if s.0 < 0 { -1i32 } else { 1i32 },
            },
        ),
        _ => None,
    }
}

/// Distance along the ray to the first grid line of an axis, from the
/// fractional position `frac` within the tile.
pub open spec fn first_side(frac: int, step: i32, delta: Fixed) -> Fixed {
    if step < 0 {
        Fixed(fixed_mul_spec(frac as i32, delta.0))
    } else {
        Fixed(fixed_mul_spec((65536 - frac) as i32, delta.0))
    }
}

/// The column entry of a ray that gives up.
pub open spec fn far_hit() -> ColumnHit {
    ColumnHit { dist: Fixed(FAR_DIST), texture: 0, tex_x: 0, ew_face: false }
}

/// The texture column of a door face, from the fractional hit position and
/// the door's opening.
pub open spec fn door_tex_x(f: int, open_frac: int) -> u8 {
    let t = (f - open_frac) / 1024;
    (if t < 0 { 0 } else if t > 63 { 63 } else { t }) as u8
}

/// The DDA march from map cell (mx, my) with side distances (sx, sy), at
/// iteration `i`.  Each step advances whichever side distance is smaller
/// (the y side on ties), then looks at the new cell: a negative coordinate
/// escapes; a door cell (0x80 flag) stops the ray at the door's center line
/// unless the ray passes through its open part; any other non-zero cell is a
/// wall.  After 101 steps the ray gives up with a distance of 64 tiles.
pub open spec fn march(
    view: View,
    level: Level,
    doors: Seq<u8>,
    trig: TrigTables,
    r: Ray,
    mx: int,
    my: int,
    sx: Fixed,
    sy: Fixed,
    i: int,
) -> RayOutcome
    decreases 101 - i,
{
    if i < 0 || i > 100 {
        RayOutcome::Escaped
    } else {
        let ew = sx.0 < sy.0;
        let raw = if ew { sx } else { sy };
        let nmx = if ew { mx + r.step_x } else { mx };
        let nmy = if ew { my } else { my + r.step_y };
        let nsx = if ew { sx.0 + r.delta_x.0 } else { sx.0 as int };
        let nsy = if ew { sy.0 as int } else { sy.0 + r.delta_y.0 };
        if !fits_i32(nsx) || !fits_i32(nsy) {
            RayOutcome::Fault
        } else if nmx < 0 || nmy < 0 {
            RayOutcome::Escaped
        } else if nmy * level.width + nmx >= PLANE_WORDS {
            RayOutcome::Fault
        } else {
            let wall = level.planes[0]@[nmy * level.width + nmx];
            let go_on = if i >= 100 {
                RayOutcome::Hit(far_hit())
            } else {
                march(view, level, doors, trig, r, nmx, nmy, Fixed(nsx as i32), Fixed(nsy as i32), i + 1)
            };
            if wall & 0x80u16 != 0 {
                let idx = (wall & 0x7Fu16) as int;
                let openness = if idx < doors.len() { doors[idx] as int } else { 0 };
                let open_frac = openness * 1024;
                let d = if ew { r.delta_x } else { r.delta_y };
                let mid = raw.0 + fixed_div_spec(d.0, 131072);
                let base = if ew { view.y } else { view.x };
                let dir = if ew { r.sin } else { r.cos };
                if !fits_i32(mid) {
                    RayOutcome::Fault
                } else if !fits_i32(base.0 + fixed_mul_spec(mid as i32, dir.0)) {
                    RayOutcome::Fault
                } else {
                    let f = (base.0 + fixed_mul_spec(mid as i32, dir.0)) % 65536;
                    if f >= open_frac {
                        RayOutcome::Hit(
                            ColumnHit {
                                dist: Fixed(fixed_mul_spec(mid as i32, trig.cos@[r.angle_diff as int].0)),
                                texture: DOOR_TEXTURE,
                                tex_x: door_tex_x(f, open_frac),
                                ew_face: ew,
                            },
                        )
                    } else {
                        go_on
                    }
                }
            } else if wall > 0 {
                let base = if ew { view.y } else { view.x };
                let dir = if ew { r.sin } else { r.cos };
                if !fits_i32(base.0 + fixed_mul_spec(raw.0, dir.0)) {
                    RayOutcome::Fault
                } else {
                    let f = (base.0 + fixed_mul_spec(raw.0, dir.0)) % 65536;
                    RayOutcome::Hit(
                        ColumnHit {
                            dist: Fixed(fixed_mul_spec(raw.0, trig.cos@[r.angle_diff as int].0)),
                            texture: wall & 0xFFBFu16,
                            tex_x: (f / 1024) as u8,
                            ew_face: ew,
                        },
                    )
                }
            } else {
                go_on
            }
        }
    }
}

/// The outcome of the ray for screen column `col`.
pub open spec fn cast_column_spec(
    view: View,
    level: Level,
    doors: Seq<u8>,
    trig: TrigTables,
    col: int,
) -> RayOutcome {
    match ray_spec(view, trig, col) {
        None => RayOutcome::Fault,
        Some(r) => march(
            view,
            level,
            doors,
            trig,
            r,
            view.x.0 as int / 65536,
            view.y.0 as int / 65536,
            first_side(view.x.0 as int % 65536, r.step_x, r.delta_x),
            first_side(view.y.0 as int % 65536, r.step_y, r.delta_y),
            0,
        ),
    }
}

/// The tables hold an entry for every fine angle.
pub open spec fn trig_wf(t: TrigTables) -> bool {
    t.cos@.len() == FINEANGLES && t.sin@.len() == FINEANGLES
}

/// The column entry after a frame, given the previous entry.
pub open spec fn column_after(o: RayOutcome, prev: ColumnHit) -> ColumnHit {
    match o {
        RayOutcome::Hit(h) => h,
        _ => prev,
    }
}

/// The depth entry after a frame, given the previous entry.
pub open spec fn depth_after(o: RayOutcome, prev: Fixed) -> Fixed {
    match o {
        RayOutcome::Hit(h) => h.dist,
        _ => prev,
    }
}

/// Whether column `col`'s ray faults.
pub open spec fn faults(view: View, level: Level, doors: Seq<u8>, trig: TrigTables, col: int) -> bool {
    cast_column_spec(view, level, doors, trig, col) is Fault
}


/// Every column's entry after the rays of columns `0..upto` were applied to
/// `prev`.
pub open spec fn columns_through(
    prev: Seq<ColumnHit>,
    view: View,
    level: Level,
    doors: Seq<u8>,
    trig: TrigTables,
    upto: int,
) -> Seq<ColumnHit> {
    Seq::new(
        prev.len(),
        |c: int|
            if c < upto {
                column_after(cast_column_spec(view, level, doors, trig, c), prev[c])
            } else {
                prev[c]
            },
    )
}

/// Every depth entry after the rays of columns `0..upto` were applied to
/// `prev`.
pub open spec fn depths_through(
    prev: Seq<Fixed>,
    view: View,
    level: Level,
    doors: Seq<u8>,
    trig: TrigTables,
    upto: int,
) -> Seq<Fixed> {
    Seq::new(
        prev.len(),
        |c: int|
            if c < upto {
                depth_after(cast_column_spec(view, level, doors, trig, c), prev[c])
            } else {
                prev[c]
            },
    )
}

/// Ceiling colour above the horizon, floor colour below it.
pub open spec fn sky_floor_color(y: int) -> [u8; 4] {
    if y < HALF_HEIGHT {
        [0x39u8, 0x39u8, 0x39u8, 0xFFu8]
    } else {
        [0x70u8, 0x70u8, 0x70u8, 0xFFu8]
    }
}

/// `fb` after the first `n` pixels of view row `y` are painted with the
/// row's ceiling or floor colour.
pub open spec fn shade_row(fb: Seq<u8>, stride: int, y: int, n: nat) -> Seq<u8>
    decreases n,
{
    if n == 0 {
        fb
    } else {
        put_px(shade_row(fb, stride, y, (n - 1) as nat), (y * stride + n - 1) * 4, sky_floor_color(y))
    }
}

/// `fb` after the first `rows` view rows are painted, top to bottom.
pub open spec fn shade_rows(fb: Seq<u8>, stride: int, rows: nat) -> Seq<u8>
    decreases rows,
{
    if rows == 0 {
        fb
    } else {
        shade_row(shade_rows(fb, stride, (rows - 1) as nat), stride, rows - 1, VIEW_WIDTH as nat)
    }
}

/// Projected height in pixels of a wall at non-zero perpendicular distance
/// `d`: the integer part of `152 / d`, clamped to `0..=152`.
pub open spec fn wall_height(d: Fixed) -> int {
    let h = fixed_div_spec(9961472, d.0) as int / 65536;
    if h < 0 {
        0
    } else if h > VIEW_HEIGHT {
        VIEW_HEIGHT as int
    } else {
        h
    }
}

/// The colour of texture row `tex_y` of a wall column: the RGB texel of the
/// hit's texture (halved on E/W faces), magenta when the texel lies outside
/// the texture data, and plain red (dark on E/W faces) when the texture is
/// missing.
pub open spec fn wall_texel(hit: ColumnHit, textures: Seq<Vec<u8>>, tex_y: int) -> [u8; 4] {
    if (hit.texture as int) < textures.len() {
        let t = textures[hit.texture as int]@;
        let idx = (tex_y * 64 + hit.tex_x) * 3;
        if idx + 2 < t.len() {
            if hit.ew_face {
                [t[idx] / 2, t[idx + 1] / 2, t[idx + 2] / 2, 0xFFu8]
            } else {
                [t[idx], t[idx + 1], t[idx + 2], 0xFFu8]
            }
        } else {
            [0xFFu8, 0x00u8, 0xFFu8, 0xFFu8]
        }
    } else if hit.ew_face {
        [0x55u8, 0x00u8, 0x00u8, 0xFFu8]
    } else {
        [0xFFu8, 0x00u8, 0x00u8, 0xFFu8]
    }
}

/// `fb` after the first `n` rows of a wall strip of height `h` starting at
/// view row `top` are drawn in screen column `col`.
pub open spec fn wall_rows(
    fb: Seq<u8>,
    stride: int,
    col: int,
    hit: ColumnHit,
    textures: Seq<Vec<u8>>,
    top: int,
    h: int,
    n: nat,
) -> Seq<u8>
    decreases n,
{
    if n == 0 {
        fb
    } else {
        put_px(
            wall_rows(fb, stride, col, hit, textures, top, h, (n - 1) as nat),
            ((top + n - 1) * stride + col) * 4,
            wall_texel(hit, textures, (n - 1) * 64 / h),
        )
    }
}

/// `fb` after screen column `col` is drawn for `hit`: a centred strip of
/// `wall_height` rows, or nothing when the distance is zero.
pub open spec fn wall_column(
    fb: Seq<u8>,
    stride: int,
    col: int,
    hit: ColumnHit,
    textures: Seq<Vec<u8>>,
) -> Seq<u8> {
    if hit.dist.0 == 0 {
        fb
    } else {
        let h = wall_height(hit.dist);
        wall_rows(fb, stride, col, hit, textures, HALF_HEIGHT - h / 2, h, h as nat)
    }
}

/// `fb` after the first `n` screen columns are drawn from `cols`.
pub open spec fn walls_drawn(
    fb: Seq<u8>,
    stride: int,
    cols: Seq<ColumnHit>,
    textures: Seq<Vec<u8>>,
    n: nat,
) -> Seq<u8>
    decreases n,
{
    if n == 0 {
        fb
    } else {
        wall_column(walls_drawn(fb, stride, cols, textures, (n - 1) as nat), stride, n - 1, cols[n - 1], textures)
    }
}

/// Byte offsets of every view pixel fit in a `usize` for this row stride.
pub open spec fn stride_fits(stride: int) -> bool {
    ((VIEW_HEIGHT - 1) * stride + VIEW_WIDTH - 1) * 4 + 3 <= usize::MAX
}


/// The outcome of drawing a frame from renderer state `before`: the tables
/// stay; when no ray faults, every column took its ray's outcome and `fb`
/// holds the ceiling, floor and wall strips; otherwise the frame failed at
/// the first faulting column, the columns before it were updated and `fb`
/// holds only the ceiling and floor.
pub open spec fn frame_drawn(
    before: Renderer,
    after: Renderer,
    fb0: Seq<u8>,
    fb1: Seq<u8>,
    stride: int,
    view: View,
    level: Level,
    textures: Seq<Vec<u8>>,
    doors: Seq<u8>,
    r: Result<(), RayFault>,
) -> bool {
    &&& after.trig == before.trig
    &&& (r is Ok <==> forall|c: int| 0 <= c < VIEW_WIDTH ==> !#[trigger] faults(view, level, doors, before.trig, c))
    &&& match r {
        Ok(_) => after.columns@ == columns_through(before.columns@, view, level, doors, before.trig, VIEW_WIDTH as int)
            && after.depth_buf@ == depths_through(before.depth_buf@, view, level, doors, before.trig, VIEW_WIDTH as int)
            && fb1 == walls_drawn(shade_rows(fb0, stride, VIEW_HEIGHT as nat), stride, after.columns@, textures, VIEW_WIDTH as nat),
        Err(e) => e.column < VIEW_WIDTH && faults(view, level, doors, before.trig, e.column as int)
            && (forall|c: int| 0 <= c < e.column ==> !#[trigger] faults(view, level, doors, before.trig, c))
            && after.columns@ == columns_through(before.columns@, view, level, doors, before.trig, e.column as int)
            && after.depth_buf@ == depths_through(before.depth_buf@, view, level, doors, before.trig, e.column as int)
            && fb1 == shade_rows(fb0, stride, VIEW_HEIGHT as nat),
    }
}

/// A wall hit taken where the ray has travelled `len`: the recorded
/// distance is `len` times the cosine of the ray's offset from the view
/// angle (the perpendicular distance to the view plane, free of fisheye
/// bending), and the texture column is the position along the wall face
/// where the ray met it.
pub open spec fn wall_hit_at(h: ColumnHit, view: View, r: Ray, trig: TrigTables, len: i32) -> bool {
    let base = if h.ew_face { view.y } else { view.x };
    let dir = if h.ew_face { r.sin } else { r.cos };
    &&& h.dist.0 == fixed_mul_spec(len, trig.cos@[r.angle_diff as int].0)
    &&& fits_i32(base.0 + fixed_mul_spec(len, dir.0))
    &&& h.tex_x as int == ((base.0 + fixed_mul_spec(len, dir.0)) % 65536) / 1024
}

proof fn lemma_march_walls(
    view: View,
    level: Level,
    doors: Seq<u8>,
    trig: TrigTables,
    r: Ray,
    mx: int,
    my: int,
    sx: Fixed,
    sy: Fixed,
    i: int,
)
    ensures
        march(view, level, doors, trig, r, mx, my, sx, sy, i) matches RayOutcome::Hit(h) ==> (h == far_hit()
            || h.texture == DOOR_TEXTURE || exists|len: i32| #[trigger] wall_hit_at(h, view, r, trig, len)),
    decreases 101 - i,
{
    if 0 <= i <= 100 {
        let ew = sx.0 < sy.0;
        let raw = if ew { sx } else { sy };
        let nmx = if ew { mx + r.step_x } else { mx };
        let nmy = if ew { my } else { my + r.step_y };
        let nsx = if ew { sx.0 + r.delta_x.0 } else { sx.0 as int };
        let nsy = if ew { sy.0 as int } else { sy.0 + r.delta_y.0 };
        if i < 100 && fits_i32(nsx) && fits_i32(nsy) {
            lemma_march_walls(view, level, doors, trig, r, nmx, nmy, Fixed(nsx as i32), Fixed(nsy as i32), i + 1);
        }
        if fits_i32(nsx) && fits_i32(nsy) && nmx >= 0 && nmy >= 0 && nmy * level.width + nmx < PLANE_WORDS {
            let wall = level.planes[0]@[nmy * level.width + nmx];
            if wall & 0x80u16 == 0 && wall > 0 {
                let base = if ew { view.y } else { view.x };
                let dir = if ew { r.sin } else { r.cos };
                if fits_i32(base.0 + fixed_mul_spec(raw.0, dir.0)) {
                    let f = (base.0 + fixed_mul_spec(raw.0, dir.0)) % 65536;
                    assert(0 <= f < 65536);
                    assert(0 <= f / 1024 < 64);
                    assert(((f / 1024) as u8) as int == f / 1024);
                    let h = ColumnHit {
                        dist: Fixed(fixed_mul_spec(raw.0, trig.cos@[r.angle_diff as int].0)),
                        texture: wall & 0xFFBFu16,
                        tex_x: (f / 1024) as u8,
                        ew_face: ew,
                    };
                    assert(march(view, level, doors, trig, r, mx, my, sx, sy, i) == RayOutcome::Hit(h));
                    assert(wall_hit_at(h, view, r, trig, raw.0));
                }
            }
        }
    }
}

/// Walls are drawn without fisheye: the distance recorded for a column's
/// wall hit is the length the ray travelled to the wall times the cosine of
/// the ray's offset from the view angle, measured at the same point of the
/// wall that gives the texture column (rays that give up and door faces
/// aside).
pub proof fn law_wall_distance_is_perpendicular(view: View, level: Level, doors: Seq<u8>, trig: TrigTables, col: int)
    ensures
        cast_column_spec(view, level, doors, trig, col) matches RayOutcome::Hit(h) ==> (h == far_hit() || h.texture
            == DOOR_TEXTURE || (ray_spec(view, trig, col) matches Some(r) && exists|len: i32|
            #[trigger] wall_hit_at(h, view, r, trig, len))),
{
    if let Some(r) = ray_spec(view, trig, col) {
        lemma_march_walls(
            view,
            level,
            doors,
            trig,
            r,
            view.x.0 as int / 65536,
            view.y.0 as int / 65536,
            first_side(view.x.0 as int % 65536, r.step_x, r.delta_x),
            first_side(view.y.0 as int % 65536, r.step_y, r.delta_y),
            0,
        );
    }
}

/// The depth buffer mirrors the columns: when every depth entry is its
/// column's distance before a frame, it still is after the rays of any
/// number of columns have been applied (a fresh renderer starts that way).
pub proof fn law_depth_tracks_columns(
    cols: Seq<ColumnHit>,
    depths: Seq<Fixed>,
    view: View,
    level: Level,
    doors: Seq<u8>,
    trig: TrigTables,
    upto: int,
)
    requires
        cols.len() == depths.len(),
        forall|c: int| 0 <= c < cols.len() ==> #[trigger] depths[c] == cols[c].dist,
    ensures
        forall|c: int|
            0 <= c < cols.len() ==> #[trigger] depths_through(depths, view, level, doors, trig, upto)[c]
                == columns_through(cols, view, level, doors, trig, upto)[c].dist,
{
}

impl Renderer {
    /// Tables cover every fine angle and there is one column and one depth
    /// entry per screen column.
    pub open spec fn wf(&self) -> bool {
        trig_wf(self.trig) && self.columns@.len() == VIEW_WIDTH && self.depth_buf@.len() == VIEW_WIDTH
    }
}

impl Renderer {
    /// A renderer over the given trigonometry tables, with empty columns
    /// and a zero depth buffer.
    pub fn new(trig: TrigTables) -> (r: Renderer)
        ensures
            r.trig == trig,
            r.columns@ == Seq::new(VIEW_WIDTH as nat, |_i: int| blank_hit()),
            r.depth_buf@ == Seq::new(VIEW_WIDTH as nat, |_i: int| Fixed(0)),
    {
        let mut columns: Vec<ColumnHit> = Vec::new();
        let mut depth_buf: Vec<Fixed> = Vec::new();
        let mut i: usize = 0;
        while i < VIEW_WIDTH
            invariant
                i <= VIEW_WIDTH,
                columns@ == Seq::new(i as nat, |_i: int| blank_hit()),
                depth_buf@ == Seq::new(i as nat, |_i: int| Fixed(0)),
            decreases VIEW_WIDTH - i,
        {
            columns.push(ColumnHit { dist: Fixed(0), texture: 0, tex_x: 0, ew_face: false });
            depth_buf.push(Fixed(0));
            i = i + 1;
            assert(columns@ =~= Seq::new(i as nat, |_i: int| blank_hit()));
            assert(depth_buf@ =~= Seq::new(i as nat, |_i: int| Fixed(0)));
        }
        Renderer { trig, columns, depth_buf }
    }

    /// The ray constants for a column (see `ray_spec`).
    fn ray_for(&self, view: &View, col: usize) -> (r: Option<Ray>)
        requires
            trig_wf(self.trig),
            view.angle < FINEANGLES,
            col < VIEW_WIDTH,
        ensures
            r == ray_spec(*view, self.trig, col as int),
    {
        let fov_half = FINEANGLES / 12;
        let start_angle = (view.angle + FINEANGLES - fov_half) % FINEANGLES;
        assert(col * 600 < 153600) by (nonlinear_arith)
            requires
                col < 256,
        ;
        let ray_angle = (start_angle + col * (FINEANGLES / 6) / VIEW_WIDTH) % FINEANGLES;
        let angle_diff = (ray_angle + FINEANGLES - view.angle) % FINEANGLES;
        let cos = self.trig.cos(ray_angle);
        let sin = self.trig.sin(ray_angle);
        let delta_dist_x = match delta_for(cos) {
            Some(d) => d,
            None => return None,
        };
        let delta_dist_y = match delta_for(sin) {
            Some(d) => d,
            None => return None,
        };
        let step_x: i32 = if cos.0 < 0 { -1 } else { 1 };
        let step_y: i32 = if sin.0 < 0 { -1 } else { 1 };
        Some(Ray { angle_diff, cos, sin, delta_x: delta_dist_x, delta_y: delta_dist_y, step_x, step_y })
    }

    /// Casts the ray of one column (see `cast_column_spec`).
    fn cast_column(&self, view: &View, level: &Level, door_positions: &[u8], col: usize) -> (r: RayOutcome)
        requires
            trig_wf(self.trig),
            view.angle < FINEANGLES,
            col < VIEW_WIDTH,
        ensures
            r == cast_column_spec(*view, *level, door_positions@, self.trig, col as int),
    {
        let ray = match self.ray_for(view, col) {
            Some(r) => r,
            None => return RayOutcome::Fault,
        };
        let mut map_x = view.x.to_int();
        let mut map_y = view.y.to_int();
        let x_frac = Fixed(view.x.frac());
        let y_frac = Fixed(view.y.frac());
        let mut side_dist_x = if ray.step_x < 0 {
            x_frac * ray.delta_x
        } else {
            (Fixed(65536) - x_frac) * ray.delta_x
        };
        let mut side_dist_y = if ray.step_y < 0 {
            y_frac * ray.delta_y
        } else {
            (Fixed(65536) - y_frac) * ray.delta_y
        };
        let ghost total = cast_column_spec(*view, *level, door_positions@, self.trig, col as int);
        let mut i: u8 = 0;
        loop
            invariant
                trig_wf(self.trig),
                i <= 100,
                ray_spec(*view, self.trig, col as int) == Some(ray),
                ray.angle_diff < FINEANGLES,
                ray.step_x == 1 || ray.step_x == -1,
                ray.step_y == 1 || ray.step_y == -1,
                -32768 - i <= map_x <= 32767 + i,
                -32768 - i <= map_y <= 32767 + i,
                total == cast_column_spec(*view, *level, door_positions@, self.trig, col as int),
                total == march(
                    *view,
                    *level,
                    door_positions@,
                    self.trig,
                    ray,
                    map_x as int,
                    map_y as int,
                    side_dist_x,
                    side_dist_y,
                    i as int,
                ),
            decreases 100 - i,
        {
            let ew_face: bool = side_dist_x.0 < side_dist_y.0;
            let raw_dist = if ew_face { side_dist_x } else { side_dist_y };
            if ew_face {
                map_x = map_x + ray.step_x;
                side_dist_x = match side_dist_x.0.checked_add(ray.delta_x.0) {
                    Some(v) => Fixed(v),
                    None => return RayOutcome::Fault,
                };
            } else {
                map_y = map_y + ray.step_y;
                side_dist_y = match side_dist_y.0.checked_add(ray.delta_y.0) {
                    Some(v) => Fixed(v),
                    None => return RayOutcome::Fault,
                };
            }
            if map_x < 0 || map_y < 0 {
                return RayOutcome::Escaped;
            }
            let mx = map_x as usize;
            let my = map_y as usize;
            let cell: usize = match my.checked_mul(level.width) {
                Some(p) => match p.checked_add(mx) {
                    Some(k) => k,
                    None => return RayOutcome::Fault,
                },
                None => return RayOutcome::Fault,
            };
            if cell >= PLANE_WORDS {
                return RayOutcome::Fault;
            }
            let wall = level.wall_at(mx, my);
            if wall & 0x80u16 != 0 {
                let door_idx = (wall & 0x7Fu16) as usize;
                let openness: u8 = if door_idx < door_positions.len() { door_positions[door_idx] } else { 0 };
                let open_frac = Fixed(openness as i32 * 1024);
                let d = if ew_face { ray.delta_x } else { ray.delta_y };
                let half = d / Fixed(131072);
                let mid_dist = match raw_dist.0.checked_add(half.0) {
                    Some(v) => Fixed(v),
                    None => return RayOutcome::Fault,
                };
                let base = if ew_face { view.y } else { view.x };
                let dir = if ew_face { ray.sin } else { ray.cos };
                let prod = mid_dist * dir;
                let at_door = match base.0.checked_add(prod.0) {
                    Some(v) => Fixed(v),
                    None => return RayOutcome::Fault,
                };
                let f = Fixed(at_door.frac());
                if f.0 >= open_frac.0 {
                    let perp = mid_dist * self.trig.cos(ray.angle_diff);
                    let diff: i32 = f.0 - open_frac.0;
                    let t = diff >> 10u32;
                    proof {
                        assert((diff >> 10u32) as int == diff / 1024) by (bit_vector)
                            requires
                                0 <= diff < 0x1_0000,
                        ;
                    }
                    let tex_x: u8 = if t < 0 { 0 } else if t > 63 { 63 } else { t as u8 };
                    return RayOutcome::Hit(ColumnHit { dist: perp, texture: DOOR_TEXTURE, tex_x, ew_face });
                }
            } else if wall > 0 {
                let base = if ew_face { view.y } else { view.x };
                let dir = if ew_face { ray.sin } else { ray.cos };
                let prod = raw_dist * dir;
                let wall_hit = match base.0.checked_add(prod.0) {
                    Some(v) => Fixed(v),
                    None => return RayOutcome::Fault,
                };
                let perp = raw_dist * self.trig.cos(ray.angle_diff);
                let frac = wall_hit.frac();
                proof {
                    assert((frac >> 10u32) as int == frac / 1024) by (bit_vector)
                        requires
                            0 <= frac < 0x1_0000,
                    ;
                }
                let tex_x: u8 = (frac >> 10u32) as u8;
                return RayOutcome::Hit(ColumnHit { dist: perp, texture: wall & 0xFFBFu16, tex_x, ew_face });
            }
            if i >= MAX_ITER {
                return RayOutcome::Hit(ColumnHit { dist: Fixed(FAR_DIST), texture: 0, tex_x: 0, ew_face: false });
            }
            i = i + 1;
        }
    }

    /// Casts one ray per screen column and records the hits in `columns`
    /// and `depth_buf`.  A ray that leaves the map through a negative
    /// coordinate leaves its column as it was.  Fails at the first column
    /// whose ray faults, with the columns before it already updated.
    fn cast_walls(&mut self, view: &View, level: &Level, door_positions: &[u8]) -> (r: Result<(), RayFault>)
        requires
            old(self).wf(),
            view.angle < FINEANGLES,
        ensures
            final(self).wf(),
            final(self).trig == old(self).trig,
            r is Ok <==> forall|c: int|
                0 <= c < VIEW_WIDTH ==> !#[trigger] faults(*view, *level, door_positions@, old(self).trig, c),
            match r {
                Ok(_) => final(self).columns@ == columns_through(
                    old(self).columns@,
                    *view,
                    *level,
                    door_positions@,
                    old(self).trig,
                    VIEW_WIDTH as int,
                ) && final(self).depth_buf@ == depths_through(
                    old(self).depth_buf@,
                    *view,
                    *level,
                    door_positions@,
                    old(self).trig,
                    VIEW_WIDTH as int,
                ),
                Err(e) => e.column < VIEW_WIDTH && faults(*view, *level, door_positions@, old(self).trig, e.column as int)
                    && (forall|c: int| 0 <= c < e.column ==> !#[trigger] faults(*view, *level, door_positions@, old(self).trig, c))
                    && final(self).columns@ == columns_through(
                    old(self).columns@,
                    *view,
                    *level,
                    door_positions@,
                    old(self).trig,
                    e.column as int,
                ) && final(self).depth_buf@ == depths_through(
                    old(self).depth_buf@,
                    *view,
                    *level,
                    door_positions@,
                    old(self).trig,
                    e.column as int,
                ),
            },
    {
        let ghost cols0 = self.columns@;
        let ghost depth0 = self.depth_buf@;
        let ghost trig0 = self.trig;
        let mut col: usize = 0;
        while col < VIEW_WIDTH
            invariant
                col <= VIEW_WIDTH,
                self.wf(),
                self.trig == trig0,
                trig0 == old(self).trig,
                cols0 == old(self).columns@,
                depth0 == old(self).depth_buf@,
                view.angle < FINEANGLES,
                cols0.len() == VIEW_WIDTH,
                depth0.len() == VIEW_WIDTH,
                self.columns@ == columns_through(cols0, *view, *level, door_positions@, trig0, col as int),
                self.depth_buf@ == depths_through(depth0, *view, *level, door_positions@, trig0, col as int),
                forall|c: int| 0 <= c < col ==> !#[trigger] faults(*view, *level, door_positions@, trig0, c),
            decreases VIEW_WIDTH - col,
        {
            let outcome = self.cast_column(view, level, door_positions, col);
            match outcome {
                RayOutcome::Hit(h) => {
                    self.columns[col] = h;
                    self.depth_buf[col] = h.dist;
                },
                RayOutcome::Escaped => {},
                RayOutcome::Fault => {
                    assert(faults(*view, *level, door_positions@, trig0, col as int));
                    return Err(RayFault { column: col });
                },
            }
            col = col + 1;
            assert(self.columns@ =~= columns_through(cols0, *view, *level, door_positions@, trig0, col as int));
            assert(self.depth_buf@ =~= depths_through(depth0, *view, *level, door_positions@, trig0, col as int));
        }
        Ok(())
    }

    /// Paints the ceiling (upper half of the view) and the floor (lower half)
    /// in flat colours, row by row; pixels that do not fit in `fb` are
    /// skipped.
    fn draw_ceiling_floor(&self, fb: &mut [u8], stride: usize)
        requires
            stride_fits(stride as int),
        ensures
            final(fb)@ == shade_rows(old(fb)@, stride as int, VIEW_HEIGHT as nat),
    {
        let ghost start = old(fb)@;
        let mut y: usize = 0;
        while y < VIEW_HEIGHT
            invariant
                y <= VIEW_HEIGHT,
                stride_fits(stride as int),
                fb@ == shade_rows(start, stride as int, y as nat),
            decreases VIEW_HEIGHT - y,
        {
            let color: [u8; 4] = if y < HALF_HEIGHT {
                [0x39, 0x39, 0x39, 0xFF]
            } else {
                [0x70, 0x70, 0x70, 0xFF]
            };
            assert(color == sky_floor_color(y as int));
            let ghost row_start = fb@;
            let mut x: usize = 0;
            while x < VIEW_WIDTH
                invariant
                    y < VIEW_HEIGHT,
                    x <= VIEW_WIDTH,
                    stride_fits(stride as int),
                    color == sky_floor_color(y as int),
                    row_start == shade_rows(start, stride as int, y as nat),
                    fb@ == shade_row(row_start, stride as int, y as int, x as nat),
                decreases VIEW_WIDTH - x,
            {
                assert(y * stride <= 151 * stride) by (nonlinear_arith)
                    requires
                        y <= 151,
                ;
                let offset = (y * stride + x) * 4;
                write_px(fb, offset, color);
                x = x + 1;
            }
            y = y + 1;
        }
    }

    /// Draws the textured wall strip of every screen column from `columns`.
    fn draw_walls(&self, fb: &mut [u8], stride: usize, textures: &[Vec<u8>])
        requires
            self.columns@.len() == VIEW_WIDTH,
            stride_fits(stride as int),
        ensures
            final(fb)@ == walls_drawn(old(fb)@, stride as int, self.columns@, textures@, VIEW_WIDTH as nat),
    {
        let ghost start = old(fb)@;
        let mut col: usize = 0;
        while col < VIEW_WIDTH
            invariant
                col <= VIEW_WIDTH,
                self.columns@.len() == VIEW_WIDTH,
                stride_fits(stride as int),
                fb@ == walls_drawn(start, stride as int, self.columns@, textures@, col as nat),
            decreases VIEW_WIDTH - col,
        {
            let hit = self.columns[col];
            if hit.dist.0 != 0 {
                let h_fixed = Fixed::from_int(VIEW_HEIGHT as i32) * Fixed::one() / hit.dist;
                let hi = h_fixed.to_int();
                let wall_h: usize = if hi < 0 {
                    0
                } else if hi > VIEW_HEIGHT as i32 {
                    VIEW_HEIGHT
                } else {
                    hi as usize
                };
                assert(wall_h as int == wall_height(hit.dist));
                let top = HALF_HEIGHT - wall_h / 2;
                let bottom = top + wall_h;
                let end = if bottom < VIEW_HEIGHT { bottom } else { VIEW_HEIGHT };
                let tex = if (hit.texture as usize) < textures.len() {
                    Some(&textures[hit.texture as usize])
                } else {
                    None
                };
                let ghost col_start = fb@;
                let mut y: usize = top;
                while y < end
                    invariant
                        col < VIEW_WIDTH,
                        hit == self.columns@[col as int],
                        hit.dist.0 != 0,
                        wall_h as int == wall_height(hit.dist),
                        top == HALF_HEIGHT - wall_h / 2,
                        end == top + wall_h,
                        end <= VIEW_HEIGHT,
                        top <= y <= end,
                        stride_fits(stride as int),
                        tex == (if (hit.texture as int) < textures@.len() {
                            Some(&textures@[hit.texture as int])
                        } else {
                            None
                        }),
                        fb@ == wall_rows(col_start, stride as int, col as int, hit, textures@, top as int, wall_h as int, (y - top) as nat),
                    decreases end - y,
                {
                    assert((y - top) * 64 / (wall_h as int) < 64) by (nonlinear_arith)
                        requires
                            y - top < wall_h,
                            0 <= y - top,
                    ;
                    let tex_y: u8 = ((y - top) * 64 / wall_h) as u8;
                    assert(tex_y as int == (y - top) * 64 / wall_h as int);
                    let px: [u8; 4] = match tex {
                        Some(t) => {
                            let idx = (tex_y as usize * 64 + hit.tex_x as usize) * 3;
                            if idx + 2 < t.len() {
                                let r = t[idx];
                                let g = t[idx + 1];
                                let b = t[idx + 2];
                                if hit.ew_face {
                                    proof {
                                        assert(r >> 1u8 == r / 2) by (bit_vector);
                                        assert(g >> 1u8 == g / 2) by (bit_vector);
                                        assert(b >> 1u8 == b / 2) by (bit_vector);
                                    }
                                    [r >> 1u8, g >> 1u8, b >> 1u8, 0xFF]
                                } else {
                                    [r, g, b, 0xFF]
                                }
                            } else {
                                [0xFF, 0x00, 0xFF, 0xFF]
                            }
                        },
                        None => {
                            if hit.ew_face {
                                [0x55, 0x00, 0x00, 0xFF]
                            } else {
                                [0xFF, 0x00, 0x00, 0xFF]
                            }
                        },
                    };
                    assert(px == wall_texel(hit, textures@, (y - top) * 64 / wall_h as int));
                    assert(y * stride <= 151 * stride) by (nonlinear_arith)
                        requires
                            y <= 151,
                    ;
                    let offset = (y * stride + col) * 4;
                    write_px(fb, offset, px);
                    y = y + 1;
                }
            }
            col = col + 1;
        }
    }

    /// Draws a full frame into `fb` (RGBA8888, `stride` pixels per row):
    /// ceiling and floor, then the rays, then the wall strips.  When a ray
    /// faults the frame stops after the ceiling and floor, with the columns
    /// before the faulting one updated.
    pub fn draw_frame(
        &mut self,
        fb: &mut [u8],
        stride: usize,
        view: &View,
        level: &Level,
        textures: &[Vec<u8>],
        door_positions: &[u8],
    ) -> (r: Result<(), RayFault>)
        requires
            old(self).wf(),
            view.angle < FINEANGLES,
            stride_fits(stride as int),
        ensures
            final(self).wf(),
            frame_drawn(
                *old(self),
                *final(self),
                old(fb)@,
                final(fb)@,
                stride as int,
                *view,
                *level,
                textures@,
                door_positions@,
                r,
            ),
    {
        self.draw_ceiling_floor(fb, stride);
        let cast = self.cast_walls(view, level, door_positions);
        match cast {
            Ok(()) => {
                self.draw_walls(fb, stride, textures);
                Ok(())
            },
            Err(e) => Err(e),
        }
    }
}

/// `|1 / c|`, or 64 tiles when `c` is zero (see `delta_spec`).
fn delta_for(c: Fixed) -> (r: Option<Fixed>)
    ensures
        r == delta_spec(c),
{
    if c.0 == 0 {
        Some(Fixed(FAR_DIST))
    } else {
        let q = Fixed(65536) / c;
        if q.0 == i32::MIN {
            None
        } else {
            Some(q.abs())
        }
    }
}

} // verus!
