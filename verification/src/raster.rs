use vstd::prelude::*;

use crate::rat::Rat;
use crate::vec::{lemma_mul_abs_bound, lemma_mul_pos, Vec2i, Vec3q};

verus! {

/// Bound on the screen coordinates accepted by the rasterizer.
pub const MAX_COORD: i32 = 4096;

/// Bound on the numerator and denominator of depth and color rationals
/// accepted by the rasterizer (2^20).
pub const ATTR_LIMIT: i64 = 1048576;

/// Bound on the barycentric numerators produced for in-range triangles
/// (2^31).
pub const BARY_LIMIT: i128 = 2147483648;

/// Bound on the numerator of an interpolated depth value (2^54).
pub const DEPTH_NUM_LIMIT: i128 = 18014398509481984;

/// Bound on the denominator of an interpolated depth value (2^52).
pub const DEPTH_DEN_LIMIT: i128 = 4503599627370496;

/// A screen-space point: integer pixel coordinates and an exact rational
/// depth.
#[derive(Clone, Copy, Debug, PartialEq, Eq, Structural)]
pub struct ScreenPt {
    pub x: i32,
    pub y: i32,
    pub z: Rat,
}

impl ScreenPt {
    pub open spec fn wf(self) -> bool {
        &&& -MAX_COORD <= self.x <= MAX_COORD
        &&& -MAX_COORD <= self.y <= MAX_COORD
        &&& self.z.wf()
        &&& -ATTR_LIMIT < self.z.num < ATTR_LIMIT
        &&& self.z.den < ATTR_LIMIT
    }
}

/// The three screen points of a triangle are well formed and share one
/// depth denominator, so that interpolated depths stay exact in `i128`.
pub open spec fn wf_tri(t: [ScreenPt; 3]) -> bool {
    &&& t[0].wf()
    &&& t[1].wf()
    &&& t[2].wf()
    &&& t[0].z.den == t[1].z.den
    &&& t[1].z.den == t[2].z.den
}

/// The three per-vertex colors are well formed and bounded.
pub open spec fn wf_cols(cs: [Vec3q; 3]) -> bool {
    &&& cs[0].abs_lt(ATTR_LIMIT as int)
    &&& cs[1].abs_lt(ATTR_LIMIT as int)
    &&& cs[2].abs_lt(ATTR_LIMIT as int)
}

/// Twice the signed area of the triangle `(a, b, c)`: positive when the
/// vertices wind counter-clockwise.
pub open spec fn orient2d(ax: int, ay: int, bx: int, by: int, cx: int, cy: int) -> int {
    (bx - ax) * (cy - ay) - (by - ay) * (cx - ax)
}

/// The `z` component of the barycentric cross product; constant over the
/// pixel, equal to minus twice the triangle's signed area.
pub open spec fn bary_uz(t: [ScreenPt; 3]) -> int {
    (t[2].x - t[0].x) * (t[1].y - t[0].y) - (t[1].x - t[0].x) * (t[2].y - t[0].y)
}

/// The `x` component of the barycentric cross product at pixel `(px, py)`.
pub open spec fn bary_ux(t: [ScreenPt; 3], px: int, py: int) -> int {
    (t[1].x - t[0].x) * (t[0].y - py) - (t[0].x - px) * (t[1].y - t[0].y)
}

/// The `y` component of the barycentric cross product at pixel `(px, py)`.
pub open spec fn bary_uy(t: [ScreenPt; 3], px: int, py: int) -> int {
    (t[0].x - px) * (t[2].y - t[0].y) - (t[2].x - t[0].x) * (t[0].y - py)
}

/// Numerator of the first barycentric weight (of vertex 0), over the
/// denominator `bary_uz`.
pub open spec fn bary_b0(t: [ScreenPt; 3], px: int, py: int) -> int {
    bary_uz(t) - bary_ux(t, px, py) - bary_uy(t, px, py)
}

/// Numerator of the second barycentric weight (of vertex 1).
pub open spec fn bary_b1(t: [ScreenPt; 3], px: int, py: int) -> int {
    bary_uy(t, px, py)
}

/// Numerator of the third barycentric weight (of vertex 2).
pub open spec fn bary_b2(t: [ScreenPt; 3], px: int, py: int) -> int {
    bary_ux(t, px, py)
}

/// The pixel center lies inside the triangle: the triangle is not
/// degenerate and all three barycentric weights are at least zero (the
/// weights share the denominator `bary_uz`, so the sign test flips with
/// it).  Edges count as inside.
pub open spec fn inside(t: [ScreenPt; 3], px: int, py: int) -> bool {
    let uz = bary_uz(t);
    &&& uz != 0
    &&& if uz > 0 {
        bary_b0(t, px, py) >= 0 && bary_b1(t, px, py) >= 0 && bary_b2(t, px, py) >= 0
    } else {
        bary_b0(t, px, py) <= 0 && bary_b1(t, px, py) <= 0 && bary_b2(t, px, py) <= 0
    }
}

/// Smallest pixel column of the bounding box: the least vertex `x`,
/// clamped to zero.
pub open spec fn bbox_min_x(t: [ScreenPt; 3]) -> int {
    let m = vstd::math::min(t[0].x as int, vstd::math::min(t[1].x as int, t[2].x as int));
    vstd::math::max(0, m)
}

pub open spec fn bbox_min_y(t: [ScreenPt; 3]) -> int {
    let m = vstd::math::min(t[0].y as int, vstd::math::min(t[1].y as int, t[2].y as int));
    vstd::math::max(0, m)
}

/// One past the largest pixel column of the bounding box (exclusive).
pub open spec fn bbox_max_x(t: [ScreenPt; 3]) -> int {
    vstd::math::max(t[0].x as int, vstd::math::max(t[1].x as int, t[2].x as int)) + 1
}

pub open spec fn bbox_max_y(t: [ScreenPt; 3]) -> int {
    vstd::math::max(t[0].y as int, vstd::math::max(t[1].y as int, t[2].y as int)) + 1
}

pub open spec fn in_bbox(t: [ScreenPt; 3], px: int, py: int) -> bool {
    &&& bbox_min_x(t) <= px < bbox_max_x(t)
    &&& bbox_min_y(t) <= py < bbox_max_y(t)
}

/// The rasterizer considers pixel `(px, py)` for this triangle: it lies in
/// the bounding box and inside the triangle.
pub open spec fn covered(t: [ScreenPt; 3], px: int, py: int) -> bool {
    in_bbox(t, px, py) && inside(t, px, py)
}

/// Numerator of the interpolated depth at `(px, py)`, before sign
/// normalization, over the denominator `bary_uz(t) * t[0].z.den`.
pub open spec fn z_num_raw(t: [ScreenPt; 3], px: int, py: int) -> int {
    bary_b0(t, px, py) * t[0].z.num + bary_b1(t, px, py) * t[1].z.num + bary_b2(t, px, py)
        * t[2].z.num
}

pub open spec fn z_den_raw(t: [ScreenPt; 3]) -> int {
    bary_uz(t) * t[0].z.den
}

/// Numerator of the interpolated depth, normalized to a positive
/// denominator.
pub open spec fn z_num(t: [ScreenPt; 3], px: int, py: int) -> int {
    if bary_uz(t) > 0 {
        z_num_raw(t, px, py)
    } else {
        -z_num_raw(t, px, py)
    }
}

/// Positive denominator of the interpolated depth (for a non-degenerate
/// triangle).
pub open spec fn z_den(t: [ScreenPt; 3]) -> int {
    if bary_uz(t) > 0 {
        z_den_raw(t)
    } else {
        -z_den_raw(t)
    }
}

/// One entry of the depth buffer: either no surface seen yet (less than
/// every depth), or the exact rational depth of the nearest surface so
/// far.
#[derive(Clone, Copy, Debug, PartialEq, Eq, Structural)]
pub enum DepthCell {
    Empty,
    Depth { num: i128, den: i128 },
}

impl DepthCell {
    pub open spec fn wf(self) -> bool {
        match self {
            DepthCell::Empty => true,
            DepthCell::Depth { num, den } => {
                &&& 0 < den < DEPTH_DEN_LIMIT
                &&& -DEPTH_NUM_LIMIT < num < DEPTH_NUM_LIMIT
            },
        }
    }
}

/// The stored depth is strictly less than the rational `n / d` (with
/// `d > 0`); an empty cell is less than everything.
pub open spec fn cell_lt(c: DepthCell, n: int, d: int) -> bool {
    match c {
        DepthCell::Empty => true,
        DepthCell::Depth { num, den } => num * d < n * den,
    }
}

/// The value of a depth-buffer cell after rasterizing triangle `t` over a
/// buffer whose cell at `(px, py)` held `c`: updated to the interpolated
/// depth exactly when the pixel is covered and passes the strict depth
/// test, otherwise unchanged.
pub open spec fn raster_cell(t: [ScreenPt; 3], c: DepthCell, px: int, py: int) -> DepthCell {
    if covered(t, px, py) && cell_lt(c, z_num(t, px, py), z_den(t)) {
        DepthCell::Depth { num: z_num(t, px, py) as i128, den: z_den(t) as i128 }
    } else {
        c
    }
}

/// The rasterizer plots pixel `(px, py)` (invokes the color write) exactly
/// when the pixel is covered and passes the depth test against the cell
/// value `c` it finds.
pub open spec fn plots_at(t: [ScreenPt; 3], c: DepthCell, px: int, py: int) -> bool {
    covered(t, px, py) && cell_lt(c, z_num(t, px, py), z_den(t))
}

/// Numerator of the interpolated color channel `ch` at `(px, py)`, before
/// sign normalization, over the denominator `col_den_raw`.
pub open spec fn col_num_raw(
    t: [ScreenPt; 3],
    cs: [Vec3q; 3],
    px: int,
    py: int,
    ch: int,
) -> int {
    bary_b0(t, px, py) * cs[0].spec_index(ch) * (cs[1].den * cs[2].den) + bary_b1(t, px, py)
        * cs[1].spec_index(ch) * (cs[0].den * cs[2].den) + bary_b2(t, px, py) * cs[2].spec_index(
        ch,
    ) * (cs[0].den * cs[1].den)
}

pub open spec fn col_den_raw(t: [ScreenPt; 3], cs: [Vec3q; 3]) -> int {
    bary_uz(t) * (cs[0].den * cs[1].den * cs[2].den)
}

/// Numerator of the interpolated color channel, normalized to a positive
/// denominator.
pub open spec fn col_num(t: [ScreenPt; 3], cs: [Vec3q; 3], px: int, py: int, ch: int) -> int {
    if bary_uz(t) > 0 {
        col_num_raw(t, cs, px, py, ch)
    } else {
        -col_num_raw(t, cs, px, py, ch)
    }
}

pub open spec fn col_den(t: [ScreenPt; 3], cs: [Vec3q; 3]) -> int {
    if bary_uz(t) > 0 {
        col_den_raw(t, cs)
    } else {
        -col_den_raw(t, cs)
    }
}

/// Bound on the numerator of an interpolated color channel (2^93).
pub const COL_NUM_LIMIT: i128 = 9903520314283042199192993792;

/// Bound on the denominator of an interpolated color channel (2^92).
pub const COL_DEN_LIMIT: i128 = 4951760157141521099596496896;

/// An exact rational with wide components, as produced by color
/// interpolation.
#[derive(Clone, Copy, Debug, PartialEq, Eq, Structural)]
pub struct WideRat {
    pub num: i128,
    pub den: i128,
}

impl WideRat {
    pub open spec fn wf(self) -> bool {
        self.den > 0
    }
}

/// One pixel write produced by the rasterizer: the pixel and its
/// interpolated color (or interpolated texture coordinates, when the
/// color slots carry them).
#[derive(Clone, Copy, Debug, PartialEq, Eq, Structural)]
pub struct PlotCmd {
    pub x: i32,
    pub y: i32,
    pub r: WideRat,
    pub g: WideRat,
    pub b: WideRat,
}

/// The color rationals of a plot command are well formed and bounded.
pub open spec fn cmd_wf(cmd: PlotCmd) -> bool {
    &&& 0 < cmd.r.den < COL_DEN_LIMIT && -COL_NUM_LIMIT < cmd.r.num < COL_NUM_LIMIT
    &&& 0 < cmd.g.den < COL_DEN_LIMIT && -COL_NUM_LIMIT < cmd.g.num < COL_NUM_LIMIT
    &&& 0 < cmd.b.den < COL_DEN_LIMIT && -COL_NUM_LIMIT < cmd.b.num < COL_NUM_LIMIT
}

/// The plot command is exactly what rasterizing `t` with colors `cs` over
/// the initial buffer `buf0` writes at its pixel.
pub open spec fn plot_ok(
    t: [ScreenPt; 3],
    cs: [Vec3q; 3],
    buf0: DepthBuffer,
    cmd: PlotCmd,
) -> bool {
    let px = cmd.x as int;
    let py = cmd.y as int;
    &&& 0 <= px < buf0.width
    &&& 0 <= py < buf0.height
    &&& plots_at(t, buf0.cell(px, py), px, py)
    &&& cmd.r.num == col_num(t, cs, px, py, 0) && cmd.r.den == col_den(t, cs)
    &&& cmd.g.num == col_num(t, cs, px, py, 1) && cmd.g.den == col_den(t, cs)
    &&& cmd.b.num == col_num(t, cs, px, py, 2) && cmd.b.den == col_den(t, cs)
    &&& cmd_wf(cmd)
}

/// A dense 2D depth buffer, one exact rational depth per pixel,
/// initialized to "no surface seen yet" (the analogue of negative
/// infinity).
#[derive(Clone, Debug)]
pub struct DepthBuffer {
    pub width: usize,
    pub height: usize,
    pub cells: Vec<DepthCell>,
}

impl DepthBuffer {
    pub open spec fn wf(self) -> bool {
        &&& self.width <= 32768
        &&& self.height <= 32768
        &&& self.cells@.len() == self.width * self.height
        &&& forall|k: int| 0 <= k < self.cells@.len() ==> (#[trigger] self.cells@[k]).wf()
    }

    pub open spec fn cell(self, px: int, py: int) -> DepthCell {
        self.cells@[py * self.width + px]
    }

    #[verifier::loop_isolation(false)]
    pub fn new(width: usize, height: usize) -> (r: DepthBuffer)
        requires
            width <= 32768,
            height <= 32768,
        ensures
            r.wf(),
            r.width == width,
            r.height == height,
            forall|px: int, py: int|
                0 <= px < width && 0 <= py < height ==> #[trigger] r.cell(px, py)
                    == DepthCell::Empty,
    {
        proof {
            lemma_mul_abs_bound(width as int, height as int, 32769, 32769);
        }
        let n = width * height;
        let mut cells: Vec<DepthCell> = Vec::new();
        let mut k: usize = 0;
        while k < n
            invariant
                k <= n,
                cells@.len() == k,
                forall|i: int| 0 <= i < k ==> cells@[i] == DepthCell::Empty,
            decreases n - k,
        {
            cells.push(DepthCell::Empty);
            k += 1;
        }
        let r = DepthBuffer { width, height, cells };
        proof {
            assert forall|px: int, py: int|
                0 <= px < width && 0 <= py < height implies #[trigger] r.cell(px, py)
                == DepthCell::Empty by {
                lemma_cell_index(px, py, width as int, height as int);
            }
        }
        r
    }

    pub fn get(&self, x: usize, y: usize) -> (r: DepthCell)
        requires
            self.wf(),
            x < self.width,
            y < self.height,
        ensures
            r == self.cell(x as int, y as int),
            r.wf(),
    {
        proof {
            lemma_cell_index(x as int, y as int, self.width as int, self.height as int);
            lemma_mul_abs_bound(self.width as int, self.height as int, 32769, 32769);
        }
        self.cells[y * self.width + x]
    }

    pub fn set(&mut self, x: usize, y: usize, c: DepthCell)
        requires
            old(self).wf(),
            x < old(self).width,
            y < old(self).height,
            c.wf(),
        ensures
            final(self).wf(),
            final(self).width == old(self).width,
            final(self).height == old(self).height,
            final(self).cell(x as int, y as int) == c,
            forall|px: int, py: int|
                0 <= px < old(self).width && 0 <= py < old(self).height && !(px == x && py == y)
                    ==> #[trigger] final(self).cell(px, py) == old(self).cell(px, py),
    {
        proof {
            lemma_cell_index(x as int, y as int, self.width as int, self.height as int);
            lemma_mul_abs_bound(self.width as int, self.height as int, 32769, 32769);
        }
        let idx = y * self.width + x;
        self.cells.set(idx, c);
        proof {
            assert forall|px: int, py: int|
                0 <= px < old(self).width && 0 <= py < old(self).height && !(px == x as int && py
                    == y as int) implies #[trigger] final(self).cell(px, py) == old(self).cell(
                px,
                py,
            ) by {
                lemma_cell_index(px, py, old(self).width as int, old(self).height as int);
                lemma_cell_index_distinct(
                    px,
                    py,
                    x as int,
                    y as int,
                    old(self).width as int,
                );
            }
        }
    }

    pub fn width(&self) -> (r: usize)
        ensures
            r == self.width,
    {
        self.width
    }

    pub fn height(&self) -> (r: usize)
        ensures
            r == self.height,
    {
        self.height
    }
}

/// The flat index of a pixel lies within a `w * h` cell vector.
proof fn lemma_cell_index(px: int, py: int, w: int, h: int)
    by (nonlinear_arith)
    requires
        0 <= px < w,
        0 <= py < h,
    ensures
        0 <= py * w + px < w * h,
{
}

/// Distinct pixels have distinct flat indices.
proof fn lemma_cell_index_distinct(px: int, py: int, qx: int, qy: int, w: int)
    by (nonlinear_arith)
    requires
        0 <= px < w,
        0 <= qx < w,
        0 <= py,
        0 <= qy,
        !(px == qx && py == qy),
    ensures
        py * w + px != qy * w + qx,
{
}

/// Computes the barycentric coordinates of pixel `p` with respect to the
/// triangle, as three weight numerators over the shared denominator
/// `bary_uz`.  A degenerate triangle (`bary_uz == 0`, the integer form of
/// the magnitude test against one) yields the fixed weights `(-1, 1, 1)`,
/// which fail the inside test.
pub fn barycentric(points: &[ScreenPt; 3], p: Vec2i) -> (b: Bary)
    requires
        wf_tri(*points),
        -2 * MAX_COORD <= p.x <= 2 * MAX_COORD,
        -2 * MAX_COORD <= p.y <= 2 * MAX_COORD,
    ensures
        bary_uz(*points) == 0 ==> b.b0 == -1 && b.b1 == 1 && b.b2 == 1 && b.den == 1,
        bary_uz(*points) != 0 ==> {
            &&& b.den == bary_uz(*points)
            &&& b.b0 == bary_b0(*points, p.x as int, p.y as int)
            &&& b.b1 == bary_b1(*points, p.x as int, p.y as int)
            &&& b.b2 == bary_b2(*points, p.x as int, p.y as int)
        },
        -BARY_LIMIT < b.b0 < BARY_LIMIT,
        -BARY_LIMIT < b.b1 < BARY_LIMIT,
        -BARY_LIMIT < b.b2 < BARY_LIMIT,
        -BARY_LIMIT < b.den < BARY_LIMIT,
        b.den != 0,
{
    let x0 = points[0].x as i128;
    let x1 = points[1].x as i128;
    let x2 = points[2].x as i128;
    let y0 = points[0].y as i128;
    let y1 = points[1].y as i128;
    let y2 = points[2].y as i128;
    let px = p.x as i128;
    let py = p.y as i128;
    proof {
        lemma_mul_abs_bound((x2 - x0) as int, (y1 - y0) as int, 16384, 16384);
        lemma_mul_abs_bound((x1 - x0) as int, (y2 - y0) as int, 16384, 16384);
        lemma_mul_abs_bound((x1 - x0) as int, (y0 - py) as int, 16384, 16384);
        lemma_mul_abs_bound((x0 - px) as int, (y1 - y0) as int, 16384, 16384);
        lemma_mul_abs_bound((x0 - px) as int, (y2 - y0) as int, 16384, 16384);
        lemma_mul_abs_bound((x2 - x0) as int, (y0 - py) as int, 16384, 16384);
    }
    let uz = (x2 - x0) * (y1 - y0) - (x1 - x0) * (y2 - y0);
    let ux = (x1 - x0) * (y0 - py) - (x0 - px) * (y1 - y0);
    let uy = (x0 - px) * (y2 - y0) - (x2 - x0) * (y0 - py);
    if uz == 0 {
        Bary { b0: -1, b1: 1, b2: 1, den: 1 }
    } else {
        Bary { b0: uz - ux - uy, b1: uy, b2: ux, den: uz }
    }
}

/// Barycentric weight numerators over a shared denominator: the weights
/// are `b0 / den`, `b1 / den`, `b2 / den`.
#[derive(Clone, Copy, Debug)]
pub struct Bary {
    pub b0: i128,
    pub b1: i128,
    pub b2: i128,
    pub den: i128,
}

/// Transitivity of the strict order on fractions compared by
/// cross-multiplication (positive denominators).
proof fn lemma_frac_lt_trans(n1: int, d1: int, n2: int, d2: int, n3: int, d3: int)
    by (nonlinear_arith)
    requires
        d1 > 0,
        d2 > 0,
        d3 > 0,
        n1 * d2 < n2 * d1,
        n2 * d3 < n3 * d2,
    ensures
        n1 * d3 < n3 * d1,
{
}

/// For a covered pixel of a well-formed triangle, the interpolated depth
/// numerator and denominator stay within the depth-cell bounds, and the
/// denominator is positive.
pub proof fn lemma_z_bounds(t: [ScreenPt; 3], px: int, py: int)
    requires
        wf_tri(t),
        covered(t, px, py),
    ensures
        -DEPTH_NUM_LIMIT < z_num(t, px, py) < DEPTH_NUM_LIMIT,
        0 < z_den(t) < DEPTH_DEN_LIMIT,
{
    let x0 = t[0].x as int;
    let x1 = t[1].x as int;
    let x2 = t[2].x as int;
    let y0 = t[0].y as int;
    let y1 = t[1].y as int;
    let y2 = t[2].y as int;
    assert(0 <= px <= MAX_COORD && 0 <= py <= MAX_COORD);
    lemma_mul_abs_bound(x2 - x0, y1 - y0, 16384, 16384);
    lemma_mul_abs_bound(x1 - x0, y2 - y0, 16384, 16384);
    lemma_mul_abs_bound(x1 - x0, y0 - py, 16384, 16384);
    lemma_mul_abs_bound(x0 - px, y1 - y0, 16384, 16384);
    lemma_mul_abs_bound(x0 - px, y2 - y0, 16384, 16384);
    lemma_mul_abs_bound(x2 - x0, y0 - py, 16384, 16384);
    let bl = BARY_LIMIT as int;
    let al = ATTR_LIMIT as int;
    lemma_mul_abs_bound(bary_b0(t, px, py), t[0].z.num as int, bl, al);
    lemma_mul_abs_bound(bary_b1(t, px, py), t[1].z.num as int, bl, al);
    lemma_mul_abs_bound(bary_b2(t, px, py), t[2].z.num as int, bl, al);
    lemma_mul_abs_bound(bary_uz(t), t[0].z.den as int, bl, al);
    if bary_uz(t) > 0 {
        lemma_mul_pos(bary_uz(t), t[0].z.den as int);
    } else {
        assert(bary_uz(t) != 0);
        lemma_mul_neg_pos(bary_uz(t), t[0].z.den as int);
    }
}

/// Rasterizing the same triangle a second time changes nothing: the depth
/// test is strict, so every covered pixel now stores a depth at least as
/// large as the triangle's own, no cell is updated and no pixel is
/// plotted.
pub proof fn lemma_rasterize_idempotent(t: [ScreenPt; 3], c: DepthCell, px: int, py: int)
    requires
        wf_tri(t),
    ensures
        raster_cell(t, raster_cell(t, c, px, py), px, py) == raster_cell(t, c, px, py),
        !plots_at(t, raster_cell(t, c, px, py), px, py),
{
    if covered(t, px, py) {
        lemma_z_bounds(t, px, py);
    }
}

/// Which triangle's color a pixel shows after rasterizing `ta` and then
/// `tb` over a buffer cell that held `c`: 2 when `tb` plotted it last, 1
/// when only `ta` plotted it, 0 when it was never plotted.  Because the
/// interpolated color of a triangle depends only on the triangle, its
/// colors and the pixel, equal outcomes mean equal final pixel colors.
pub open spec fn shows(
    ta: [ScreenPt; 3],
    tb: [ScreenPt; 3],
    c: DepthCell,
    px: int,
    py: int,
) -> int {
    if plots_at(tb, raster_cell(ta, c, px, py), px, py) {
        2
    } else if plots_at(ta, c, px, py) {
        1
    } else {
        0
    }
}

/// The depth test is order-independent when the two triangles have
/// distinct interpolated depths wherever both cover the pixel: both
/// rasterization orders leave the same depth in the buffer, and the same
/// triangle's color on the pixel.
pub proof fn lemma_depth_order_independent(
    t1: [ScreenPt; 3],
    t2: [ScreenPt; 3],
    c: DepthCell,
    px: int,
    py: int,
)
    requires
        wf_tri(t1),
        wf_tri(t2),
        c.wf(),
        covered(t1, px, py) && covered(t2, px, py) ==> z_num(t1, px, py) * z_den(t2) != z_num(
            t2,
            px,
            py,
        ) * z_den(t1),
    ensures
        raster_cell(t2, raster_cell(t1, c, px, py), px, py) == raster_cell(
            t1,
            raster_cell(t2, c, px, py),
            px,
            py,
        ),
        shows(t1, t2, c, px, py) == 2 <==> shows(t2, t1, c, px, py) == 1,
        shows(t1, t2, c, px, py) == 1 <==> shows(t2, t1, c, px, py) == 2,
        shows(t1, t2, c, px, py) == 0 <==> shows(t2, t1, c, px, py) == 0,
{
    let a = covered(t1, px, py);
    let b = covered(t2, px, py);
    if a && b {
        lemma_z_bounds(t1, px, py);
        lemma_z_bounds(t2, px, py);
        let n1 = z_num(t1, px, py);
        let d1 = z_den(t1);
        let n2 = z_num(t2, px, py);
        let d2 = z_den(t2);
        if n1 * d2 < n2 * d1 {
            if cell_lt(c, n1, d1) {
                lemma_cell_lt_trans(c, n1, d1, n2, d2);
            }
            match c {
                DepthCell::Empty => {},
                DepthCell::Depth { num, den } => {
                    if !(num * d2 < n2 * den) && num * d1 < n1 * den {
                        lemma_frac_lt_trans(num as int, den as int, n1, d1, n2, d2);
                    }
                },
            }
        } else {
            assert(n2 * d1 < n1 * d2) by (nonlinear_arith)
                requires
                    n1 * d2 != n2 * d1,
                    !(n1 * d2 < n2 * d1),
            ;
            if cell_lt(c, n2, d2) {
                lemma_cell_lt_trans(c, n2, d2, n1, d1);
            }
            match c {
                DepthCell::Empty => {},
                DepthCell::Depth { num, den } => {
                    if !(num * d1 < n1 * den) && num * d2 < n2 * den {
                        lemma_frac_lt_trans(num as int, den as int, n2, d2, n1, d1);
                    }
                },
            }
        }
    } else if a {
        lemma_z_bounds(t1, px, py);
    } else if b {
        lemma_z_bounds(t2, px, py);
    }
}

/// A cell strictly below `n1/d1` is also strictly below any larger
/// `n2/d2`.
proof fn lemma_cell_lt_trans(c: DepthCell, n1: int, d1: int, n2: int, d2: int)
    requires
        c.wf(),
        d1 > 0,
        d2 > 0,
        cell_lt(c, n1, d1),
        n1 * d2 < n2 * d1,
    ensures
        cell_lt(c, n2, d2),
{
    match c {
        DepthCell::Empty => {},
        DepthCell::Depth { num, den } => {
            lemma_frac_lt_trans(num as int, den as int, n1, d1, n2, d2);
        },
    }
}

/// For every pixel whose center lies strictly inside a triangle of
/// positive signed area (by the independent signed-area test), the
/// rasterizer's barycentric weights are all nonnegative, and each weight
/// numerator agrees exactly with the corresponding signed sub-area: there
/// is no deviation between the two formulations.
pub proof fn lemma_inside_weights(t: [ScreenPt; 3], px: int, py: int)
    requires
        orient2d(t[0].x as int, t[0].y as int, t[1].x as int, t[1].y as int, t[2].x as int, t[2].y as int) > 0,
        orient2d(t[0].x as int, t[0].y as int, t[1].x as int, t[1].y as int, px, py) > 0,
        orient2d(t[1].x as int, t[1].y as int, t[2].x as int, t[2].y as int, px, py) > 0,
        orient2d(t[2].x as int, t[2].y as int, t[0].x as int, t[0].y as int, px, py) > 0,
    ensures
        inside(t, px, py),
        bary_uz(t) == -orient2d(
            t[0].x as int,
            t[0].y as int,
            t[1].x as int,
            t[1].y as int,
            t[2].x as int,
            t[2].y as int,
        ),
        bary_b0(t, px, py) == -orient2d(
            t[1].x as int,
            t[1].y as int,
            t[2].x as int,
            t[2].y as int,
            px,
            py,
        ),
        bary_b1(t, px, py) == -orient2d(
            t[2].x as int,
            t[2].y as int,
            t[0].x as int,
            t[0].y as int,
            px,
            py,
        ),
        bary_b2(t, px, py) == -orient2d(
            t[0].x as int,
            t[0].y as int,
            t[1].x as int,
            t[1].y as int,
            px,
            py,
        ),
{
    let x0 = t[0].x as int;
    let x1 = t[1].x as int;
    let x2 = t[2].x as int;
    let y0 = t[0].y as int;
    let y1 = t[1].y as int;
    let y2 = t[2].y as int;
    assert((x2 - x0) * (y1 - y0) - (x1 - x0) * (y2 - y0) == -((x1 - x0) * (y2 - y0) - (y1 - y0) * (
    x2 - x0))) by (nonlinear_arith);
    assert((x1 - x0) * (y0 - py) - (x0 - px) * (y1 - y0) == -((x1 - x0) * (py - y0) - (y1 - y0) * (
    px - x0))) by (nonlinear_arith);
    assert((x0 - px) * (y2 - y0) - (x2 - x0) * (y0 - py) == -((x0 - x2) * (py - y2) - (y0 - y2) * (
    px - x2))) by (nonlinear_arith);
    assert(((x2 - x0) * (y1 - y0) - (x1 - x0) * (y2 - y0)) - ((x1 - x0) * (y0 - py) - (x0 - px) * (
    y1 - y0)) - ((x0 - px) * (y2 - y0) - (x2 - x0) * (y0 - py)) == -((x2 - x1) * (py - y1) - (y2
        - y1) * (px - x1))) by (nonlinear_arith);
}

/// A degenerate triangle (zero signed area, in particular three collinear
/// vertices) covers no pixel: the inside test rejects every pixel, so no
/// cell is updated and nothing is plotted.
pub proof fn lemma_degenerate_rejects_all(t: [ScreenPt; 3], c: DepthCell, px: int, py: int)
    requires
        orient2d(t[0].x as int, t[0].y as int, t[1].x as int, t[1].y as int, t[2].x as int, t[2].y as int) == 0,
    ensures
        !inside(t, px, py),
        raster_cell(t, c, px, py) == c,
        !plots_at(t, c, px, py),
{
    let x0 = t[0].x as int;
    let x1 = t[1].x as int;
    let x2 = t[2].x as int;
    let y0 = t[0].y as int;
    let y1 = t[1].y as int;
    let y2 = t[2].y as int;
    assert((x2 - x0) * (y1 - y0) - (x1 - x0) * (y2 - y0) == -((x1 - x0) * (y2 - y0) - (y1 - y0) * (
    x2 - x0))) by (nonlinear_arith);
}

/// The product of a negative and a positive value is negative.
proof fn lemma_mul_neg_pos(a: int, b: int)
    by (nonlinear_arith)
    requires
        a < 0,
        b > 0,
    ensures
        a * b < 0,
{
}

fn min3(a: i32, b: i32, c: i32) -> (r: i32)
    ensures
        r as int == vstd::math::min(a as int, vstd::math::min(b as int, c as int)),
{
    let m = if b < c {
        b
    } else {
        c
    };
    if a < m {
        a
    } else {
        m
    }
}

fn max3(a: i32, b: i32, c: i32) -> (r: i32)
    ensures
        r as int == vstd::math::max(a as int, vstd::math::max(b as int, c as int)),
{
    let m = if b > c {
        b
    } else {
        c
    };
    if a > m {
        a
    } else {
        m
    }
}

/// Rasterizes one triangle: scans the integer pixels of its clamped
/// bounding box, keeps those whose barycentric weights are all at least
/// zero, applies the strict depth test against `zbuffer`, records the
/// passing depths there, and returns the pixel writes (with exact
/// interpolated colors) in scan order.  Pixels outside the buffer are
/// silently dropped.
#[verifier::loop_isolation(false)]
#[verifier::rlimit(100)]
pub fn triangle(points: &[ScreenPt; 3], colors: &[Vec3q; 3], zbuffer: &mut DepthBuffer) -> (plots:
    Vec<PlotCmd>)
    requires
        wf_tri(*points),
        wf_cols(*colors),
        old(zbuffer).wf(),
    ensures
        final(zbuffer).wf(),
        final(zbuffer).width == old(zbuffer).width,
        final(zbuffer).height == old(zbuffer).height,
        forall|px: int, py: int|
            0 <= px < old(zbuffer).width && 0 <= py < old(zbuffer).height
                ==> #[trigger] final(zbuffer).cell(px, py) == raster_cell(*points, old(zbuffer).cell(px, py), px, py),
        forall|k: int|
            0 <= k < plots@.len() ==> plot_ok(*points, *colors, *old(zbuffer), #[trigger] plots@[k]),
        forall|px: int, py: int|
            0 <= px < old(zbuffer).width && 0 <= py < old(zbuffer).height && #[trigger] plots_at(
                *points,
                old(zbuffer).cell(px, py),
                px,
                py,
            ) ==> exists|k: int|
                0 <= k < plots@.len() && (#[trigger] plots@[k]).x == px && plots@[k].y == py,
        forall|k1: int, k2: int|
            0 <= k1 < k2 < plots@.len() ==> !((#[trigger] plots@[k1]).x == (
            #[trigger] plots@[k2]).x && plots@[k1].y == plots@[k2].y),
{
    let ghost t = *points;
    let ghost buf0 = *zbuffer;
    let w = zbuffer.width();
    let h = zbuffer.height();
    let mn = min3(points[0].x, points[1].x, points[2].x);
    let minx = if mn < 0 {
        0
    } else {
        mn
    };
    let mny = min3(points[0].y, points[1].y, points[2].y);
    let miny = if mny < 0 {
        0
    } else {
        mny
    };
    let maxx = max3(points[0].x, points[1].x, points[2].x) + 1;
    let maxy = max3(points[0].y, points[1].y, points[2].y) + 1;
    proof {
        assert(minx as int == bbox_min_x(t));
        assert(miny as int == bbox_min_y(t));
        assert(maxx as int == bbox_max_x(t));
        assert(maxy as int == bbox_max_y(t));
    }
    let maxx_c = if maxx < minx {
        minx
    } else {
        maxx
    };
    let maxy_c = if maxy < miny {
        miny
    } else {
        maxy
    };
    let mut plots: Vec<PlotCmd> = Vec::new();
    let mut x = minx;
    while x < maxx_c
        invariant
            minx <= x <= maxx_c,
            zbuffer.wf(),
            zbuffer.width == buf0.width,
            zbuffer.height == buf0.height,
            forall|px: int, py: int|
                0 <= px < buf0.width && 0 <= py < buf0.height ==> #[trigger] zbuffer.cell(px, py)
                    == (if px < x {
                    raster_cell(t, buf0.cell(px, py), px, py)
                } else {
                    buf0.cell(px, py)
                }),
            forall|k: int|
                0 <= k < plots@.len() ==> plot_ok(t, *colors, buf0, #[trigger] plots@[k]),
            forall|k: int| 0 <= k < plots@.len() ==> (#[trigger] plots@[k]).x < x,
            forall|px: int, py: int|
                0 <= px < buf0.width && 0 <= py < buf0.height && px < x && #[trigger] plots_at(
                    t,
                    buf0.cell(px, py),
                    px,
                    py,
                ) ==> exists|k: int|
                    0 <= k < plots@.len() && (#[trigger] plots@[k]).x == px && plots@[k].y == py,
            forall|k1: int, k2: int|
                0 <= k1 < k2 < plots@.len() ==> ((#[trigger] plots@[k1]).x < (
                #[trigger] plots@[k2]).x || (plots@[k1].x == plots@[k2].x && plots@[k1].y
                    < plots@[k2].y)),
        decreases maxx_c - x,
    {
        let mut y = miny;
        while y < maxy_c
            invariant
                minx <= x < maxx_c,
                miny <= y <= maxy_c,
                zbuffer.wf(),
                zbuffer.width == buf0.width,
                zbuffer.height == buf0.height,
                forall|px: int, py: int|
                    0 <= px < buf0.width && 0 <= py < buf0.height ==> #[trigger] zbuffer.cell(
                        px,
                        py,
                    ) == (if px < x || (px == x && py < y) {
                        raster_cell(t, buf0.cell(px, py), px, py)
                    } else {
                        buf0.cell(px, py)
                    }),
                forall|k: int|
                    0 <= k < plots@.len() ==> plot_ok(t, *colors, buf0, #[trigger] plots@[k]),
                forall|k: int|
                    0 <= k < plots@.len() ==> ((#[trigger] plots@[k]).x < x || (plots@[k].x == x
                        && plots@[k].y < y)),
                forall|px: int, py: int|
                    0 <= px < buf0.width && 0 <= py < buf0.height && (px < x || (px == x && py < y))
                        && #[trigger] plots_at(t, buf0.cell(px, py), px, py) ==> exists|k: int|
                        0 <= k < plots@.len() && (#[trigger] plots@[k]).x == px && plots@[k].y
                            == py,
                forall|k1: int, k2: int|
                    0 <= k1 < k2 < plots@.len() ==> ((#[trigger] plots@[k1]).x < (
                    #[trigger] plots@[k2]).x || (plots@[k1].x == plots@[k2].x && plots@[k1].y
                        < plots@[k2].y)),
            decreases maxy_c - y,
        {
            let ghost plots0 = plots@;
            if (x as usize) < w && (y as usize) < h {
                let px = x as usize;
                let py = y as usize;
                let cell_before = zbuffer.get(px, py);
                proof {
                    assert(cell_before == buf0.cell(x as int, y as int));
                }
                let b = barycentric(points, Vec2i::from_points(x, y));
                let ins = if b.den > 0 {
                    b.b0 >= 0 && b.b1 >= 0 && b.b2 >= 0
                } else {
                    b.b0 <= 0 && b.b1 <= 0 && b.b2 <= 0
                };
                proof {
                    assert(ins == inside(t, x as int, y as int));
                    assert(in_bbox(t, x as int, y as int));
                }
                if ins {
                    let z0 = points[0].z;
                    let z1 = points[1].z;
                    let z2 = points[2].z;
                    proof {
                        lemma_mul_abs_bound(
                            b.b0 as int,
                            z0.num as int,
                            BARY_LIMIT as int,
                            ATTR_LIMIT as int,
                        );
                        lemma_mul_abs_bound(
                            b.b1 as int,
                            z1.num as int,
                            BARY_LIMIT as int,
                            ATTR_LIMIT as int,
                        );
                        lemma_mul_abs_bound(
                            b.b2 as int,
                            z2.num as int,
                            BARY_LIMIT as int,
                            ATTR_LIMIT as int,
                        );
                        lemma_mul_abs_bound(
                            b.den as int,
                            z0.den as int,
                            BARY_LIMIT as int,
                            ATTR_LIMIT as int,
                        );
                        if b.den > 0 {
                            lemma_mul_pos(b.den as int, z0.den as int);
                        } else {
                            lemma_mul_neg_pos(b.den as int, z0.den as int);
                        }
                    }
                    let zn_raw = b.b0 * (z0.num as i128) + b.b1 * (z1.num as i128) + b.b2 * (
                    z2.num as i128);
                    let zd_raw = b.den * (z0.den as i128);
                    let zn = if b.den > 0 {
                        zn_raw
                    } else {
                        -zn_raw
                    };
                    let zd = if b.den > 0 {
                        zd_raw
                    } else {
                        -zd_raw
                    };
                    proof {
                        assert(bary_uz(t) != 0);
                        assert(zn == z_num(t, x as int, y as int));
                        assert(zd == z_den(t));
                        assert(zd > 0);
                        assert(-DEPTH_NUM_LIMIT < zn < DEPTH_NUM_LIMIT);
                        assert(0 < zd < DEPTH_DEN_LIMIT);
                    }
                    let pass = match cell_before {
                        DepthCell::Empty => true,
                        DepthCell::Depth { num, den } => {
                            proof {
                                lemma_mul_abs_bound(
                                    num as int,
                                    zd as int,
                                    DEPTH_NUM_LIMIT as int,
                                    DEPTH_DEN_LIMIT as int,
                                );
                                lemma_mul_abs_bound(
                                    zn as int,
                                    den as int,
                                    DEPTH_NUM_LIMIT as int,
                                    DEPTH_DEN_LIMIT as int,
                                );
                            }
                            num * zd < zn * den
                        },
                    };
                    proof {
                        assert(pass == cell_lt(cell_before, z_num(t, x as int, y as int), z_den(t)));
                    }
                    if pass {
                        zbuffer.set(px, py, DepthCell::Depth { num: zn, den: zd });
                        let d0 = colors[0].den as i128;
                        let d1 = colors[1].den as i128;
                        let d2 = colors[2].den as i128;
                        proof {
                            let al = ATTR_LIMIT as int;
                            lemma_mul_abs_bound(d1 as int, d2 as int, al, al);
                            lemma_mul_abs_bound(d0 as int, d2 as int, al, al);
                            lemma_mul_abs_bound(d0 as int, d1 as int, al, al);
                            lemma_mul_pos(d1 as int, d2 as int);
                            lemma_mul_pos(d0 as int, d2 as int);
                            lemma_mul_pos(d0 as int, d1 as int);
                        }
                        let d12 = d1 * d2;
                        let d02 = d0 * d2;
                        let d01 = d0 * d1;
                        proof {
                            let al = ATTR_LIMIT as int;
                            let bl = BARY_LIMIT as int;
                            lemma_mul_abs_bound(d01 as int, d2 as int, al * al, al);
                            lemma_mul_pos(d01 as int, d2 as int);
                            lemma_mul_abs_bound(b.den as int, (d01 * d2) as int, bl, al * al * al);
                            if b.den > 0 {
                                lemma_mul_pos(b.den as int, (d01 * d2) as int);
                            } else {
                                lemma_mul_neg_pos(b.den as int, (d01 * d2) as int);
                            }
                        }
                        let d012 = d01 * d2;
                        let cden_raw = b.den * d012;
                        let cx0 = colors[0].x as i128;
                        let cy0 = colors[0].y as i128;
                        let cz0 = colors[0].z as i128;
                        let cx1 = colors[1].x as i128;
                        let cy1 = colors[1].y as i128;
                        let cz1 = colors[1].z as i128;
                        let cx2 = colors[2].x as i128;
                        let cy2 = colors[2].y as i128;
                        let cz2 = colors[2].z as i128;
                        proof {
                            let al = ATTR_LIMIT as int;
                            let bl = BARY_LIMIT as int;
                            lemma_mul_abs_bound(b.b0 as int, cx0 as int, bl, al);
                            lemma_mul_abs_bound(b.b0 as int, cy0 as int, bl, al);
                            lemma_mul_abs_bound(b.b0 as int, cz0 as int, bl, al);
                            lemma_mul_abs_bound(b.b1 as int, cx1 as int, bl, al);
                            lemma_mul_abs_bound(b.b1 as int, cy1 as int, bl, al);
                            lemma_mul_abs_bound(b.b1 as int, cz1 as int, bl, al);
                            lemma_mul_abs_bound(b.b2 as int, cx2 as int, bl, al);
                            lemma_mul_abs_bound(b.b2 as int, cy2 as int, bl, al);
                            lemma_mul_abs_bound(b.b2 as int, cz2 as int, bl, al);
                            lemma_mul_abs_bound((b.b0 * cx0) as int, d12 as int, bl * al, al * al);
                            lemma_mul_abs_bound((b.b0 * cy0) as int, d12 as int, bl * al, al * al);
                            lemma_mul_abs_bound((b.b0 * cz0) as int, d12 as int, bl * al, al * al);
                            lemma_mul_abs_bound((b.b1 * cx1) as int, d02 as int, bl * al, al * al);
                            lemma_mul_abs_bound((b.b1 * cy1) as int, d02 as int, bl * al, al * al);
                            lemma_mul_abs_bound((b.b1 * cz1) as int, d02 as int, bl * al, al * al);
                            lemma_mul_abs_bound((b.b2 * cx2) as int, d01 as int, bl * al, al * al);
                            lemma_mul_abs_bound((b.b2 * cy2) as int, d01 as int, bl * al, al * al);
                            lemma_mul_abs_bound((b.b2 * cz2) as int, d01 as int, bl * al, al * al);
                        }
                        let rn_raw = (b.b0 * cx0) * d12 + (b.b1 * cx1) * d02 + (b.b2 * cx2) * d01;
                        let gn_raw = (b.b0 * cy0) * d12 + (b.b1 * cy1) * d02 + (b.b2 * cy2) * d01;
                        let bn_raw = (b.b0 * cz0) * d12 + (b.b1 * cz1) * d02 + (b.b2 * cz2) * d01;
                        let (rn, gn, bn, cden) = if b.den > 0 {
                            (rn_raw, gn_raw, bn_raw, cden_raw)
                        } else {
                            (-rn_raw, -gn_raw, -bn_raw, -cden_raw)
                        };
                        let cmd = PlotCmd {
                            x,
                            y,
                            r: WideRat { num: rn, den: cden },
                            g: WideRat { num: gn, den: cden },
                            b: WideRat { num: bn, den: cden },
                        };
                        proof {
                            assert(cden == col_den(t, *colors));
                            assert(rn == col_num(t, *colors, x as int, y as int, 0));
                            assert(gn == col_num(t, *colors, x as int, y as int, 1));
                            assert(bn == col_num(t, *colors, x as int, y as int, 2));
                            assert(cden > 0);
                            assert(plot_ok(t, *colors, buf0, cmd));
                        }
                        plots.push(cmd);
                        proof {
                            assert(plots@[plots@.len() - 1] == cmd);
                        }
                    } else {
                        proof {
                            assert(zbuffer.cell(x as int, y as int) == raster_cell(
                                t,
                                buf0.cell(x as int, y as int),
                                x as int,
                                y as int,
                            ));
                        }
                    }
                }
            }
            proof {
                assert forall|px: int, py: int|
                    0 <= px < buf0.width && 0 <= py < buf0.height && (px < x || (px == x && py < y
                        + 1)) && #[trigger] plots_at(t, buf0.cell(px, py), px, py) implies exists|
                    k: int,
                |
                    0 <= k < plots@.len() && (#[trigger] plots@[k]).x == px && plots@[k].y
                        == py by {
                    if px == x as int && py == y as int {
                        assert(0 <= plots@.len() - 1 < plots@.len() && plots@[plots@.len() - 1].x
                            == px && plots@[plots@.len() - 1].y == py);
                    } else {
                        let k0 = choose|k: int|
                            0 <= k < plots0.len() && (#[trigger] plots0[k]).x == px && plots0[k].y
                                == py;
                        assert(0 <= k0 < plots@.len() && plots@[k0].x == px && plots@[k0].y == py);
                    }
                }
            }
            y += 1;
        }
        x += 1;
        proof {
            assert forall|px: int, py: int|
                0 <= px < buf0.width && 0 <= py < buf0.height implies #[trigger] zbuffer.cell(
                px,
                py,
            ) == (if px < x {
                raster_cell(t, buf0.cell(px, py), px, py)
            } else {
                buf0.cell(px, py)
            }) by {
                if px == x - 1 && py >= maxy_c {
                    assert(!in_bbox(t, px, py));
                    assert(raster_cell(t, buf0.cell(px, py), px, py) == buf0.cell(px, py));
                }
            }
        }
    }
    proof {
        assert forall|px: int, py: int|
            0 <= px < buf0.width && 0 <= py < buf0.height implies #[trigger] final(zbuffer).cell(
            px,
            py,
        ) == raster_cell(t, buf0.cell(px, py), px, py) by {
            if !(px < x) {
                assert(!in_bbox(t, px, py));
            }
        }
        assert forall|px: int, py: int|
            0 <= px < buf0.width && 0 <= py < buf0.height && #[trigger] plots_at(
                t,
                buf0.cell(px, py),
                px,
                py,
            ) implies exists|k: int|
            0 <= k < plots@.len() && (#[trigger] plots@[k]).x == px && plots@[k].y == py by {
            assert(covered(t, px, py));
            assert(px < x);
        }
    }
    plots
}

} // verus!
