use vstd::prelude::*;

use crate::matrix::{tf_comp, Mat4, Vec4q};
use crate::rat::Rat;
use crate::vec::{lemma_mul_pos, Vec3q};

verus! {

/// Bound on the rational inputs of `projection` and `lookat` (2^24);
/// keeps the whole matrix chain exact in `i128`.
pub const BUILD_LIMIT: i64 = 16777216;

/// The view matrix: the rows of the top-left 3x3 block are the camera
/// basis vectors `x`, `y`, `z`, the last column holds `-center`, and the
/// last row is the homogeneous identity row.
///
/// The basis is supplied already normalized (forward `z` along
/// `eye - center`, right `x = up cross z`, up `y = z cross x`, each of unit
/// length): normalizing takes a square root, which has no exact rational
/// form, so it is left to the caller.  All four vectors must share one
/// denominator, which becomes the matrix denominator.
pub fn lookat(x: &Vec3q, y: &Vec3q, z: &Vec3q, center: &Vec3q) -> (r: Mat4)
    requires
        x.wf(),
        y.wf(),
        z.wf(),
        center.wf(),
        x.den == y.den && y.den == z.den && z.den == center.den,
        x.abs_lt(BUILD_LIMIT as int),
        y.abs_lt(BUILD_LIMIT as int),
        z.abs_lt(BUILD_LIMIT as int),
        center.abs_lt(BUILD_LIMIT as int),
    ensures
        r.wf(),
        r.den == x.den,
        r.entry(0, 0) == x.x && r.entry(0, 1) == x.y && r.entry(0, 2) == x.z,
        r.entry(1, 0) == y.x && r.entry(1, 1) == y.y && r.entry(1, 2) == y.z,
        r.entry(2, 0) == z.x && r.entry(2, 1) == z.y && r.entry(2, 2) == z.z,
        r.entry(0, 3) == -center.x,
        r.entry(1, 3) == -center.y,
        r.entry(2, 3) == -center.z,
        r.entry(3, 0) == 0 && r.entry(3, 1) == 0 && r.entry(3, 2) == 0,
        r.entry(3, 3) == x.den,
        r.abs_lt(BUILD_LIMIT as int),
{
    let ncx = -(center.x as i128);
    let ncy = -(center.y as i128);
    let ncz = -(center.z as i128);
    let m: Vec<i128> = vec![
        x.x as i128,
        x.y as i128,
        x.z as i128,
        ncx,
        y.x as i128,
        y.y as i128,
        y.z as i128,
        ncy,
        z.x as i128,
        z.y as i128,
        z.z as i128,
        ncz,
        0,
        0,
        0,
        x.den as i128,
    ];
    Mat4 { m, den: x.den as i128 }
}

/// The perspective matrix: the identity except that the entry in row 3,
/// column 2 is the given coefficient, conventionally `-1 / |eye - center|`.
pub fn projection(coefficient: Rat) -> (r: Mat4)
    requires
        coefficient.wf(),
        -BUILD_LIMIT < coefficient.num < BUILD_LIMIT,
        coefficient.den < BUILD_LIMIT,
    ensures
        r.wf(),
        r.den == coefficient.den,
        forall|i: int, j: int|
            0 <= i < 4 && 0 <= j < 4 && !(i == 3 && j == 2) ==> #[trigger] r.entry(i, j) == if i
                == j {
                coefficient.den as int
            } else {
                0int
            },
        r.entry(3, 2) == coefficient.num,
        r.abs_lt(BUILD_LIMIT as int),
{
    let d = coefficient.den as i128;
    let m: Vec<i128> = vec![
        d,
        0,
        0,
        0,
        0,
        d,
        0,
        0,
        0,
        0,
        d,
        0,
        0,
        0,
        coefficient.num as i128,
        d,
    ];
    Mat4 { m, den: d }
}

/// The viewport matrix: maps the normalized device cube (components in
/// [-1, 1]) onto the pixel rectangle at `(x, y)` of size `(w, h)` with
/// depth range `[0, d]`.  Over the denominator 2, the diagonal halves
/// width, height and depth, and the last column centers the rectangle.
pub fn viewport(x: u32, y: u32, w: u32, h: u32, d: u32) -> (r: Mat4)
    ensures
        r.wf(),
        r.den == 2,
        r.entry(0, 0) == w && r.entry(0, 3) == 2 * x + w,
        r.entry(1, 1) == h && r.entry(1, 3) == 2 * y + h,
        r.entry(2, 2) == d && r.entry(2, 3) == d,
        r.entry(3, 3) == 2,
        r.entry(0, 1) == 0 && r.entry(0, 2) == 0,
        r.entry(1, 0) == 0 && r.entry(1, 2) == 0,
        r.entry(2, 0) == 0 && r.entry(2, 1) == 0,
        r.entry(3, 0) == 0 && r.entry(3, 1) == 0 && r.entry(3, 2) == 0,
        r.abs_lt(17179869184),
{
    let m: Vec<i128> = vec![
        w as i128,
        0,
        0,
        2 * (x as i128) + (w as i128),
        0,
        h as i128,
        0,
        2 * (y as i128) + (h as i128),
        0,
        0,
        d as i128,
        d as i128,
        0,
        0,
        0,
        2,
    ];
    Mat4 { m, den: 2 }
}

/// The homogeneous embedding of the NDC origin `(0, 0, 0)`.
pub open spec fn ndc_origin() -> Vec4q {
    Vec4q { x: 0, y: 0, z: 0, w: 1, den: 1 }
}

/// The viewport transform maps the NDC origin to the exact center of the
/// configured rectangle, at half the depth range: the transformed point
/// is `(x + w/2, y + h/2, d/2)` over the denominator 2.
pub proof fn lemma_viewport_center(r: Mat4, x: u32, y: u32, w: u32, h: u32, d: u32)
    requires
        r.wf(),
        r.den == 2,
        r.entry(0, 0) == w && r.entry(0, 3) == 2 * x + w,
        r.entry(1, 1) == h && r.entry(1, 3) == 2 * y + h,
        r.entry(2, 2) == d && r.entry(2, 3) == d,
        r.entry(3, 3) == 2,
        r.entry(0, 1) == 0 && r.entry(0, 2) == 0,
        r.entry(1, 0) == 0 && r.entry(1, 2) == 0,
        r.entry(2, 0) == 0 && r.entry(2, 1) == 0,
        r.entry(3, 0) == 0 && r.entry(3, 1) == 0 && r.entry(3, 2) == 0,
    ensures
        tf_comp(r, ndc_origin(), 0) == 2 * x + w,
        tf_comp(r, ndc_origin(), 1) == 2 * y + h,
        tf_comp(r, ndc_origin(), 2) == d,
        tf_comp(r, ndc_origin(), 3) == 2,
{
}

/// The view transform maps the camera target itself to the origin of
/// camera space whenever the basis rows fix the target: since the last
/// column carries the raw `-center` translation, the transformed center is
/// `basis * center - center`, which vanishes exactly when
/// `basis * center == center` (in particular whenever `center` is the
/// world origin).
pub proof fn lemma_lookat_center(r: Mat4, x: Vec3q, y: Vec3q, z: Vec3q, center: Vec3q, ec: Vec4q)
    requires
        r.wf(),
        x.wf() && y.wf() && z.wf() && center.wf(),
        x.den == y.den && y.den == z.den && z.den == center.den,
        r.den == x.den,
        r.entry(0, 0) == x.x && r.entry(0, 1) == x.y && r.entry(0, 2) == x.z,
        r.entry(1, 0) == y.x && r.entry(1, 1) == y.y && r.entry(1, 2) == y.z,
        r.entry(2, 0) == z.x && r.entry(2, 1) == z.y && r.entry(2, 2) == z.z,
        r.entry(0, 3) == -center.x,
        r.entry(1, 3) == -center.y,
        r.entry(2, 3) == -center.z,
        r.entry(3, 0) == 0 && r.entry(3, 1) == 0 && r.entry(3, 2) == 0,
        r.entry(3, 3) == x.den,
        // the embedded center
        ec.x == center.x && ec.y == center.y && ec.z == center.z,
        ec.w == center.den && ec.den == center.den,
        // the basis fixes the center
        x.x * center.x + x.y * center.y + x.z * center.z == center.x * center.den,
        y.x * center.x + y.y * center.y + y.z * center.z == center.y * center.den,
        z.x * center.x + z.y * center.y + z.z * center.z == center.z * center.den,
    ensures
        tf_comp(r, ec, 0) == 0,
        tf_comp(r, ec, 1) == 0,
        tf_comp(r, ec, 2) == 0,
        tf_comp(r, ec, 3) == center.den * center.den,
        tf_comp(r, ec, 3) > 0,
{
    assert(tf_comp(r, ec, 0) == x.x * center.x + x.y * center.y + x.z * center.z + (-center.x)
        * center.den) by (nonlinear_arith)
        requires
            r.entry(0, 0) == x.x && r.entry(0, 1) == x.y && r.entry(0, 2) == x.z,
            r.entry(0, 3) == -center.x,
            ec.x == center.x && ec.y == center.y && ec.z == center.z && ec.w == center.den,
    ;
    assert(tf_comp(r, ec, 1) == y.x * center.x + y.y * center.y + y.z * center.z + (-center.y)
        * center.den) by (nonlinear_arith)
        requires
            r.entry(1, 0) == y.x && r.entry(1, 1) == y.y && r.entry(1, 2) == y.z,
            r.entry(1, 3) == -center.y,
            ec.x == center.x && ec.y == center.y && ec.z == center.z && ec.w == center.den,
    ;
    assert(tf_comp(r, ec, 2) == z.x * center.x + z.y * center.y + z.z * center.z + (-center.z)
        * center.den) by (nonlinear_arith)
        requires
            r.entry(2, 0) == z.x && r.entry(2, 1) == z.y && r.entry(2, 2) == z.z,
            r.entry(2, 3) == -center.z,
            ec.x == center.x && ec.y == center.y && ec.z == center.z && ec.w == center.den,
    ;
    assert((-center.x) * center.den == -(center.x * center.den)) by (nonlinear_arith);
    assert((-center.y) * center.den == -(center.y * center.den)) by (nonlinear_arith);
    assert((-center.z) * center.den == -(center.z * center.den)) by (nonlinear_arith);
    assert(tf_comp(r, ec, 3) == x.den * center.den) by (nonlinear_arith)
        requires
            r.entry(3, 0) == 0 && r.entry(3, 1) == 0 && r.entry(3, 2) == 0,
            r.entry(3, 3) == x.den,
            ec.w == center.den,
    ;
    lemma_mul_pos(center.den as int, center.den as int);
}

} // verus!
