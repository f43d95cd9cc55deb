use softraster::raster::{barycentric, triangle, DepthBuffer, DepthCell, ScreenPt};
use softraster::rat::Rat;
use softraster::vec::{Vec2i, Vec3q};

fn pt(x: i32, y: i32, zn: i64, zd: i64) -> ScreenPt {
    ScreenPt { x, y, z: Rat::new(zn, zd) }
}

fn col(x: i64, y: i64, z: i64, den: i64) -> Vec3q {
    Vec3q::from_points(x, y, z, den)
}

#[test]
fn unit_triangle_scenario() {
    // A triangle with vertices at (0,0,0), (2,0,0), (0,2,0) and colors
    // red, green, blue rasterized into a 4x4 buffer paints exactly the
    // pixels whose barycentric test passes.
    let points = [pt(0, 0, 0, 1), pt(2, 0, 0, 1), pt(0, 2, 0, 1)];
    let colors = [col(1, 0, 0, 1), col(0, 1, 0, 1), col(0, 0, 1, 1)];
    let mut zbuffer = DepthBuffer::new(4, 4);
    let plots = triangle(&points, &colors, &mut zbuffer);
    let pixels: Vec<(i32, i32)> = plots.iter().map(|c| (c.x, c.y)).collect();
    assert_eq!(pixels, vec![(0, 0), (0, 1), (0, 2), (1, 0), (1, 1), (2, 0)]);
    // No pixel outside the bounding box [0,3]x[0,3] is touched.
    for (x, y) in [(3usize, 0usize), (0, 3), (3, 3), (2, 2)] {
        assert_eq!(zbuffer.get(x, y), DepthCell::Empty);
    }
    // Pixel (0,0) coincides with the first vertex: its color is exactly
    // red, as rationals.
    let first = plots[0];
    assert_eq!(first.r.num, first.r.den);
    assert_eq!(first.g.num, 0);
    assert_eq!(first.b.num, 0);
    // Interpolated depth 0 was recorded.
    match zbuffer.get(0, 0) {
        DepthCell::Depth { num, den } => {
            assert_eq!(num, 0);
            assert!(den > 0);
        }
        DepthCell::Empty => panic!("pixel (0,0) was not depth-tested"),
    }
}

#[test]
fn degenerate_triangle_plots_nothing() {
    // Three collinear points have zero signed area: no pixel passes.
    let points = [pt(0, 0, 0, 1), pt(1, 1, 0, 1), pt(2, 2, 0, 1)];
    let colors = [col(1, 0, 0, 1), col(0, 1, 0, 1), col(0, 0, 1, 1)];
    let mut zbuffer = DepthBuffer::new(4, 4);
    let plots = triangle(&points, &colors, &mut zbuffer);
    assert!(plots.is_empty());
    for x in 0..4 {
        for y in 0..4 {
            assert_eq!(zbuffer.get(x, y), DepthCell::Empty);
        }
    }
}

#[test]
fn rasterize_twice_is_idempotent() {
    let points = [pt(0, 0, 5, 2), pt(3, 0, 5, 2), pt(0, 3, 5, 2)];
    let colors = [col(1, 0, 0, 1), col(0, 1, 0, 1), col(0, 0, 1, 1)];
    let mut zbuffer = DepthBuffer::new(4, 4);
    let first = triangle(&points, &colors, &mut zbuffer);
    assert!(!first.is_empty());
    let snapshot: Vec<DepthCell> = (0..4)
        .flat_map(|y| (0..4).map(move |x| (x, y)))
        .map(|(x, y)| zbuffer.get(x, y))
        .collect();
    let second = triangle(&points, &colors, &mut zbuffer);
    assert!(second.is_empty());
    let after: Vec<DepthCell> = (0..4)
        .flat_map(|y| (0..4).map(move |x| (x, y)))
        .map(|(x, y)| zbuffer.get(x, y))
        .collect();
    assert_eq!(snapshot, after);
}

#[test]
fn barycentric_exact_weights() {
    let points = [pt(0, 0, 0, 1), pt(2, 0, 0, 1), pt(0, 2, 0, 1)];
    // The centroid-side pixel (1,1) lies on the hypotenuse: weights
    // (0, 1/2, 1/2).
    let b = barycentric(&points, Vec2i::from_points(1, 1));
    assert_eq!(b.den, -4);
    assert_eq!(b.b0, 0);
    assert_eq!(b.b1, -2);
    assert_eq!(b.b2, -2);
    // A pixel outside gets a negative weight.
    let outside = barycentric(&points, Vec2i::from_points(3, 3));
    let w0 = (outside.b0 >= 0) == (outside.den > 0);
    let w1 = (outside.b1 >= 0) == (outside.den > 0);
    let w2 = (outside.b2 >= 0) == (outside.den > 0);
    assert!(!(w0 && w1 && w2));
}

#[test]
fn depth_test_keeps_nearer_surface() {
    // The nearer triangle (larger depth) wins regardless of order.
    let near = [pt(0, 0, 2, 1), pt(2, 0, 2, 1), pt(0, 2, 2, 1)];
    let far = [pt(0, 0, 1, 1), pt(2, 0, 1, 1), pt(0, 2, 1, 1)];
    let colors = [col(1, 0, 0, 1), col(1, 0, 0, 1), col(1, 0, 0, 1)];

    let mut za = DepthBuffer::new(4, 4);
    let a1 = triangle(&near, &colors, &mut za);
    let a2 = triangle(&far, &colors, &mut za);
    assert!(!a1.is_empty());
    assert!(a2.is_empty(), "the farther surface must be fully occluded");

    let mut zb = DepthBuffer::new(4, 4);
    let b1 = triangle(&far, &colors, &mut zb);
    let b2 = triangle(&near, &colors, &mut zb);
    assert!(!b1.is_empty());
    assert!(!b2.is_empty());
    // Either order leaves the same depths behind.
    for x in 0..4 {
        for y in 0..4 {
            let ca = za.get(x, y);
            let cb = zb.get(x, y);
            match (ca, cb) {
                (DepthCell::Empty, DepthCell::Empty) => {}
                (
                    DepthCell::Depth { num: na, den: da },
                    DepthCell::Depth { num: nb, den: db },
                ) => assert_eq!(na * db, nb * da),
                _ => panic!("buffers disagree at ({}, {})", x, y),
            }
        }
    }
}

#[test]
fn out_of_buffer_pixels_are_dropped() {
    // The bounding box sticks out of a small buffer; only in-buffer
    // pixels are plotted.
    let points = [pt(0, 0, 0, 1), pt(5, 0, 0, 1), pt(0, 5, 0, 1)];
    let colors = [col(1, 0, 0, 1), col(0, 1, 0, 1), col(0, 0, 1, 1)];
    let mut zbuffer = DepthBuffer::new(2, 2);
    let plots = triangle(&points, &colors, &mut zbuffer);
    for c in plots.iter() {
        assert!(c.x >= 0 && c.x < 2 && c.y >= 0 && c.y < 2);
    }
    assert_eq!(plots.len(), 4);
}

#[test]
fn strictly_inside_weights_match_signed_areas() {
    // For a positive-area triangle, a pixel strictly inside has all three
    // weights nonnegative, and each weight numerator equals the signed
    // sub-area computed independently (up to the shared sign of the
    // denominator) -- exactly, with no deviation.
    fn orient(ax: i64, ay: i64, bx: i64, by: i64, cx: i64, cy: i64) -> i64 {
        (bx - ax) * (cy - ay) - (by - ay) * (cx - ax)
    }
    let (x0, y0, x1, y1, x2, y2) = (0i64, 0i64, 4, 0, 0, 4);
    assert!(orient(x0, y0, x1, y1, x2, y2) > 0);
    let points = [pt(0, 0, 0, 1), pt(4, 0, 0, 1), pt(0, 4, 0, 1)];
    let (px, py) = (1i64, 1i64);
    assert!(orient(x0, y0, x1, y1, px, py) > 0);
    assert!(orient(x1, y1, x2, y2, px, py) > 0);
    assert!(orient(x2, y2, x0, y0, px, py) > 0);
    let b = barycentric(&points, Vec2i::from_points(px as i32, py as i32));
    // All weights nonnegative: numerators share the sign of the denominator.
    assert!(b.den < 0 && b.b0 <= 0 && b.b1 <= 0 && b.b2 <= 0);
    // Exact agreement with the signed-area recomputation.
    assert_eq!(b.den, -orient(x0, y0, x1, y1, x2, y2) as i128);
    assert_eq!(b.b0, -orient(x1, y1, x2, y2, px, py) as i128);
    assert_eq!(b.b1, -orient(x2, y2, x0, y0, px, py) as i128);
    assert_eq!(b.b2, -orient(x0, y0, x1, y1, px, py) as i128);
}
