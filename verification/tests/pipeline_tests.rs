use softraster::canvas::{plot, Image, Rgba};
use softraster::graphics::{lookat, projection, viewport};
use softraster::matrix::{embed, matmul, project, transform, Mat4, Vec4q};
use softraster::rat::{div_trunc, Rat};
use softraster::render::{render, FaceVertex, Mesh};
use softraster::raster::{barycentric, ScreenPt};
use softraster::vec::{Vec2i, Vec3q};

fn rgba(r: u8, g: u8, b: u8) -> Rgba {
    Rgba { r, g, b, a: 255 }
}

#[test]
fn rat_order_and_equality() {
    let half = Rat::new(1, 2);
    let two_thirds = Rat::new(2, 3);
    let two_quarters = Rat::new(2, 4);
    assert!(half.lt(&two_thirds));
    assert!(!two_thirds.lt(&half));
    assert!(half.eqv(&two_quarters));
    assert_eq!(Rat::from_int(-3), Rat::new(-3, 1));
}

#[test]
fn div_trunc_rounds_toward_zero() {
    assert_eq!(div_trunc(7, 2), 3);
    assert_eq!(div_trunc(-7, 2), -3);
    assert_eq!(div_trunc(6, 3), 2);
    assert_eq!(div_trunc(0, 5), 0);
}

#[test]
fn vec2i_and_vec3q_ops() {
    let p = Vec2i::from_points(-3, 7);
    assert_eq!(p.x, -3);
    assert_eq!(p.y, 7);
    let a = Vec3q::from_array([1, 2, 3], 1);
    let b = Vec3q::from_points(4, 5, 6, 1);
    let uv = Vec3q::from_array2([9, 8], 2);
    assert_eq!(uv.z, 0);
    assert_eq!(uv.den, 2);
    assert_eq!(a.index(2), 3);
    let d = a.sub(&b);
    assert_eq!((d.x, d.y, d.z, d.den), (-3, -3, -3, 1));
    let c = a.cross(&b);
    assert_eq!((c.x, c.y, c.z, c.den), (2 * 6 - 3 * 5, 3 * 4 - 1 * 6, 1 * 5 - 2 * 4, 1));
    let s = a.dot(&b);
    assert_eq!((s.num, s.den), (4 + 10 + 18, 1));
    let e = a.scale(&b);
    assert_eq!((e.x, e.y, e.z, e.den), (4, 10, 18, 1));
}

#[test]
fn viewport_maps_ndc_origin_to_center() {
    // The NDC origin lands on the exact center pixel of the rectangle at
    // half the depth range.
    let vp = viewport(10, 20, 100, 60, 255);
    let origin = Vec4q { x: 0, y: 0, z: 0, w: 1, den: 1 };
    let h = transform(&vp, &origin);
    let p = project(&h).expect("w must be nonzero");
    // x + w/2 = 60, y + h/2 = 50, d/2 = 127.5 -- exactly, as rationals.
    assert_eq!(p.x * 1, 60 * p.den);
    assert_eq!(p.y * 1, 50 * p.den);
    assert_eq!(2 * p.z, 255 * p.den);
}

#[test]
fn projection_matrix_shape() {
    let c = Rat::new(-1, 3);
    let m = projection(c);
    assert_eq!(m.den, 3);
    assert_eq!(m.m[14], -1); // row 3, column 2
    for i in 0..4 {
        assert_eq!(m.m[4 * i + i], 3);
    }
}

#[test]
fn lookat_maps_center_to_origin() {
    // With the identity basis the view transform sends the camera target
    // to the origin of camera space.
    let x = Vec3q::from_points(1, 0, 0, 1);
    let y = Vec3q::from_points(0, 1, 0, 1);
    let z = Vec3q::from_points(0, 0, 1, 1);
    let center = Vec3q::from_points(0, 0, 0, 1);
    let m = lookat(&x, &y, &z, &center);
    let h = transform(&m, &embed(&Vec3q::from_points(0, 0, 0, 1)));
    let p = project(&h).expect("w must be nonzero");
    assert_eq!(p.x, 0);
    assert_eq!(p.y, 0);
    assert_eq!(p.z, 0);
}

#[test]
fn matmul_is_composition_not_commutative() {
    let a = viewport(0, 0, 2, 2, 2);
    let b = projection(Rat::new(-1, 2));
    let ab = matmul(&a, &b);
    let ba = matmul(&b, &a);
    assert_eq!(ab.den, a.den * b.den);
    // Entry (0, 2) differs between the two orders: the translation column
    // meets the perspective coefficient only in one of them.
    assert_eq!(ab.m[2], 2 * 0 + 2 * (-1)); // row 0 . column 2
    assert_eq!(ba.m[2], 0);
    assert!(ab.m != ba.m);
}

#[test]
fn plot_is_bounds_checked() {
    let mut img = Image::new(2, 2, rgba(0, 0, 0));
    plot(&mut img, 1, 1, rgba(9, 9, 9));
    plot(&mut img, -1, 0, rgba(7, 7, 7));
    plot(&mut img, 0, 2, rgba(7, 7, 7));
    assert_eq!(img.get_pixel(1, 1), rgba(9, 9, 9));
    assert_eq!(img.get_pixel(0, 0), rgba(0, 0, 0));
    assert_eq!(img.get_pixel(0, 1), rgba(0, 0, 0));
    assert_eq!(img.get_pixel(1, 0), rgba(0, 0, 0));
}

#[test]
fn mesh_check_rejects_bad_indices() {
    let mesh = Mesh {
        positions: vec![Vec3q::from_points(0, 0, 0, 1)],
        uvs: vec![],
        faces: vec![[
            FaceVertex { position: 0, uv: None },
            FaceVertex { position: 1, uv: None },
            FaceVertex { position: 0, uv: None },
        ]],
    };
    assert!(!mesh.check());
}

#[test]
fn render_paints_textured_triangle() {
    // One screen-aligned triangle through the full pipeline: identity
    // view, no perspective, a viewport onto a 4x4 target, and a single
    // white texel.
    let positions = vec![
        Vec3q::from_points(-1, -1, 0, 1),
        Vec3q::from_points(1, -1, 0, 1),
        Vec3q::from_points(-1, 1, 0, 1),
    ];
    let uvs = vec![Vec3q::from_points(0, 0, 0, 1)];
    let faces = vec![[
        FaceVertex { position: 0, uv: Some(0) },
        FaceVertex { position: 1, uv: Some(0) },
        FaceVertex { position: 2, uv: Some(0) },
    ]];
    let mesh = Mesh { positions, uvs, faces };
    assert!(mesh.check());
    let vp = viewport(0, 0, 4, 4, 255);
    let texture = Image::new(1, 1, rgba(200, 100, 50));
    let view = {
        let x = Vec3q::from_points(1, 0, 0, 1);
        let y = Vec3q::from_points(0, 1, 0, 1);
        let z = Vec3q::from_points(0, 0, 1, 1);
        let center = Vec3q::from_points(0, 0, 0, 1);
        lookat(&x, &y, &z, &center)
    };
    let pj = projection(Rat::new(0, 1));
    let m = matmul(&matmul(&vp, &pj), &view);
    let img = render(&mesh, &texture, &m, 4, 4, rgba(0, 0, 0));
    assert_eq!(img.width(), 4);
    assert_eq!(img.height(), 4);
    // The lower-left corner of the viewport is covered by the triangle
    // and shows the texel; the upper-right is background.
    assert_eq!(img.get_pixel(0, 0), rgba(200, 100, 50));
    assert_eq!(img.get_pixel(3, 3), rgba(0, 0, 0));
}

#[test]
fn project_rejects_zero_w() {
    let v = Vec4q { x: 1, y: 2, z: 3, w: 0, den: 1 };
    assert!(project(&v).is_none());
    let v = Vec4q { x: 2, y: 4, z: 6, w: -2, den: 1 };
    let p = project(&v).expect("nonzero w projects");
    // (x/w, y/w, z/w) = (-1, -2, -3), held over a positive denominator.
    assert!(p.den > 0);
    assert_eq!(p.x, -2);
    assert_eq!(p.y, -4);
    assert_eq!(p.z, -6);
    assert_eq!(p.den, 2);
}

#[test]
fn identity_matrix_is_neutral() {
    let id = Mat4::identity();
    let vp = viewport(1, 2, 8, 6, 255);
    let left = matmul(&id, &vp);
    let right = matmul(&vp, &id);
    assert_eq!(left.m, vp.m);
    assert_eq!(right.m, vp.m);
    assert_eq!(left.den, vp.den);
}

#[test]
fn degenerate_barycentric_fixed_weights() {
    let z = Rat::new(0, 1);
    let points = [
        ScreenPt { x: 0, y: 0, z },
        ScreenPt { x: 1, y: 1, z },
        ScreenPt { x: 2, y: 2, z },
    ];
    let b = barycentric(&points, Vec2i::from_points(1, 1));
    assert_eq!((b.b0, b.b1, b.b2, b.den), (-1, 1, 1, 1));
}
