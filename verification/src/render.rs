use vstd::prelude::*;

use crate::canvas::{draw_plots, sample, tex_coord, Image, Rgba};
use crate::matrix::{
    embed, lemma_transform_abs, project, tf_comp, transform, Mat4, Pt3w, Vec4q, VEC_TF_LIMIT,
};
use crate::rat::{div_trunc, tdiv, Rat};
use crate::raster::{
    col_den, col_num, plot_ok, plots_at, raster_cell, triangle, wf_cols, wf_tri, DepthBuffer,
    DepthCell, ScreenPt, ATTR_LIMIT, MAX_COORD,
};
use crate::vec::Vec3q;

verus! {

/// Bound on the entries and denominator of the composed point transform
/// accepted by `render` (2^90); the viewport, projection and view
/// matrices built by this crate compose well within it.
pub const MAT_RENDER_LIMIT: i128 = 1237940039285380274899124224;

/// The fixed denominator of quantized screen depths.
pub const DEPTH_SCALE: i64 = 256;

/// One corner of a mesh face: an index into the shared vertex-position
/// array and an optional index into the shared texture-coordinate array.
#[derive(Clone, Copy, Debug)]
pub struct FaceVertex {
    pub position: usize,
    pub uv: Option<usize>,
}

/// A triangle mesh: shared vertex positions, shared texture coordinates,
/// and faces of three indexed corners each.
#[derive(Clone, Debug)]
pub struct Mesh {
    pub positions: Vec<Vec3q>,
    pub uvs: Vec<Vec3q>,
    pub faces: Vec<[FaceVertex; 3]>,
}

impl Mesh {
    /// Every face index is in range, positions are bounded for the exact
    /// transform chain, and texture coordinates are bounded for exact
    /// interpolation.
    pub open spec fn wf(self) -> bool {
        &&& forall|k: int, j: int|
            0 <= k < self.faces@.len() && 0 <= j < 3 ==> {
                let fv = #[trigger] self.faces@[k][j];
                &&& fv.position < self.positions@.len()
                &&& (fv.uv is Some ==> fv.uv->0 < self.uvs@.len())
            }
        &&& forall|k: int|
            0 <= k < self.positions@.len() ==> (#[trigger] self.positions@[k]).abs_lt(
                VEC_TF_LIMIT as int,
            )
        &&& forall|k: int|
            0 <= k < self.uvs@.len() ==> (#[trigger] self.uvs@[k]).abs_lt(ATTR_LIMIT as int)
    }

    /// Runtime well-formedness check, so that unverified callers can
    /// refuse a malformed mesh before rendering (a malformed mesh is a
    /// fatal resource-load failure).
    #[verifier::loop_isolation(false)]
    pub fn check(&self) -> (r: bool)
        ensures
            r == self.wf(),
    {
        let mut k: usize = 0;
        while k < self.faces.len()
            invariant
                k <= self.faces@.len(),
                forall|i: int, j: int|
                    0 <= i < k && 0 <= j < 3 ==> {
                        let fv = #[trigger] self.faces@[i][j];
                        &&& fv.position < self.positions@.len()
                        &&& (fv.uv is Some ==> fv.uv->0 < self.uvs@.len())
                    },
            decreases self.faces@.len() - k,
        {
            let face = self.faces[k];
            let mut j: usize = 0;
            while j < 3
                invariant
                    j <= 3,
                    forall|jj: int|
                        0 <= jj < j ==> {
                            let fv = #[trigger] face[jj];
                            &&& fv.position < self.positions@.len()
                            &&& (fv.uv is Some ==> fv.uv->0 < self.uvs@.len())
                        },
                decreases 3 - j,
            {
                let fv = face[j];
                if fv.position >= self.positions.len() {
                    return false;
                }
                match fv.uv {
                    Some(u) => {
                        if u >= self.uvs.len() {
                            return false;
                        }
                    },
                    None => {},
                }
                j += 1;
            }
            k += 1;
        }
        let mut k: usize = 0;
        while k < self.positions.len()
            invariant
                k <= self.positions@.len(),
                forall|i: int|
                    0 <= i < k ==> (#[trigger] self.positions@[i]).abs_lt(VEC_TF_LIMIT as int),
                forall|i: int, j: int|
                    0 <= i < self.faces@.len() && 0 <= j < 3 ==> {
                        let fv = #[trigger] self.faces@[i][j];
                        &&& fv.position < self.positions@.len()
                        &&& (fv.uv is Some ==> fv.uv->0 < self.uvs@.len())
                    },
            decreases self.positions@.len() - k,
        {
            let p = self.positions[k];
            let lim = VEC_TF_LIMIT as i64;
            if !(-lim < p.x && p.x < lim && -lim < p.y && p.y < lim && -lim < p.z && p.z < lim && 0
                < p.den && p.den < lim) {
                return false;
            }
            k += 1;
        }
        let mut k: usize = 0;
        while k < self.uvs.len()
            invariant
                k <= self.uvs@.len(),
                forall|i: int| 0 <= i < k ==> (#[trigger] self.uvs@[i]).abs_lt(ATTR_LIMIT as int),
                forall|i: int|
                    0 <= i < self.positions@.len() ==> (#[trigger] self.positions@[i]).abs_lt(
                        VEC_TF_LIMIT as int,
                    ),
                forall|i: int, j: int|
                    0 <= i < self.faces@.len() && 0 <= j < 3 ==> {
                        let fv = #[trigger] self.faces@[i][j];
                        &&& fv.position < self.positions@.len()
                        &&& (fv.uv is Some ==> fv.uv->0 < self.uvs@.len())
                    },
            decreases self.uvs@.len() - k,
        {
            let p = self.uvs[k];
            if !(-ATTR_LIMIT < p.x && p.x < ATTR_LIMIT && -ATTR_LIMIT < p.y && p.y < ATTR_LIMIT
                && -ATTR_LIMIT < p.z && p.z < ATTR_LIMIT && 0 < p.den && p.den < ATTR_LIMIT) {
                return false;
            }
            k += 1;
        }
        true
    }
}

/// Spec-level homogeneous embedding of a mesh position.
pub open spec fn embed_spec(v: Vec3q) -> Vec4q {
    Vec4q { x: v.x as i128, y: v.y as i128, z: v.z as i128, w: v.den as i128, den: v.den as i128 }
}

/// The screen image of one mesh vertex: embedded, transformed by `m`,
/// divided by the homogeneous coordinate and quantized; `None` when the
/// vertex has no finite (`w == 0`) or representable image.
pub open spec fn vertex_screen_spec(mesh: Mesh, m: Mat4, idx: int) -> Option<ScreenPt> {
    let e = embed_spec(mesh.positions@[idx]);
    let w0 = tf_comp(m, e, 3);
    if w0 == 0 {
        None
    } else {
        let hx = if w0 > 0 { tf_comp(m, e, 0) } else { -tf_comp(m, e, 0) };
        let hy = if w0 > 0 { tf_comp(m, e, 1) } else { -tf_comp(m, e, 1) };
        let hz = if w0 > 0 { tf_comp(m, e, 2) } else { -tf_comp(m, e, 2) };
        let hw = if w0 > 0 { w0 } else { -w0 };
        let sx = tdiv(hx, hw);
        let sy = tdiv(hy, hw);
        let zq = tdiv(hz * DEPTH_SCALE, hw);
        if -MAX_COORD <= sx <= MAX_COORD && -MAX_COORD <= sy <= MAX_COORD && -ATTR_LIMIT < zq
            < ATTR_LIMIT {
            Some(
                ScreenPt { x: sx as i32, y: sy as i32, z: Rat { num: zq as i64, den: DEPTH_SCALE } },
            )
        } else {
            None
        }
    }
}

/// The three screen points of face `k`, when every vertex has one.
pub open spec fn face_points_spec(mesh: Mesh, m: Mat4, k: int) -> Option<[ScreenPt; 3]> {
    let f = mesh.faces@[k];
    let s0 = vertex_screen_spec(mesh, m, f[0].position as int);
    let s1 = vertex_screen_spec(mesh, m, f[1].position as int);
    let s2 = vertex_screen_spec(mesh, m, f[2].position as int);
    if s0 is Some && s1 is Some && s2 is Some {
        Some([s0->Some_0, s1->Some_0, s2->Some_0])
    } else {
        None
    }
}

/// The color (texture-coordinate) triple of one face corner: its indexed
/// texture coordinate, or the zero vector when it has none.
pub open spec fn vertex_col_spec(mesh: Mesh, fv: FaceVertex) -> Vec3q {
    match fv.uv {
        Some(u) => mesh.uvs@[u as int],
        None => Vec3q { x: 0, y: 0, z: 0, den: 1 },
    }
}

/// The per-vertex color triples of face `k`.
pub open spec fn face_cols_spec(mesh: Mesh, k: int) -> [Vec3q; 3] {
    let f = mesh.faces@[k];
    [vertex_col_spec(mesh, f[0]), vertex_col_spec(mesh, f[1]), vertex_col_spec(mesh, f[2])]
}

/// The depth-buffer cell at `(px, py)` after rasterizing the first `k`
/// faces of the mesh.
pub open spec fn cell_after(mesh: Mesh, m: Mat4, k: int, px: int, py: int) -> DepthCell
    decreases k,
{
    if k <= 0 {
        DepthCell::Empty
    } else {
        let prev = cell_after(mesh, m, k - 1, px, py);
        match face_points_spec(mesh, m, k - 1) {
            Some(t) => raster_cell(t, prev, px, py),
            None => prev,
        }
    }
}

/// The texel that a plotted pixel of triangle `t` with colors `cs` shows:
/// the interpolated texture coordinates, scaled by the texture size,
/// truncated and clamped.
pub open spec fn sample_at(tex: Image, t: [ScreenPt; 3], cs: [Vec3q; 3], px: int, py: int) -> Rgba {
    tex.pixel(
        tex_coord(col_num(t, cs, px, py, 0), col_den(t, cs), tex.width as int),
        tex_coord(col_num(t, cs, px, py, 1), col_den(t, cs), tex.height as int),
    )
}

/// The color of pixel `(px, py)` after rendering the first `k` faces over
/// the given background.
pub open spec fn pixel_after(
    mesh: Mesh,
    m: Mat4,
    tex: Image,
    k: int,
    px: int,
    py: int,
    background: Rgba,
) -> Rgba
    decreases k,
{
    if k <= 0 {
        background
    } else {
        let prev = pixel_after(mesh, m, tex, k - 1, px, py, background);
        match face_points_spec(mesh, m, k - 1) {
            Some(t) => if plots_at(t, cell_after(mesh, m, k - 1, px, py), px, py) {
                sample_at(tex, t, face_cols_spec(mesh, k - 1), px, py)
            } else {
                prev
            },
            None => prev,
        }
    }
}

/// Quantizes an exactly projected point to a rasterizer screen point:
/// pixel coordinates truncated toward zero, depth truncated to the fixed
/// scale `DEPTH_SCALE`.  A point outside the representable screen range
/// yields `None` (its triangle is skipped rather than drawn wrongly).
pub fn screen_point(p: &Pt3w) -> (r: Option<ScreenPt>)
    requires
        p.wf(),
        -332306998946228968225951765070086144 < p.x < 332306998946228968225951765070086144,
        -332306998946228968225951765070086144 < p.y < 332306998946228968225951765070086144,
        -332306998946228968225951765070086144 < p.z < 332306998946228968225951765070086144,
    ensures
        r is Some <==> {
            &&& -MAX_COORD <= tdiv(p.x as int, p.den as int) <= MAX_COORD
            &&& -MAX_COORD <= tdiv(p.y as int, p.den as int) <= MAX_COORD
            &&& -ATTR_LIMIT < tdiv(p.z * DEPTH_SCALE, p.den as int) < ATTR_LIMIT
        },
        r is Some ==> {
            let s = r->Some_0;
            &&& s.x == tdiv(p.x as int, p.den as int)
            &&& s.y == tdiv(p.y as int, p.den as int)
            &&& s.z.num == tdiv(p.z * DEPTH_SCALE, p.den as int)
            &&& s.z.den == DEPTH_SCALE
            &&& s.wf()
        },
{
    let sx = div_trunc(p.x, p.den);
    let sy = div_trunc(p.y, p.den);
    let zq = div_trunc(p.z * (DEPTH_SCALE as i128), p.den);
    if -(MAX_COORD as i128) <= sx && sx <= MAX_COORD as i128 && -(MAX_COORD as i128) <= sy && sy
        <= MAX_COORD as i128 && -(ATTR_LIMIT as i128) < zq && zq < ATTR_LIMIT as i128 {
        Some(
            ScreenPt {
                x: sx as i32,
                y: sy as i32,
                z: Rat { num: zq as i64, den: DEPTH_SCALE },
            },
        )
    } else {
        None
    }
}

/// Transforms one mesh vertex to a rasterizer screen point: embed into
/// homogeneous coordinates, apply the composed point transform, divide by
/// the homogeneous coordinate, quantize.  `None` when the vertex has no
/// finite image (`w == 0`) or falls outside the representable screen
/// range.
fn vertex_screen(mesh: &Mesh, m: &Mat4, idx: usize) -> (r: Option<ScreenPt>)
    requires
        mesh.wf(),
        idx < mesh.positions@.len(),
        m.wf(),
        m.abs_lt(MAT_RENDER_LIMIT as int),
    ensures
        r == vertex_screen_spec(*mesh, *m, idx as int),
        r is Some ==> {
            let s = r->Some_0;
            &&& s.wf()
            &&& s.z.den == DEPTH_SCALE
        },
{
    let v = mesh.positions[idx];
    let e = embed(&v);
    let h = transform(m, &e);
    proof {
        lemma_transform_abs(*m, e, h, MAT_RENDER_LIMIT as int, VEC_TF_LIMIT as int);
        assert(4 * (MAT_RENDER_LIMIT as int) * (VEC_TF_LIMIT as int)
            < 332306998946228968225951765070086144) by (nonlinear_arith);
    }
    proof {
        assert(e == embed_spec(mesh.positions@[idx as int]));
    }
    match project(&h) {
        None => None,
        Some(p) => {
            let r = screen_point(&p);
            proof {
                assert(r == vertex_screen_spec(*mesh, *m, idx as int));
            }
            r
        },
    }
}

/// Renders a textured mesh into a fresh pixel buffer of the given size:
/// every face is transformed vertex by vertex through the composed
/// viewport * projection * view matrix `m`, then rasterized with the
/// depth test; each plotted pixel samples the texture at the
/// interpolated texture coordinates.  Faces with a vertex that has no
/// finite or representable screen image are skipped, as are faces whose
/// rasterized pixels fall outside the buffer.
#[verifier::loop_isolation(false)]
pub fn render(
    mesh: &Mesh,
    texture: &Image,
    m: &Mat4,
    width: usize,
    height: usize,
    background: Rgba,
) -> (img: Image)
    requires
        mesh.wf(),
        texture.wf(),
        texture.width >= 1,
        texture.height >= 1,
        m.wf(),
        m.abs_lt(MAT_RENDER_LIMIT as int),
        width <= 32768,
        height <= 32768,
    ensures
        img.wf(),
        img.width == width,
        img.height == height,
        forall|px: int, py: int|
            0 <= px < width && 0 <= py < height ==> #[trigger] img.pixel(px, py) == pixel_after(
                *mesh,
                *m,
                *texture,
                mesh.faces@.len() as int,
                px,
                py,
                background,
            ),
{
    let mut img = Image::new(width, height, background);
    let mut zbuffer = DepthBuffer::new(width, height);
    let mut i: usize = 0;
    while i < mesh.faces.len()
        invariant
            i <= mesh.faces@.len(),
            img.wf(),
            img.width == width,
            img.height == height,
            zbuffer.wf(),
            zbuffer.width == width,
            zbuffer.height == height,
            forall|px: int, py: int|
                0 <= px < width && 0 <= py < height ==> #[trigger] zbuffer.cell(px, py)
                    == cell_after(*mesh, *m, i as int, px, py),
            forall|px: int, py: int|
                0 <= px < width && 0 <= py < height ==> #[trigger] img.pixel(px, py) == pixel_after(
                    *mesh,
                    *m,
                    *texture,
                    i as int,
                    px,
                    py,
                    background,
                ),
        decreases mesh.faces@.len() - i,
    {
        let ghost i0 = i as int;
        let face = mesh.faces[i];
        let s0 = vertex_screen(mesh, m, face[0].position);
        let s1 = vertex_screen(mesh, m, face[1].position);
        let s2 = vertex_screen(mesh, m, face[2].position);
        let zero = Vec3q { x: 0, y: 0, z: 0, den: 1 };
        let c0 = match face[0].uv {
            Some(u) => mesh.uvs[u],
            None => zero,
        };
        let c1 = match face[1].uv {
            Some(u) => mesh.uvs[u],
            None => zero,
        };
        let c2 = match face[2].uv {
            Some(u) => mesh.uvs[u],
            None => zero,
        };
        match (s0, s1, s2) {
            (Some(p0), Some(p1), Some(p2)) => {
                let pts = [p0, p1, p2];
                let cols = [c0, c1, c2];
                proof {
                    assert(face_points_spec(*mesh, *m, i0) == Some(pts));
                    assert(cols == face_cols_spec(*mesh, i0));
                    assert(wf_tri(pts));
                    assert(wf_cols(cols));
                }
                let ghost zb0 = zbuffer;
                let ghost img0 = img;
                let cmds = triangle(&pts, &cols, &mut zbuffer);
                draw_plots(&mut img, texture, &cmds);
                proof {
                    assert forall|px: int, py: int|
                        0 <= px < width && 0 <= py < height implies #[trigger] zbuffer.cell(px, py)
                        == cell_after(*mesh, *m, i0 + 1, px, py) by {
                        assert(zb0.cell(px, py) == cell_after(*mesh, *m, i0, px, py));
                    }
                    assert forall|px: int, py: int|
                        0 <= px < width && 0 <= py < height implies #[trigger] img.pixel(px, py)
                        == pixel_after(*mesh, *m, *texture, i0 + 1, px, py, background) by {
                        assert(zb0.cell(px, py) == cell_after(*mesh, *m, i0, px, py));
                        if plots_at(pts, zb0.cell(px, py), px, py) {
                            let k0 = choose|k: int|
                                0 <= k < cmds@.len() && (#[trigger] cmds@[k]).x == px && cmds@[k].y
                                    == py;
                            assert(plot_ok(pts, cols, zb0, cmds@[k0]));
                            assert(img.pixel(px, py) == sample(*texture, cmds@[k0]));
                            assert(sample(*texture, cmds@[k0]) == sample_at(
                                *texture,
                                pts,
                                cols,
                                px,
                                py,
                            ));
                        } else {
                            assert forall|k: int| 0 <= k < cmds@.len() implies !((
                            #[trigger] cmds@[k]).x == px && cmds@[k].y == py) by {
                                assert(plot_ok(pts, cols, zb0, cmds@[k]));
                            }
                            assert(img.pixel(px, py) == img0.pixel(px, py));
                        }
                    }
                }
            },
            _ => {
                proof {
                    assert(face_points_spec(*mesh, *m, i0) is None);
                }
            },
        }
        i += 1;
    }
    img
}

} // verus!
