use vstd::prelude::*;

use crate::rat::tdiv;
use crate::raster::{cmd_wf, PlotCmd, COL_NUM_LIMIT};
use crate::vec::lemma_mul_abs_bound;

verus! {

/// One RGBA pixel.
#[derive(Clone, Copy, Debug, PartialEq, Eq, Structural)]
pub struct Rgba {
    pub r: u8,
    pub g: u8,
    pub b: u8,
    pub a: u8,
}

/// A dense 2D pixel buffer, used both for the render target and for the
/// read-only texture.
#[derive(Clone, Debug)]
pub struct Image {
    pub width: usize,
    pub height: usize,
    pub pixels: Vec<Rgba>,
}

impl Image {
    pub open spec fn wf(self) -> bool {
        &&& self.width <= 32768
        &&& self.height <= 32768
        &&& self.pixels@.len() == self.width * self.height
    }

    pub open spec fn pixel(self, px: int, py: int) -> Rgba {
        self.pixels@[py * self.width + px]
    }

    /// A buffer of the given size filled with one color.
    #[verifier::loop_isolation(false)]
    pub fn new(width: usize, height: usize, background: Rgba) -> (r: Image)
        requires
            width <= 32768,
            height <= 32768,
        ensures
            r.wf(),
            r.width == width,
            r.height == height,
            forall|px: int, py: int|
                0 <= px < width && 0 <= py < height ==> #[trigger] r.pixel(px, py) == background,
    {
        proof {
            lemma_mul_abs_bound(width as int, height as int, 32769, 32769);
        }
        let n = width * height;
        let mut pixels: Vec<Rgba> = Vec::new();
        let mut k: usize = 0;
        while k < n
            invariant
                k <= n,
                pixels@.len() == k,
                forall|i: int| 0 <= i < k ==> pixels@[i] == background,
            decreases n - k,
        {
            pixels.push(background);
            k += 1;
        }
        let r = Image { width, height, pixels };
        proof {
            assert forall|px: int, py: int|
                0 <= px < width && 0 <= py < height implies #[trigger] r.pixel(px, py)
                == background by {
                lemma_pixel_index(px, py, width as int, height as int);
            }
        }
        r
    }

    pub fn get_pixel(&self, x: usize, y: usize) -> (r: Rgba)
        requires
            self.wf(),
            x < self.width,
            y < self.height,
        ensures
            r == self.pixel(x as int, y as int),
    {
        proof {
            lemma_pixel_index(x as int, y as int, self.width as int, self.height as int);
            lemma_mul_abs_bound(self.width as int, self.height as int, 32769, 32769);
        }
        self.pixels[y * self.width + x]
    }

    pub fn width(&self) -> (r: usize)
        ensures
            r == self.width,
    {
        self.width
    }

    pub fn height(&self) -> (r: usize)
        ensures
            r == self.height,
    {
        self.height
    }
}

/// The flat index of a pixel lies within a `w * h` pixel vector.
proof fn lemma_pixel_index(px: int, py: int, w: int, h: int)
    by (nonlinear_arith)
    requires
        0 <= px < w,
        0 <= py < h,
    ensures
        0 <= py * w + px < w * h,
{
}

/// Distinct pixels have distinct flat indices.
proof fn lemma_pixel_index_distinct(px: int, py: int, qx: int, qy: int, w: int)
    by (nonlinear_arith)
    requires
        0 <= px < w,
        0 <= qx < w,
        0 <= py,
        0 <= qy,
        !(px == qx && py == qy),
    ensures
        py * w + px != qy * w + qx,
{
}

/// Writes one pixel, dropping writes outside the buffer silently.
pub fn plot(img: &mut Image, x: i32, y: i32, color: Rgba)
    requires
        old(img).wf(),
    ensures
        final(img).wf(),
        final(img).width == old(img).width,
        final(img).height == old(img).height,
        0 <= x < old(img).width && 0 <= y < old(img).height ==> final(img).pixel(
            x as int,
            y as int,
        ) == color,
        forall|px: int, py: int|
            0 <= px < old(img).width && 0 <= py < old(img).height && !(px == x && py == y)
                ==> #[trigger] final(img).pixel(px, py) == old(img).pixel(px, py),
{
    if x >= 0 && y >= 0 && (x as usize) < img.width && (y as usize) < img.height {
        proof {
            lemma_pixel_index(x as int, y as int, img.width as int, img.height as int);
            lemma_mul_abs_bound(img.width as int, img.height as int, 32769, 32769);
        }
        let idx = (y as usize) * img.width + (x as usize);
        img.pixels.set(idx, color);
        proof {
            assert forall|px: int, py: int|
                0 <= px < old(img).width && 0 <= py < old(img).height && !(px == x && py == y)
                    implies #[trigger] final(img).pixel(px, py) == old(img).pixel(px, py) by {
                lemma_pixel_index(px, py, old(img).width as int, old(img).height as int);
                lemma_pixel_index_distinct(px, py, x as int, y as int, old(img).width as int);
            }
        }
    }
}

/// The texture column sampled for a color rational `num / den` scaled by
/// the texture size: the scaled value truncated toward zero and clamped to
/// the valid range.
pub open spec fn tex_coord(num: int, den: int, size: int) -> int {
    let v = tdiv(num * size, den);
    if v < 0 {
        0
    } else if v >= size {
        size - 1
    } else {
        v
    }
}

/// The texel that a plot command samples: its first two color slots carry
/// interpolated texture coordinates, scaled by the texture dimensions.
pub open spec fn sample(tex: Image, cmd: PlotCmd) -> Rgba {
    tex.pixel(
        tex_coord(cmd.r.num as int, cmd.r.den as int, tex.width as int),
        tex_coord(cmd.g.num as int, cmd.g.den as int, tex.height as int),
    )
}

/// Applies the rasterizer's pixel writes to the render target: each
/// command's interpolated texture coordinates are scaled by the texture
/// size, clamped, sampled, and the texel is written to the command's
/// pixel (writes outside the target are dropped).
#[verifier::loop_isolation(false)]
pub fn draw_plots(img: &mut Image, tex: &Image, cmds: &Vec<PlotCmd>)
    requires
        old(img).wf(),
        tex.wf(),
        tex.width >= 1,
        tex.height >= 1,
        forall|k: int| 0 <= k < cmds@.len() ==> cmd_wf(#[trigger] cmds@[k]),
        forall|k1: int, k2: int|
            0 <= k1 < k2 < cmds@.len() ==> !((#[trigger] cmds@[k1]).x == (#[trigger] cmds@[k2]).x
                && cmds@[k1].y == cmds@[k2].y),
    ensures
        final(img).wf(),
        final(img).width == old(img).width,
        final(img).height == old(img).height,
        forall|k: int|
            0 <= k < cmds@.len() && 0 <= (#[trigger] cmds@[k]).x < old(img).width && 0
                <= cmds@[k].y < old(img).height ==> final(img).pixel(
                cmds@[k].x as int,
                cmds@[k].y as int,
            ) == sample(*tex, cmds@[k]),
        forall|px: int, py: int|
            0 <= px < old(img).width && 0 <= py < old(img).height && (forall|k: int|
                0 <= k < cmds@.len() ==> !((#[trigger] cmds@[k]).x == px && cmds@[k].y == py))
                ==> #[trigger] final(img).pixel(px, py) == old(img).pixel(px, py),
{
    let ghost img0 = *img;
    let mut i: usize = 0;
    while i < cmds.len()
        invariant
            i <= cmds@.len(),
            img.wf(),
            img.width == img0.width,
            img.height == img0.height,
            forall|k: int|
                0 <= k < i && 0 <= (#[trigger] cmds@[k]).x < img0.width && 0 <= cmds@[k].y
                    < img0.height ==> img.pixel(cmds@[k].x as int, cmds@[k].y as int) == sample(
                    *tex,
                    cmds@[k],
                ),
            forall|px: int, py: int|
                0 <= px < img0.width && 0 <= py < img0.height && (forall|k: int|
                    0 <= k < i ==> !((#[trigger] cmds@[k]).x == px && cmds@[k].y == py))
                    ==> #[trigger] img.pixel(px, py) == img0.pixel(px, py),
        decreases cmds@.len() - i,
    {
        let cmd = cmds[i];
        let tw = tex.width;
        let th = tex.height;
        proof {
            lemma_mul_abs_bound(cmd.r.num as int, tw as int, COL_NUM_LIMIT as int, 32769);
            lemma_mul_abs_bound(cmd.g.num as int, th as int, COL_NUM_LIMIT as int, 32769);
        }
        let vx = crate::rat::div_trunc(cmd.r.num * (tw as i128), cmd.r.den);
        let tx = if vx < 0 {
            0
        } else if vx >= tw as i128 {
            tw - 1
        } else {
            vx as usize
        };
        let vy = crate::rat::div_trunc(cmd.g.num * (th as i128), cmd.g.den);
        let ty = if vy < 0 {
            0
        } else if vy >= th as i128 {
            th - 1
        } else {
            vy as usize
        };
        let color = tex.get_pixel(tx, ty);
        proof {
            assert(color == sample(*tex, cmd));
        }
        plot(img, cmd.x, cmd.y, color);
        i += 1;
    }
}

} // verus!
