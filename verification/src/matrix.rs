use vstd::prelude::*;

use crate::vec::{lemma_mul_abs_bound, lemma_mul_pos, Vec3q};

verus! {

/// Bound on the entries and denominator accepted by `matmul` (2^62);
/// keeps the four-term entry sums exact in `i128`.
pub const MAT_MUL_LIMIT: i128 = 4611686018427387904;

/// Bound on the matrix side accepted by `transform` (2^100).
pub const MAT_TF_LIMIT: i128 = 1267650600228229401496703205376;

/// Bound on the vector side accepted by `transform` (2^24).
pub const VEC_TF_LIMIT: i128 = 16777216;

/// Bound that the components of a transformed vector are guaranteed to
/// stay within: four times the product of the two input bounds (2^126).
pub const TF_OUT_LIMIT: i128 = 85070591730234615865843651857942052864;

/// A dense 4x4 matrix of rationals: entry `(i, j)` is `m[4*i + j] / den`,
/// all entries sharing one positive denominator.
#[derive(Clone, Debug)]
pub struct Mat4 {
    pub m: Vec<i128>,
    pub den: i128,
}

/// A homogeneous 4-component rational vector over a shared positive
/// denominator.
#[derive(Clone, Copy, Debug)]
pub struct Vec4q {
    pub x: i128,
    pub y: i128,
    pub z: i128,
    pub w: i128,
    pub den: i128,
}

impl Vec4q {
    pub open spec fn wf(self) -> bool {
        self.den > 0
    }

    pub open spec fn abs_lt(self, bound: int) -> bool {
        &&& -bound < self.x < bound
        &&& -bound < self.y < bound
        &&& -bound < self.z < bound
        &&& -bound < self.w < bound
        &&& 0 < self.den < bound
    }

    /// Component `i` of the vector (its numerator).
    pub open spec fn spec_index(self, i: int) -> int {
        if i == 0 {
            self.x as int
        } else if i == 1 {
            self.y as int
        } else if i == 2 {
            self.z as int
        } else {
            self.w as int
        }
    }
}

/// A 3D point recovered from a homogeneous vector by the perspective
/// divide: the components are `x / den`, `y / den`, `z / den`.
#[derive(Clone, Copy, Debug)]
pub struct Pt3w {
    pub x: i128,
    pub y: i128,
    pub z: i128,
    pub den: i128,
}

impl Pt3w {
    pub open spec fn wf(self) -> bool {
        self.den > 0
    }
}

/// Entry `(i, j)` of the matrix product of `a` and `b`, over the
/// denominator `a.den * b.den`.
pub open spec fn mm_entry(a: Mat4, b: Mat4, i: int, j: int) -> int {
    a.entry(i, 0) * b.entry(0, j) + a.entry(i, 1) * b.entry(1, j) + a.entry(i, 2) * b.entry(2, j)
        + a.entry(i, 3) * b.entry(3, j)
}

/// Component `i` of the matrix-vector product of `m` and `v`, over the
/// denominator `m.den * v.den`.
pub open spec fn tf_comp(m: Mat4, v: Vec4q, i: int) -> int {
    m.entry(i, 0) * v.x + m.entry(i, 1) * v.y + m.entry(i, 2) * v.z + m.entry(i, 3) * v.w
}

impl Mat4 {
    pub open spec fn wf(self) -> bool {
        &&& self.m@.len() == 16
        &&& self.den > 0
    }

    pub open spec fn entry(self, i: int, j: int) -> int {
        self.m@[4 * i + j] as int
    }

    /// All entries lie strictly within `bound`, as does the denominator.
    pub open spec fn abs_lt(self, bound: int) -> bool {
        &&& forall|k: int| 0 <= k < 16 ==> -bound < #[trigger] self.m@[k] < bound
        &&& 0 < self.den < bound
    }

    /// The identity matrix.
    pub fn identity() -> (r: Mat4)
        ensures
            r.wf(),
            r.den == 1,
            forall|i: int, j: int|
                0 <= i < 4 && 0 <= j < 4 ==> #[trigger] r.entry(i, j) == if i == j {
                    1int
                } else {
                    0int
                },
            r.abs_lt(2),
    {
        let m: Vec<i128> = vec![1, 0, 0, 0, 0, 1, 0, 0, 0, 0, 1, 0, 0, 0, 0, 1];
        Mat4 { m, den: 1 }
    }

    /// Runtime check that the matrix is well formed with all entries and
    /// the denominator strictly within `limit`; lets unverified callers
    /// establish the preconditions of `matmul` and `transform`.
    #[verifier::loop_isolation(false)]
    pub fn within(&self, limit: i128) -> (r: bool)
        requires
            limit > 0,
        ensures
            r == (self.wf() && self.abs_lt(limit as int)),
    {
        if self.m.len() != 16 {
            return false;
        }
        if !(0 < self.den && self.den < limit) {
            return false;
        }
        let mut k: usize = 0;
        while k < 16
            invariant
                k <= 16,
                self.m@.len() == 16,
                forall|t: int| 0 <= t < k ==> -limit < #[trigger] self.m@[t] < limit,
            decreases 16 - k,
        {
            let e = self.m[k];
            if !(-limit < e && e < limit) {
                return false;
            }
            k += 1;
        }
        true
    }
}

/// Exact matrix product `a * b`, entry-wise
/// `sum_k a[i][k] * b[k][j]` over the denominator `a.den * b.den`.
/// Matrix composition is not commutative; the point transform composes
/// as viewport * projection * view.
#[verifier::loop_isolation(false)]
pub fn matmul(a: &Mat4, b: &Mat4) -> (r: Mat4)
    requires
        a.wf(),
        b.wf(),
        a.abs_lt(MAT_MUL_LIMIT as int),
        b.abs_lt(MAT_MUL_LIMIT as int),
    ensures
        r.wf(),
        r.den == a.den * b.den,
        forall|i: int, j: int|
            0 <= i < 4 && 0 <= j < 4 ==> #[trigger] r.entry(i, j) == mm_entry(*a, *b, i, j),
{
    proof {
        lemma_mul_pos(a.den as int, b.den as int);
        lemma_mul_abs_bound(a.den as int, b.den as int, MAT_MUL_LIMIT as int, MAT_MUL_LIMIT as int);
    }
    let mut m: Vec<i128> = Vec::new();
    let mut i: usize = 0;
    while i < 4
        invariant
            i <= 4,
            m@.len() == 4 * i,
            forall|p: int, q: int|
                0 <= p < i && 0 <= q < 4 ==> m@[4 * p + q] == mm_entry(*a, *b, p, q),
        decreases 4 - i,
    {
        let mut j: usize = 0;
        while j < 4
            invariant
                j <= 4,
                m@.len() == 4 * i + j,
                forall|p: int, q: int|
                    0 <= p < i && 0 <= q < 4 ==> m@[4 * p + q] == mm_entry(*a, *b, p, q),
            forall|q: int| 0 <= q < j ==> m@[4 * i + q] == mm_entry(*a, *b, i as int, q),
            decreases 4 - j,
        {
            proof {
                let l = MAT_MUL_LIMIT as int;
                lemma_mul_abs_bound(a.entry(i as int, 0), b.entry(0, j as int), l, l);
                lemma_mul_abs_bound(a.entry(i as int, 1), b.entry(1, j as int), l, l);
                lemma_mul_abs_bound(a.entry(i as int, 2), b.entry(2, j as int), l, l);
                lemma_mul_abs_bound(a.entry(i as int, 3), b.entry(3, j as int), l, l);
            }
            let s = a.m[4 * i] * b.m[j] + a.m[4 * i + 1] * b.m[4 + j] + a.m[4 * i + 2] * b.m[8 + j]
                + a.m[4 * i + 3] * b.m[12 + j];
            m.push(s);
            j += 1;
        }
        i += 1;
    }
    Mat4 { m, den: a.den * b.den }
}

/// Exact matrix-vector product: component `i` of the result is
/// `sum_k m[i][k] * v[k]` over the denominator `m.den * v.den`.
pub fn transform(m: &Mat4, v: &Vec4q) -> (r: Vec4q)
    requires
        m.wf(),
        v.wf(),
        m.abs_lt(MAT_TF_LIMIT as int),
        v.abs_lt(VEC_TF_LIMIT as int),
    ensures
        r.wf(),
        r.den == m.den * v.den,
        r.x == tf_comp(*m, *v, 0),
        r.y == tf_comp(*m, *v, 1),
        r.z == tf_comp(*m, *v, 2),
        r.w == tf_comp(*m, *v, 3),
        r.abs_lt(TF_OUT_LIMIT as int),
{
    proof {
        let lm = MAT_TF_LIMIT as int;
        let lv = VEC_TF_LIMIT as int;
        lemma_mul_abs_bound(m.entry(0, 0), v.x as int, lm, lv);
        lemma_mul_abs_bound(m.entry(0, 1), v.y as int, lm, lv);
        lemma_mul_abs_bound(m.entry(0, 2), v.z as int, lm, lv);
        lemma_mul_abs_bound(m.entry(0, 3), v.w as int, lm, lv);
        lemma_mul_abs_bound(m.entry(1, 0), v.x as int, lm, lv);
        lemma_mul_abs_bound(m.entry(1, 1), v.y as int, lm, lv);
        lemma_mul_abs_bound(m.entry(1, 2), v.z as int, lm, lv);
        lemma_mul_abs_bound(m.entry(1, 3), v.w as int, lm, lv);
        lemma_mul_abs_bound(m.entry(2, 0), v.x as int, lm, lv);
        lemma_mul_abs_bound(m.entry(2, 1), v.y as int, lm, lv);
        lemma_mul_abs_bound(m.entry(2, 2), v.z as int, lm, lv);
        lemma_mul_abs_bound(m.entry(2, 3), v.w as int, lm, lv);
        lemma_mul_abs_bound(m.entry(3, 0), v.x as int, lm, lv);
        lemma_mul_abs_bound(m.entry(3, 1), v.y as int, lm, lv);
        lemma_mul_abs_bound(m.entry(3, 2), v.z as int, lm, lv);
        lemma_mul_abs_bound(m.entry(3, 3), v.w as int, lm, lv);
        lemma_mul_pos(m.den as int, v.den as int);
        lemma_mul_abs_bound(m.den as int, v.den as int, lm, lv);
    }
    let x = m.m[0] * v.x + m.m[1] * v.y + m.m[2] * v.z + m.m[3] * v.w;
    let y = m.m[4] * v.x + m.m[5] * v.y + m.m[6] * v.z + m.m[7] * v.w;
    let z = m.m[8] * v.x + m.m[9] * v.y + m.m[10] * v.z + m.m[11] * v.w;
    let w = m.m[12] * v.x + m.m[13] * v.y + m.m[14] * v.z + m.m[15] * v.w;
    Vec4q { x, y, z, w, den: m.den * v.den }
}

/// Any component of a matrix-vector product is bounded by four times the
/// product of bounds on the factors.
pub proof fn lemma_transform_abs(m: Mat4, v: Vec4q, r: Vec4q, p: int, q: int)
    requires
        m.wf(),
        v.wf(),
        m.abs_lt(p),
        v.abs_lt(q),
        r.x == tf_comp(m, v, 0),
        r.y == tf_comp(m, v, 1),
        r.z == tf_comp(m, v, 2),
        r.w == tf_comp(m, v, 3),
        r.den == m.den * v.den,
    ensures
        r.abs_lt(4 * p * q),
{
    lemma_mul_abs_bound(m.entry(0, 0), v.x as int, p, q);
    lemma_mul_abs_bound(m.entry(0, 1), v.y as int, p, q);
    lemma_mul_abs_bound(m.entry(0, 2), v.z as int, p, q);
    lemma_mul_abs_bound(m.entry(0, 3), v.w as int, p, q);
    lemma_mul_abs_bound(m.entry(1, 0), v.x as int, p, q);
    lemma_mul_abs_bound(m.entry(1, 1), v.y as int, p, q);
    lemma_mul_abs_bound(m.entry(1, 2), v.z as int, p, q);
    lemma_mul_abs_bound(m.entry(1, 3), v.w as int, p, q);
    lemma_mul_abs_bound(m.entry(2, 0), v.x as int, p, q);
    lemma_mul_abs_bound(m.entry(2, 1), v.y as int, p, q);
    lemma_mul_abs_bound(m.entry(2, 2), v.z as int, p, q);
    lemma_mul_abs_bound(m.entry(2, 3), v.w as int, p, q);
    lemma_mul_abs_bound(m.entry(3, 0), v.x as int, p, q);
    lemma_mul_abs_bound(m.entry(3, 1), v.y as int, p, q);
    lemma_mul_abs_bound(m.entry(3, 2), v.z as int, p, q);
    lemma_mul_abs_bound(m.entry(3, 3), v.w as int, p, q);
    lemma_mul_pos(m.den as int, v.den as int);
    lemma_mul_abs_bound(m.den as int, v.den as int, p, q);
    assert(4 * p * q == p * q + p * q + p * q + p * q) by (nonlinear_arith);
}

/// Embeds a 3D point into homogeneous coordinates with a fourth
/// coordinate of one.
pub fn embed(v: &Vec3q) -> (r: Vec4q)
    requires
        v.wf(),
    ensures
        r.wf(),
        r.den == v.den,
        r.x == v.x,
        r.y == v.y,
        r.z == v.z,
        r.w == v.den,
    {
    Vec4q { x: v.x as i128, y: v.y as i128, z: v.z as i128, w: v.den as i128, den: v.den as i128 }
}

/// The perspective divide: maps a homogeneous vector to the 3D point
/// `(x/w, y/w, z/w)`.  A vector with `w == 0` has no finite image and is
/// rejected, rather than letting the division blow up.
pub fn project(v: &Vec4q) -> (r: Option<Pt3w>)
    requires
        v.wf(),
        v.x > i128::MIN,
        v.y > i128::MIN,
        v.z > i128::MIN,
        v.w > i128::MIN,
    ensures
        r is None <==> v.w == 0,
        r is Some ==> {
            let p = r->Some_0;
            &&& p.wf()
            &&& if v.w > 0 {
                p.x == v.x && p.y == v.y && p.z == v.z && p.den == v.w
            } else {
                p.x == -v.x && p.y == -v.y && p.z == -v.z && p.den == -v.w
            }
        },
{
    if v.w == 0 {
        None
    } else if v.w > 0 {
        Some(Pt3w { x: v.x, y: v.y, z: v.z, den: v.w })
    } else {
        Some(Pt3w { x: -v.x, y: -v.y, z: -v.z, den: -v.w })
    }
}

} // verus!
