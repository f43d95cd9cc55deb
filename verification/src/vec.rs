use vstd::prelude::*;

verus! {

/// An integer pixel coordinate.
#[derive(Clone, Copy, Debug, PartialEq, Eq, Structural)]
pub struct Vec2i {
    pub x: i32,
    pub y: i32,
}

impl Vec2i {
    pub fn from_points(x: i32, y: i32) -> (v: Vec2i)
        ensures
            v.x == x,
            v.y == y,
    {
        Vec2i { x, y }
    }
}

/// Bound on the components and denominator accepted by the arithmetic
/// methods of `Vec3q`; keeps every product of two components exact in `i64`.
pub const VEC_LIMIT: i64 = 1073741824;

/// The product of two positive values is positive.
pub proof fn lemma_mul_pos(a: int, b: int)
    by (nonlinear_arith)
    requires
        a > 0,
        b > 0,
    ensures
        a * b > 0,
{
}

/// Products of values strictly below a bound stay strictly below the
/// product of the bounds.
pub proof fn lemma_mul_abs_bound(a: int, b: int, p: int, q: int)
    by (nonlinear_arith)
    requires
        -p < a < p,
        -q < b < q,
        0 < p,
        0 < q,
    ensures
        -(p * q) < a * b < p * q,
{
}

/// A three-component rational vector: the components are `x / den`,
/// `y / den` and `z / den`, sharing one positive denominator.
///
/// Depending on context a value is a 3D point, an RGB color, or a
/// barycentric weight triple; callers track which role a value plays.
#[derive(Clone, Copy, Debug, PartialEq, Eq, Structural)]
pub struct Vec3q {
    pub x: i64,
    pub y: i64,
    pub z: i64,
    pub den: i64,
}

impl Vec3q {
    pub open spec fn wf(self) -> bool {
        self.den > 0
    }

    /// All numerators and the denominator lie strictly within `bound`.
    pub open spec fn abs_lt(self, bound: int) -> bool {
        &&& -bound < self.x < bound
        &&& -bound < self.y < bound
        &&& -bound < self.z < bound
        &&& 0 < self.den < bound
    }

    /// Component `i` of the vector, as a spec value (the numerator; the
    /// denominator is shared).
    pub open spec fn spec_index(self, i: int) -> int {
        if i == 0 {
            self.x as int
        } else if i == 1 {
            self.y as int
        } else {
            self.z as int
        }
    }

    pub fn from_points(x: i64, y: i64, z: i64, den: i64) -> (v: Vec3q)
        requires
            den > 0,
        ensures
            v == (Vec3q { x, y, z, den }),
    {
        Vec3q { x, y, z, den }
    }

    pub fn from_array(v: [i64; 3], den: i64) -> (r: Vec3q)
        requires
            den > 0,
        ensures
            r == (Vec3q { x: v[0], y: v[1], z: v[2], den }),
    {
        Vec3q { x: v[0], y: v[1], z: v[2], den }
    }

    /// Builds a vector from a two-component array; the third component is
    /// zero.  Used for texture coordinates.
    pub fn from_array2(v: [i64; 2], den: i64) -> (r: Vec3q)
        requires
            den > 0,
        ensures
            r == (Vec3q { x: v[0], y: v[1], z: 0, den }),
    {
        Vec3q { x: v[0], y: v[1], z: 0, den }
    }

    /// Component access; only indices 0 through 2 are meaningful, as in the
    /// rest of the pipeline.  Returns the numerator of the component.
    pub fn index(&self, i: usize) -> (r: i64)
        requires
            i < 3,
        ensures
            r == self.spec_index(i as int),
    {
        if i == 0 {
            self.x
        } else if i == 1 {
            self.y
        } else {
            self.z
        }
    }

    /// Exact difference: `self - other`, over the common denominator
    /// `self.den * other.den`.
    pub fn sub(&self, other: &Vec3q) -> (r: Vec3q)
        requires
            self.abs_lt(VEC_LIMIT as int),
            other.abs_lt(VEC_LIMIT as int),
        ensures
            r.den == self.den * other.den,
            r.x == self.x * other.den - other.x * self.den,
            r.y == self.y * other.den - other.y * self.den,
            r.z == self.z * other.den - other.z * self.den,
            r.wf(),
    {
        proof {
            let l = VEC_LIMIT as int;
            lemma_mul_abs_bound(self.x as int, other.den as int, l, l);
            lemma_mul_abs_bound(other.x as int, self.den as int, l, l);
            lemma_mul_abs_bound(self.y as int, other.den as int, l, l);
            lemma_mul_abs_bound(other.y as int, self.den as int, l, l);
            lemma_mul_abs_bound(self.z as int, other.den as int, l, l);
            lemma_mul_abs_bound(other.z as int, self.den as int, l, l);
            lemma_mul_abs_bound(self.den as int, other.den as int, l, l);
            lemma_mul_pos(self.den as int, other.den as int);
        }
        Vec3q {
            x: self.x * other.den - other.x * self.den,
            y: self.y * other.den - other.y * self.den,
            z: self.z * other.den - other.z * self.den,
            den: self.den * other.den,
        }
    }

    /// Exact cross product, over the common denominator
    /// `self.den * other.den`.
    pub fn cross(&self, other: &Vec3q) -> (r: Vec3q)
        requires
            self.abs_lt(VEC_LIMIT as int),
            other.abs_lt(VEC_LIMIT as int),
        ensures
            r.den == self.den * other.den,
            r.x == self.y * other.z - self.z * other.y,
            r.y == self.z * other.x - self.x * other.z,
            r.z == self.x * other.y - self.y * other.x,
            r.wf(),
    {
        proof {
            let l = VEC_LIMIT as int;
            lemma_mul_abs_bound(self.y as int, other.z as int, l, l);
            lemma_mul_abs_bound(self.z as int, other.y as int, l, l);
            lemma_mul_abs_bound(self.z as int, other.x as int, l, l);
            lemma_mul_abs_bound(self.x as int, other.z as int, l, l);
            lemma_mul_abs_bound(self.x as int, other.y as int, l, l);
            lemma_mul_abs_bound(self.y as int, other.x as int, l, l);
            lemma_mul_abs_bound(self.den as int, other.den as int, l, l);
            lemma_mul_pos(self.den as int, other.den as int);
        }
        Vec3q {
            x: self.y * other.z - self.z * other.y,
            y: self.z * other.x - self.x * other.z,
            z: self.x * other.y - self.y * other.x,
            den: self.den * other.den,
        }
    }

    /// Exact dot product as a rational scalar.
    pub fn dot(&self, other: &Vec3q) -> (r: crate::rat::Rat)
        requires
            self.abs_lt(VEC_LIMIT as int),
            other.abs_lt(VEC_LIMIT as int),
        ensures
            r.den == self.den * other.den,
            r.num == self.x * other.x + self.y * other.y + self.z * other.z,
            r.wf(),
    {
        proof {
            let l = VEC_LIMIT as int;
            lemma_mul_abs_bound(self.x as int, other.x as int, l, l);
            lemma_mul_abs_bound(self.y as int, other.y as int, l, l);
            lemma_mul_abs_bound(self.z as int, other.z as int, l, l);
            lemma_mul_abs_bound(self.den as int, other.den as int, l, l);
            lemma_mul_pos(self.den as int, other.den as int);
        }
        crate::rat::Rat {
            num: self.x * other.x + self.y * other.y + self.z * other.z,
            den: self.den * other.den,
        }
    }

    /// Exact element-wise product.
    pub fn scale(&self, other: &Vec3q) -> (r: Vec3q)
        requires
            self.abs_lt(VEC_LIMIT as int),
            other.abs_lt(VEC_LIMIT as int),
        ensures
            r.den == self.den * other.den,
            r.x == self.x * other.x,
            r.y == self.y * other.y,
            r.z == self.z * other.z,
            r.wf(),
    {
        proof {
            let l = VEC_LIMIT as int;
            lemma_mul_abs_bound(self.x as int, other.x as int, l, l);
            lemma_mul_abs_bound(self.y as int, other.y as int, l, l);
            lemma_mul_abs_bound(self.z as int, other.z as int, l, l);
            lemma_mul_abs_bound(self.den as int, other.den as int, l, l);
            lemma_mul_pos(self.den as int, other.den as int);
        }
        Vec3q {
            x: self.x * other.x,
            y: self.y * other.y,
            z: self.z * other.z,
            den: self.den * other.den,
        }
    }
}

} // verus!
