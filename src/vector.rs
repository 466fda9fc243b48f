//! Fixed-point vectors and 4x4 matrices.
use vstd::prelude::*;
use crate::math::{
    fadd, fmul, fsub, is_isqrt, isqrt, rescale, rescale_exec, unit_comp, fx_add, fx_sub, fx_mul,
    lemma_mul_i32_bound, ONE,
};

verus! {

#[derive(Clone, Copy, Debug, PartialEq, Eq, Structural)]
pub struct Vec2 {
    pub x: i32,
    pub y: i32,
}

#[derive(Clone, Copy, Debug, PartialEq, Eq, Structural)]
pub struct Vec3 {
    pub x: i32,
    pub y: i32,
    pub z: i32,
}

#[derive(Clone, Copy, Debug, PartialEq, Eq, Structural)]
pub struct Vec4 {
    pub x: i32,
    pub y: i32,
    pub z: i32,
    pub w: i32,
}

/// A 4x4 matrix stored by rows.
#[derive(Clone, Copy, Debug, PartialEq, Eq, Structural)]
pub struct Mat4 {
    pub r0: Vec4,
    pub r1: Vec4,
    pub r2: Vec4,
    pub r3: Vec4,
}

pub open spec fn v3(x: int, y: int, z: int) -> Vec3 {
    Vec3 { x: x as i32, y: y as i32, z: z as i32 }
}

pub open spec fn v3_add(a: Vec3, b: Vec3) -> Vec3 {
    v3(fadd(a.x as int, b.x as int), fadd(a.y as int, b.y as int), fadd(a.z as int, b.z as int))
}

pub open spec fn v3_sub(a: Vec3, b: Vec3) -> Vec3 {
    v3(fsub(a.x as int, b.x as int), fsub(a.y as int, b.y as int), fsub(a.z as int, b.z as int))
}

pub open spec fn v3_scale(a: Vec3, s: int) -> Vec3 {
    v3(fmul(a.x as int, s), fmul(a.y as int, s), fmul(a.z as int, s))
}

pub open spec fn v3_mul(a: Vec3, b: Vec3) -> Vec3 {
    v3(fmul(a.x as int, b.x as int), fmul(a.y as int, b.y as int), fmul(a.z as int, b.z as int))
}

pub open spec fn v3_neg(a: Vec3) -> Vec3 {
    v3(fsub(0, a.x as int), fsub(0, a.y as int), fsub(0, a.z as int))
}

pub open spec fn dot3(a: Vec3, b: Vec3) -> int {
    rescale(a.x * b.x + a.y * b.y + a.z * b.z)
}

pub open spec fn cross3(a: Vec3, b: Vec3) -> Vec3 {
    v3(
        rescale(a.y * b.z - a.z * b.y),
        rescale(a.z * b.x - a.x * b.z),
        rescale(a.x * b.y - a.y * b.x),
    )
}

pub open spec fn norm_sq(a: Vec3) -> int {
    a.x * a.x + a.y * a.y + a.z * a.z
}

/// The integer square root, rounded down.
pub open spec fn sqrt_floor(n: int) -> int {
    choose|r: int| is_isqrt(n, r)
}

/// The vector scaled to length `ONE`, each component rounded toward zero; the zero vector
/// stays zero.
pub open spec fn normalized(a: Vec3) -> Vec3 {
    let len = sqrt_floor(norm_sq(a));
    if len == 0 {
        v3(0, 0, 0)
    } else {
        v3(unit_comp(a.x as int, len), unit_comp(a.y as int, len), unit_comp(a.z as int, len))
    }
}

pub open spec fn dot4_exact(a: Vec4, b: Vec4) -> int {
    a.x * b.x + a.y * b.y + a.z * b.z + a.w * b.w
}

pub open spec fn mat_vec(m: Mat4, v: Vec4) -> Vec4 {
    Vec4 {
        x: rescale(dot4_exact(m.r0, v)) as i32,
        y: rescale(dot4_exact(m.r1, v)) as i32,
        z: rescale(dot4_exact(m.r2, v)) as i32,
        w: rescale(dot4_exact(m.r3, v)) as i32,
    }
}

pub proof fn lemma_isqrt_unique(n: int, r1: int, r2: int)
    requires
        is_isqrt(n, r1),
        is_isqrt(n, r2),
    ensures
        r1 == r2,
{
    if r1 < r2 {
        assert((r1 + 1) * (r1 + 1) <= r2 * r2) by (nonlinear_arith)
            requires
                0 <= r1 + 1 <= r2,
        ;
    } else if r2 < r1 {
        assert((r2 + 1) * (r2 + 1) <= r1 * r1) by (nonlinear_arith)
            requires
                0 <= r2 + 1 <= r1,
        ;
    }
}

pub proof fn lemma_sqrt_floor(n: int, r: int)
    requires
        is_isqrt(n, r),
    ensures
        sqrt_floor(n) == r,
{
    lemma_isqrt_unique(n, r, sqrt_floor(n));
}

/// A component is at most the rounded-down length of its vector.
proof fn lemma_comp_le_len(c: int, s: int, len: int)
    requires
        c * c <= s,
        is_isqrt(s, len),
    ensures
        -len <= c <= len,
{
    if c > len {
        assert((len + 1) * (len + 1) <= c * c) by (nonlinear_arith)
            requires
                0 <= len + 1 <= c,
        ;
    }
    if c < -len {
        assert((len + 1) * (len + 1) <= c * c) by (nonlinear_arith)
            requires
                0 <= len + 1 <= -c,
        ;
    }
}

proof fn lemma_unit_comp_bound(c: int, len: int)
    requires
        -len <= c <= len,
        len > 0,
    ensures
        -(ONE as int) <= unit_comp(c, len) <= ONE as int,
{
    let o = ONE as int;
    if c >= 0 {
        assert(c * o <= len * o) by (nonlinear_arith)
            requires
                c <= len,
                o > 0,
        ;
        vstd::arithmetic::div_mod::lemma_div_is_ordered(c * o, len * o, len);
        vstd::arithmetic::div_mod::lemma_div_by_multiple(o, len);
        assert(len * o == o * len) by (nonlinear_arith);
        assert(0 <= c * o) by (nonlinear_arith)
            requires
                c >= 0,
                o > 0,
        ;
        vstd::arithmetic::div_mod::lemma_div_pos_is_pos(c * o, len);
    } else {
        assert((-c) * o <= len * o) by (nonlinear_arith)
            requires
                -c <= len,
                o > 0,
        ;
        vstd::arithmetic::div_mod::lemma_div_is_ordered((-c) * o, len * o, len);
        vstd::arithmetic::div_mod::lemma_div_by_multiple(o, len);
        assert(len * o == o * len) by (nonlinear_arith);
        assert(0 <= (-c) * o) by (nonlinear_arith)
            requires
                c < 0,
                o > 0,
        ;
        vstd::arithmetic::div_mod::lemma_div_pos_is_pos((-c) * o, len);
    }
}

fn unit_comp_exec(c: i32, len: i128) -> (r: i32)
    requires
        len > 0,
        -len <= c <= len,
    ensures
        r == unit_comp(c as int, len as int),
{
    proof {
        lemma_unit_comp_bound(c as int, len as int);
    }
    if c >= 0 {
        ((c as i128 * ONE as i128) / len) as i32
    } else {
        (-((-(c as i128) * ONE as i128) / len)) as i32
    }
}

impl Vec2 {
    pub fn new(x: i32, y: i32) -> (r: Vec2)
        ensures
            r == (Vec2 { x, y }),
    {
        Vec2 { x, y }
    }
}

impl Vec3 {
    pub fn new(x: i32, y: i32, z: i32) -> (r: Vec3)
        ensures
            r == (Vec3 { x, y, z }),
    {
        Vec3 { x, y, z }
    }

    pub fn zero() -> (r: Vec3)
        ensures
            r == (Vec3 { x: 0, y: 0, z: 0 }),
    {
        Vec3 { x: 0, y: 0, z: 0 }
    }

    pub fn add(&self, o: &Vec3) -> (r: Vec3)
        ensures
            r == v3_add(*self, *o),
    {
        Vec3 { x: fx_add(self.x, o.x), y: fx_add(self.y, o.y), z: fx_add(self.z, o.z) }
    }

    pub fn sub(&self, o: &Vec3) -> (r: Vec3)
        ensures
            r == v3_sub(*self, *o),
    {
        Vec3 { x: fx_sub(self.x, o.x), y: fx_sub(self.y, o.y), z: fx_sub(self.z, o.z) }
    }

    pub fn neg(&self) -> (r: Vec3)
        ensures
            r == v3_neg(*self),
    {
        Vec3 { x: fx_sub(0, self.x), y: fx_sub(0, self.y), z: fx_sub(0, self.z) }
    }

    pub fn scale(&self, s: i32) -> (r: Vec3)
        ensures
            r == v3_scale(*self, s as int),
    {
        Vec3 { x: fx_mul(self.x, s), y: fx_mul(self.y, s), z: fx_mul(self.z, s) }
    }

    /// Component-wise product.
    pub fn mul_element_wise(&self, o: &Vec3) -> (r: Vec3)
        ensures
            r == v3_mul(*self, *o),
    {
        Vec3 { x: fx_mul(self.x, o.x), y: fx_mul(self.y, o.y), z: fx_mul(self.z, o.z) }
    }

    pub fn dot(&self, o: &Vec3) -> (r: i32)
        ensures
            r == dot3(*self, *o),
    {
        proof {
            lemma_mul_i32_bound(self.x as int, o.x as int);
            lemma_mul_i32_bound(self.y as int, o.y as int);
            lemma_mul_i32_bound(self.z as int, o.z as int);
        }
        let s: i128 = self.x as i128 * o.x as i128 + self.y as i128 * o.y as i128 + self.z as i128
            * o.z as i128;
        rescale_exec(s)
    }

    pub fn cross(&self, o: &Vec3) -> (r: Vec3)
        ensures
            r == cross3(*self, *o),
    {
        proof {
            lemma_mul_i32_bound(self.y as int, o.z as int);
            lemma_mul_i32_bound(self.z as int, o.y as int);
            lemma_mul_i32_bound(self.z as int, o.x as int);
            lemma_mul_i32_bound(self.x as int, o.z as int);
            lemma_mul_i32_bound(self.x as int, o.y as int);
            lemma_mul_i32_bound(self.y as int, o.x as int);
        }
        let cx: i128 = self.y as i128 * o.z as i128 - self.z as i128 * o.y as i128;
        let cy: i128 = self.z as i128 * o.x as i128 - self.x as i128 * o.z as i128;
        let cz: i128 = self.x as i128 * o.y as i128 - self.y as i128 * o.x as i128;
        Vec3 { x: rescale_exec(cx), y: rescale_exec(cy), z: rescale_exec(cz) }
    }

    /// The unit vector in the same direction (length `ONE`); the zero vector stays zero.
    pub fn normalize(&self) -> (r: Vec3)
        ensures
            r == normalized(*self),
            -ONE <= r.x <= ONE,
            -ONE <= r.y <= ONE,
            -ONE <= r.z <= ONE,
    {
        proof {
            lemma_mul_i32_bound(self.x as int, self.x as int);
            lemma_mul_i32_bound(self.y as int, self.y as int);
            lemma_mul_i32_bound(self.z as int, self.z as int);
            assert(self.x * self.x >= 0) by (nonlinear_arith);
            assert(self.y * self.y >= 0) by (nonlinear_arith);
            assert(self.z * self.z >= 0) by (nonlinear_arith);
        }
        let s: u128 = (self.x as i128 * self.x as i128 + self.y as i128 * self.y as i128
            + self.z as i128 * self.z as i128) as u128;
        let len: u128 = isqrt(s);
        proof {
            lemma_sqrt_floor(s as int, len as int);
        }
        if len == 0 {
            Vec3 { x: 0, y: 0, z: 0 }
        } else {
            assert(len * len <= s);
            proof {
                assert(len <= len * len) by (nonlinear_arith)
                    requires
                        len >= 1,
                ;
                lemma_comp_le_len(self.x as int, s as int, len as int);
                lemma_comp_le_len(self.y as int, s as int, len as int);
                lemma_comp_le_len(self.z as int, s as int, len as int);
            }
            let l: i128 = len as i128;
            let r = Vec3 {
                x: unit_comp_exec(self.x, l),
                y: unit_comp_exec(self.y, l),
                z: unit_comp_exec(self.z, l),
            };
            proof {
                lemma_unit_comp_bound(self.x as int, len as int);
                lemma_unit_comp_bound(self.y as int, len as int);
                lemma_unit_comp_bound(self.z as int, len as int);
            }
            r
        }
    }

    /// The homogeneous vector `(x, y, z, w)`.
    pub fn extend(&self, w: i32) -> (r: Vec4)
        ensures
            r == (Vec4 { x: self.x, y: self.y, z: self.z, w }),
    {
        Vec4 { x: self.x, y: self.y, z: self.z, w }
    }
}

impl Vec4 {
    pub fn new(x: i32, y: i32, z: i32, w: i32) -> (r: Vec4)
        ensures
            r == (Vec4 { x, y, z, w }),
    {
        Vec4 { x, y, z, w }
    }

    /// The first three components.
    pub fn truncate(&self) -> (r: Vec3)
        ensures
            r == (Vec3 { x: self.x, y: self.y, z: self.z }),
    {
        Vec3 { x: self.x, y: self.y, z: self.z }
    }
}

fn dot4_rescaled(a: &Vec4, b: &Vec4) -> (r: i32)
    ensures
        r == rescale(dot4_exact(*a, *b)),
{
    proof {
        lemma_mul_i32_bound(a.x as int, b.x as int);
        lemma_mul_i32_bound(a.y as int, b.y as int);
        lemma_mul_i32_bound(a.z as int, b.z as int);
        lemma_mul_i32_bound(a.w as int, b.w as int);
    }
    let s: i128 = a.x as i128 * b.x as i128 + a.y as i128 * b.y as i128 + a.z as i128 * b.z as i128
        + a.w as i128 * b.w as i128;
    rescale_exec(s)
}

impl Mat4 {
    /// The identity matrix.
    pub fn identity() -> (r: Mat4)
        ensures
            r.r0 == (Vec4 { x: ONE, y: 0, z: 0, w: 0 }),
            r.r1 == (Vec4 { x: 0, y: ONE, z: 0, w: 0 }),
            r.r2 == (Vec4 { x: 0, y: 0, z: ONE, w: 0 }),
            r.r3 == (Vec4 { x: 0, y: 0, z: 0, w: ONE }),
    {
        Mat4 {
            r0: Vec4 { x: ONE, y: 0, z: 0, w: 0 },
            r1: Vec4 { x: 0, y: ONE, z: 0, w: 0 },
            r2: Vec4 { x: 0, y: 0, z: ONE, w: 0 },
            r3: Vec4 { x: 0, y: 0, z: 0, w: ONE },
        }
    }

    pub fn mul_vec(&self, v: &Vec4) -> (r: Vec4)
        ensures
            r == mat_vec(*self, *v),
    {
        Vec4 {
            x: dot4_rescaled(&self.r0, v),
            y: dot4_rescaled(&self.r1, v),
            z: dot4_rescaled(&self.r2, v),
            w: dot4_rescaled(&self.r3, v),
        }
    }
}

} // verus!
