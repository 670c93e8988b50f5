//! Three-component vectors of fixed-point scalars.
use vstd::prelude::*;
use crate::fixed::{
    clamp, clamp_i128, fx_add, fx_div, fx_mul, fx_sqrt, fx_sub, in_range, lemma_mul_bound,
    quot, quot_i128, sat_add, sat_div, sat_mul, sat_sqrt, sat_sub, LIMIT, SCALE,
};

verus! {

/// A point or a direction; each component is a fixed-point scalar.
#[derive(Clone, Copy, Debug, PartialEq, Eq, Structural)]
pub struct Vec3 {
    pub x: i64,
    pub y: i64,
    pub z: i64,
}

impl Vec3 {
    /// Every component lies in the representable range.
    pub open spec fn wf(self) -> bool {
        in_range(self.x as int) && in_range(self.y as int) && in_range(self.z as int)
    }

    pub fn new(x: i64, y: i64, z: i64) -> (r: Vec3)
        ensures
            r == (Vec3 { x, y, z }),
    {
        Vec3 { x, y, z }
    }

    pub fn zero() -> (r: Vec3)
        ensures
            r == v3(0, 0, 0),
            r.wf(),
    {
        Vec3 { x: 0, y: 0, z: 0 }
    }
}

pub open spec fn v3(x: int, y: int, z: int) -> Vec3 {
    Vec3 { x: x as i64, y: y as i64, z: z as i64 }
}

pub open spec fn vadd(a: Vec3, b: Vec3) -> Vec3 {
    v3(sat_add(a.x as int, b.x as int), sat_add(a.y as int, b.y as int), sat_add(a.z as int, b.z as int))
}

pub open spec fn vsub(a: Vec3, b: Vec3) -> Vec3 {
    v3(sat_sub(a.x as int, b.x as int), sat_sub(a.y as int, b.y as int), sat_sub(a.z as int, b.z as int))
}

pub open spec fn vneg(a: Vec3) -> Vec3 {
    v3(-a.x, -a.y, -a.z)
}

/// Each component multiplied by the scalar `s`.
pub open spec fn vscale(s: int, a: Vec3) -> Vec3 {
    v3(sat_mul(s, a.x as int), sat_mul(s, a.y as int), sat_mul(s, a.z as int))
}

/// The componentwise product.
pub open spec fn vmul(a: Vec3, b: Vec3) -> Vec3 {
    v3(sat_mul(a.x as int, b.x as int), sat_mul(a.y as int, b.y as int), sat_mul(a.z as int, b.z as int))
}

/// Each component divided by the scalar `s`.
pub open spec fn vdiv(a: Vec3, s: int) -> Vec3 {
    v3(sat_div(a.x as int, s), sat_div(a.y as int, s), sat_div(a.z as int, s))
}

/// The dot product, rounded once.
pub open spec fn dot(a: Vec3, b: Vec3) -> int {
    clamp(quot(a.x * b.x + a.y * b.y + a.z * b.z, SCALE as int))
}

/// The cross product, each component rounded once.
pub open spec fn cross(a: Vec3, b: Vec3) -> Vec3 {
    v3(
        clamp(quot(a.y * b.z - a.z * b.y, SCALE as int)),
        clamp(quot(a.z * b.x - a.x * b.z, SCALE as int)),
        clamp(quot(a.x * b.y - a.y * b.x, SCALE as int)),
    )
}

/// The Euclidean length.
pub open spec fn norm(a: Vec3) -> int {
    sat_sqrt(dot(a, a))
}

/// `a` scaled to unit length; the zero vector where the length rounds to zero.
pub open spec fn unit(a: Vec3) -> Vec3 {
    if norm(a) == 0 {
        v3(0, 0, 0)
    } else {
        vdiv(a, norm(a))
    }
}

pub proof fn lemma_v3_wf(x: int, y: int, z: int)
    requires
        in_range(x),
        in_range(y),
        in_range(z),
    ensures
        v3(x, y, z).wf(),
        v3(x, y, z).x == x,
        v3(x, y, z).y == y,
        v3(x, y, z).z == z,
{
}

/// Sums and scalings are always representable.
pub proof fn lemma_ops_wf(s: int, a: Vec3, b: Vec3)
    ensures
        vadd(a, b).wf(),
        vscale(s, a).wf(),
        vmul(a, b).wf(),
{
    lemma_v3_wf(sat_add(a.x as int, b.x as int), sat_add(a.y as int, b.y as int), sat_add(a.z as int, b.z as int));
    lemma_v3_wf(sat_mul(s, a.x as int), sat_mul(s, a.y as int), sat_mul(s, a.z as int));
    lemma_v3_wf(sat_mul(a.x as int, b.x as int), sat_mul(a.y as int, b.y as int), sat_mul(a.z as int, b.z as int));
}

/// The zero vector absorbs products and is neutral for sums.
pub proof fn lemma_zero(s: int, a: Vec3)
    ensures
        vscale(s, v3(0, 0, 0)) == v3(0, 0, 0),
        vmul(v3(0, 0, 0), a) == v3(0, 0, 0),
        a.wf() ==> vadd(a, v3(0, 0, 0)) == a,
        a.wf() ==> vadd(v3(0, 0, 0), a) == a,
{
    assert(s * 0 == 0);
    assert(0 * a.x == 0 && 0 * a.y == 0 && 0 * a.z == 0);
}

/// Multiplying by one in every channel changes nothing.
pub proof fn lemma_one(c: Vec3)
    requires
        c.wf(),
    ensures
        vmul(v3(SCALE as int, SCALE as int, SCALE as int), c) == c,
{
    assert(quot(SCALE * c.x, SCALE as int) == c.x) by (nonlinear_arith)
        requires
            SCALE == 65536,
    ;
    assert(quot(SCALE * c.y, SCALE as int) == c.y) by (nonlinear_arith)
        requires
            SCALE == 65536,
    ;
    assert(quot(SCALE * c.z, SCALE as int) == c.z) by (nonlinear_arith)
        requires
            SCALE == 65536,
    ;
}

proof fn lemma_sum_of_products(a: Vec3, b: Vec3)
    requires
        a.wf(),
        b.wf(),
    ensures
        -(LIMIT * LIMIT) <= a.x * b.x <= LIMIT * LIMIT,
        -(LIMIT * LIMIT) <= a.y * b.y <= LIMIT * LIMIT,
        -(LIMIT * LIMIT) <= a.z * b.z <= LIMIT * LIMIT,
        -(LIMIT * LIMIT) <= a.y * b.z <= LIMIT * LIMIT,
        -(LIMIT * LIMIT) <= a.z * b.y <= LIMIT * LIMIT,
        -(LIMIT * LIMIT) <= a.z * b.x <= LIMIT * LIMIT,
        -(LIMIT * LIMIT) <= a.x * b.z <= LIMIT * LIMIT,
        -(LIMIT * LIMIT) <= a.x * b.y <= LIMIT * LIMIT,
        -(LIMIT * LIMIT) <= a.y * b.x <= LIMIT * LIMIT,
        -3 * (LIMIT * LIMIT) <= a.x * b.x + a.y * b.y + a.z * b.z <= 3 * (LIMIT * LIMIT),
        -2 * (LIMIT * LIMIT) <= a.y * b.z - a.z * b.y <= 2 * (LIMIT * LIMIT),
        -2 * (LIMIT * LIMIT) <= a.z * b.x - a.x * b.z <= 2 * (LIMIT * LIMIT),
        -2 * (LIMIT * LIMIT) <= a.x * b.y - a.y * b.x <= 2 * (LIMIT * LIMIT),
{
    let l = LIMIT as int;
    lemma_mul_bound(a.x as int, b.x as int, l, l);
    lemma_mul_bound(a.y as int, b.y as int, l, l);
    lemma_mul_bound(a.z as int, b.z as int, l, l);
    lemma_mul_bound(a.y as int, b.z as int, l, l);
    lemma_mul_bound(a.z as int, b.y as int, l, l);
    lemma_mul_bound(a.z as int, b.x as int, l, l);
    lemma_mul_bound(a.x as int, b.z as int, l, l);
    lemma_mul_bound(a.x as int, b.y as int, l, l);
    lemma_mul_bound(a.y as int, b.x as int, l, l);
}

pub proof fn lemma_dot_self_nonneg(a: Vec3)
    ensures
        0 <= dot(a, a),
{
    assert(0 <= a.x * a.x + a.y * a.y + a.z * a.z) by (nonlinear_arith);
}

impl Vec3 {
    pub fn plus(&self, o: &Vec3) -> (r: Vec3)
        requires
            self.wf(),
            o.wf(),
        ensures
            r == vadd(*self, *o),
            r.wf(),
    {
        Vec3 { x: fx_add(self.x, o.x), y: fx_add(self.y, o.y), z: fx_add(self.z, o.z) }
    }

    pub fn minus(&self, o: &Vec3) -> (r: Vec3)
        requires
            self.wf(),
            o.wf(),
        ensures
            r == vsub(*self, *o),
            r.wf(),
    {
        Vec3 { x: fx_sub(self.x, o.x), y: fx_sub(self.y, o.y), z: fx_sub(self.z, o.z) }
    }

    pub fn negated(&self) -> (r: Vec3)
        requires
            self.wf(),
        ensures
            r == vneg(*self),
            r.wf(),
    {
        Vec3 { x: -self.x, y: -self.y, z: -self.z }
    }

    pub fn scaled(&self, s: i64) -> (r: Vec3)
        requires
            self.wf(),
            in_range(s as int),
        ensures
            r == vscale(s as int, *self),
            r.wf(),
    {
        Vec3 { x: fx_mul(s, self.x), y: fx_mul(s, self.y), z: fx_mul(s, self.z) }
    }

    pub fn times(&self, o: &Vec3) -> (r: Vec3)
        requires
            self.wf(),
            o.wf(),
        ensures
            r == vmul(*self, *o),
            r.wf(),
    {
        Vec3 { x: fx_mul(self.x, o.x), y: fx_mul(self.y, o.y), z: fx_mul(self.z, o.z) }
    }

    pub fn divided(&self, s: i64) -> (r: Vec3)
        requires
            self.wf(),
            in_range(s as int),
            s != 0,
        ensures
            r == vdiv(*self, s as int),
            r.wf(),
    {
        Vec3 { x: fx_div(self.x, s), y: fx_div(self.y, s), z: fx_div(self.z, s) }
    }

    pub fn dot(&self, o: &Vec3) -> (r: i64)
        requires
            self.wf(),
            o.wf(),
        ensures
            r == dot(*self, *o),
            in_range(r as int),
    {
        proof {
            lemma_sum_of_products(*self, *o);
        }
        let s = self.x as i128 * o.x as i128 + self.y as i128 * o.y as i128 + self.z as i128
            * o.z as i128;
        clamp_i128(quot_i128(s, SCALE as i128))
    }

    pub fn cross(&self, o: &Vec3) -> (r: Vec3)
        requires
            self.wf(),
            o.wf(),
        ensures
            r == cross(*self, *o),
            r.wf(),
    {
        proof {
            lemma_sum_of_products(*self, *o);
        }
        let a = self.y as i128 * o.z as i128 - self.z as i128 * o.y as i128;
        let b = self.z as i128 * o.x as i128 - self.x as i128 * o.z as i128;
        let c = self.x as i128 * o.y as i128 - self.y as i128 * o.x as i128;
        Vec3 {
            x: clamp_i128(quot_i128(a, SCALE as i128)),
            y: clamp_i128(quot_i128(b, SCALE as i128)),
            z: clamp_i128(quot_i128(c, SCALE as i128)),
        }
    }

    pub fn norm(&self) -> (r: i64)
        requires
            self.wf(),
        ensures
            r == norm(*self),
            0 <= r <= LIMIT,
    {
        let d = self.dot(self);
        proof {
            lemma_dot_self_nonneg(*self);
        }
        fx_sqrt(d)
    }

    pub fn normalize(&self) -> (r: Vec3)
        requires
            self.wf(),
        ensures
            r == unit(*self),
            r.wf(),
    {
        let l = self.norm();
        if l == 0 {
            Vec3::zero()
        } else {
            self.divided(l)
        }
    }
}

} // verus!
