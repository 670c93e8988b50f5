//! Shapes that a ray can hit: spheres, planes and triangles.
use vstd::prelude::*;
use crate::fixed::{
    clamp, clamp_i128, fx_add, fx_div, fx_mul, fx_sqrt, fx_sub, in_range, is_isqrt, isqrt,
    lemma_isqrt_unique, lemma_mul_bound, lemma_quot_exact, quot, quot_i128, sat_add, sat_div,
    sat_mul, sat_sqrt, sat_sub, LIMIT, ONE, SCALE,
};
use crate::scene::{Material, Ray};
use crate::vector::{
    cross, dot, lemma_dot_self_nonneg, norm, unit, v3, vadd, vdiv, vneg, vscale, vsub, Vec3,
};

verus! {

/// Where a ray meets a surface: the parameter along the ray and the
/// surface normal there.
#[derive(Clone, Copy, Debug, PartialEq, Eq, Structural)]
pub struct Hit {
    pub t: i64,
    pub n: Vec3,
}

impl Hit {
    pub open spec fn wf(self) -> bool {
        in_range(self.t as int) && self.n.wf()
    }
}

/// A shape with a material.
pub trait Object {
    spec fn wf(&self) -> bool;

    /// The hit with the smallest parameter `t >= min_t`, if any.
    spec fn spec_intersect(&self, ray: Ray, min_t: int) -> Option<Hit>;

    spec fn spec_material(&self) -> Material;

    fn intersect(&self, ray: &Ray, min_t: i64) -> (r: Option<Hit>)
        requires
            self.wf(),
            ray.wf(),
            in_range(min_t as int),
        ensures
            r == self.spec_intersect(*ray, min_t as int),
            r matches Some(h) ==> h.wf() && h.t >= min_t,
    ;

    fn get_material(&self) -> (r: &Material)
        requires
            self.wf(),
        ensures
            *r == self.spec_material(),
            r.wf(),
    ;
}

/// A ball given by its centre and radius.
#[derive(Clone, Copy, Debug, PartialEq, Eq, Structural)]
pub struct Sphere {
    pub center: Vec3,
    pub radius: i64,
    pub material: Material,
}

/// An infinite plane through `point` with the unit normal `normal`.
#[derive(Clone, Copy, Debug, PartialEq, Eq, Structural)]
pub struct Plane {
    pub point: Vec3,
    pub normal: Vec3,
    pub material: Material,
}

/// A triangle given by its three corners; the winding fixes its normal.
#[derive(Clone, Copy, Debug)]
pub struct Triangle {
    pub corners: (Vec3, Vec3, Vec3),
    pub material: Material,
}

/// The quadratic `a t^2 + b t + c` whose roots are where the ray meets the
/// sphere: `a = d.d`, `b = 2 d.(e - c)`, `c = (e - c).(e - c) - r^2`.
pub open spec fn sphere_a(ray: Ray) -> int {
    dot(ray.direction, ray.direction)
}

pub open spec fn sphere_b(s: Sphere, ray: Ray) -> int {
    clamp(2 * dot(ray.direction, vsub(ray.origin, s.center)))
}

pub open spec fn sphere_c(s: Sphere, ray: Ray) -> int {
    sat_sub(
        dot(vsub(ray.origin, s.center), vsub(ray.origin, s.center)),
        sat_mul(s.radius as int, s.radius as int),
    )
}

/// The discriminant `b^2 - 4ac`, rounded once.
pub open spec fn discriminant(a: int, b: int, c: int) -> int {
    clamp(quot(b * b - 4 * a * c, SCALE as int))
}

/// The outward unit normal at parameter `t`: `(e + t d - c) / r`.
pub open spec fn sphere_normal(s: Sphere, ray: Ray, t: int) -> Vec3 {
    vdiv(vadd(vsub(ray.origin, s.center), vscale(t, ray.direction)), s.radius as int)
}

/// The root `(-b + sign * sqrt(disc)) / 2a`.
pub open spec fn sphere_root(a: int, b: int, sq: int) -> int {
    sat_div(sat_add(-b, sq), sat_add(a, a))
}

pub open spec fn sphere_hit(s: Sphere, ray: Ray, t: int) -> Option<Hit> {
    Some(Hit { t: t as i64, n: sphere_normal(s, ray, t) })
}

#[verifier::opaque]
pub open spec fn sphere_intersect(s: Sphere, ray: Ray, min_t: int) -> Option<Hit> {
    let a = sphere_a(ray);
    let b = sphere_b(s, ray);
    let disc = discriminant(a, b, sphere_c(s, ray));
    if a == 0 || disc < 0 {
        None
    } else if disc == 0 {
        let t = sphere_root(a, b, 0);
        if t >= min_t { sphere_hit(s, ray, t) } else { None }
    } else {
        let sq = sat_sqrt(disc);
        let t1 = sphere_root(a, b, -sq);
        let t2 = sphere_root(a, b, sq);
        let lo = if t1 <= t2 { t1 } else { t2 };
        let hi = if t1 <= t2 { t2 } else { t1 };
        if lo >= min_t {
            sphere_hit(s, ray, lo)
        } else if hi >= min_t {
            sphere_hit(s, ray, hi)
        } else {
            None
        }
    }
}

/// `t = n.(p - e) / n.d`; a ray parallel to the plane misses it.
#[verifier::opaque]
pub open spec fn plane_intersect(p: Plane, ray: Ray, min_t: int) -> Option<Hit> {
    let dn = dot(p.normal, ray.direction);
    if dn == 0 {
        None
    } else {
        let t = sat_div(dot(p.normal, vsub(p.point, ray.origin)), dn);
        if t >= min_t { Some(Hit { t: t as i64, n: p.normal }) } else { None }
    }
}

/// The unnormalised normal `(q - p) x (r - p)`.
pub open spec fn triangle_normal(tri: Triangle) -> Vec3 {
    cross(vsub(tri.corners.1, tri.corners.0), vsub(tri.corners.2, tri.corners.0))
}

/// The determinant of the system `[p - q | p - r | d] (beta, gamma, t) = p - e`.
pub open spec fn triangle_det(tri: Triangle, ray: Ray) -> int {
    let qp = vneg(vsub(tri.corners.1, tri.corners.0));
    let rp = vneg(vsub(tri.corners.2, tri.corners.0));
    dot(qp, cross(rp, ray.direction))
}

/// The barycentric weight of the second corner, by Cramer's rule.
pub open spec fn triangle_beta(tri: Triangle, ray: Ray) -> int {
    let rp = vneg(vsub(tri.corners.2, tri.corners.0));
    let pe = vsub(tri.corners.0, ray.origin);
    sat_div(dot(pe, cross(rp, ray.direction)), triangle_det(tri, ray))
}

/// The barycentric weight of the third corner, by Cramer's rule.
pub open spec fn triangle_gamma(tri: Triangle, ray: Ray) -> int {
    let qp = vneg(vsub(tri.corners.1, tri.corners.0));
    let pe = vsub(tri.corners.0, ray.origin);
    sat_div(dot(ray.direction, cross(qp, pe)), triangle_det(tri, ray))
}

/// The point lies in the closed triangle: both weights are non-negative and
/// their sum is at most one.
pub open spec fn inside(beta: int, gamma: int) -> bool {
    beta >= 0 && gamma >= 0 && sat_add(beta, gamma) <= ONE
}

#[verifier::opaque]
pub open spec fn triangle_intersect(tri: Triangle, ray: Ray, min_t: int) -> Option<Hit> {
    let nrm = triangle_normal(tri);
    let dn = dot(ray.direction, nrm);
    if dn == 0 {
        None
    } else {
        let t = sat_div(dot(nrm, vsub(tri.corners.0, ray.origin)), dn);
        if t < min_t {
            None
        } else if triangle_det(tri, ray) == 0 {
            None
        } else if inside(triangle_beta(tri, ray), triangle_gamma(tri, ray)) {
            Some(Hit { t: t as i64, n: unit(nrm) })
        } else {
            None
        }
    }
}

/// A ray that meets the triangle's plane beyond `min_t` at a point of its
/// boundary (both weights non-negative, summing to exactly one) hits it: the
/// triangle is closed.
pub proof fn lemma_triangle_edge_inclusive(tri: Triangle, ray: Ray, min_t: int)
    requires
        dot(ray.direction, triangle_normal(tri)) != 0,
        sat_div(dot(triangle_normal(tri), vsub(tri.corners.0, ray.origin)), dot(ray.direction, triangle_normal(tri)))
            >= min_t,
        triangle_det(tri, ray) != 0,
        triangle_beta(tri, ray) >= 0,
        triangle_gamma(tri, ray) >= 0,
        triangle_beta(tri, ray) + triangle_gamma(tri, ray) == ONE,
    ensures
        triangle_intersect(tri, ray, min_t) is Some,
{
    reveal(triangle_intersect);
}

/// A sphere of radius `r < 5` about the origin, looked at from `(0, 0, 5)`
/// straight towards its centre, is entered at `t = 5 - r`, where the normal
/// is the hit point scaled to unit length, `(0, 0, 1)`. The radius is a
/// multiple of 1/256, so that its square is exact.
pub proof fn lemma_sphere_entry(s: Sphere, min_t: int)
    requires
        s.center == v3(0, 0, 0),
        0 < s.radius < 5 * ONE,
        s.radius % 256 == 0,
        min_t <= 5 * ONE - s.radius,
    ensures
        ({
            let ray = Ray { origin: v3(0, 0, 5 * ONE), direction: v3(0, 0, -ONE) };
            let t = 5 * ONE - s.radius;
            let p = vadd(ray.origin, vscale(t, ray.direction));
            &&& sphere_intersect(s, ray, min_t) == Some(Hit { t: t as i64, n: unit(p) })
            &&& unit(p) == v3(0, 0, ONE as int)
        }),
{
    reveal(sphere_intersect);
    let ray = Ray { origin: v3(0, 0, 5 * ONE), direction: v3(0, 0, -ONE) };
    let r = s.radius as int;
    let k = r / 256;
    assert(r == 256 * k);
    let sc = SCALE as int;
    // a = 1, b = -10, c = 25 - r^2
    assert(ray.direction.x == 0 && ray.direction.y == 0 && ray.direction.z == -sc);
    assert(ray.origin.x == 0 && ray.origin.y == 0 && ray.origin.z == 5 * sc);
    lemma_quot_exact(sc, sc);
    assert(ray.direction.x * ray.direction.x + ray.direction.y * ray.direction.y + ray.direction.z
        * ray.direction.z == sc * sc) by (nonlinear_arith)
        requires
            ray.direction.x == 0,
            ray.direction.y == 0,
            ray.direction.z == -sc,
    ;
    assert(sphere_a(ray) == sc);
    lemma_quot_exact(-5 * sc, sc);
    let ec = vsub(ray.origin, s.center);
    assert(ec.x == 0 && ec.y == 0 && ec.z == 5 * sc);
    assert(ray.direction.x * ec.x + ray.direction.y * ec.y + ray.direction.z * ec.z == (-5 * sc) * sc)
        by (nonlinear_arith)
        requires
            ray.direction.x == 0,
            ray.direction.y == 0,
            ray.direction.z == -sc,
            ec.x == 0,
            ec.y == 0,
            ec.z == 5 * sc,
    ;
    assert(sphere_b(s, ray) == -10 * sc);
    assert(r * r == (k * k) * sc) by (nonlinear_arith)
        requires
            r == 256 * k,
            sc == 65536,
    ;
    lemma_quot_exact(k * k, sc);
    assert(0 < k < 1280);
    assert(0 < k * k < 1280 * 1280) by (nonlinear_arith)
        requires
            0 < k < 1280,
    ;
    lemma_quot_exact(25 * sc, sc);
    assert(ec.x * ec.x + ec.y * ec.y + ec.z * ec.z == (25 * sc) * sc) by (nonlinear_arith)
        requires
            ec.x == 0,
            ec.y == 0,
            ec.z == 5 * sc,
    ;
    assert(dot(ec, ec) == 25 * sc);
    assert(sat_mul(r, r) == k * k);
    assert(sphere_c(s, ray) == 25 * sc - k * k);
    // disc = 4 r^2
    let a = sphere_a(ray);
    let b = sphere_b(s, ray);
    let c = sphere_c(s, ray);
    assert(b * b - 4 * a * c == (4 * (k * k)) * sc) by (nonlinear_arith)
        requires
            a == sc,
            b == -10 * sc,
            c == 25 * sc - k * k,
    ;
    lemma_quot_exact(4 * (k * k), sc);
    let disc = discriminant(a, b, c);
    assert(disc == 4 * (k * k));
    // sqrt(disc) = 2r
    assert(disc * sc == (2 * r) * (2 * r)) by (nonlinear_arith)
        requires
            disc == 4 * (k * k),
            r == 256 * k,
            sc == 65536,
    ;
    assert(is_isqrt(disc * sc, 2 * r)) by (nonlinear_arith)
        requires
            disc * sc == (2 * r) * (2 * r),
            r > 0,
    ;
    lemma_isqrt_unique(disc * sc, 2 * r, isqrt(disc * sc));
    assert(sat_sqrt(disc) == 2 * r);
    // the roots 5 - r and 5 + r
    let t = 5 * sc - r;
    assert((10 * sc - 2 * r) * sc == t * (2 * sc)) by (nonlinear_arith)
        requires
            t == 5 * sc - r,
    ;
    assert((10 * sc + 2 * r) * sc == (5 * sc + r) * (2 * sc)) by (nonlinear_arith);
    lemma_quot_exact(t, 2 * sc);
    lemma_quot_exact(5 * sc + r, 2 * sc);
    assert(sphere_root(a, b, -2 * r) == t);
    assert(sphere_root(a, b, 2 * r) == 5 * sc + r);
    // the point (0, 0, r) and its normal
    assert(t * (-sc) == (-t) * sc) by (nonlinear_arith);
    lemma_quot_exact(-t, sc);
    lemma_quot_exact(0, sc);
    assert(t * 0 == 0);
    let p = vadd(ray.origin, vscale(t, ray.direction));
    assert(p == v3(0, 0, r));
    assert(sphere_normal(s, ray, t) == vdiv(p, r));
    assert(r * sc == sc * r) by (nonlinear_arith);
    lemma_quot_exact(sc, r);
    lemma_quot_exact(0, r);
    assert(vdiv(p, r) == v3(0, 0, sc));
    // |p| = r
    assert(p.x * p.x + p.y * p.y + p.z * p.z == (k * k) * sc) by (nonlinear_arith)
        requires
            p.x == 0,
            p.y == 0,
            p.z == r,
            r * r == (k * k) * sc,
    ;
    assert(dot(p, p) == k * k);
    assert(dot(p, p) * sc == r * r) by (nonlinear_arith)
        requires
            dot(p, p) == k * k,
            r * r == (k * k) * sc,
    ;
    assert(is_isqrt(dot(p, p) * sc, r)) by (nonlinear_arith)
        requires
            dot(p, p) * sc == r * r,
            r > 0,
    ;
    lemma_isqrt_unique(dot(p, p) * sc, r, isqrt(dot(p, p) * sc));
    assert(norm(p) == r);
}

fn discriminant_of(a: i64, b: i64, c: i64) -> (r: i64)
    requires
        in_range(a as int),
        in_range(b as int),
        in_range(c as int),
    ensures
        r == discriminant(a as int, b as int, c as int),
        in_range(r as int),
{
    proof {
        let l = LIMIT as int;
        lemma_mul_bound(b as int, b as int, l, l);
        lemma_mul_bound(a as int, c as int, l, l);
    }
    let q = b as i128 * b as i128 - 4 * (a as i128 * c as i128);
    assert(q == b * b - 4 * a * c) by (nonlinear_arith)
        requires
            q == b * b - 4 * (a * c),
    ;
    clamp_i128(quot_i128(q, SCALE as i128))
}

fn root_of(a: i64, b: i64, sq: i64) -> (r: i64)
    requires
        0 < a <= LIMIT,
        in_range(b as int),
        in_range(sq as int),
    ensures
        r == sphere_root(a as int, b as int, sq as int),
        in_range(r as int),
{
    fx_div(fx_add(-b, sq), fx_add(a, a))
}

impl Sphere {
    pub fn new(center: &Vec3, radius: i64, material: Material) -> (r: Sphere)
        ensures
            r == (Sphere { center: *center, radius, material }),
    {
        Sphere { center: *center, radius, material }
    }

    fn hit_at(&self, ray: &Ray, t: i64) -> (r: Option<Hit>)
        requires
            self.wf(),
            ray.wf(),
            in_range(t as int),
        ensures
            r == sphere_hit(*self, *ray, t as int),
            r matches Some(h) ==> h.wf() && h.t == t,
    {
        let n = ray.origin.minus(&self.center).plus(&ray.direction.scaled(t)).divided(self.radius);
        Some(Hit { t, n })
    }
}

impl Object for Sphere {
    open spec fn wf(&self) -> bool {
        self.center.wf() && in_range(self.radius as int) && self.radius > 0 && self.material.wf()
    }

    open spec fn spec_intersect(&self, ray: Ray, min_t: int) -> Option<Hit> {
        sphere_intersect(*self, ray, min_t)
    }

    open spec fn spec_material(&self) -> Material {
        self.material
    }

    fn intersect(&self, ray: &Ray, min_t: i64) -> (r: Option<Hit>) {
        reveal(sphere_intersect);
        let d = ray.direction;
        let ec = ray.origin.minus(&self.center);
        let a = d.dot(&d);
        proof {
            lemma_dot_self_nonneg(d);
        }
        let b = clamp_i128(2 * d.dot(&ec) as i128);
        let c = fx_sub(ec.dot(&ec), fx_mul(self.radius, self.radius));
        let disc = discriminant_of(a, b, c);
        if a == 0 || disc < 0 {
            None
        } else if disc == 0 {
            let t = root_of(a, b, 0);
            if t >= min_t {
                self.hit_at(ray, t)
            } else {
                None
            }
        } else {
            let sq = fx_sqrt(disc);
            let t1 = root_of(a, b, -sq);
            let t2 = root_of(a, b, sq);
            let lo = if t1 <= t2 { t1 } else { t2 };
            let hi = if t1 <= t2 { t2 } else { t1 };
            if lo >= min_t {
                self.hit_at(ray, lo)
            } else if hi >= min_t {
                self.hit_at(ray, hi)
            } else {
                None
            }
        }
    }

    fn get_material(&self) -> (r: &Material) {
        &self.material
    }
}

impl Plane {
    pub fn new(point: &Vec3, normal: &Vec3, material: Material) -> (r: Plane)
        ensures
            r == (Plane { point: *point, normal: *normal, material }),
    {
        Plane { point: *point, normal: *normal, material }
    }
}

impl Object for Plane {
    open spec fn wf(&self) -> bool {
        self.point.wf() && self.normal.wf() && self.material.wf()
    }

    open spec fn spec_intersect(&self, ray: Ray, min_t: int) -> Option<Hit> {
        plane_intersect(*self, ray, min_t)
    }

    open spec fn spec_material(&self) -> Material {
        self.material
    }

    fn intersect(&self, ray: &Ray, min_t: i64) -> (r: Option<Hit>) {
        reveal(plane_intersect);
        let dn = self.normal.dot(&ray.direction);
        if dn == 0 {
            return None;
        }
        let t = fx_div(self.normal.dot(&self.point.minus(&ray.origin)), dn);
        if t >= min_t {
            Some(Hit { t, n: self.normal })
        } else {
            None
        }
    }

    fn get_material(&self) -> (r: &Material) {
        &self.material
    }
}

impl Triangle {
    pub fn new(corners: (Vec3, Vec3, Vec3), material: Material) -> (r: Triangle)
        ensures
            r.corners == corners,
            r.material == material,
    {
        Triangle { corners, material }
    }
}

impl Object for Triangle {
    open spec fn wf(&self) -> bool {
        self.corners.0.wf() && self.corners.1.wf() && self.corners.2.wf() && self.material.wf()
    }

    open spec fn spec_intersect(&self, ray: Ray, min_t: int) -> Option<Hit> {
        triangle_intersect(*self, ray, min_t)
    }

    open spec fn spec_material(&self) -> Material {
        self.material
    }

    fn intersect(&self, ray: &Ray, min_t: i64) -> (r: Option<Hit>) {
        reveal(triangle_intersect);
        let (p, q, r) = self.corners;
        let pq = q.minus(&p);
        let pr = r.minus(&p);
        let nrm = pq.cross(&pr);
        let d = ray.direction;
        let dn = d.dot(&nrm);
        if dn == 0 {
            return None;
        }
        let pe = p.minus(&ray.origin);
        let t = fx_div(nrm.dot(&pe), dn);
        if t < min_t {
            return None;
        }
        let qp = pq.negated();
        let rp = pr.negated();
        let rpd = rp.cross(&d);
        let m = qp.dot(&rpd);
        if m == 0 {
            return None;
        }
        let beta = fx_div(pe.dot(&rpd), m);
        let gamma = fx_div(d.dot(&qp.cross(&pe)), m);
        if beta >= 0 && gamma >= 0 && fx_add(beta, gamma) <= ONE {
            Some(Hit { t, n: nrm.normalize() })
        } else {
            None
        }
    }

    fn get_material(&self) -> (r: &Material) {
        &self.material
    }
}

/// Any of the shapes, as a scene holds them.
#[derive(Clone, Copy, Debug)]
pub enum Primitive {
    Sphere(Sphere),
    Plane(Plane),
    Triangle(Triangle),
}

impl Object for Primitive {
    open spec fn wf(&self) -> bool {
        match self {
            Primitive::Sphere(s) => s.wf(),
            Primitive::Plane(p) => p.wf(),
            Primitive::Triangle(t) => t.wf(),
        }
    }

    open spec fn spec_intersect(&self, ray: Ray, min_t: int) -> Option<Hit> {
        match self {
            Primitive::Sphere(s) => s.spec_intersect(ray, min_t),
            Primitive::Plane(p) => p.spec_intersect(ray, min_t),
            Primitive::Triangle(t) => t.spec_intersect(ray, min_t),
        }
    }

    open spec fn spec_material(&self) -> Material {
        match self {
            Primitive::Sphere(s) => s.material,
            Primitive::Plane(p) => p.material,
            Primitive::Triangle(t) => t.material,
        }
    }

    fn intersect(&self, ray: &Ray, min_t: i64) -> (r: Option<Hit>) {
        match self {
            Primitive::Sphere(s) => s.intersect(ray, min_t),
            Primitive::Plane(p) => p.intersect(ray, min_t),
            Primitive::Triangle(t) => t.intersect(ray, min_t),
        }
    }

    fn get_material(&self) -> (r: &Material) {
        match self {
            Primitive::Sphere(s) => &s.material,
            Primitive::Plane(p) => &p.material,
            Primitive::Triangle(t) => &t.material,
        }
    }
}

} // verus!
