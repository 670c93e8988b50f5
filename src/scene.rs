//! Rays, the camera, materials and lights.
use vstd::prelude::*;
use crate::fixed::{clamp, clamp_i128, in_range, lemma_mul_bound, quot, quot_i128, LIMIT};
use crate::vector::{norm, unit, vadd, vneg, vscale, vsub, Vec3};

verus! {

/// A half-line: `origin + t * direction` for `t >= 0`. The direction need not
/// have unit length.
#[derive(Clone, Copy, Debug, PartialEq, Eq, Structural)]
pub struct Ray {
    pub origin: Vec3,
    pub direction: Vec3,
}

/// A pinhole camera: the eye, an orthonormal frame with `-w` the viewing
/// direction, the focal distance and the size of the image plane.
#[derive(Clone, Copy, Debug, PartialEq, Eq, Structural)]
pub struct Camera {
    pub e: Vec3,
    pub u: Vec3,
    pub v: Vec3,
    pub w: Vec3,
    pub d: i64,
    pub width: i64,
    pub height: i64,
}

/// Per-channel ambient, diffuse, specular and mirror reflectances, and the
/// Phong exponent.
#[derive(Clone, Copy, Debug, PartialEq, Eq, Structural)]
pub struct Material {
    pub ka: Vec3,
    pub kd: Vec3,
    pub ks: Vec3,
    pub km: Vec3,
    pub phong_exp: u32,
}

impl Ray {
    pub open spec fn wf(self) -> bool {
        self.origin.wf() && self.direction.wf()
    }

    /// The viewing ray through the centre of pixel `(i, j)` of an
    /// `n_x` by `n_y` image; row 0 is the top of the image.
    pub fn new(cam: &Camera, i: usize, j: usize, n_x: usize, n_y: usize) -> (r: Ray)
        requires
            cam.wf(),
            i < n_x,
            j < n_y,
        ensures
            r == camera_ray(*cam, i as int, j as int, n_x as int, n_y as int),
            r.wf(),
    {
        let wi = 2 * (i as i128) + 1 - n_x as i128;
        let hj = n_y as i128 - 2 * (j as i128) - 1;
        proof {
            lemma_mul_bound(cam.width as int, wi as int, LIMIT as int, n_x as int);
            lemma_mul_bound(cam.height as int, hj as int, LIMIT as int, n_y as int);
        }
        let su = clamp_i128(quot_i128(cam.width as i128 * wi, 2 * n_x as i128));
        let sv = clamp_i128(quot_i128(cam.height as i128 * hj, 2 * n_y as i128));
        let dir = cam.u.scaled(su).plus(&cam.v.scaled(sv)).plus(&cam.w.scaled(-cam.d));
        Ray { origin: cam.e, direction: dir }
    }
}

/// The horizontal image-plane coordinate of column `i`:
/// `-width / 2 + width * (i + 1/2) / n_x`.
pub open spec fn plane_u(cam: Camera, i: int, n_x: int) -> int {
    clamp(quot(cam.width * (2 * i + 1 - n_x), 2 * n_x))
}

/// The vertical image-plane coordinate of row `j`:
/// `height / 2 - height * (j + 1/2) / n_y`.
pub open spec fn plane_v(cam: Camera, j: int, n_y: int) -> int {
    clamp(quot(cam.height * (n_y - 2 * j - 1), 2 * n_y))
}

/// The ray from the eye through the image-plane point
/// `e + u * cam.u + v * cam.v - d * cam.w`.
pub open spec fn camera_ray(cam: Camera, i: int, j: int, n_x: int, n_y: int) -> Ray {
    Ray {
        origin: cam.e,
        direction: vadd(
            vadd(vscale(plane_u(cam, i, n_x), cam.u), vscale(plane_v(cam, j, n_y), cam.v)),
            vscale(-cam.d, cam.w),
        ),
    }
}

impl Camera {
    pub open spec fn wf(self) -> bool {
        &&& self.e.wf()
        &&& self.u.wf()
        &&& self.v.wf()
        &&& self.w.wf()
        &&& in_range(self.d as int)
        &&& in_range(self.width as int)
        &&& in_range(self.height as int)
    }

    pub fn new(e: Vec3, u: Vec3, v: Vec3, w: Vec3, d: i64, width: i64, height: i64) -> (r: Camera)
        ensures
            r == (Camera { e, u, v, w, d, width, height }),
    {
        Camera { e, u, v, w, d, width, height }
    }
}

impl Material {
    pub open spec fn wf(self) -> bool {
        self.ka.wf() && self.kd.wf() && self.ks.wf() && self.km.wf()
    }

    pub fn new(ka: Vec3, kd: Vec3, ks: Vec3, km: Vec3, phong_exp: u32) -> (r: Material)
        ensures
            r == (Material { ka, kd, ks, km, phong_exp }),
    {
        Material { ka, kd, ks, km, phong_exp }
    }
}

/// A light source: where it lies as seen from a point, and its colour.
pub trait Light {
    spec fn wf(&self) -> bool;

    /// The unit direction from `q` towards the light, and the parametric
    /// distance along it at which the light stands (`None`: unbounded).
    spec fn spec_direction(&self, q: Vec3) -> (Vec3, Option<i64>);

    spec fn spec_intensity(&self) -> Vec3;

    fn direction(&self, q: &Vec3) -> (r: (Vec3, Option<i64>))
        requires
            self.wf(),
            q.wf(),
        ensures
            r == self.spec_direction(*q),
            r.0.wf(),
    ;

    fn get_intensity(&self) -> (r: Vec3)
        requires
            self.wf(),
        ensures
            r == self.spec_intensity(),
            r.wf(),
    ;
}

/// A light at a point, shining in every direction.
#[derive(Clone, Copy, Debug, PartialEq, Eq, Structural)]
pub struct PointLight {
    pub intensity: Vec3,
    pub position: Vec3,
}

/// A light infinitely far away; `direction` points from the light into the
/// scene.
#[derive(Clone, Copy, Debug, PartialEq, Eq, Structural)]
pub struct DirectionalLight {
    pub intensity: Vec3,
    pub direction: Vec3,
}

impl PointLight {
    pub fn new(intensity: Vec3, position: Vec3) -> (r: PointLight)
        ensures
            r == (PointLight { intensity, position }),
    {
        PointLight { intensity, position }
    }
}

impl DirectionalLight {
    pub fn new(intensity: Vec3, direction: Vec3) -> (r: DirectionalLight)
        ensures
            r == (DirectionalLight { intensity, direction }),
    {
        DirectionalLight { intensity, direction }
    }
}

impl Light for PointLight {
    open spec fn wf(&self) -> bool {
        self.intensity.wf() && self.position.wf()
    }

    /// Towards the light's position, which lies at the distance between the
    /// two points.
    open spec fn spec_direction(&self, q: Vec3) -> (Vec3, Option<i64>) {
        (unit(vsub(self.position, q)), Some(norm(vsub(self.position, q)) as i64))
    }

    open spec fn spec_intensity(&self) -> Vec3 {
        self.intensity
    }

    fn direction(&self, q: &Vec3) -> (r: (Vec3, Option<i64>)) {
        let to_light = self.position.minus(q);
        (to_light.normalize(), Some(to_light.norm()))
    }

    fn get_intensity(&self) -> (r: Vec3) {
        self.intensity
    }
}

impl Light for DirectionalLight {
    open spec fn wf(&self) -> bool {
        self.intensity.wf() && self.direction.wf()
    }

    /// Against the light's direction, without bound.
    open spec fn spec_direction(&self, q: Vec3) -> (Vec3, Option<i64>) {
        (vneg(unit(self.direction)), None)
    }

    open spec fn spec_intensity(&self) -> Vec3 {
        self.intensity
    }

    fn direction(&self, q: &Vec3) -> (r: (Vec3, Option<i64>)) {
        (self.direction.normalize().negated(), None)
    }

    fn get_intensity(&self) -> (r: Vec3) {
        self.intensity
    }
}

/// Any of the light kinds, as a scene holds them.
#[derive(Clone, Copy, Debug, PartialEq, Eq, Structural)]
pub enum SceneLight {
    Point(PointLight),
    Directional(DirectionalLight),
}

impl Light for SceneLight {
    open spec fn wf(&self) -> bool {
        match self {
            SceneLight::Point(l) => l.wf(),
            SceneLight::Directional(l) => l.wf(),
        }
    }

    open spec fn spec_direction(&self, q: Vec3) -> (Vec3, Option<i64>) {
        match self {
            SceneLight::Point(l) => l.spec_direction(q),
            SceneLight::Directional(l) => l.spec_direction(q),
        }
    }

    open spec fn spec_intensity(&self) -> Vec3 {
        match self {
            SceneLight::Point(l) => l.spec_intensity(),
            SceneLight::Directional(l) => l.spec_intensity(),
        }
    }

    fn direction(&self, q: &Vec3) -> (r: (Vec3, Option<i64>)) {
        match self {
            SceneLight::Point(l) => l.direction(q),
            SceneLight::Directional(l) => l.direction(q),
        }
    }

    fn get_intensity(&self) -> (r: Vec3) {
        match self {
            SceneLight::Point(l) => l.get_intensity(),
            SceneLight::Directional(l) => l.get_intensity(),
        }
    }
}

} // verus!
