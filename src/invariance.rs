//! Moving the whole scene and the camera by one offset does not change the
//! picture when all lights are directional.
use vstd::prelude::*;
use crate::fixed::{in_range, ONE};
use crate::geometry::{
    plane_intersect, sphere_intersect, triangle_intersect, Object, Plane, Primitive, Sphere,
    Triangle,
};
use crate::render::{
    hit_point, mirror_ray, nearest, nearest_upto, occluded, pixel_color, shade_upto,
    trace, BIAS, MAX_DEPTH,
};
use crate::scene::{camera_ray, Camera, Light, Ray, SceneLight};
use crate::vector::{v3, vscale, vsub, Vec3};

verus! {

/// `p` moved by `off`, exactly.
pub open spec fn shift(p: Vec3, off: Vec3) -> Vec3 {
    v3(p.x + off.x, p.y + off.y, p.z + off.z)
}

/// The moved point is representable.
pub open spec fn shift_ok(p: Vec3, off: Vec3) -> bool {
    in_range(p.x + off.x) && in_range(p.y + off.y) && in_range(p.z + off.z)
}

pub open spec fn shift_ray(r: Ray, off: Vec3) -> Ray {
    Ray { origin: shift(r.origin, off), direction: r.direction }
}

pub open spec fn shift_camera(c: Camera, off: Vec3) -> Camera {
    Camera { e: shift(c.e, off), ..c }
}

pub open spec fn shift_primitive(o: Primitive, off: Vec3) -> Primitive {
    match o {
        Primitive::Sphere(s) => Primitive::Sphere(Sphere { center: shift(s.center, off), ..s }),
        Primitive::Plane(p) => Primitive::Plane(Plane { point: shift(p.point, off), ..p }),
        Primitive::Triangle(t) => Primitive::Triangle(
            Triangle {
                corners: (shift(t.corners.0, off), shift(t.corners.1, off), shift(t.corners.2, off)),
                ..t
            },
        ),
    }
}

/// Every point that defines the primitive stays representable when moved.
pub open spec fn primitive_shift_ok(o: Primitive, off: Vec3) -> bool {
    match o {
        Primitive::Sphere(s) => s.center.wf() && shift_ok(s.center, off),
        Primitive::Plane(p) => p.point.wf() && shift_ok(p.point, off),
        Primitive::Triangle(t) => {
            &&& t.corners.0.wf() && shift_ok(t.corners.0, off)
            &&& t.corners.1.wf() && shift_ok(t.corners.1, off)
            &&& t.corners.2.wf() && shift_ok(t.corners.2, off)
        },
    }
}

pub open spec fn shift_objects(objects: Seq<Primitive>, off: Vec3) -> Seq<Primitive> {
    objects.map_values(|o: Primitive| shift_primitive(o, off))
}

pub open spec fn objects_shift_ok(objects: Seq<Primitive>, off: Vec3) -> bool {
    forall|i: int| 0 <= i < objects.len() ==> primitive_shift_ok(#[trigger] objects[i], off)
}

pub open spec fn directional_only(lights: Seq<SceneLight>) -> bool {
    forall|i: int| 0 <= i < lights.len() ==> #[trigger] lights[i] is Directional
}

/// The hit point at parameter `t` is computed without saturating, both as it
/// is and moved by `off`.
pub open spec fn exact_point(ray: Ray, t: int, off: Vec3) -> bool {
    let s = vscale(t, ray.direction);
    &&& in_range(ray.origin.x + s.x) && in_range(ray.origin.x + s.x + off.x)
    &&& in_range(ray.origin.y + s.y) && in_range(ray.origin.y + s.y + off.y)
    &&& in_range(ray.origin.z + s.z) && in_range(ray.origin.z + s.z + off.z)
}

/// Along the whole reflection path of `ray`, every hit point is computed
/// without saturating, as it is and moved by `off`.
pub open spec fn exact_path(objects: Seq<Primitive>, ray: Ray, min_t: int, depth: int, off: Vec3) -> bool
    decreases 5 - depth,
{
    if depth > MAX_DEPTH {
        true
    } else {
        match nearest(objects, ray, min_t) {
            None => true,
            Some(x) => exact_point(ray, x.1.t as int, off) && exact_path(
                objects,
                mirror_ray(ray, x.1.t as int, x.1.n),
                BIAS as int,
                depth + 1,
                off,
            ),
        }
    }
}

proof fn lemma_vsub_shift(a: Vec3, b: Vec3, off: Vec3)
    requires
        a.wf(),
        b.wf(),
        shift_ok(a, off),
        shift_ok(b, off),
    ensures
        vsub(shift(a, off), shift(b, off)) == vsub(a, b),
{
}

proof fn lemma_intersect_shift(o: Primitive, ray: Ray, min_t: int, off: Vec3)
    requires
        primitive_shift_ok(o, off),
        ray.origin.wf(),
        shift_ok(ray.origin, off),
    ensures
        shift_primitive(o, off).spec_intersect(shift_ray(ray, off), min_t) == o.spec_intersect(ray, min_t),
        shift_primitive(o, off).spec_material() == o.spec_material(),
{
    match o {
        Primitive::Sphere(s) => {
            reveal(sphere_intersect);
            lemma_vsub_shift(ray.origin, s.center, off);
        },
        Primitive::Plane(p) => {
            reveal(plane_intersect);
            lemma_vsub_shift(p.point, ray.origin, off);
        },
        Primitive::Triangle(t) => {
            reveal(triangle_intersect);
            lemma_vsub_shift(t.corners.1, t.corners.0, off);
            lemma_vsub_shift(t.corners.2, t.corners.0, off);
            lemma_vsub_shift(t.corners.0, ray.origin, off);
        },
    }
}

proof fn lemma_nearest_shift(objects: Seq<Primitive>, ray: Ray, min_t: int, off: Vec3, k: nat)
    requires
        k <= objects.len(),
        objects_shift_ok(objects, off),
        ray.origin.wf(),
        shift_ok(ray.origin, off),
    ensures
        nearest_upto(shift_objects(objects, off), shift_ray(ray, off), min_t, k) == nearest_upto(
            objects,
            ray,
            min_t,
            k,
        ),
    decreases k,
{
    if k > 0 {
        lemma_nearest_shift(objects, ray, min_t, off, (k - 1) as nat);
        lemma_intersect_shift(objects[k - 1], ray, min_t, off);
    }
}

proof fn lemma_shade_shift(
    objects: Seq<Primitive>,
    lights: Seq<SceneLight>,
    m: crate::scene::Material,
    p: Vec3,
    view: Vec3,
    n: Vec3,
    bias: int,
    off: Vec3,
    k: nat,
)
    requires
        k <= lights.len(),
        directional_only(lights),
        objects_shift_ok(objects, off),
        p.wf(),
        shift_ok(p, off),
    ensures
        shade_upto(shift_objects(objects, off), lights, m, shift(p, off), view, n, bias, k) == shade_upto(
            objects,
            lights,
            m,
            p,
            view,
            n,
            bias,
            k,
        ),
    decreases k,
{
    if k > 0 {
        lemma_shade_shift(objects, lights, m, p, view, n, bias, off, (k - 1) as nat);
        let light = lights[k - 1];
        assert(light is Directional);
        let l = light.spec_direction(p).0;
        assert(light.spec_direction(shift(p, off)) == light.spec_direction(p));
        let sray = Ray { origin: p, direction: l };
        lemma_nearest_shift(objects, sray, bias, off, objects.len());
        assert(shift_ray(sray, off) == (Ray { origin: shift(p, off), direction: l }));
        assert(occluded(shift_objects(objects, off), shift(p, off), l, None, bias) == occluded(
            objects,
            p,
            l,
            None,
            bias,
        ));
    }
}

proof fn lemma_hit_point_shift(ray: Ray, t: int, off: Vec3)
    requires
        exact_point(ray, t, off),
    ensures
        hit_point(shift_ray(ray, off), t) == shift(hit_point(ray, t), off),
        hit_point(ray, t).wf(),
        shift_ok(hit_point(ray, t), off),
{
}

/// Tracing the moved ray through the moved scene gives the same colour, when
/// all lights are directional and no hit point on the path saturates.
pub proof fn lemma_trace_shift(
    objects: Seq<Primitive>,
    lights: Seq<SceneLight>,
    ray: Ray,
    min_t: int,
    depth: int,
    off: Vec3,
)
    requires
        objects.len() <= usize::MAX,
        directional_only(lights),
        objects_shift_ok(objects, off),
        ray.origin.wf(),
        shift_ok(ray.origin, off),
        exact_path(objects, ray, min_t, depth, off),
    ensures
        trace(shift_objects(objects, off), lights, shift_ray(ray, off), min_t, depth) == trace(
            objects,
            lights,
            ray,
            min_t,
            depth,
        ),
    decreases 5 - depth,
{
    if depth <= MAX_DEPTH {
        lemma_nearest_shift(objects, ray, min_t, off, objects.len());
        assert(shift_objects(objects, off).len() == objects.len());
        if let Some(x) = nearest(objects, ray, min_t) {
            crate::render::lemma_nearest_upto(objects, ray, min_t, objects.len());
            let t = x.1.t as int;
            let id = x.0 as int;
            lemma_intersect_shift(objects[id], ray, min_t, off);
            lemma_hit_point_shift(ray, t, off);
            let p = hit_point(ray, t);
            lemma_shade_shift(
                objects,
                lights,
                objects[id].spec_material(),
                p,
                crate::vector::unit(crate::vector::vneg(ray.direction)),
                x.1.n,
                BIAS as int,
                off,
                lights.len(),
            );
            let next = mirror_ray(ray, t, x.1.n);
            assert(mirror_ray(shift_ray(ray, off), t, x.1.n) == shift_ray(next, off));
            lemma_trace_shift(objects, lights, next, BIAS as int, depth + 1, off);
        }
    }
}

/// Moving every primitive and the camera by the same offset leaves each
/// pixel's colour unchanged when every light is directional, provided no hit
/// point along the pixel's reflection path saturates (as computed or moved).
pub proof fn lemma_translation_invariance(
    cam: Camera,
    objects: Seq<Primitive>,
    lights: Seq<SceneLight>,
    off: Vec3,
    i: int,
    j: int,
    n_x: int,
    n_y: int,
)
    requires
        objects.len() <= usize::MAX,
        directional_only(lights),
        objects_shift_ok(objects, off),
        cam.e.wf(),
        shift_ok(cam.e, off),
        exact_path(objects, camera_ray(cam, i, j, n_x, n_y), ONE as int, 0, off),
    ensures
        pixel_color(shift_camera(cam, off), shift_objects(objects, off), lights, i, j, n_x, n_y)
            == pixel_color(cam, objects, lights, i, j, n_x, n_y),
{
    let r = camera_ray(cam, i, j, n_x, n_y);
    assert(camera_ray(shift_camera(cam, off), i, j, n_x, n_y) == shift_ray(r, off));
    lemma_trace_shift(objects, lights, r, ONE as int, 0, off);
}

} // verus!
