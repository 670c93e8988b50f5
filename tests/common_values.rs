use raytracer::fixed::{fx_add, fx_div, fx_mul, fx_pow, fx_sqrt, fx_sub, LIMIT, ONE};
use raytracer::geometry::{Object, Plane, Primitive, Sphere, Triangle};
use raytracer::render::{first_hit, reflect, to_byte};
use raytracer::scene::{Camera, DirectionalLight, Light, Material, PointLight, Ray};
use raytracer::vector::Vec3;

fn v(x: i64, y: i64, z: i64) -> Vec3 {
    Vec3::new(x, y, z)
}

fn units(x: i64, y: i64, z: i64) -> Vec3 {
    Vec3::new(x * ONE, y * ONE, z * ONE)
}

fn matte() -> Material {
    Material::new(units(1, 1, 1), units(1, 1, 1), Vec3::zero(), Vec3::zero(), 1)
}

fn ray(o: Vec3, d: Vec3) -> Ray {
    Ray { origin: o, direction: d }
}

#[test]
fn scalar_operations_round_toward_zero_and_saturate() {
    assert_eq!(fx_mul(3 * ONE, ONE / 2), 3 * ONE / 2);
    assert_eq!(fx_mul(-3, ONE / 2), -1);
    assert_eq!(fx_div(ONE, 4 * ONE), ONE / 4);
    assert_eq!(fx_div(-ONE, 3 * ONE), -21845);
    assert_eq!(fx_add(LIMIT, 1), LIMIT);
    assert_eq!(fx_sub(-LIMIT, 1), -LIMIT);
    assert_eq!(fx_mul(LIMIT, LIMIT), LIMIT);
    assert_eq!(fx_sqrt(4 * ONE), 2 * ONE);
    assert_eq!(fx_sqrt(2 * ONE), 92681);
    assert_eq!(fx_pow(ONE / 2, 2), ONE / 4);
    assert_eq!(fx_pow(7 * ONE, 0), ONE);
}

#[test]
fn vector_operations() {
    let a = units(1, 2, 3);
    let b = units(4, -5, 6);
    assert_eq!(a.dot(&b), 12 * ONE);
    assert_eq!(a.cross(&b), units(27, 6, -13));
    assert_eq!(units(3, 4, 0).norm(), 5 * ONE);
    assert_eq!(units(0, 0, -7).normalize(), units(0, 0, -1));
    assert_eq!(Vec3::zero().normalize(), Vec3::zero());
    assert_eq!(a.plus(&b), units(5, -3, 9));
    assert_eq!(a.minus(&b), units(-3, 7, -3));
    assert_eq!(a.times(&b), units(4, -10, 18));
    assert_eq!(a.scaled(2 * ONE), units(2, 4, 6));
    assert_eq!(a.divided(2 * ONE), v(ONE / 2, ONE, 3 * ONE / 2));
}

#[test]
fn camera_ray_through_pixel_centres() {
    let cam = Camera::new(units(1, 2, 3), units(1, 0, 0), units(0, 1, 0), units(0, 0, 1), ONE, 2 * ONE, 2 * ONE);
    let r = Ray::new(&cam, 0, 0, 2, 2);
    assert_eq!(r.origin, units(1, 2, 3));
    assert_eq!(r.direction, v(-ONE / 2, ONE / 2, -ONE));
    let r = Ray::new(&cam, 1, 1, 2, 2);
    assert_eq!(r.direction, v(ONE / 2, -ONE / 2, -ONE));
}

#[test]
fn sphere_two_roots_tangent_miss_and_inside() {
    let s = Sphere::new(&units(0, 0, 0), ONE, matte());
    let tangent = s.intersect(&ray(units(-5, 1, 0), units(1, 0, 0)), ONE).unwrap();
    assert_eq!(tangent.t, 5 * ONE);
    assert_eq!(tangent.n, units(0, 1, 0));
    assert!(s.intersect(&ray(units(-5, 2, 0), units(1, 0, 0)), ONE).is_none());
    let inside = s.intersect(&ray(units(0, 0, 0), units(0, 0, 1)), 64).unwrap();
    assert_eq!(inside.t, ONE);
    assert_eq!(inside.n, units(0, 0, 1));
    assert!(s.intersect(&ray(units(0, 0, 5), units(0, 0, 1)), 64).is_none());
    assert!(s.intersect(&ray(units(0, 0, 5), Vec3::zero()), 64).is_none());
}

#[test]
fn plane_hit_and_parallel_ray() {
    let p = Plane::new(&units(0, 0, 0), &units(0, 0, 1), matte());
    let h = p.intersect(&ray(units(1, 1, 4), units(0, 0, -2)), ONE).unwrap();
    assert_eq!(h.t, 2 * ONE);
    assert_eq!(h.n, units(0, 0, 1));
    assert!(p.intersect(&ray(units(0, 0, 1), units(1, 0, 0)), 0).is_none());
    assert!(p.intersect(&ray(units(0, 0, 0), units(1, 0, 0)), 0).is_none());
    assert!(p.intersect(&ray(units(0, 0, 4), units(0, 0, 1)), ONE).is_none());
}

#[test]
fn triangle_inside_outside_and_normal() {
    let tri = Triangle::new((units(0, 0, 0), units(2, 0, 0), units(0, 2, 0)), matte());
    let h = tri.intersect(&ray(v(ONE / 2, ONE / 2, 3 * ONE), units(0, 0, -1)), ONE).unwrap();
    assert_eq!(h.t, 3 * ONE);
    assert_eq!(h.n, units(0, 0, 1));
    assert!(tri.intersect(&ray(units(2, 2, 3), units(0, 0, -1)), ONE).is_none());
    assert!(tri.intersect(&ray(units(-1, 1, 3), units(0, 0, -1)), ONE).is_none());
    assert!(tri.intersect(&ray(units(1, 1, 3), units(1, 0, 0)), ONE).is_none());
}

#[test]
fn first_hit_keeps_the_nearest_and_the_earliest_of_equals() {
    let objects = vec![
        Primitive::Sphere(Sphere::new(&units(0, 0, -10), ONE, matte())),
        Primitive::Sphere(Sphere::new(&units(0, 0, -4), ONE, matte())),
        Primitive::Sphere(Sphere::new(&units(0, 0, -4), ONE, matte())),
    ];
    let (id, h) = first_hit(&ray(units(0, 0, 0), units(0, 0, -1)), ONE, &objects).unwrap();
    assert_eq!(id, 1);
    assert_eq!(h.t, 3 * ONE);
    assert!(first_hit(&ray(units(0, 0, 0), units(0, 0, 1)), ONE, &objects).is_none());
    assert!(first_hit(&ray(units(0, 0, 0), units(0, 0, -1)), ONE, &Vec::new()).is_none());
}

#[test]
fn lights_give_direction_and_reach() {
    let p = PointLight::new(units(1, 1, 1), units(0, 0, 10));
    assert_eq!(p.direction(&units(0, 0, 0)), (units(0, 0, 1), Some(10 * ONE)));
    assert_eq!(p.get_intensity(), units(1, 1, 1));
    let d = DirectionalLight::new(units(1, 0, 0), units(0, 0, -2));
    assert_eq!(d.direction(&units(5, 5, 5)), (units(0, 0, 1), None));
    assert_eq!(d.get_intensity(), units(1, 0, 0));
}

#[test]
fn reflect_mirrors_about_the_normal() {
    assert_eq!(reflect(&units(0, 0, -1), &units(0, 0, 1)), units(0, 0, 1));
    assert_eq!(reflect(&units(1, 0, 0), &units(0, 0, 1)), units(1, 0, 0));
    let r = reflect(&v(46341, 0, -46341), &units(0, 0, 1));
    assert_eq!(r.x, r.z);
    assert!(r.x > 0);
}

#[test]
fn channel_bytes_clamp_and_truncate() {
    assert_eq!(to_byte(-5), 0);
    assert_eq!(to_byte(0), 0);
    assert_eq!(to_byte(ONE / 2), 127);
    assert_eq!(to_byte(ONE), 255);
    assert_eq!(to_byte(3 * ONE), 255);
}
