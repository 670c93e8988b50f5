use raytracer::fixed::ONE;
use raytracer::geometry::{Object, Plane, Primitive, Sphere, Triangle};
use raytracer::render::{
    blinn_phong_shading, first_hit, raycolor, render_row, to_byte, AMBIENT, BIAS,
};
use raytracer::scene::{Camera, DirectionalLight, Material, PointLight, Ray, SceneLight};
use raytracer::vector::Vec3;

fn units(x: i64, y: i64, z: i64) -> Vec3 {
    Vec3::new(x * ONE, y * ONE, z * ONE)
}

fn ray(o: Vec3, d: Vec3) -> Ray {
    Ray { origin: o, direction: d }
}

fn matte() -> Material {
    Material::new(units(1, 1, 1), units(1, 1, 1), Vec3::zero(), Vec3::zero(), 1)
}

fn mirror() -> Material {
    Material::new(Vec3::zero(), Vec3::zero(), Vec3::zero(), units(1, 1, 1), 1)
}

#[test]
fn sphere_entry_point_from_five_units_away() {
    for r in [ONE / 2, ONE, 2 * ONE, 3 * ONE] {
        let s = Sphere::new(&units(0, 0, 0), r, matte());
        let h = s.intersect(&ray(units(0, 0, 5), units(0, 0, -1)), ONE).unwrap();
        assert_eq!(h.t, 5 * ONE - r);
        let p = Vec3::new(0, 0, 5 * ONE - r);
        assert_eq!(h.n, p.normalize());
        assert_eq!(h.n, units(0, 0, 1));
    }
}

#[test]
fn ray_pointing_away_from_everything_sees_nothing() {
    let objects = vec![
        Primitive::Sphere(Sphere::new(&units(0, 0, 0), ONE, matte())),
        Primitive::Triangle(Triangle::new((units(-1, -1, -3), units(1, -1, -3), units(0, 1, -3)), matte())),
        Primitive::Plane(Plane::new(&units(0, 0, -6), &units(0, 0, 1), matte())),
    ];
    let lights = vec![SceneLight::Point(PointLight::new(units(1, 1, 1), units(0, 5, 5)))];
    let away = ray(units(0, 0, 5), units(0, 1, 2));
    assert!(first_hit(&away, ONE, &objects).is_none());
    assert!(raycolor(&away, ONE, &objects, &lights, 0).is_none());
}

#[test]
fn perfect_mirror_passes_the_reflected_colour_undiminished() {
    let objects = vec![
        Primitive::Plane(Plane::new(&units(0, 0, 0), &units(0, 0, 1), mirror())),
        Primitive::Sphere(Sphere::new(&units(0, 0, 10), ONE, matte())),
    ];
    let lights = vec![SceneLight::Directional(DirectionalLight::new(units(1, 1, 1), units(0, 0, 1)))];
    let primary = ray(units(0, 0, 5), units(0, 0, -1));
    let seen = raycolor(&primary, ONE, &objects, &lights, 0).unwrap();
    let mirrored = ray(units(0, 0, 0), units(0, 0, 1));
    let reflected = raycolor(&mirrored, BIAS, &objects, &lights, 1).unwrap();
    assert_eq!(seen, reflected);
    assert!(seen.x > 0);
}

#[test]
fn facing_mirrors_stop_after_five_levels() {
    let glow = Material::new(units(1, 1, 1), Vec3::zero(), Vec3::zero(), units(1, 1, 1), 1);
    let objects = vec![
        Primitive::Plane(Plane::new(&units(0, 0, 0), &units(0, 0, 1), glow)),
        Primitive::Plane(Plane::new(&units(0, 0, 10), &units(0, 0, -1), glow)),
    ];
    let lights: Vec<SceneLight> = Vec::new();
    let c = raycolor(&ray(units(0, 0, 5), units(0, 0, -1)), ONE, &objects, &lights, 0).unwrap();
    assert_eq!(c, Vec3::new(5 * AMBIENT, 5 * AMBIENT, 5 * AMBIENT));
    let last = raycolor(&ray(units(0, 0, 5), units(0, 0, -1)), ONE, &objects, &lights, 4).unwrap();
    assert_eq!(last, Vec3::new(AMBIENT, AMBIENT, AMBIENT));
    assert!(raycolor(&ray(units(0, 0, 5), units(0, 0, -1)), ONE, &objects, &lights, 5).is_none());
}

#[test]
fn occluded_point_light_adds_nothing_and_a_visible_one_brightens() {
    let floor = Primitive::Plane(Plane::new(&units(0, 0, 0), &units(0, 0, 1), matte()));
    let blocker = Primitive::Sphere(Sphere::new(&units(0, 0, 5), ONE, matte()));
    let objects = vec![floor, blocker];
    let view = ray(units(2, 0, 2), units(-1, 0, -1));
    let n = units(0, 0, 1);
    let behind = vec![SceneLight::Point(PointLight::new(units(1, 1, 1), units(0, 0, 10)))];
    let dark = blinn_phong_shading(&view, 0, 2 * ONE, &n, &objects, &behind, BIAS);
    assert_eq!(dark, Vec3::new(AMBIENT, AMBIENT, AMBIENT));
    let clear = vec![SceneLight::Point(PointLight::new(units(1, 1, 1), units(10, 0, 10)))];
    let lit = blinn_phong_shading(&view, 0, 2 * ONE, &n, &objects, &clear, BIAS);
    assert!(lit.x > dark.x && lit.y > dark.y && lit.z > dark.z);
}

#[test]
fn geometry_beyond_a_point_light_does_not_shadow() {
    let floor = Primitive::Plane(Plane::new(&units(0, 0, 0), &units(0, 0, 1), matte()));
    let above = Primitive::Sphere(Sphere::new(&units(0, 0, 20), ONE, matte()));
    let objects = vec![floor, above];
    let view = ray(units(2, 0, 2), units(-1, 0, -1));
    let n = units(0, 0, 1);
    let lights = vec![SceneLight::Point(PointLight::new(units(1, 1, 1), units(0, 0, 10)))];
    let c = blinn_phong_shading(&view, 0, 2 * ONE, &n, &objects, &lights, BIAS);
    assert!(c.x > AMBIENT);
    let sky = vec![SceneLight::Directional(DirectionalLight::new(units(1, 1, 1), units(0, 0, -1)))];
    let shaded = blinn_phong_shading(&view, 0, 2 * ONE, &n, &objects, &sky, BIAS);
    assert_eq!(shaded, Vec3::new(AMBIENT, AMBIENT, AMBIENT));
}

fn translated_scene(offset: Vec3) -> (Camera, Vec<Primitive>) {
    let at = |p: Vec3| p.plus(&offset);
    let cam = Camera::new(at(units(0, 1, 8)), units(1, 0, 0), units(0, 1, 0), units(0, 0, 1), ONE, 2 * ONE, 2 * ONE);
    let shiny = Material::new(units(1, 0, 0), units(1, 1, 0), units(1, 1, 1), Vec3::new(ONE / 2, ONE / 2, ONE / 2), 8);
    let objects = vec![
        Primitive::Sphere(Sphere::new(&at(units(0, 1, 0)), ONE, shiny)),
        Primitive::Plane(Plane::new(&at(units(0, 0, 0)), &units(0, 1, 0), matte())),
        Primitive::Triangle(Triangle::new((at(units(-3, 0, -2)), at(units(-1, 0, -2)), at(units(-2, 2, -2))), shiny)),
    ];
    (cam, objects)
}

#[test]
fn translating_scene_and_camera_keeps_the_image_under_directional_light() {
    let lights = vec![SceneLight::Directional(DirectionalLight::new(units(1, 1, 1), units(-1, -2, -1)))];
    let (cam, objects) = translated_scene(Vec3::zero());
    let (cam2, objects2) = translated_scene(units(3, -2, 7));
    for j in 0..8 {
        let a = render_row(&cam, j, 8, 8, &objects, &lights);
        let b = render_row(&cam2, j, 8, 8, &objects2, &lights);
        assert_eq!(a.len(), 24);
        assert_eq!(a, b);
    }
    let centre = render_row(&cam, 4, 8, 8, &objects, &lights);
    assert!(centre.iter().any(|b| *b > 0));
}

#[test]
fn triangle_edge_is_part_of_the_triangle() {
    let tri = Triangle::new((units(0, 0, 0), units(1, 0, 0), units(0, 1, 0)), matte());
    let on_edge = tri.intersect(&ray(Vec3::new(ONE / 2, ONE / 2, ONE), units(0, 0, -1)), BIAS);
    assert_eq!(on_edge.unwrap().t, ONE);
    let on_side = tri.intersect(&ray(Vec3::new(ONE / 2, 0, ONE), units(0, 0, -1)), BIAS);
    assert!(on_side.is_some());
    let corner = tri.intersect(&ray(units(1, 0, 1), units(0, 0, -1)), BIAS);
    assert!(corner.is_some());
    let outside = tri.intersect(&ray(Vec3::new(ONE / 2 + 1, ONE / 2, ONE), units(0, 0, -1)), BIAS);
    assert!(outside.is_none());
}

#[test]
fn row_bytes_follow_the_traced_colours() {
    let cam = Camera::new(units(0, 0, 5), units(1, 0, 0), units(0, 1, 0), units(0, 0, 1), ONE, 2 * ONE, 2 * ONE);
    let objects = vec![Primitive::Sphere(Sphere::new(&units(0, 0, 0), 2 * ONE, matte()))];
    let lights = vec![SceneLight::Point(PointLight::new(units(1, 1, 1), units(0, 0, 10)))];
    let row = render_row(&cam, 1, 4, 4, &objects, &lights);
    assert_eq!(row.len(), 12);
    for i in 0..4usize {
        let r = Ray::new(&cam, i, 1, 4, 4);
        let c = raycolor(&r, ONE, &objects, &lights, 0).unwrap_or(Vec3::zero());
        assert_eq!(row[3 * i], to_byte(c.x));
        assert_eq!(row[3 * i + 1], to_byte(c.y));
        assert_eq!(row[3 * i + 2], to_byte(c.z));
    }
    assert!(row[3] > 0);
}

#[test]
fn head_on_light_gives_ambient_plus_full_diffuse_and_specular() {
    let shiny = Material::new(units(1, 1, 1), units(1, 1, 1), units(1, 1, 1), Vec3::zero(), 20);
    let objects = vec![Primitive::Plane(Plane::new(&units(0, 0, 0), &units(0, 0, 1), shiny))];
    let lights = vec![SceneLight::Directional(DirectionalLight::new(units(1, 1, 1), units(0, 0, -1)))];
    let view = ray(units(0, 0, 5), units(0, 0, -1));
    let c = blinn_phong_shading(&view, 0, 5 * ONE, &units(0, 0, 1), &objects, &lights, BIAS);
    assert_eq!(c, Vec3::new(AMBIENT + 2 * ONE, AMBIENT + 2 * ONE, AMBIENT + 2 * ONE));
    let traced = raycolor(&view, ONE, &objects, &lights, 0).unwrap();
    assert_eq!(traced, c);
}
