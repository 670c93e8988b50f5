//! The scene query, the shading model and the recursive colour integrator.
use vstd::prelude::*;
use crate::fixed::{clamp, clamp_i128, fx_pow, in_range, max0, sat_pow, ONE};
use crate::geometry::{Hit, Object, Primitive};
use crate::scene::{camera_ray, Camera, Light, Ray, SceneLight};
use crate::vector::{dot, lemma_one, lemma_ops_wf, lemma_zero, unit, v3, vadd, vmul, vneg, vscale, vsub, Vec3};

verus! {

/// The global ambient light, one tenth.
pub const AMBIENT: i64 = 6554;

/// The offset below which a secondary ray ignores hits, so that it does not
/// hit the surface it starts on; about one thousandth.
pub const BIAS: i64 = 64;

/// The deepest recursion level that still traces a ray.
pub const MAX_DEPTH: usize = 4;

/// Every primitive of the scene is well formed.
pub open spec fn objects_wf(objects: Seq<Primitive>) -> bool {
    forall|i: int| 0 <= i < objects.len() ==> #[trigger] objects[i].wf()
}

/// Every light of the scene is well formed.
pub open spec fn lights_wf(lights: Seq<SceneLight>) -> bool {
    forall|i: int| 0 <= i < lights.len() ==> #[trigger] lights[i].wf()
}

/// The nearest hit among the first `k` primitives, scanned in order: a later
/// hit replaces the kept one only when its parameter is strictly smaller.
pub open spec fn nearest_upto(objects: Seq<Primitive>, ray: Ray, min_t: int, k: nat) -> Option<(usize, Hit)>
    decreases k,
{
    if k == 0 {
        None
    } else {
        let best = nearest_upto(objects, ray, min_t, (k - 1) as nat);
        match objects[k - 1].spec_intersect(ray, min_t) {
            None => best,
            Some(h) => match best {
                Some(b) => if h.t < b.1.t { Some(((k - 1) as usize, h)) } else { best },
                None => Some(((k - 1) as usize, h)),
            },
        }
    }
}

/// The nearest hit in the whole scene.
pub open spec fn nearest(objects: Seq<Primitive>, ray: Ray, min_t: int) -> Option<(usize, Hit)> {
    nearest_upto(objects, ray, min_t, objects.len())
}

/// `r` is the nearest of the hits of the first `k` primitives, the earliest
/// among equals; `None` when none of them is hit.
pub open spec fn is_nearest(objects: Seq<Primitive>, ray: Ray, min_t: int, k: int, r: Option<(usize, Hit)>) -> bool {
    match r {
        None => forall|i: int| 0 <= i < k ==> (#[trigger] objects[i].spec_intersect(ray, min_t)) is None,
        Some((id, h)) => {
            &&& id < k
            &&& objects[id as int].spec_intersect(ray, min_t) == Some(h)
            &&& forall|i: int| 0 <= i < k ==> match #[trigger] objects[i].spec_intersect(ray, min_t) {
                Some(g) => h.t < g.t || (h.t == g.t && id <= i),
                None => true,
            }
        },
    }
}

/// The scan keeps the nearest hit, the earliest among equals.
pub proof fn lemma_nearest_upto(objects: Seq<Primitive>, ray: Ray, min_t: int, k: nat)
    requires
        k <= objects.len(),
        k <= usize::MAX,
    ensures
        is_nearest(objects, ray, min_t, k as int, nearest_upto(objects, ray, min_t, k)),
    decreases k,
{
    if k > 0 {
        let j = k - 1;
        lemma_nearest_upto(objects, ray, min_t, j as nat);
        let best = nearest_upto(objects, ray, min_t, j as nat);
        let r = nearest_upto(objects, ray, min_t, k);
        match objects[j].spec_intersect(ray, min_t) {
            None => {
                assert forall|i: int| 0 <= i < k implies match #[trigger] objects[i].spec_intersect(ray, min_t) {
                    Some(g) => r matches Some(x) && (x.1.t < g.t || (x.1.t == g.t && x.0 <= i)),
                    None => true,
                } by {
                    if i < j {
                    }
                }
            },
            Some(h) => {
                assert((j as usize) as int == j);
                assert forall|i: int| 0 <= i < k implies match #[trigger] objects[i].spec_intersect(ray, min_t) {
                    Some(g) => r matches Some(x) && (x.1.t < g.t || (x.1.t == g.t && x.0 <= i)),
                    None => true,
                } by {
                    if i < j {
                    }
                }
            },
        }
    }
}

/// The nearest hit of `ray` among `objects` at a parameter of at least
/// `min_t`; of two hits at the same parameter, the one listed first.
pub fn first_hit(ray: &Ray, min_t: i64, objects: &Vec<Primitive>) -> (r: Option<(usize, Hit)>)
    requires
        ray.wf(),
        in_range(min_t as int),
        objects_wf(objects@),
    ensures
        r == nearest(objects@, *ray, min_t as int),
        is_nearest(objects@, *ray, min_t as int, objects@.len() as int, r),
        r matches Some(x) ==> x.1.wf() && x.1.t >= min_t,
{
    let mut best: Option<(usize, Hit)> = None;
    let mut i: usize = 0;
    while i < objects.len()
        invariant
            i <= objects@.len(),
            ray.wf(),
            in_range(min_t as int),
            objects_wf(objects@),
            best == nearest_upto(objects@, *ray, min_t as int, i as nat),
            best matches Some(x) ==> x.1.wf() && x.1.t >= min_t,
        decreases objects@.len() - i,
    {
        let found = objects[i].intersect(ray, min_t);
        match found {
            Some(h) => {
                let closer = match best {
                    Some(b) => h.t < b.1.t,
                    None => true,
                };
                if closer {
                    best = Some((i, h));
                }
            },
            None => {},
        }
        i = i + 1;
    }
    proof {
        lemma_nearest_upto(objects@, *ray, min_t as int, objects@.len());
    }
    best
}

/// The point at parameter `t` along the ray.
pub open spec fn hit_point(ray: Ray, t: int) -> Vec3 {
    vadd(ray.origin, vscale(t, ray.direction))
}

/// A shadow ray from `p` along `dir` meets a primitive before the light,
/// which stands at parameter `max_t` (`None`: infinitely far).
pub open spec fn occluded(objects: Seq<Primitive>, p: Vec3, dir: Vec3, max_t: Option<i64>, bias: int) -> bool {
    match nearest(objects, Ray { origin: p, direction: dir }, bias) {
        None => false,
        Some(x) => match max_t {
            None => true,
            Some(m) => x.1.t < m,
        },
    }
}

/// The diffuse term `(kd * I) * max(0, n.l)`.
pub open spec fn diffuse(kd: Vec3, intensity: Vec3, n: Vec3, l: Vec3) -> Vec3 {
    vscale(max0(dot(n, l)), vmul(kd, intensity))
}

/// The specular term `(ks * I) * max(0, n.h)^p` with the half vector `h`.
pub open spec fn specular(ks: Vec3, intensity: Vec3, n: Vec3, h: Vec3, p: nat) -> Vec3 {
    vscale(sat_pow(max0(dot(n, h)), p), vmul(ks, intensity))
}

/// `rgb` plus what `light` adds at `p`: nothing when it is occluded, else its
/// diffuse and its specular term.
pub open spec fn light_step(
    objects: Seq<Primitive>,
    light: SceneLight,
    m: crate::scene::Material,
    p: Vec3,
    view: Vec3,
    n: Vec3,
    bias: int,
    rgb: Vec3,
) -> Vec3 {
    let (l, max_t) = light.spec_direction(p);
    if occluded(objects, p, l, max_t, bias) {
        rgb
    } else {
        let h = unit(vadd(view, l));
        let i = light.spec_intensity();
        vadd(vadd(rgb, diffuse(m.kd, i, n, l)), specular(m.ks, i, n, h, m.phong_exp as nat))
    }
}

/// The ambient term followed by the contributions of the first `k` lights.
pub open spec fn shade_upto(
    objects: Seq<Primitive>,
    lights: Seq<SceneLight>,
    m: crate::scene::Material,
    p: Vec3,
    view: Vec3,
    n: Vec3,
    bias: int,
    k: nat,
) -> Vec3
    decreases k,
{
    if k == 0 {
        vscale(AMBIENT as int, m.ka)
    } else {
        light_step(
            objects,
            lights[k - 1],
            m,
            p,
            view,
            n,
            bias,
            shade_upto(objects, lights, m, p, view, n, bias, (k - 1) as nat),
        )
    }
}

/// The local colour of a hit on primitive `id` at parameter `t` with normal `n`.
pub open spec fn shade(
    objects: Seq<Primitive>,
    lights: Seq<SceneLight>,
    ray: Ray,
    id: int,
    t: int,
    n: Vec3,
    bias: int,
) -> Vec3 {
    shade_upto(
        objects,
        lights,
        objects[id].spec_material(),
        hit_point(ray, t),
        unit(vneg(ray.direction)),
        n,
        bias,
        lights.len(),
    )
}

/// The local (ambient, diffuse and specular) colour of the hit of `ray` on
/// primitive `hit_id` at parameter `t` with normal `n`, each light tested
/// for shadow with a ray that ignores hits below `shadow_bias`. Reflection is
/// not included.
pub fn blinn_phong_shading(
    ray: &Ray,
    hit_id: usize,
    t: i64,
    n: &Vec3,
    objects: &Vec<Primitive>,
    lights: &Vec<SceneLight>,
    shadow_bias: i64,
) -> (r: Vec3)
    requires
        ray.wf(),
        hit_id < objects@.len(),
        in_range(t as int),
        n.wf(),
        objects_wf(objects@),
        lights_wf(lights@),
        in_range(shadow_bias as int),
    ensures
        r == shade(objects@, lights@, *ray, hit_id as int, t as int, *n, shadow_bias as int),
        r.wf(),
{
    let m = objects[hit_id].get_material();
    let mut rgb = m.ka.scaled(AMBIENT);
    let p = ray.origin.plus(&ray.direction.scaled(t));
    let view = ray.direction.negated().normalize();
    let mut k: usize = 0;
    while k < lights.len()
        invariant
            k <= lights@.len(),
            ray.wf(),
            n.wf(),
            p.wf(),
            view.wf(),
            m.wf(),
            in_range(shadow_bias as int),
            objects_wf(objects@),
            lights_wf(lights@),
            rgb.wf(),
            rgb == shade_upto(objects@, lights@, *m, p, view, *n, shadow_bias as int, k as nat),
        decreases lights@.len() - k,
    {
        let light = &lights[k];
        let (l, max_t) = light.direction(&p);
        let sray = Ray { origin: p, direction: l };
        let shadow = first_hit(&sray, shadow_bias, objects);
        let blocked = match shadow {
            None => false,
            Some(x) => match max_t {
                None => true,
                Some(mt) => x.1.t < mt,
            },
        };
        if !blocked {
            let h = view.plus(&l).normalize();
            let i = light.get_intensity();
            let dl = n.dot(&l);
            let dh = n.dot(&h);
            let lam = if dl > 0 { dl } else { 0 };
            let hl = if dh > 0 { dh } else { 0 };
            rgb = rgb.plus(&m.kd.times(&i).scaled(lam));
            rgb = rgb.plus(&m.ks.times(&i).scaled(fx_pow(hl, m.phong_exp)));
        }
        k = k + 1;
    }
    rgb
}

/// The mirror image of `d` in the plane with normal `n`,
/// `d - 2 (d.n) n`, scaled to unit length.
pub open spec fn reflection(d: Vec3, n: Vec3) -> Vec3 {
    unit(vsub(d, vscale(clamp(2 * dot(d, n)), n)))
}

/// Reflects the direction `dir` about the normal `n`; both are expected to
/// have unit length. The result has unit length.
pub fn reflect(dir: &Vec3, n: &Vec3) -> (r: Vec3)
    requires
        dir.wf(),
        n.wf(),
    ensures
        r == reflection(*dir, *n),
        r.wf(),
{
    let twice = clamp_i128(2 * dir.dot(n) as i128);
    dir.minus(&n.scaled(twice)).normalize()
}

/// The ray that leaves the hit at parameter `t` with normal `n` in the
/// mirror direction.
pub open spec fn mirror_ray(ray: Ray, t: int, n: Vec3) -> Ray {
    Ray { origin: hit_point(ray, t), direction: reflection(unit(ray.direction), unit(n)) }
}

/// The colour seen along `ray` at recursion level `depth`: `None` past the
/// deepest level or when nothing is hit; else the local colour plus the
/// mirror coefficient times the colour of the reflected ray, when that one
/// hits something.
pub open spec fn trace(objects: Seq<Primitive>, lights: Seq<SceneLight>, ray: Ray, min_t: int, depth: int) -> Option<Vec3>
    decreases 5 - depth,
{
    if depth > MAX_DEPTH {
        None
    } else {
        match nearest(objects, ray, min_t) {
            None => None,
            Some(x) => {
                let rgb = shade(objects, lights, ray, x.0 as int, x.1.t as int, x.1.n, BIAS as int);
                match trace(objects, lights, mirror_ray(ray, x.1.t as int, x.1.n), BIAS as int, depth + 1) {
                    None => Some(rgb),
                    Some(c) => Some(vadd(rgb, vmul(objects[x.0 as int].spec_material().km, c))),
                }
            },
        }
    }
}

/// Traces `ray`, ignoring hits below `min_t`, at recursion level
/// `n_recursive_calls`: `None` when nothing is hit or the level is past the
/// deepest, else the colour seen.
pub fn raycolor(
    ray: &Ray,
    min_t: i64,
    objects: &Vec<Primitive>,
    lights: &Vec<SceneLight>,
    n_recursive_calls: usize,
) -> (r: Option<Vec3>)
    requires
        ray.wf(),
        in_range(min_t as int),
        objects_wf(objects@),
        lights_wf(lights@),
    ensures
        r == trace(objects@, lights@, *ray, min_t as int, n_recursive_calls as int),
        r matches Some(c) ==> c.wf(),
    decreases 5 - n_recursive_calls,
{
    if n_recursive_calls > MAX_DEPTH {
        return None;
    }
    let found = first_hit(ray, min_t, objects);
    match found {
        None => None,
        Some((hit_id, h)) => {
            let rgb = blinn_phong_shading(ray, hit_id, h.t, &h.n, objects, lights, BIAS);
            let mray = Ray {
                origin: ray.origin.plus(&ray.direction.scaled(h.t)),
                direction: reflect(&ray.direction.normalize(), &h.n.normalize()),
            };
            match raycolor(&mray, BIAS, objects, lights, n_recursive_calls + 1) {
                None => Some(rgb),
                Some(c) => {
                    let m = objects[hit_id].get_material();
                    Some(rgb.plus(&m.km.times(&c)))
                },
            }
        },
    }
}

/// The display byte of a colour channel: the channel clamped to `[0, 1]`,
/// times 255, truncated.
pub open spec fn channel_byte(c: int) -> int {
    let k = if c < 0 {
        0
    } else if c > ONE {
        ONE as int
    } else {
        c
    };
    (255 * k) / (ONE as int)
}

pub fn to_byte(c: i64) -> (r: u8)
    ensures
        r == channel_byte(c as int),
{
    let k: i64 = if c < 0 {
        0
    } else if c > ONE {
        ONE
    } else {
        c
    };
    assert(0 <= (255 * k) / 65536 <= 255) by (nonlinear_arith)
        requires
            0 <= k <= 65536,
    ;
    ((255 * k) / ONE) as u8
}

/// The colour of pixel `(i, j)`: what the primary ray through it sees,
/// ignoring hits before the image plane, or black when it sees nothing.
pub open spec fn pixel_color(
    cam: Camera,
    objects: Seq<Primitive>,
    lights: Seq<SceneLight>,
    i: int,
    j: int,
    n_x: int,
    n_y: int,
) -> Vec3 {
    match trace(objects, lights, camera_ray(cam, i, j, n_x, n_y), ONE as int, 0) {
        Some(c) => c,
        None => v3(0, 0, 0),
    }
}

/// The bytes of row `j` of an `n_x` by `n_y` image, three per pixel (red,
/// green, blue), left to right.
pub fn render_row(
    cam: &Camera,
    j: usize,
    n_x: usize,
    n_y: usize,
    objects: &Vec<Primitive>,
    lights: &Vec<SceneLight>,
) -> (r: Vec<u8>)
    requires
        cam.wf(),
        j < n_y,
        3 * n_x <= usize::MAX,
        objects_wf(objects@),
        lights_wf(lights@),
    ensures
        r@.len() == 3 * n_x,
        forall|i: int|
            0 <= i < n_x ==> {
                let c = #[trigger] pixel_color(*cam, objects@, lights@, i, j as int, n_x as int, n_y as int);
                &&& r@[3 * i] == channel_byte(c.x as int)
                &&& r@[3 * i + 1] == channel_byte(c.y as int)
                &&& r@[3 * i + 2] == channel_byte(c.z as int)
            },
{
    let mut row: Vec<u8> = Vec::new();
    let mut i: usize = 0;
    while i < n_x
        invariant
            i <= n_x,
            cam.wf(),
            j < n_y,
            3 * n_x <= usize::MAX,
            objects_wf(objects@),
            lights_wf(lights@),
            row@.len() == 3 * i,
            forall|k: int|
                0 <= k < i ==> {
                    let c = #[trigger] pixel_color(*cam, objects@, lights@, k, j as int, n_x as int, n_y as int);
                    &&& row@[3 * k] == channel_byte(c.x as int)
                    &&& row@[3 * k + 1] == channel_byte(c.y as int)
                    &&& row@[3 * k + 2] == channel_byte(c.z as int)
                },
        decreases n_x - i,
    {
        let ray = Ray::new(cam, i, j, n_x, n_y);
        let c = match raycolor(&ray, ONE, objects, lights, 0) {
            Some(c) => c,
            None => Vec3::zero(),
        };
        row.push(to_byte(c.x));
        row.push(to_byte(c.y));
        row.push(to_byte(c.z));
        i = i + 1;
    }
    row
}

/// A ray that no primitive reports a hit for finds nothing in the scene, and
/// the integrator reports no hit for it at any level.
pub proof fn lemma_miss_everything(objects: Seq<Primitive>, lights: Seq<SceneLight>, ray: Ray, min_t: int, depth: int)
    requires
        objects.len() <= usize::MAX,
        forall|i: int| 0 <= i < objects.len() ==> (#[trigger] objects[i].spec_intersect(ray, min_t)) is None,
    ensures
        nearest(objects, ray, min_t) is None,
        trace(objects, lights, ray, min_t, depth) is None,
{
    lemma_nearest_upto(objects, ray, min_t, objects.len());
}

/// A material that reflects all light as a mirror and adds no colour of its own.
pub open spec fn perfect_mirror(m: crate::scene::Material) -> bool {
    &&& m.ka == v3(0, 0, 0)
    &&& m.kd == v3(0, 0, 0)
    &&& m.ks == v3(0, 0, 0)
    &&& m.km == v3(ONE as int, ONE as int, ONE as int)
}

proof fn lemma_no_local_colour(
    objects: Seq<Primitive>,
    lights: Seq<SceneLight>,
    m: crate::scene::Material,
    p: Vec3,
    view: Vec3,
    n: Vec3,
    bias: int,
    k: nat,
)
    requires
        perfect_mirror(m),
    ensures
        shade_upto(objects, lights, m, p, view, n, bias, k) == v3(0, 0, 0),
    decreases k,
{
    let zero = v3(0, 0, 0);
    lemma_zero(AMBIENT as int, zero);
    if k > 0 {
        lemma_no_local_colour(objects, lights, m, p, view, n, bias, (k - 1) as nat);
        let light = lights[k - 1];
        let i = light.spec_intensity();
        let (l, max_t) = light.spec_direction(p);
        let h = unit(vadd(view, l));
        lemma_zero(max0(dot(n, l)), i);
        lemma_zero(sat_pow(max0(dot(n, h)), m.phong_exp as nat), i);
        lemma_zero(0, zero);
    }
}

proof fn lemma_shade_wf(
    objects: Seq<Primitive>,
    lights: Seq<SceneLight>,
    m: crate::scene::Material,
    p: Vec3,
    view: Vec3,
    n: Vec3,
    bias: int,
    k: nat,
)
    ensures
        shade_upto(objects, lights, m, p, view, n, bias, k).wf(),
    decreases k,
{
    lemma_ops_wf(AMBIENT as int, m.ka, m.ka);
    if k > 0 {
        lemma_shade_wf(objects, lights, m, p, view, n, bias, (k - 1) as nat);
        let light = lights[k - 1];
        let i = light.spec_intensity();
        let (l, max_t) = light.spec_direction(p);
        let h = unit(vadd(view, l));
        let before = shade_upto(objects, lights, m, p, view, n, bias, (k - 1) as nat);
        lemma_ops_wf(0, vadd(before, diffuse(m.kd, i, n, l)), specular(m.ks, i, n, h, m.phong_exp as nat));
    }
}

proof fn lemma_trace_wf(objects: Seq<Primitive>, lights: Seq<SceneLight>, ray: Ray, min_t: int, depth: int)
    ensures
        trace(objects, lights, ray, min_t, depth) matches Some(c) ==> c.wf(),
    decreases 5 - depth,
{
    if depth <= MAX_DEPTH {
        if let Some(x) = nearest(objects, ray, min_t) {
            lemma_trace_wf(objects, lights, mirror_ray(ray, x.1.t as int, x.1.n), BIAS as int, depth + 1);
            let m = objects[x.0 as int].spec_material();
            let p = hit_point(ray, x.1.t as int);
            let view = unit(vneg(ray.direction));
            lemma_shade_wf(objects, lights, m, p, view, x.1.n, BIAS as int, lights.len());
            let rgb = shade_upto(objects, lights, m, p, view, x.1.n, BIAS as int, lights.len());
            if let Some(c) = trace(objects, lights, mirror_ray(ray, x.1.t as int, x.1.n), BIAS as int, depth + 1) {
                lemma_ops_wf(0, rgb, vmul(m.km, c));
            }
        }
    }
}

/// A hit on a perfect mirror has exactly the colour of the reflected ray
/// (black when the reflected ray hits nothing): the mirror neither dims nor
/// tints it.
pub proof fn lemma_perfect_mirror(
    objects: Seq<Primitive>,
    lights: Seq<SceneLight>,
    ray: Ray,
    min_t: int,
    depth: int,
)
    requires
        depth <= MAX_DEPTH,
        nearest(objects, ray, min_t) matches Some(x) && perfect_mirror(objects[x.0 as int].spec_material()),
    ensures
        ({
            let x = nearest(objects, ray, min_t)->Some_0;
            trace(objects, lights, ray, min_t, depth) == Some(
                match trace(objects, lights, mirror_ray(ray, x.1.t as int, x.1.n), BIAS as int, depth + 1) {
                    Some(c) => c,
                    None => v3(0, 0, 0),
                },
            )
        }),
{
    let x = nearest(objects, ray, min_t)->Some_0;
    let m = objects[x.0 as int].spec_material();
    lemma_no_local_colour(
        objects,
        lights,
        m,
        hit_point(ray, x.1.t as int),
        unit(vneg(ray.direction)),
        x.1.n,
        BIAS as int,
        lights.len(),
    );
    let next = mirror_ray(ray, x.1.t as int, x.1.n);
    lemma_trace_wf(objects, lights, next, BIAS as int, depth + 1);
    lemma_zero(0, v3(0, 0, 0));
    if let Some(c) = trace(objects, lights, next, BIAS as int, depth + 1) {
        lemma_one(c);
        lemma_zero(0, c);
    }
}

/// The number of recursion levels that query the scene while tracing `ray`
/// from level `depth`.
pub open spec fn traced_levels(objects: Seq<Primitive>, ray: Ray, min_t: int, depth: int) -> nat
    decreases 5 - depth,
{
    if depth > MAX_DEPTH {
        0
    } else {
        match nearest(objects, ray, min_t) {
            None => 1,
            Some(x) => 1 + traced_levels(objects, mirror_ray(ray, x.1.t as int, x.1.n), BIAS as int, depth + 1),
        }
    }
}

/// Whatever the scene, even two mirrors facing each other, a primary ray
/// queries the scene on at most five levels (0 to 4).
pub proof fn lemma_recursion_bounded(objects: Seq<Primitive>, ray: Ray, min_t: int, depth: int)
    requires
        0 <= depth,
    ensures
        traced_levels(objects, ray, min_t, depth) <= if depth > MAX_DEPTH { 0 } else { 5 - depth },
    decreases 5 - depth,
{
    if depth <= MAX_DEPTH {
        if let Some(x) = nearest(objects, ray, min_t) {
            lemma_recursion_bounded(objects, mirror_ray(ray, x.1.t as int, x.1.n), BIAS as int, depth + 1);
        }
    }
}

/// A light whose shadow ray meets a primitive before reaching it adds neither
/// a diffuse nor a specular term.
pub proof fn lemma_occluded_light_adds_nothing(
    objects: Seq<Primitive>,
    light: SceneLight,
    m: crate::scene::Material,
    p: Vec3,
    view: Vec3,
    n: Vec3,
    bias: int,
    rgb: Vec3,
)
    requires
        occluded(objects, p, light.spec_direction(p).0, light.spec_direction(p).1, bias),
    ensures
        light_step(objects, light, m, p, view, n, bias, rgb) == rgb,
{
}

} // verus!
