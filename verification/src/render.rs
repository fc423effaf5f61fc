//! The scene and shading engine: the closed set of primitives, the
//! nearest-hit search, the hard shadow test, Phong-style pixel shading,
//! and the per-pixel frame loop.

use vstd::prelude::*;
use crate::fixed::{
    ONE, divf, fx_mul, abs_spec, clamp_spec, div_floor128, fxmul, clampi,
    lemma_divf_bound, lemma_divf_range, lemma_fx_mul_range_all, lemma_fx_mul_unit,
};
use crate::vec3::{Vec3, lemma_dot_range};
use crate::material::{Color, COLOR_LIM, channel_spec, vector3_to_color, color_to_vector3};
use crate::light::{Light, POS_LIM, INTENSITY_LIM};
use crate::ray_intersect::{Intersect, RayIntersect, DIR_LIM, ORIGIN_LIM};
use crate::cube::Cube;
use crate::sphere::Sphere;
use crate::texture::TextureManager;
use crate::camera::Camera;
use crate::framebuffer::Framebuffer;

verus! {

/// The flat shadow attenuation: 0.8 at the fixed scale, applied whenever
/// any primitive blocks the shadow ray, regardless of distance.
pub const SHADOW_INTENSITY_FX: i64 = 52429;

/// The fixed ambient coefficient: 0.2 at the fixed scale.
pub const AMBIENT_FX: i64 = 13107;

/// The shadow-ray origin offset along the surface normal (about 1e-4
/// units), avoiding self-intersection.
pub const SHADOW_BIAS_FX: i64 = 7;

/// A scene primitive: the closed set of shapes a ray can hit.
#[derive(Clone, Copy, Debug)]
pub enum Primitive {
    Cube(Cube),
    Sphere(Sphere),
}

impl RayIntersect for Primitive {
    open spec fn shape_wf(&self) -> bool {
        match *self {
            Primitive::Cube(c) => c.shape_wf(),
            Primitive::Sphere(s) => s.shape_wf(),
        }
    }

    open spec fn hit_spec(&self, ray_origin: Vec3, ray_direction: Vec3) -> Intersect {
        match *self {
            Primitive::Cube(c) => c.hit_spec(ray_origin, ray_direction),
            Primitive::Sphere(s) => s.hit_spec(ray_origin, ray_direction),
        }
    }

    fn ray_intersect(&self, ray_origin: &Vec3, ray_direction: &Vec3) -> (r: Intersect) {
        match self {
            Primitive::Cube(c) => c.ray_intersect(ray_origin, ray_direction),
            Primitive::Sphere(s) => s.ray_intersect(ray_origin, ray_direction),
        }
    }
}

/// Every primitive of the scene is well-formed.
pub open spec fn scene_wf(objects: Seq<Primitive>) -> bool {
    forall|i: int| 0 <= i < objects.len() ==> (#[trigger] objects[i]).shape_wf()
}

/// One step of the nearest-hit fold: a new hit replaces the best seen so
/// far only when it is strictly closer, so the first of equally near hits
/// wins.
pub open spec fn nearest_step(best: Intersect, p: Primitive, o: Vec3, d: Vec3) -> Intersect {
    let tmp = p.hit_spec(o, d);
    if tmp.is_intersecting && (!best.is_intersecting || tmp.distance < best.distance) {
        tmp
    } else {
        best
    }
}

/// The hit record the nearest-hit search returns: the left fold of
/// `nearest_step` over the scene in order, starting from the miss
/// sentinel.
pub open spec fn nearest_spec(objects: Seq<Primitive>, o: Vec3, d: Vec3) -> Intersect
    decreases objects.len(),
{
    if objects.len() == 0 {
        Intersect::empty_spec()
    } else {
        nearest_step(nearest_spec(objects.drop_last(), o, d), objects.last(), o, d)
    }
}

/// Linear scan over all primitives for the nearest hit along the ray.
/// Exactly `nearest_spec`; in addition the contract states that a hit is
/// returned if and only if some primitive hits, that the returned record
/// is one of the per-primitive hits with minimal distance, and that among
/// the minimal ones it is the first in scene order.
pub fn find_nearest(ray_origin: &Vec3, ray_direction: &Vec3, objects: &Vec<Primitive>) -> (r:
    Intersect)
    requires
        scene_wf(objects@),
        ray_origin.in_range(ORIGIN_LIM as int),
        ray_direction.in_range(DIR_LIM as int),
    ensures
        r == nearest_spec(objects@, *ray_origin, *ray_direction),
        r.wf(),
        r.is_intersecting <==> exists|i: int| 0 <= i < objects@.len()
            && (#[trigger] objects@[i].hit_spec(*ray_origin, *ray_direction)).is_intersecting,
        !r.is_intersecting ==> r == Intersect::empty_spec(),
        r.is_intersecting ==> exists|i: int| 0 <= i < objects@.len()
            && r == (#[trigger] objects@[i].hit_spec(*ray_origin, *ray_direction))
            && (forall|j: int| 0 <= j < i
                ==> !(#[trigger] objects@[j].hit_spec(*ray_origin,
                    *ray_direction)).is_intersecting
                    || r.distance < objects@[j].hit_spec(*ray_origin, *ray_direction).distance),
        r.is_intersecting ==> forall|j: int| 0 <= j < objects@.len()
            && (#[trigger] objects@[j].hit_spec(*ray_origin, *ray_direction)).is_intersecting
            ==> r.distance <= objects@[j].hit_spec(*ray_origin, *ray_direction).distance,
        r.is_intersecting ==> abs_spec(r.point.x as int) <= abs_spec(ray_origin.x as int)
            + 0x4_0000_0000,
        r.is_intersecting ==> abs_spec(r.point.y as int) <= abs_spec(ray_origin.y as int)
            + 0x4_0000_0000,
        r.is_intersecting ==> abs_spec(r.point.z as int) <= abs_spec(ray_origin.z as int)
            + 0x4_0000_0000,
{
    let o = *ray_origin;
    let d = *ray_direction;
    let mut best: Intersect = Intersect::empty();
    let ghost mut best_idx: int = 0;
    let mut i: usize = 0;
    while i < objects.len()
        invariant
            scene_wf(objects@),
            ray_origin.in_range(ORIGIN_LIM as int),
            ray_direction.in_range(DIR_LIM as int),
            o == *ray_origin,
            d == *ray_direction,
            i <= objects@.len(),
            best == nearest_spec(objects@.take(i as int), o, d),
            best.wf(),
            best.is_intersecting <==> exists|k: int| 0 <= k < i
                && (#[trigger] objects@[k].hit_spec(o, d)).is_intersecting,
            !best.is_intersecting ==> best == Intersect::empty_spec(),
            best.is_intersecting ==> 0 <= best_idx < i
                && best == objects@[best_idx].hit_spec(o, d)
                && (forall|j: int| 0 <= j < best_idx
                    ==> !(#[trigger] objects@[j].hit_spec(o, d)).is_intersecting
                        || best.distance < objects@[j].hit_spec(o, d).distance),
            best.is_intersecting ==> forall|j: int| 0 <= j < i
                && (#[trigger] objects@[j].hit_spec(o, d)).is_intersecting
                ==> best.distance <= objects@[j].hit_spec(o, d).distance,
            best.is_intersecting ==> abs_spec(best.point.x as int)
                <= abs_spec(ray_origin.x as int) + 0x4_0000_0000,
            best.is_intersecting ==> abs_spec(best.point.y as int)
                <= abs_spec(ray_origin.y as int) + 0x4_0000_0000,
            best.is_intersecting ==> abs_spec(best.point.z as int)
                <= abs_spec(ray_origin.z as int) + 0x4_0000_0000,
        decreases objects@.len() - i,
    {
        let tmp: Intersect = objects[i].ray_intersect(ray_origin, ray_direction);
        if tmp.is_intersecting && (!best.is_intersecting || tmp.distance < best.distance) {
            best = tmp;
            proof {
                best_idx = i as int;
            }
        }
        proof {
            assert(objects@.take(i as int + 1).drop_last() =~= objects@.take(i as int));
            assert(objects@.take(i as int + 1).last() == objects@[i as int]);
        }
        i = i + 1;
    }
    proof {
        assert(objects@.take(objects@.len() as int) =~= objects@);
    }
    best
}

/// The reflection of an incident direction about a surface normal:
/// `i − 2·(i·n)·n` in fixed-point arithmetic.
pub open spec fn reflect_spec(incident: Vec3, normal: Vec3) -> Vec3 {
    let t = 2 * incident.dot_spec(normal);
    Vec3 {
        x: (incident.x - fx_mul(normal.x as int, t)) as i64,
        y: (incident.y - fx_mul(normal.y as int, t)) as i64,
        z: (incident.z - fx_mul(normal.z as int, t)) as i64,
    }
}

/// Reflects `incident` about `normal`, exactly `reflect_spec`.
pub fn reflect(incident: &Vec3, normal: &Vec3) -> (r: Vec3)
    requires
        incident.in_range(2 * ONE as int),
        normal.in_range(2 * ONE as int),
    ensures
        r == reflect_spec(*incident, *normal),
        r.in_range(60 * ONE as int),
{
    proof {
        lemma_dot_range(*incident, *normal, 2 * ONE as int, 2 * ONE as int);
        lemma_fx_mul_range_all(2 * ONE as int, 26 * ONE as int);
    }
    let nd: i64 = incident.dot(*normal);
    proof {
        assert(3 * (2 * ONE as int) * (2 * ONE as int) == 51539607552
            && (2 * ONE as int) * (26 * ONE as int) == 223338299392) by (nonlinear_arith)
            requires ONE == 65536i64;
        assert(divf(51539607552, ONE as int) == 786432);
        assert(divf(223338299392, ONE as int) == 3407872);
    }
    let t: i64 = 2 * nd;
    Vec3 {
        x: incident.x - fxmul(normal.x, t),
        y: incident.y - fxmul(normal.y, t),
        z: incident.z - fxmul(normal.z, t),
    }
}

/// The direction from a hit point toward the light.
pub open spec fn shadow_dir_spec(inter: Intersect, light: Light) -> Vec3 {
    light.position.sub_spec(inter.point).normalize_spec()
}

/// The shadow-ray origin: the hit point nudged along the surface normal.
pub open spec fn shadow_origin_spec(inter: Intersect) -> Vec3 {
    Vec3 {
        x: (inter.point.x + fx_mul(inter.normal.x as int, SHADOW_BIAS_FX as int)) as i64,
        y: (inter.point.y + fx_mul(inter.normal.y as int, SHADOW_BIAS_FX as int)) as i64,
        z: (inter.point.z + fx_mul(inter.normal.z as int, SHADOW_BIAS_FX as int)) as i64,
    }
}

/// Whether any primitive blocks the shadow ray from the hit toward the
/// light. There is no distance check against the light itself: an object
/// beyond the light still casts shadow.
pub open spec fn shadow_blocked(inter: Intersect, light: Light, objects: Seq<
    Primitive,
>) -> bool {
    exists|i: int| 0 <= i < objects.len()
        && (#[trigger] objects[i].hit_spec(shadow_origin_spec(inter),
            shadow_dir_spec(inter, light))).is_intersecting
}

/// The shadow factor: the flat attenuation when blocked, zero when clear.
pub open spec fn shadow_spec(inter: Intersect, light: Light, objects: Seq<Primitive>) -> int {
    if shadow_blocked(inter, light, objects) {
        SHADOW_INTENSITY_FX as int
    } else {
        0
    }
}

/// Casts the shadow ray and returns the binary shadow factor, exactly
/// `shadow_spec`: `SHADOW_INTENSITY_FX` if and only if some primitive
/// blocks the ray, 0 otherwise.
pub fn cast_shadow(intersect: &Intersect, light: &Light, objects: &Vec<Primitive>) -> (s: i64)
    requires
        intersect.wf(),
        intersect.point.in_range(0x8_0000_0000),
        light.wf(),
        scene_wf(objects@),
    ensures
        s == shadow_spec(*intersect, *light, objects@),
        s == 0 || s == SHADOW_INTENSITY_FX,
        (s == SHADOW_INTENSITY_FX) <==> shadow_blocked(*intersect, *light, objects@),
{
    let light_direction: Vec3 = light.position.sub(intersect.point).normalize();
    proof {
        lemma_fx_mul_unit(intersect.normal.x as int, SHADOW_BIAS_FX as int);
        lemma_fx_mul_unit(intersect.normal.y as int, SHADOW_BIAS_FX as int);
        lemma_fx_mul_unit(intersect.normal.z as int, SHADOW_BIAS_FX as int);
    }
    let shadow_ray_origin: Vec3 = intersect.point.add(intersect.normal.scale(SHADOW_BIAS_FX));
    let mut i: usize = 0;
    while i < objects.len()
        invariant
            scene_wf(objects@),
            i <= objects@.len(),
            light_direction == shadow_dir_spec(*intersect, *light),
            shadow_ray_origin == shadow_origin_spec(*intersect),
            light_direction.in_range(ONE as int),
            shadow_ray_origin.in_range(ORIGIN_LIM as int),
            forall|j: int| 0 <= j < i
                ==> !(#[trigger] objects@[j].hit_spec(shadow_origin_spec(*intersect),
                    shadow_dir_spec(*intersect, *light))).is_intersecting,
        decreases objects@.len() - i,
    {
        let shadow_intersect: Intersect = objects[i].ray_intersect(&shadow_ray_origin,
            &light_direction);
        if shadow_intersect.is_intersecting {
            return SHADOW_INTENSITY_FX;
        }
        i = i + 1;
    }
    0
}


/// Integer powers in fixed point: `ONE` at exponent zero, then repeated
/// fixed products.
pub open spec fn pow_spec(base: int, e: nat) -> int
    decreases e,
{
    if e == 0 {
        ONE as int
    } else {
        fx_mul(base, pow_spec(base, (e - 1) as nat))
    }
}

/// Raises a base in `[0, ONE]` to an integer power, exactly `pow_spec`;
/// the result stays in `[0, ONE]`.
pub fn pow_fx(base: i64, e: u32) -> (r: i64)
    requires
        0 <= base <= ONE,
    ensures
        r == pow_spec(base as int, e as nat),
        0 <= r <= ONE,
{
    let mut acc: i64 = ONE;
    let mut i: u32 = 0;
    while i < e
        invariant
            0 <= base <= ONE,
            0 <= acc <= ONE,
            i <= e,
            acc == pow_spec(base as int, i as nat),
        decreases e - i,
    {
        proof {
            lemma_fx_mul_unit(base as int, acc as int);
            assert((acc as int) * (base as int) == (base as int) * (acc as int))
                by (nonlinear_arith);
        }
        acc = fxmul(acc, base);
        i = i + 1;
    }
    acc
}

/// The background color returned for rays that hit nothing.
pub open spec fn background_spec() -> Color {
    Color { r: 204u8, g: 184u8, b: 204u8, a: 255u8 }
}

/// The base diffuse color of a hit: the sampled texture color when the
/// material names a texture the store knows and the hit carries UV
/// coordinates, otherwise the material's plain diffuse color.
pub open spec fn resolved_diffuse_spec(inter: Intersect, tm: TextureManager) -> Vec3 {
    match inter.material.texture_id {
        Some(tid) => match inter.uv {
            Some(uv) => if (tid as int) < tm.textures@.len() {
                let c = tm.textures@[tid as int].sample_spec(uv.x as int, uv.y as int);
                Vec3 {
                    x: divf(c.r as int * ONE as int, 255) as i64,
                    y: divf(c.g as int * ONE as int, 255) as i64,
                    z: divf(c.b as int * ONE as int, 255) as i64,
                }
            } else {
                inter.material.diffuse
            },
            None => inter.material.diffuse,
        },
        None => inter.material.diffuse,
    }
}

/// The shaded color of a hit under a given shadow factor: ambient at the
/// fixed coefficient, a Lambertian diffuse term and a Phong specular term
/// both scaled by the shadow-attenuated light intensity and the albedo
/// weights, then clamped to display range.
pub open spec fn shade_spec(o: Vec3, inter: Intersect, light: Light, shadow: int,
    tm: TextureManager) -> Color {
    let diffuse = resolved_diffuse_spec(inter, tm);
    let ld = shadow_dir_spec(inter, light);
    let vd = o.sub_spec(inter.point).normalize_spec();
    let nld = Vec3 { x: (-ld.x) as i64, y: (-ld.y) as i64, z: (-ld.z) as i64 };
    let rd = reflect_spec(nld, inter.normal).normalize_spec();
    let li = fx_mul(light.intensity as int, (ONE as int) - shadow);
    let nd0 = inter.normal.dot_spec(ld);
    let lambert = if nd0 > 0 { nd0 } else { 0 };
    let diff_i = fx_mul(lambert, li);
    let sbase = clamp_spec(vd.dot_spec(rd), 0, ONE as int);
    let spec_i = fx_mul(pow_spec(sbase, inter.material.specular as nat), li);
    let a0 = inter.material.albedo[0] as int;
    let a1 = inter.material.albedo[1] as int;
    let cx = fx_mul(diffuse.x as int, AMBIENT_FX as int)
        + fx_mul(fx_mul(diffuse.x as int, diff_i), a0)
        + fx_mul(fx_mul(light.color.x as int, spec_i), a1);
    let cy = fx_mul(diffuse.y as int, AMBIENT_FX as int)
        + fx_mul(fx_mul(diffuse.y as int, diff_i), a0)
        + fx_mul(fx_mul(light.color.y as int, spec_i), a1);
    let cz = fx_mul(diffuse.z as int, AMBIENT_FX as int)
        + fx_mul(fx_mul(diffuse.z as int, diff_i), a0)
        + fx_mul(fx_mul(light.color.z as int, spec_i), a1);
    Color {
        r: channel_spec(cx) as u8,
        g: channel_spec(cy) as u8,
        b: channel_spec(cz) as u8,
        a: 255u8,
    }
}

/// The color a primary ray produces: the background when nothing is hit,
/// otherwise the nearest hit shaded under its shadow factor.
pub open spec fn cast_ray_spec(o: Vec3, d: Vec3, objects: Seq<Primitive>, light: Light,
    tm: TextureManager) -> Color {
    let inter = nearest_spec(objects, o, d);
    if !inter.is_intersecting {
        background_spec()
    } else {
        shade_spec(o, inter, light, shadow_spec(inter, light, objects), tm)
    }
}

/// Casts one primary ray: nearest-hit search, texture lookup, shadow test
/// and Phong composition. Exactly `cast_ray_spec`; in particular a ray
/// that hits nothing yields exactly the background color.
#[verifier::rlimit(60)]
pub fn cast_ray(ray_origin: &Vec3, ray_direction: &Vec3, objects: &Vec<Primitive>,
    light: &Light, texture_manager: &TextureManager) -> (c: Color)
    requires
        ray_origin.in_range(POS_LIM as int),
        ray_direction.in_range(DIR_LIM as int),
        light.wf(),
        scene_wf(objects@),
        texture_manager.wf(),
    ensures
        c == cast_ray_spec(*ray_origin, *ray_direction, objects@, *light, *texture_manager),
{
    let intersect: Intersect = find_nearest(ray_origin, ray_direction, objects);
    if !intersect.is_intersecting {
        return Color { r: 204, g: 184, b: 204, a: 255 };
    }
    let mut diffuse: Vec3 = intersect.material.diffuse;
    if let Some(texture_id) = intersect.material.texture_id {
        if let Some(uv) = intersect.uv {
            match texture_manager.get_texture(texture_id) {
                Some(texture) => {
                    proof {
                        assert(texture_manager.textures@[texture_id as int].wf());
                    }
                    diffuse = color_to_vector3(texture.get_color(uv.x, uv.y));
                },
                None => {},
            }
        }
    }
    proof {
        assert(diffuse == resolved_diffuse_spec(intersect, *texture_manager));
        assert(diffuse.in_range(COLOR_LIM as int));
    }
    let light_direction: Vec3 = light.position.sub(intersect.point).normalize();
    let view_direction: Vec3 = ray_origin.sub(intersect.point).normalize();
    let reflection_direction: Vec3 = reflect(&light_direction.neg(),
        &intersect.normal).normalize();
    let shadow_intensity: i64 = cast_shadow(&intersect, light, objects);
    proof {
        lemma_fx_mul_unit(light.intensity as int, (ONE - shadow_intensity) as int);
    }
    let light_intensity: i64 = fxmul(light.intensity, ONE - shadow_intensity);
    proof {
        lemma_dot_range(intersect.normal, light_direction, 2 * ONE as int, ONE as int);
        assert(3 * (2 * ONE as int) * (ONE as int) == 25769803776) by (nonlinear_arith)
            requires ONE == 65536i64;
        assert(divf(25769803776, ONE as int) == 393216);
    }
    let nd0: i64 = intersect.normal.dot(light_direction);
    let lambert: i64 = if nd0 > 0 { nd0 } else { 0 };
    proof {
        lemma_fx_mul_range_all(0x8_0000, INTENSITY_LIM as int);
        assert(0x8_0000int * 0x400_0000 == 0x2000_0000_0000) by (nonlinear_arith);
        assert(divf(0x2000_0000_0000, ONE as int) == 0x2000_0000);
    }
    let diffuse_intensity: i64 = fxmul(lambert, light_intensity);
    let sbase: i64 = clampi(view_direction.dot(reflection_direction), 0, ONE);
    let pw: i64 = pow_fx(sbase, intersect.material.specular);
    proof {
        lemma_fx_mul_unit(light_intensity as int, pw as int);
        assert((pw as int) * (light_intensity as int)
            == (light_intensity as int) * (pw as int)) by (nonlinear_arith);
    }
    let specular_intensity: i64 = fxmul(pw, light_intensity);
    proof {
        lemma_fx_mul_range_all(COLOR_LIM as int, 0x2000_0001);
        assert(0x100_0000int * 0x2000_0001 == 0x20_0000_0100_0000) by (nonlinear_arith);
        assert(divf(0x20_0000_0100_0000, ONE as int) == 0x20_0000_0100);
        lemma_fx_mul_range_all(0x40_0000_0000, COLOR_LIM as int);
        assert(0x40_0000_0000int * 0x100_0000 == 0x4000_0000_0000_0000) by (nonlinear_arith);
        assert(divf(0x4000_0000_0000_0000, ONE as int) == 0x4000_0000_0000);
        lemma_fx_mul_range_all(COLOR_LIM as int, 0x400_0000);
        assert(0x100_0000int * 0x400_0000 == 0x4_0000_0000_0000) by (nonlinear_arith);
        assert(divf(0x4_0000_0000_0000, ONE as int) == 0x4_0000_0000);
        lemma_fx_mul_range_all(0x8_0000_0000, COLOR_LIM as int);
        assert(0x8_0000_0000int * 0x100_0000 == 0x800_0000_0000_0000) by (nonlinear_arith);
        assert(divf(0x800_0000_0000_0000, ONE as int) == 0x800_0000_0000);
        lemma_fx_mul_range_all(COLOR_LIM as int, ONE as int);
        assert(0x100_0000int * (ONE as int) == 0x100_0000_0000) by (nonlinear_arith)
            requires ONE == 65536i64;
        assert(divf(0x100_0000_0000, ONE as int) == 0x100_0000);
    }
    let ambient: Vec3 = diffuse.scale(AMBIENT_FX);
    let diffuse_term: Vec3 = diffuse.scale(diffuse_intensity).scale(
        intersect.material.albedo[0]);
    let specular_term: Vec3 = light.color.scale(specular_intensity).scale(
        intersect.material.albedo[1]);
    let color: Vec3 = ambient.add(diffuse_term).add(specular_term);
    vector3_to_color(color)
}



/// tan(30°) at the fixed scale: the perspective scale of the fixed 60°
/// field of view.
pub const TAN_HALF_FOV_FX: i64 = 37837;

/// The world-space direction of the primary ray through pixel `(x, y)` of
/// a `w`-by-`h` image: normalized device coordinates with Y flipped so
/// image-space down maps to world-space up, scaled by the aspect ratio and
/// the perspective scale, normalized, pushed through the camera basis, and
/// normalized again.
pub open spec fn pixel_dir_spec(x: int, y: int, w: int, h: int, camera: Camera) -> Vec3 {
    let aspect = divf(w * (ONE as int), h);
    let sxn = divf(2 * x * (ONE as int), w) - ONE as int;
    let syn = (ONE as int) - divf(2 * y * (ONE as int), h);
    let sx = fx_mul(fx_mul(sxn, aspect), TAN_HALF_FOV_FX as int);
    let sy = fx_mul(syn, TAN_HALF_FOV_FX as int);
    let d0 = (Vec3 { x: sx as i64, y: sy as i64, z: (-ONE) as i64 }).normalize_spec();
    camera.basis_change_spec(d0).normalize_spec()
}

/// The color pixel `(x, y)` receives: the primary ray through it, cast
/// from the camera eye.
pub open spec fn pixel_color_spec(x: int, y: int, w: int, h: int, camera: Camera,
    light: Light, objects: Seq<Primitive>, tm: TextureManager) -> Color {
    cast_ray_spec(camera.eye, pixel_dir_spec(x, y, w, h, camera), objects, light, tm)
}

/// A pixel coordinate scaled into device range stays within `[0, 2·ONE]`.
proof fn lemma_ndc_bounds(x: int, w: int)
    requires
        0 <= x < w,
        w <= 0x4000,
    ensures
        0 <= 2 * x * (ONE as int) <= 0x8000_0000,
        0 <= divf(2 * x * (ONE as int), w) <= 2 * ONE as int,
{
    assert(0 <= 2 * x * (ONE as int) && 2 * x * (ONE as int) <= 0x8000_0000
        && 2 * x * (ONE as int) <= (2 * ONE as int) * w) by (nonlinear_arith)
        requires 0 <= x < w, w <= 0x4000, ONE == 65536i64;
    lemma_divf_range(2 * x * (ONE as int), w, 2 * ONE as int);
}

/// The aspect ratio of an in-range image stays within `[0, 0x4000_0000]`.
proof fn lemma_aspect_bounds(w: int, h: int)
    requires
        1 <= w <= 0x4000,
        1 <= h,
    ensures
        0 <= w * (ONE as int) <= 0x4000_0000,
        0 <= divf(w * (ONE as int), h) <= 0x4000_0000,
{
    assert(0 <= w * (ONE as int) && w * (ONE as int) <= 0x4000_0000) by (nonlinear_arith)
        requires 1 <= w <= 0x4000, ONE == 65536i64;
    lemma_divf_bound(w * (ONE as int), h);
}

/// Distinct pixel coordinates have distinct row-major indices.
proof fn lemma_index_inj(yy: int, xx: int, y: int, x: int, w: int)
    requires
        0 <= xx < w,
        0 <= x < w,
        0 <= yy,
        0 <= y,
        yy != y || xx != x,
    ensures
        yy * w + xx != y * w + x,
{
    assert(yy * w + xx != y * w + x) by (nonlinear_arith)
        requires 0 <= xx < w, 0 <= x < w, 0 <= yy, 0 <= y, yy != y || xx != x;
}

/// What a finished frame looks like: every cell of the new buffer holds
/// its pixel's color, and the drawing color ends on the last pixel (an
/// empty image leaves the buffer untouched).
pub open spec fn frame_rendered(pre: Framebuffer, post: Framebuffer, camera: Camera,
    light: Light, objects: Seq<Primitive>, tm: TextureManager) -> bool {
    &&& (forall|yy: int, xx: int|
        0 <= yy < pre.height && 0 <= xx < pre.width
            ==> post.color_buffer@[yy * pre.width + xx]
                == #[trigger] pixel_color_spec(xx, yy, pre.width as int, pre.height as int,
                    camera, light, objects, tm))
    &&& (pre.width > 0 && pre.height > 0 ==> post.current_color == pixel_color_spec(
        pre.width - 1, pre.height - 1, pre.width as int, pre.height as int, camera, light,
        objects, tm))
    &&& (pre.width == 0 || pre.height == 0 ==> post == pre)
}

/// Renders one frame: for every pixel, builds the camera ray, casts it,
/// and stores the resulting color, row-major. Afterward every buffer cell
/// holds exactly the color `pixel_color_spec` gives its pixel; the
/// dimensions and background are untouched, and the current drawing color
/// ends on the last pixel's color.
#[verifier::rlimit(80)]
pub fn render(
    framebuffer: &mut Framebuffer,
    objects: &Vec<Primitive>,
    camera: &Camera,
    light: &Light,
    texture_manager: &TextureManager,
)
    requires
        old(framebuffer).wf(),
        camera.wf(),
        light.wf(),
        scene_wf(objects@),
        texture_manager.wf(),
    ensures
        final(framebuffer).wf(),
        final(framebuffer).width == old(framebuffer).width,
        final(framebuffer).height == old(framebuffer).height,
        final(framebuffer).background_color == old(framebuffer).background_color,
        frame_rendered(*old(framebuffer), *final(framebuffer), *camera, *light, objects@,
            *texture_manager),
{
    let w: usize = framebuffer.width;
    let h: usize = framebuffer.height;
    if w == 0 || h == 0 {
        return;
    }
    let mut y: usize = 0;
    while y < h
        invariant
            framebuffer.wf(),
            framebuffer.width == w,
            framebuffer.height == h,
            framebuffer.background_color == old(framebuffer).background_color,
            1 <= w <= 0x4000,
            1 <= h <= 0x4000,
            0 <= y <= h,
            camera.wf(),
            light.wf(),
            scene_wf(objects@),
            texture_manager.wf(),
            (forall|yy: int, xx: int| 0 <= yy < y && 0 <= xx < w
                ==> framebuffer.color_buffer@[yy * w + xx]
                    == #[trigger] pixel_color_spec(xx, yy, w as int, h as int, *camera,
                        *light, objects@, *texture_manager)),
            (y > 0 ==> framebuffer.current_color == pixel_color_spec(w - 1, y - 1, w as int,
                h as int, *camera, *light, objects@, *texture_manager)),
            (y == 0 ==> framebuffer.current_color == old(framebuffer).current_color),
        decreases h - y,
    {
        let mut x: usize = 0;
        while x < w
            invariant
                framebuffer.wf(),
                framebuffer.width == w,
                framebuffer.height == h,
                framebuffer.background_color == old(framebuffer).background_color,
                1 <= w <= 0x4000,
                1 <= h <= 0x4000,
                0 <= y < h,
                0 <= x <= w,
                camera.wf(),
                light.wf(),
                scene_wf(objects@),
                texture_manager.wf(),
                (forall|yy: int, xx: int| 0 <= yy < y && 0 <= xx < w
                    ==> framebuffer.color_buffer@[yy * w + xx]
                        == #[trigger] pixel_color_spec(xx, yy, w as int, h as int, *camera,
                            *light, objects@, *texture_manager)),
                (forall|xx: int| 0 <= xx < x
                    ==> framebuffer.color_buffer@[y * w + xx]
                        == #[trigger] pixel_color_spec(xx, y as int, w as int, h as int,
                            *camera, *light, objects@, *texture_manager)),
                (x > 0 ==> framebuffer.current_color == pixel_color_spec(x - 1, y as int,
                    w as int, h as int, *camera, *light, objects@, *texture_manager)),
                (x == 0 && y > 0 ==> framebuffer.current_color == pixel_color_spec(w - 1,
                    y - 1, w as int, h as int, *camera, *light, objects@, *texture_manager)),
                (x == 0 && y == 0 ==> framebuffer.current_color
                    == old(framebuffer).current_color),
            decreases w - x,
        {
            proof {
                lemma_ndc_bounds(x as int, w as int);
                lemma_ndc_bounds(y as int, h as int);
                lemma_aspect_bounds(w as int, h as int);
            }
            let aspect: i64 = div_floor128((w as i128) * (ONE as i128), h as i128) as i64;
            let sxq: i64 = div_floor128(2 * (x as i128) * (ONE as i128), w as i128) as i64;
            let syq: i64 = div_floor128(2 * (y as i128) * (ONE as i128), h as i128) as i64;
            let sxn: i64 = sxq - ONE;
            let syn: i64 = ONE - syq;
            proof {
                lemma_fx_mul_range_all(2 * ONE as int, 0x4000_0000);
                assert((2 * ONE as int) * 0x4000_0000 == 0x8000_0000_0000) by (nonlinear_arith)
                    requires ONE == 65536i64;
                assert(divf(0x8000_0000_0000, ONE as int) == 0x8000_0000);
                lemma_fx_mul_range_all(0x8000_0001, ONE as int);
                assert(0x8000_0001int * (ONE as int) == 0x8000_0001_0000) by (nonlinear_arith)
                    requires ONE == 65536i64;
                assert(divf(0x8000_0001_0000, ONE as int) == 0x8000_0001);
                lemma_fx_mul_range_all(2 * ONE as int, ONE as int);
                assert((2 * ONE as int) * (ONE as int) == 0x2_0000_0000) by (nonlinear_arith)
                    requires ONE == 65536i64;
                assert(divf(0x2_0000_0000, ONE as int) == 0x2_0000);
            }
            let sx: i64 = fxmul(fxmul(sxn, aspect), TAN_HALF_FOV_FX);
            let sy: i64 = fxmul(syn, TAN_HALF_FOV_FX);
            let d0: Vec3 = Vec3 { x: sx, y: sy, z: -ONE }.normalize();
            let rotated: Vec3 = camera.basis_change(&d0);
            let dir: Vec3 = rotated.normalize();
            proof {
                assert(dir == pixel_dir_spec(x as int, y as int, w as int, h as int, *camera));
            }
            let pixel_color: Color = cast_ray(&camera.eye, &dir, objects, light,
                texture_manager);
            framebuffer.set_current_color(pixel_color);
            framebuffer.set_pixel(x as u32, y as u32);
            proof {
                assert forall|yy: int, xx: int|
                    (0 <= yy < y && 0 <= xx < w) || (yy == y && 0 <= xx <= x)
                    implies framebuffer.color_buffer@[yy * w + xx]
                        == pixel_color_spec(xx, yy, w as int, h as int, *camera, *light,
                            objects@, *texture_manager)
                by {
                    assert(0 <= yy * (w as int) + xx && yy * (w as int) + xx
                        < (w as int) * (h as int)) by (nonlinear_arith)
                        requires 0 <= xx < w as int, 0 <= yy < h as int;
                    assert(0 <= (y as int) * (w as int) + (x as int)
                        && (y as int) * (w as int) + (x as int) < (w as int) * (h as int))
                        by (nonlinear_arith)
                        requires 0 <= x < w as int, 0 <= y < h as int;
                    if yy == y as int && xx == x as int {
                    } else {
                        lemma_index_inj(yy, xx, y as int, x as int, w as int);
                    }
                }
            }
            x = x + 1;
        }
        y = y + 1;
    }
}


/// A ray that misses every primitive yields exactly the background color:
/// the nearest-hit fold never leaves the miss sentinel.
pub proof fn lemma_no_hit_background(o: Vec3, d: Vec3, objects: Seq<Primitive>, light: Light,
    tm: TextureManager)
    requires
        forall|i: int| 0 <= i < objects.len()
            ==> !(#[trigger] objects[i].hit_spec(o, d)).is_intersecting,
    ensures
        nearest_spec(objects, o, d) == Intersect::empty_spec(),
        cast_ray_spec(o, d, objects, light, tm) == background_spec(),
    decreases objects.len(),
{
    if objects.len() > 0 {
        let rest = objects.drop_last();
        assert forall|i: int| 0 <= i < rest.len()
            implies !(#[trigger] rest[i].hit_spec(o, d)).is_intersecting
        by {
            assert(rest[i] == objects[i]);
        }
        lemma_no_hit_background(o, d, rest, light, tm);
        assert(!objects.last().hit_spec(o, d).is_intersecting);
    }
}

/// Hard shadows are binary, and attenuate the light-dependent terms by
/// exactly the fixed factor: a blocked hit is shaded exactly as the same
/// hit under an unblocked light whose intensity was pre-attenuated by
/// `1 − SHADOW_INTENSITY_FX`.
pub proof fn lemma_shadow_attenuation(o: Vec3, inter: Intersect, light: Light,
    tm: TextureManager)
    requires
        light.wf(),
    ensures
        shade_spec(o, inter, light, SHADOW_INTENSITY_FX as int, tm) == shade_spec(o, inter,
            (Light {
                intensity: fx_mul(light.intensity as int,
                    (ONE as int) - SHADOW_INTENSITY_FX) as i64,
                ..light
            }), 0, tm),
{
    let att = fx_mul(light.intensity as int, (ONE as int) - SHADOW_INTENSITY_FX);
    lemma_fx_mul_unit(light.intensity as int, (ONE as int) - SHADOW_INTENSITY_FX);
    let light2 = Light { intensity: att as i64, ..light };
    crate::fixed::lemma_divf_exact(att, ONE as int);
    assert(fx_mul(light2.intensity as int, (ONE as int) - 0) == att);
}

} // verus!
