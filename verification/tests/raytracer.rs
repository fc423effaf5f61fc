use raytracer::ONE;
use raytracer::vec3::Vec3;
use raytracer::material::{Color, Material, vector3_to_color, color_to_vector3};
use raytracer::light::Light;
use raytracer::ray_intersect::{Intersect, RayIntersect};
use raytracer::cube::Cube;
use raytracer::sphere::Sphere;
use raytracer::texture::{Texture, TextureManager};
use raytracer::framebuffer::Framebuffer;
use raytracer::render::{
    Primitive, find_nearest, cast_shadow, cast_ray, render, reflect, SHADOW_INTENSITY_FX,
};
use raytracer::trig::{sin_fx, cos_fx, atan2_fx, asin_fx, HALF_PI_FX, PI_FX};
use raytracer::camera::Camera;

fn fx(units: f64) -> i64 {
    (units * ONE as f64).round() as i64
}

fn to_f(v: i64) -> f64 {
    v as f64 / ONE as f64
}

fn plain_material(r: f64, g: f64, b: f64) -> Material {
    Material::new(Vec3::new(fx(r), fx(g), fx(b)), [fx(0.9), fx(0.1)], 10)
}

fn cube_at(x: f64, y: f64, z: f64, size: f64, m: Material) -> Primitive {
    Primitive::Cube(Cube { center: Vec3::new(fx(x), fx(y), fx(z)), size: fx(size), material: m })
}

#[test]
fn vector_ops_are_exact() {
    let a = Vec3::new(ONE, 2 * ONE, -ONE);
    let b = Vec3::new(3 * ONE, -ONE, ONE);
    let s = a.add(b);
    assert_eq!((s.x, s.y, s.z), (4 * ONE, ONE, 0));
    let d = a.sub(b);
    assert_eq!((d.x, d.y, d.z), (-2 * ONE, 3 * ONE, -2 * ONE));
    // 1*3 + 2*(-1) + (-1)*1 = 0
    assert_eq!(a.dot(b), 0);
    // (1,0,0) x (0,1,0) = (0,0,1)
    let c = Vec3::new(ONE, 0, 0).cross(Vec3::new(0, ONE, 0));
    assert_eq!((c.x, c.y, c.z), (0, 0, ONE));
}

#[test]
fn length_and_normalize_are_exact_on_axis_vectors() {
    let v = Vec3::new(0, -5 * ONE, 0);
    assert_eq!(v.length(), 5 * ONE);
    let n = v.normalize();
    assert_eq!((n.x, n.y, n.z), (0, -ONE, 0));
    let z = Vec3::new(0, 0, 0).normalize();
    assert_eq!((z.x, z.y, z.z), (0, 0, 0));
}

#[test]
fn color_clamps_overbright_channels() {
    // A channel over 1.0 saturates at 255; a negative one floors at 0.
    let c = vector3_to_color(Vec3::new(100 * ONE, -5, ONE / 2));
    assert_eq!((c.r, c.g, c.b, c.a), (255, 0, 127, 255));
}

#[test]
fn color_round_trip_hits_the_endpoints() {
    let v = color_to_vector3(Color::new(255, 0, 255, 255));
    assert_eq!((v.x, v.y, v.z), (ONE, 0, ONE));
}

#[test]
fn material_builders_set_their_fields() {
    let m = plain_material(0.5, 0.25, 0.125).with_texture(3).with_optics(fx(0.55), fx(0.2),
        fx(1.33));
    assert_eq!(m.texture_id, Some(3));
    assert_eq!(m.transparency, fx(0.55));
    assert_eq!(m.reflectivity, fx(0.2));
    assert_eq!(m.ior, fx(1.33));
    let b = Material::black();
    assert_eq!((b.diffuse.x, b.diffuse.y, b.diffuse.z), (0, 0, 0));
    assert_eq!(b.albedo, [0, 0]);
    assert_eq!(b.texture_id, None);
    let e = Intersect::empty();
    assert!(!e.is_intersecting);
    assert_eq!(e.distance, 0);
    assert_eq!(e.uv, None);
}

#[test]
fn sphere_round_trip_along_the_normal() {
    // Radius 1 (a multiple of 1/256), fired at from 5 units along +X: the
    // hit comes at exactly 4 units with the normal facing back at the ray.
    let sp = Sphere {
        center: Vec3::new(0, 0, 0),
        radius: ONE,
        material: plain_material(1.0, 0.0, 0.0),
    };
    let hit = sp.ray_intersect(&Vec3::new(5 * ONE, 0, 0), &Vec3::new(-ONE, 0, 0));
    assert!(hit.is_intersecting);
    assert_eq!(hit.distance, 4 * ONE);
    assert_eq!((hit.normal.x, hit.normal.y, hit.normal.z), (ONE, 0, 0));
    assert_eq!(hit.uv, None);
}

#[test]
fn sphere_misses_sideways_rays() {
    let sp = Sphere {
        center: Vec3::new(0, 0, 0),
        radius: ONE,
        material: plain_material(1.0, 0.0, 0.0),
    };
    let miss = sp.ray_intersect(&Vec3::new(5 * ONE, 3 * ONE, 0), &Vec3::new(-ONE, 0, 0));
    assert!(!miss.is_intersecting);
    let behind = sp.ray_intersect(&Vec3::new(5 * ONE, 0, 0), &Vec3::new(ONE, 0, 0));
    assert!(!behind.is_intersecting);
}

#[test]
fn cube_px_face_normal_and_uv() {
    // A ray along -X into the +X face of the size-2 cube at the origin.
    let cube = Cube {
        center: Vec3::new(0, 0, 0),
        size: 2 * ONE,
        material: plain_material(0.2, 0.4, 0.6),
    };
    let hit = cube.ray_intersect(&Vec3::new(3 * ONE, ONE / 3, ONE / 4), &Vec3::new(-ONE, 0, 0));
    assert!(hit.is_intersecting);
    assert_eq!(hit.distance, 2 * ONE);
    assert_eq!((hit.normal.x, hit.normal.y, hit.normal.z), (ONE, 0, 0));
    let uv = hit.uv.unwrap();
    assert!(0 <= uv.x && uv.x <= ONE);
    assert!(0 <= uv.y && uv.y <= ONE);
    // u from z, v from y, both remapped from [-1, 1] to [0, 1].
    assert_eq!(uv.x, (ONE / 4 + ONE) / 2);
    assert_eq!(uv.y, (ONE / 3 + ONE) / 2);
}

#[test]
fn cube_rejects_rays_pointing_away() {
    let cube = Cube {
        center: Vec3::new(0, 0, 0),
        size: 2 * ONE,
        material: plain_material(0.2, 0.4, 0.6),
    };
    let miss = cube.ray_intersect(&Vec3::new(3 * ONE, 0, 0), &Vec3::new(ONE, 0, 0));
    assert!(!miss.is_intersecting);
    let parallel = cube.ray_intersect(&Vec3::new(3 * ONE, 0, 0), &Vec3::new(0, ONE, 0));
    assert!(!parallel.is_intersecting);
}

#[test]
fn nearest_hit_takes_the_closer_primitive() {
    // Two cubes overlapping along the ray, their front faces 2 and 5
    // units from the origin: the nearest hit carries the first material.
    let near = plain_material(1.0, 0.0, 0.0);
    let far = plain_material(0.0, 1.0, 0.0);
    let objects = vec![cube_at(0.0, 0.0, 2.0, 2.0, near), cube_at(0.0, 0.0, -1.0, 2.0, far)];
    let hit = find_nearest(&Vec3::new(0, 0, 5 * ONE), &Vec3::new(0, 0, -ONE), &objects);
    assert!(hit.is_intersecting);
    assert_eq!(hit.distance, 2 * ONE);
    assert_eq!(hit.material.diffuse.x, ONE);
    assert_eq!(hit.material.diffuse.y, 0);
    // The same scene in the other order still yields the closer hit.
    let objects2 = vec![cube_at(0.0, 0.0, -1.0, 2.0, far), cube_at(0.0, 0.0, 2.0, 2.0, near)];
    let hit2 = find_nearest(&Vec3::new(0, 0, 5 * ONE), &Vec3::new(0, 0, -ONE), &objects2);
    assert_eq!(hit2.distance, 2 * ONE);
    assert_eq!(hit2.material.diffuse.x, ONE);
}

#[test]
fn empty_scene_yields_the_background_exactly() {
    let objects: Vec<Primitive> = Vec::new();
    let light = Light::new(Vec3::new(0, 2 * ONE, 4 * ONE), Vec3::new(ONE, ONE, ONE), ONE / 2);
    let tm = TextureManager::new();
    let c = cast_ray(&Vec3::new(0, 0, 5 * ONE), &Vec3::new(0, 0, -ONE), &objects, &light, &tm);
    assert_eq!((c.r, c.g, c.b, c.a), (204, 184, 204, 255));
    let miss = find_nearest(&Vec3::new(0, 0, 5 * ONE), &Vec3::new(0, 0, -ONE), &objects);
    assert!(!miss.is_intersecting);
}

#[test]
fn shadow_factor_is_binary() {
    let target = cube_at(0.0, 0.0, 0.0, 2.0, plain_material(0.8, 0.8, 0.8));
    let blocker = cube_at(0.0, 2.0, 1.0, 1.0, plain_material(0.1, 0.1, 0.1));
    let light = Light::new(Vec3::new(0, 4 * ONE, ONE), Vec3::new(ONE, ONE, ONE), ONE / 2);
    // The hit on the front (+Z) face of the target cube.
    let hit = find_nearest(&Vec3::new(0, 0, 5 * ONE), &Vec3::new(0, 0, -ONE),
        &vec![target, blocker]);
    assert!(hit.is_intersecting);
    assert_eq!((hit.normal.x, hit.normal.y, hit.normal.z), (0, 0, ONE));
    let blocked = cast_shadow(&hit, &light, &vec![target, blocker]);
    assert_eq!(blocked, SHADOW_INTENSITY_FX);
    let clear = cast_shadow(&hit, &light, &vec![target]);
    assert_eq!(clear, 0);
}

#[test]
fn blocked_light_equals_preattenuated_light() {
    // Shading with the blocker present equals shading the blocker-free
    // scene under a light whose intensity is attenuated by exactly the
    // 0.8 shadow factor; it is strictly darker than the unblocked scene.
    let target = cube_at(0.0, 0.0, 0.0, 2.0, plain_material(0.8, 0.8, 0.8));
    let blocker = cube_at(0.0, 2.0, 3.0, 1.0, plain_material(0.1, 0.1, 0.1));
    let origin = Vec3::new(0, 0, 5 * ONE);
    let dir = Vec3::new(0, 0, -ONE);
    let tm = TextureManager::new();
    let intensity = ONE / 2;
    let light_pos = Vec3::new(0, 4 * ONE, 5 * ONE);
    let light = Light::new(light_pos, Vec3::new(ONE, ONE, ONE), intensity);
    let attenuated = ((intensity as i128) * ((ONE - SHADOW_INTENSITY_FX) as i128)
        / (ONE as i128)) as i64;
    let light_dim = Light::new(light_pos, Vec3::new(ONE, ONE, ONE), attenuated);
    let c_blocked = cast_ray(&origin, &dir, &vec![target, blocker], &light, &tm);
    let c_clear = cast_ray(&origin, &dir, &vec![target], &light, &tm);
    let c_dim = cast_ray(&origin, &dir, &vec![target], &light_dim, &tm);
    assert_eq!((c_blocked.r, c_blocked.g, c_blocked.b), (c_dim.r, c_dim.g, c_dim.b));
    assert!(c_blocked.r < c_clear.r);
    assert!(c_blocked.g < c_clear.g);
    assert!(c_blocked.b < c_clear.b);
}

#[test]
fn texture_store_hands_out_sequential_ids() {
    let mut tm = TextureManager::new();
    let red = Texture::new(1, 1, vec![Color::new(255, 0, 0, 255)]);
    let blue = Texture::new(1, 1, vec![Color::new(0, 0, 255, 255)]);
    let id0 = tm.load_texture(red);
    let id1 = tm.load_texture(blue);
    assert_eq!(id0, 0);
    assert_eq!(id1, 1);
    assert!(tm.get_texture(0).is_some());
    assert!(tm.get_texture(1).is_some());
    assert!(tm.get_texture(2).is_none());
    assert_eq!(tm.get_texture(1).unwrap().get_color(0, 0).b, 255);
}

#[test]
fn texture_sampling_clamps_and_flips_v() {
    // 2x2 texture, row-major from the top: v = 0 samples the bottom row.
    let data = vec![
        Color::new(10, 0, 0, 255),
        Color::new(20, 0, 0, 255),
        Color::new(30, 0, 0, 255),
        Color::new(40, 0, 0, 255),
    ];
    let t = Texture::new(2, 2, data);
    assert_eq!(t.get_color(0, 0).r, 30);
    assert_eq!(t.get_color(ONE, 0).r, 40);
    assert_eq!(t.get_color(0, ONE).r, 10);
    assert_eq!(t.get_color(ONE, ONE).r, 20);
    // Out-of-range coordinates clamp instead of failing.
    assert_eq!(t.get_color(10 * ONE, -10 * ONE).r, 40);
}

#[test]
fn textured_hit_overrides_the_diffuse_color() {
    let mut tm = TextureManager::new();
    let red = Texture::new(1, 1, vec![Color::new(255, 0, 0, 255)]);
    let id = tm.load_texture(red);
    let plain = plain_material(0.0, 0.0, 1.0);
    let textured = plain.with_texture(id);
    let light = Light::new(Vec3::new(0, 0, 5 * ONE), Vec3::new(ONE, ONE, ONE), ONE / 2);
    let origin = Vec3::new(0, 0, 5 * ONE);
    let dir = Vec3::new(0, 0, -ONE);
    let c_plain = cast_ray(&origin, &dir, &vec![cube_at(0.0, 0.0, 0.0, 2.0, plain)], &light,
        &tm);
    let c_tex = cast_ray(&origin, &dir, &vec![cube_at(0.0, 0.0, 0.0, 2.0, textured)], &light,
        &tm);
    // The plain material is blue-dominant, the textured one red-dominant.
    assert!(c_plain.b > c_plain.r);
    assert!(c_tex.r > c_tex.b);
}

#[test]
fn framebuffer_writes_are_bounds_checked() {
    let bg = Color::new(1, 2, 3, 255);
    let mut fb = Framebuffer::new(4, 3, bg);
    assert_eq!(fb.width, 4);
    assert_eq!(fb.height, 3);
    assert_eq!(fb.color_buffer.len(), 12);
    fb.set_current_color(Color::new(9, 9, 9, 255));
    fb.set_pixel(1, 2);
    assert_eq!(fb.color_buffer[2 * 4 + 1].r, 9);
    // Out-of-range writes are ignored.
    fb.set_pixel(4, 0);
    fb.set_pixel(0, 3);
    assert_eq!(fb.color_buffer.iter().filter(|c| c.r == 9).count(), 1);
    fb.clear();
    assert!(fb.color_buffer.iter().all(|c| c.r == 1 && c.g == 2 && c.b == 3));
    fb.set_background_color(Color::new(7, 7, 7, 255));
    fb.clear();
    assert!(fb.color_buffer.iter().all(|c| c.r == 7));
}

#[test]
fn render_fills_every_pixel() {
    let bg = Color::new(0, 0, 0, 255);
    let mut fb = Framebuffer::new(4, 4, bg);
    let light = Light::new(Vec3::new(0, 2 * ONE, 4 * ONE), Vec3::new(ONE, ONE, ONE), ONE / 2);
    let tm = TextureManager::new();
    let camera = Camera::new(Vec3::new(0, 0, 5 * ONE), Vec3::new(0, 0, 0),
        Vec3::new(0, ONE, 0));
    // An empty scene paints the background color everywhere.
    let empty: Vec<Primitive> = Vec::new();
    render(&mut fb, &empty, &camera, &light, &tm);
    assert!(fb.color_buffer.iter().all(|c| (c.r, c.g, c.b) == (204, 184, 204)));
    // A large cube right in front of the camera covers the center pixels.
    let wall = vec![cube_at(0.0, 0.0, 0.0, 4.0, plain_material(1.0, 0.0, 0.0))];
    render(&mut fb, &wall, &camera, &light, &tm);
    assert_ne!((fb.color_buffer[5].r, fb.color_buffer[5].g, fb.color_buffer[5].b),
        (204, 184, 204));
}

#[test]
fn trig_hits_exact_anchor_points() {
    assert_eq!(sin_fx(0), 0);
    assert!((sin_fx(HALF_PI_FX) - ONE).abs() <= 16);
    assert!((cos_fx(0) - ONE).abs() <= 16);
    assert!(sin_fx(PI_FX).abs() <= 16);
    assert_eq!(atan2_fx(0, 5 * ONE), 0);
    assert_eq!(atan2_fx(5 * ONE, 0), HALF_PI_FX);
    assert_eq!(asin_fx(3 * ONE, 3 * ONE), HALF_PI_FX);
    assert_eq!(asin_fx(-3 * ONE, 3 * ONE), -HALF_PI_FX);
    // atan2 of a diagonal is close to pi/4.
    assert!((atan2_fx(ONE, ONE) - PI_FX / 4).abs() < fx(0.01));
}

#[test]
fn camera_basis_is_orthonormal_after_new() {
    // An axis-aligned view gives the exact basis.
    let cam = Camera::new(Vec3::new(0, 0, 5 * ONE), Vec3::new(0, 0, 0), Vec3::new(0, ONE, 0));
    assert_eq!((cam.forward.x, cam.forward.y, cam.forward.z), (0, 0, -ONE));
    assert_eq!((cam.right.x, cam.right.y, cam.right.z), (ONE, 0, 0));
    assert_eq!((cam.up.x, cam.up.y, cam.up.z), (0, ONE, 0));
    // A skewed view is orthonormal to within fixed-point tolerance, even
    // with a non-orthogonal up vector supplied.
    let cam2 = Camera::new(Vec3::new(fx(1.5), fx(0.6), fx(12.0)),
        Vec3::new(fx(-0.5), fx(1.1), fx(1.0)), Vec3::new(0, 6 * ONE, 0));
    let vecs = [cam2.forward, cam2.right, cam2.up];
    for v in vecs.iter() {
        let len = (to_f(v.x).powi(2) + to_f(v.y).powi(2) + to_f(v.z).powi(2)).sqrt();
        assert!((len - 1.0).abs() < 1e-3, "basis vector length {len}");
    }
    for (a, b) in [(0, 1), (0, 2), (1, 2)] {
        let dot = to_f(vecs[a].x) * to_f(vecs[b].x) + to_f(vecs[a].y) * to_f(vecs[b].y)
            + to_f(vecs[a].z) * to_f(vecs[b].z);
        assert!(dot.abs() < 1e-3, "basis dot {dot}");
    }
}

#[test]
fn basis_change_maps_the_axes() {
    let cam = Camera::new(Vec3::new(0, 0, 5 * ONE), Vec3::new(0, 0, 0), Vec3::new(0, ONE, 0));
    let r = cam.basis_change(&Vec3::new(ONE, 0, 0));
    assert_eq!((r.x, r.y, r.z), (ONE, 0, 0));
    let u = cam.basis_change(&Vec3::new(0, ONE, 0));
    assert_eq!((u.x, u.y, u.z), (0, ONE, 0));
    // -z in camera space is the view direction.
    let f = cam.basis_change(&Vec3::new(0, 0, -ONE));
    assert_eq!((f.x, f.y, f.z), (0, 0, -ONE));
}

#[test]
fn orbit_keeps_the_radius() {
    let mut cam = Camera::new(Vec3::new(fx(1.5), fx(0.6), fx(12.0)),
        Vec3::new(fx(-0.5), fx(1.1), fx(1.0)), Vec3::new(0, 6 * ONE, 0));
    let radius0 = {
        let d = cam.eye.sub(cam.center);
        (to_f(d.x).powi(2) + to_f(d.y).powi(2) + to_f(d.z).powi(2)).sqrt()
    };
    for _ in 0..8 {
        cam.orbit(fx(-0.3), fx(0.2));
        let d = cam.eye.sub(cam.center);
        let radius = (to_f(d.x).powi(2) + to_f(d.y).powi(2) + to_f(d.z).powi(2)).sqrt();
        assert!((radius - radius0).abs() / radius0 < 5e-3,
            "radius drifted from {radius0} to {radius}");
    }
}

#[test]
fn orbit_clamps_the_pitch() {
    let mut cam = Camera::new(Vec3::new(5 * ONE, 0, 0), Vec3::new(0, 0, 0),
        Vec3::new(0, ONE, 0));
    for _ in 0..30 {
        cam.orbit(0, fx(0.4));
        let d = cam.eye.sub(cam.center);
        let radius = (to_f(d.x).powi(2) + to_f(d.y).powi(2) + to_f(d.z).powi(2)).sqrt();
        let pitch = (to_f(d.y) / radius).asin();
        assert!(pitch <= 1.5 + 0.01, "pitch {pitch} escaped the clamp");
        assert!(pitch >= -1.5 - 0.01);
    }
}

#[test]
fn unknown_texture_id_falls_back_to_diffuse() {
    // A material naming an id the store never issued shades exactly like
    // the plain material.
    let tm = TextureManager::new();
    let plain = plain_material(0.3, 0.5, 0.7);
    let dangling = plain.with_texture(5);
    let light = Light::new(Vec3::new(0, 0, 5 * ONE), Vec3::new(ONE, ONE, ONE), ONE / 2);
    let origin = Vec3::new(0, 0, 5 * ONE);
    let dir = Vec3::new(0, 0, -ONE);
    let a = cast_ray(&origin, &dir, &vec![cube_at(0.0, 0.0, 0.0, 2.0, plain)], &light, &tm);
    let b = cast_ray(&origin, &dir, &vec![cube_at(0.0, 0.0, 0.0, 2.0, dangling)], &light, &tm);
    assert_eq!((a.r, a.g, a.b, a.a), (b.r, b.g, b.b, b.a));
}

#[test]
fn reflect_mirrors_across_the_normal() {
    // Head-on incidence reflects straight back.
    let r = reflect(&Vec3::new(0, 0, -ONE), &Vec3::new(0, 0, ONE));
    assert_eq!((r.x, r.y, r.z), (0, 0, ONE));
    // Grazing incidence (perpendicular to the normal) is unchanged.
    let g = reflect(&Vec3::new(ONE, 0, 0), &Vec3::new(0, 0, ONE));
    assert_eq!((g.x, g.y, g.z), (ONE, 0, 0));
    let hit = Intersect::new(Material::black(), 3 * ONE, Vec3::new(0, ONE, 0),
        Vec3::new(0, 0, 0), None);
    assert!(hit.is_intersecting);
    assert_eq!(hit.distance, 3 * ONE);
}

#[test]
fn orbit_of_a_degenerate_camera_is_a_no_op() {
    // A camera sitting on its own center has no orbit sphere to move on.
    let mut cam = Camera::new(Vec3::new(ONE, ONE, ONE), Vec3::new(ONE, ONE, ONE),
        Vec3::new(0, ONE, 0));
    let before = (cam.eye, cam.forward, cam.right, cam.up);
    cam.orbit(fx(0.3), fx(0.2));
    assert_eq!(cam.eye, before.0);
    assert_eq!(cam.forward, before.1);
    assert_eq!(cam.right, before.2);
    assert_eq!(cam.up, before.3);
}
