//! Spheres and their analytic ray intersection.

use vstd::prelude::*;
use crate::fixed::{
    ONE, divf, fx_mul, div_floor128, fxmul, isqrt_u128, lemma_divf_range,
};
use crate::vec3::{Vec3, sqrt_floor, lemma_sqrt_floor, lemma_isqrt_unique};
use crate::material::Material;
use crate::light::POS_LIM;
use crate::ray_intersect::{Intersect, RayIntersect, DIR_LIM, DIST_LIM};

verus! {

/// Cap (2^39) on the projection of the center offset onto the ray; past
/// it every root lies beyond `DIST_LIM` or behind the origin, so the
/// query is answered as a miss before the quadratic is finished.
pub const TCA_LIM: i64 = 0x80_0000_0000i64;

/// A sphere: center, radius, and its material.
#[derive(Clone, Copy, Debug)]
pub struct Sphere {
    pub center: Vec3,
    pub radius: i64,
    pub material: Material,
}

impl Sphere {
    /// The exact hit record `ray_intersect` returns: the geometric form of
    /// the quadratic solve. `tca` projects the center offset onto the ray,
    /// `d2` is the squared center-to-ray distance; the query misses when
    /// `d2` exceeds the squared radius or both roots are negative, and the
    /// smallest non-negative root within `DIST_LIM` is the hit.
    pub open spec fn hit_model(self, o: Vec3, d: Vec3) -> Intersect {
        let lx = self.center.x - o.x;
        let ly = self.center.y - o.y;
        let lz = self.center.z - o.z;
        let tca = divf(lx * d.x + ly * d.y + lz * d.z, ONE as int);
        if tca > TCA_LIM as int || tca < -(TCA_LIM as int) {
            Intersect::empty_spec()
        } else {
            let r2 = fx_mul(self.radius as int, self.radius as int);
            let ll = divf(lx * lx + ly * ly + lz * lz, ONE as int);
            let d2 = ll - fx_mul(tca, tca);
            if d2 > r2 {
                Intersect::empty_spec()
            } else {
                let thc = sqrt_floor((r2 - d2) * (ONE as int));
                let t0 = tca - thc;
                let t1 = tca + thc;
                let t = if t0 < 0 { t1 } else { t0 };
                if t < 0 || t > DIST_LIM as int {
                    Intersect::empty_spec()
                } else {
                    let px = o.x + fx_mul(d.x as int, t);
                    let py = o.y + fx_mul(d.y as int, t);
                    let pz = o.z + fx_mul(d.z as int, t);
                    let n = (Vec3 {
                        x: (px - self.center.x) as i64,
                        y: (py - self.center.y) as i64,
                        z: (pz - self.center.z) as i64,
                    }).normalize_spec();
                    Intersect {
                        material: self.material,
                        distance: t as i64,
                        is_intersecting: true,
                        normal: n,
                        point: (Vec3 { x: px as i64, y: py as i64, z: pz as i64 }),
                        uv: None,
                    }
                }
            }
        }
    }
}

impl RayIntersect for Sphere {
    /// Center within scene range, radius non-negative and in range, and a
    /// well-formed material.
    open spec fn shape_wf(&self) -> bool {
        &&& self.center.in_range(POS_LIM as int)
        &&& 0 <= self.radius <= POS_LIM
        &&& self.material.wf()
    }

    open spec fn hit_spec(&self, ray_origin: Vec3, ray_direction: Vec3) -> Intersect {
        self.hit_model(ray_origin, ray_direction)
    }

    fn ray_intersect(&self, ray_origin: &Vec3, ray_direction: &Vec3) -> (r: Intersect) {
        let o = *ray_origin;
        let d = *ray_direction;
        let lx: i64 = self.center.x - o.x;
        let ly: i64 = self.center.y - o.y;
        let lz: i64 = self.center.z - o.z;
        proof {
            lemma_offset_products(lx as int, ly as int, lz as int, d.x as int, d.y as int,
                d.z as int);
        }
        let raw_dot: i128 = (lx as i128) * (d.x as i128) + (ly as i128) * (d.y as i128) + (lz
            as i128) * (d.z as i128);
        let tca128: i128 = div_floor128(raw_dot, ONE as i128);
        proof {
            lemma_divf_range(raw_dot as int, ONE as int, 0x100_0000_0000_0000);
        }
        let tca: i64 = tca128 as i64;
        if tca > TCA_LIM || tca < -TCA_LIM {
            return Intersect::empty();
        }
        proof {
            assert(0 <= (self.radius as int) * (self.radius as int)
                && (self.radius as int) * (self.radius as int)
                <= 0x1_0000_0000_0000 * (ONE as int)) by (nonlinear_arith)
                requires 0 <= self.radius <= 0x1_0000_0000;
            lemma_divf_range((self.radius as int) * (self.radius as int), ONE as int,
                0x1_0000_0000_0000);
        }
        let r2: i64 = fxmul(self.radius, self.radius);
        let raw_ll: i128 = (lx as i128) * (lx as i128) + (ly as i128) * (ly as i128) + (lz
            as i128) * (lz as i128);
        let ll128: i128 = div_floor128(raw_ll, ONE as i128);
        proof {
            lemma_divf_range(raw_ll as int, ONE as int, 0x400_0000_0000_0000);
            crate::fixed::lemma_divf_bound(raw_ll as int, ONE as int);
            assert(0 <= (tca as int) * (tca as int)
                && (tca as int) * (tca as int) <= 0x4000_0000_0000_0000 * (ONE as int))
                by (nonlinear_arith)
                requires -0x80_0000_0000 <= (tca as int) <= 0x80_0000_0000;
            lemma_divf_range((tca as int) * (tca as int), ONE as int, 0x4000_0000_0000_0000);
        }
        let ll: i64 = ll128 as i64;
        let d2: i64 = ll - fxmul(tca, tca);
        if d2 > r2 {
            return Intersect::empty();
        }
        proof {
            assert(((r2 - d2) as int) * (ONE as int) >= 0) by (nonlinear_arith)
                requires (r2 - d2) as int >= 0;
        }
        let under: i128 = ((r2 - d2) as i128) * (ONE as i128);
        let thc128: u128 = isqrt_u128(under as u128);
        proof {
            lemma_sqrt_floor(under as int);
            lemma_isqrt_unique(under as int, thc128 as int, sqrt_floor(under as int));
            assert((thc128 as int) <= 0x100_0000_0000) by (nonlinear_arith)
                requires
                    (thc128 as int) * (thc128 as int) <= (under as int),
                    0 <= (thc128 as int),
                    (under as int) <= 0x1_0000_0000_0000_0000_0000;
        }
        let thc: i64 = thc128 as i64;
        let t0: i64 = tca - thc;
        let t1: i64 = tca + thc;
        let t: i64 = if t0 < 0 { t1 } else { t0 };
        if t < 0 || t > DIST_LIM {
            return Intersect::empty();
        }
        proof {
            crate::cube::lemma_hit_step_bounds(d.x as int, t as int);
            crate::cube::lemma_hit_step_bounds(d.y as int, t as int);
            crate::cube::lemma_hit_step_bounds(d.z as int, t as int);
        }
        let px: i64 = o.x + fxmul(d.x, t);
        let py: i64 = o.y + fxmul(d.y, t);
        let pz: i64 = o.z + fxmul(d.z, t);
        let n: Vec3 = Vec3 { x: px - self.center.x, y: py - self.center.y, z: pz
            - self.center.z }.normalize();
        Intersect {
            material: self.material,
            distance: t,
            is_intersecting: true,
            normal: n,
            point: Vec3 { x: px, y: py, z: pz },
            uv: None,
        }
    }
}

/// The raw products feeding the sphere quadratic stay well inside `i128`.
proof fn lemma_offset_products(lx: int, ly: int, lz: int, dx: int, dy: int, dz: int)
    requires
        -0x11_0000_0000 <= lx <= 0x11_0000_0000,
        -0x11_0000_0000 <= ly <= 0x11_0000_0000,
        -0x11_0000_0000 <= lz <= 0x11_0000_0000,
        -(DIR_LIM as int) <= dx <= DIR_LIM as int,
        -(DIR_LIM as int) <= dy <= DIR_LIM as int,
        -(DIR_LIM as int) <= dz <= DIR_LIM as int,
    ensures
        -0x44_0000_0000_0000 <= lx * dx <= 0x44_0000_0000_0000,
        -0x44_0000_0000_0000 <= ly * dy <= 0x44_0000_0000_0000,
        -0x44_0000_0000_0000 <= lz * dz <= 0x44_0000_0000_0000,
        0 <= lx * lx <= 0x121_0000_0000_0000_0000,
        0 <= ly * ly <= 0x121_0000_0000_0000_0000,
        0 <= lz * lz <= 0x121_0000_0000_0000_0000,
{
    assert(-0x44_0000_0000_0000 <= lx * dx <= 0x44_0000_0000_0000
        && 0 <= lx * lx <= 0x121_0000_0000_0000_0000) by (nonlinear_arith)
        requires -0x11_0000_0000 <= lx <= 0x11_0000_0000, -0x4_0000 <= dx <= 0x4_0000;
    assert(-0x44_0000_0000_0000 <= ly * dy <= 0x44_0000_0000_0000
        && 0 <= ly * ly <= 0x121_0000_0000_0000_0000) by (nonlinear_arith)
        requires -0x11_0000_0000 <= ly <= 0x11_0000_0000, -0x4_0000 <= dy <= 0x4_0000;
    assert(-0x44_0000_0000_0000 <= lz * dz <= 0x44_0000_0000_0000
        && 0 <= lz * lz <= 0x121_0000_0000_0000_0000) by (nonlinear_arith)
        requires -0x11_0000_0000 <= lz <= 0x11_0000_0000, -0x4_0000 <= dz <= 0x4_0000;
}


/// Aiming at a sphere's center along its outward surface normal hits the
/// near surface exactly: from distance `dist` along +X, the hit comes at
/// distance `dist - radius`, with the returned normal parallel to the
/// reversed ray direction. Stated for radii that are multiples of 256
/// (1/256 of a unit), where the squared radius is exact in the fixed
/// scale; coarser radii can differ by a single rounding step.
pub proof fn lemma_sphere_axis_round_trip(material: Material, center: Vec3, radius: i64,
    dist: i64)
    requires
        center.in_range(POS_LIM as int),
        0 < radius <= POS_LIM,
        radius % 256 == 0,
        radius < dist <= DIST_LIM,
    ensures
        ({
            let sphere = (Sphere { center, radius, material });
            let o = (Vec3 { x: (center.x + dist) as i64, y: center.y, z: center.z });
            let d = (Vec3 { x: (-(ONE as int)) as i64, y: 0i64, z: 0i64 });
            let hit = sphere.hit_model(o, d);
            &&& hit.is_intersecting
            &&& hit.distance == dist - radius
            &&& hit.normal == (Vec3 { x: ONE, y: 0i64, z: 0i64 })
            &&& hit.material == material
        }),
{
    let sphere = Sphere { center, radius, material };
    let o = Vec3 { x: (center.x + dist) as i64, y: center.y, z: center.z };
    let d = Vec3 { x: (-(ONE as int)) as i64, y: 0i64, z: 0i64 };
    let one = ONE as int;
    let lx = center.x - o.x;
    assert(lx == -(dist as int));
    // The projection onto the ray is exactly the distance to the center.
    assert(lx * d.x == dist * one && center.y as int * 0 == 0 && lx * 0 == 0)
        by (nonlinear_arith)
        requires lx == -(dist as int), d.x == -one;
    crate::fixed::lemma_divf_exact(dist as int, one);
    assert(lx * d.x + (center.y - o.y) * d.y + (center.z - o.z) * d.z == dist * one);
    let tca = divf(dist * one, one);
    assert(tca == dist);
    // The squared radius is exact: radius = 256k makes radius² = ONE·k².
    let k = radius as int / 256;
    assert(radius == 256 * k && radius * radius == one * (k * k)
        && (k * k) * one == radius * radius) by (nonlinear_arith)
        requires radius % 256 == 0, k == radius as int / 256, one == 65536,
            radius == 256 * (radius as int / 256);
    vstd::arithmetic::div_mod::lemma_fundamental_div_mod(radius as int, 256);
    crate::fixed::lemma_divf_exact(k * k, one);
    let r2 = fx_mul(radius as int, radius as int);
    assert(r2 == k * k);
    // The center offset squares to the same floored value as tca², so the
    // center-to-ray distance is exactly zero.
    assert(lx * lx == dist * dist && tca * tca == dist * dist) by (nonlinear_arith)
        requires lx == -(dist as int), tca == dist;
    let ll = divf(dist * dist, one);
    let d2 = ll - fx_mul(tca, tca);
    assert(d2 == 0);
    assert(0 <= k * k) by (nonlinear_arith);
    // The half chord is exactly the radius.
    assert((r2 - d2) * one == radius * radius);
    lemma_sqrt_floor(radius * radius);
    assert(crate::fixed::is_isqrt(radius * radius, radius as int)) by (nonlinear_arith)
        requires 0 < radius;
    lemma_isqrt_unique(radius * radius, sqrt_floor(radius * radius), radius as int);
    let thc = sqrt_floor((r2 - d2) * one);
    assert(thc == radius);
    let t = tca - thc;
    assert(t == dist - radius && 0 < t && t <= DIST_LIM);
    // The hit point lands exactly on the surface along +X.
    assert(d.x * t == -(t * one) && 0 * t == 0) by (nonlinear_arith)
        requires d.x == -one;
    crate::fixed::lemma_divf_exact(-t, one);
    assert(fx_mul(d.x as int, t) == -t);
    assert(fx_mul(0, t) == 0) by {
        assert(0 * t == 0) by (nonlinear_arith);
    }
    let px = o.x + fx_mul(d.x as int, t);
    assert(px == center.x + radius);
    // The outward normal normalizes to exactly +X.
    let n0 = Vec3 { x: (px - center.x) as i64, y: 0i64, z: 0i64 };
    assert(n0.x == radius);
    assert(n0.norm_sq() == radius * radius) by (nonlinear_arith)
        requires n0.x == radius, n0.y == 0i64, n0.z == 0i64;
    lemma_sqrt_floor(n0.norm_sq());
    lemma_isqrt_unique(n0.norm_sq(), sqrt_floor(n0.norm_sq()), radius as int);
    assert(radius * one == one * (radius as int)) by (nonlinear_arith);
    crate::fixed::lemma_divf_exact(one, radius as int);
    assert((n0.x as int) * one == one * (radius as int)) by (nonlinear_arith)
        requires n0.x == radius;
    assert(divf(n0.x * one, radius as int) == one);
    assert(divf(0 * one, radius as int) == 0) by {
        assert(0 * one == 0 * (radius as int)) by (nonlinear_arith);
        crate::fixed::lemma_divf_exact(0, radius as int);
    }
    assert(n0.normalize_spec() == (Vec3 { x: ONE, y: 0i64, z: 0i64 }));
}

} // verus!
