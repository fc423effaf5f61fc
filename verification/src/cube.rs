//! Axis-aligned cubes and their slab-method ray intersection.

use vstd::prelude::*;
use crate::fixed::{
    ONE, divf, fx_mul, abs_spec, clamp_spec, div_floor128, fxmul, clampi, lemma_divf_bound,
    lemma_divf_range,
};
use crate::vec3::Vec3;
use crate::vec3::Vec2;
use crate::material::Material;
use crate::light::POS_LIM;
use crate::ray_intersect::{Intersect, RayIntersect, DIR_LIM, ORIGIN_LIM, DIST_LIM};

verus! {

/// Sentinel standing in for an unconstrained slab bound (2^62): far beyond
/// every representable hit distance.
pub const T_SENTINEL: i64 = 0x4000_0000_0000_0000i64;

/// An axis-aligned cube: center, uniform edge length, and its material.
#[derive(Clone, Copy, Debug)]
pub struct Cube {
    pub center: Vec3,
    pub size: i64,
    pub material: Material,
}

/// Whether the axis constrains the ray at all: a ray running parallel to
/// the slab (zero direction component) must start between the two planes.
pub open spec fn slab_ok(mn: int, mx: int, o: int, d: int) -> bool {
    d != 0 || (mn <= o && o <= mx)
}

/// The entry distance of the axis slab, or the negative sentinel when the
/// axis is unconstrained.
pub open spec fn slab_lo(mn: int, mx: int, o: int, d: int) -> int {
    if d == 0 {
        -(T_SENTINEL as int)
    } else {
        let t1 = divf((mn - o) * (ONE as int), d);
        let t2 = divf((mx - o) * (ONE as int), d);
        if t1 <= t2 {
            t1
        } else {
            t2
        }
    }
}

/// The exit distance of the axis slab, or the positive sentinel when the
/// axis is unconstrained.
pub open spec fn slab_hi(mn: int, mx: int, o: int, d: int) -> int {
    if d == 0 {
        T_SENTINEL as int
    } else {
        let t1 = divf((mn - o) * (ONE as int), d);
        let t2 = divf((mx - o) * (ONE as int), d);
        if t1 <= t2 {
            t2
        } else {
            t1
        }
    }
}

/// A local face coordinate remapped to a UV component: shifted by the half
/// size, divided by the size, and clamped into `[0, ONE]`.
pub open spec fn uv_coord(c: int, half: int, size: int) -> int {
    clamp_spec(divf((c + half) * (ONE as int), size), 0, ONE as int)
}

impl Cube {
    /// The exact hit record `ray_intersect` returns: the slab method per
    /// axis, a reject when the per-axis intervals are disjoint, when the
    /// entry distance is negative (origin past or inside the cube), or
    /// when it lies beyond `DIST_LIM`; otherwise the entry point, with the
    /// face of the largest local coordinate giving normal and UV.
    pub open spec fn hit_model(self, o: Vec3, d: Vec3) -> Intersect {
        let half = divf(self.size as int, 2);
        let lox = slab_lo(self.center.x - half, self.center.x + half, o.x as int, d.x as int);
        let loy = slab_lo(self.center.y - half, self.center.y + half, o.y as int, d.y as int);
        let loz = slab_lo(self.center.z - half, self.center.z + half, o.z as int, d.z as int);
        let hix = slab_hi(self.center.x - half, self.center.x + half, o.x as int, d.x as int);
        let hiy = slab_hi(self.center.y - half, self.center.y + half, o.y as int, d.y as int);
        let hiz = slab_hi(self.center.z - half, self.center.z + half, o.z as int, d.z as int);
        let ok = slab_ok(self.center.x - half, self.center.x + half, o.x as int, d.x as int)
            && slab_ok(self.center.y - half, self.center.y + half, o.y as int, d.y as int)
            && slab_ok(self.center.z - half, self.center.z + half, o.z as int, d.z as int);
        let tmin = if lox >= loy && lox >= loz { lox } else if loy >= loz { loy } else { loz };
        let tmax = if hix <= hiy && hix <= hiz { hix } else if hiy <= hiz { hiy } else { hiz };
        if !ok || tmin > tmax || tmin < 0 || tmin > DIST_LIM as int {
            Intersect::empty_spec()
        } else {
            let px = o.x + fx_mul(d.x as int, tmin);
            let py = o.y + fx_mul(d.y as int, tmin);
            let pz = o.z + fx_mul(d.z as int, tmin);
            let lx = px - self.center.x;
            let ly = py - self.center.y;
            let lz = pz - self.center.z;
            let (normal, uv) = self.face_model(lx, ly, lz, half);
            Intersect {
                material: self.material,
                distance: tmin as i64,
                is_intersecting: true,
                normal,
                point: (Vec3 { x: px as i64, y: py as i64, z: pz as i64 }),
                uv: Some(uv),
            }
        }
    }

    /// Normal and UV of the struck face: the axis with the strictly largest
    /// absolute local coordinate wins (X over Y over Z on ties), its sign
    /// giving the outward normal, the other two axes giving the UV with the
    /// sign flips that keep textures upright and unmirrored.
    pub open spec fn face_model(self, lx: int, ly: int, lz: int, half: int) -> (Vec3, Vec2) {
        let sz = self.size as int;
        if abs_spec(lx) > abs_spec(ly) && abs_spec(lx) > abs_spec(lz) {
            (
                (Vec3 { x: if lx >= 0 { ONE } else { (-ONE) as i64 }, y: 0i64, z: 0i64 }),
                (Vec2 {
                    x: uv_coord(if lx >= 0 { lz } else { -lz }, half, sz) as i64,
                    y: uv_coord(ly, half, sz) as i64,
                }),
            )
        } else if abs_spec(ly) > abs_spec(lz) {
            (
                (Vec3 { x: 0i64, y: if ly >= 0 { ONE } else { (-ONE) as i64 }, z: 0i64 }),
                (Vec2 {
                    x: uv_coord(lx, half, sz) as i64,
                    y: uv_coord(if ly >= 0 { -lz } else { lz }, half, sz) as i64,
                }),
            )
        } else {
            (
                (Vec3 { x: 0i64, y: 0i64, z: if lz >= 0 { ONE } else { (-ONE) as i64 } }),
                (Vec2 {
                    x: uv_coord(if lz >= 0 { -lx } else { lx }, half, sz) as i64,
                    y: uv_coord(ly, half, sz) as i64,
                }),
            )
        }
    }
}

/// The executable slab bounds for one axis, exactly `slab_lo` / `slab_hi`.
fn slab_bounds(mn: i64, mx: i64, o: i64, d: i64) -> (r: (i64, i64))
    requires
        -0x3_0000_0000 <= mn <= 0x3_0000_0000,
        -0x3_0000_0000 <= mx <= 0x3_0000_0000,
        -ORIGIN_LIM <= o <= ORIGIN_LIM,
        -DIR_LIM <= d <= DIR_LIM,
    ensures
        r.0 == slab_lo(mn as int, mx as int, o as int, d as int),
        r.1 == slab_hi(mn as int, mx as int, o as int, d as int),
{
    if d == 0 {
        (-T_SENTINEL, T_SENTINEL)
    } else {
        proof {
            assert(-0x13_0000_0000 * 65536 <= ((mn - o) as int) * 65536
                && ((mn - o) as int) * 65536 <= 0x13_0000_0000 * 65536
                && -0x13_0000_0000 * 65536 <= ((mx - o) as int) * 65536
                && ((mx - o) as int) * 65536 <= 0x13_0000_0000 * 65536) by (nonlinear_arith)
                requires
                    -0x13_0000_0000 <= (mn - o) as int <= 0x13_0000_0000,
                    -0x13_0000_0000 <= (mx - o) as int <= 0x13_0000_0000;
        }
        let t1: i128 = div_floor128(((mn - o) as i128) * (ONE as i128), d as i128);
        let t2: i128 = div_floor128(((mx - o) as i128) * (ONE as i128), d as i128);
        proof {
            lemma_divf_abs_by_any((mn - o) as int * ONE as int, d as int);
            lemma_divf_abs_by_any((mx - o) as int * ONE as int, d as int);
        }
        if t1 <= t2 {
            (t1 as i64, t2 as i64)
        } else {
            (t2 as i64, t1 as i64)
        }
    }
}

/// Floor division by any nonzero divisor has magnitude at most the dividend's.
proof fn lemma_divf_abs_by_any(n: int, d: int)
    requires
        d != 0,
    ensures
        abs_spec(divf(n, d)) <= abs_spec(n),
{
    if d > 0 {
        lemma_divf_bound(n, d);
    } else {
        lemma_divf_bound(-n, -d);
    }
}

impl RayIntersect for Cube {
    /// Center within scene range, edge length positive and in range, and a
    /// well-formed material.
    open spec fn shape_wf(&self) -> bool {
        &&& self.center.in_range(POS_LIM as int)
        &&& 1 <= self.size <= POS_LIM
        &&& self.material.wf()
    }

    open spec fn hit_spec(&self, ray_origin: Vec3, ray_direction: Vec3) -> Intersect {
        self.hit_model(ray_origin, ray_direction)
    }

    fn ray_intersect(&self, ray_origin: &Vec3, ray_direction: &Vec3) -> (r: Intersect) {
        let half: i64 = ((self.size as u64) / 2) as i64;
        proof {
            assert(half as int == divf(self.size as int, 2));
        }
        let o = *ray_origin;
        let d = *ray_direction;
        let (lox, hix) = slab_bounds(self.center.x - half, self.center.x + half, o.x, d.x);
        let (loy, hiy) = slab_bounds(self.center.y - half, self.center.y + half, o.y, d.y);
        let (loz, hiz) = slab_bounds(self.center.z - half, self.center.z + half, o.z, d.z);
        let ok_x = d.x != 0 || (self.center.x - half <= o.x && o.x <= self.center.x + half);
        let ok_y = d.y != 0 || (self.center.y - half <= o.y && o.y <= self.center.y + half);
        let ok_z = d.z != 0 || (self.center.z - half <= o.z && o.z <= self.center.z + half);
        let tmin: i64 = if lox >= loy && lox >= loz {
            lox
        } else if loy >= loz {
            loy
        } else {
            loz
        };
        let tmax: i64 = if hix <= hiy && hix <= hiz {
            hix
        } else if hiy <= hiz {
            hiy
        } else {
            hiz
        };
        if !(ok_x && ok_y && ok_z) || tmin > tmax || tmin < 0 || tmin > DIST_LIM {
            return Intersect::empty();
        }
        proof {
            lemma_hit_step_bounds(d.x as int, tmin as int);
            lemma_hit_step_bounds(d.y as int, tmin as int);
            lemma_hit_step_bounds(d.z as int, tmin as int);
        }
        let px: i64 = o.x + fxmul(d.x, tmin);
        let py: i64 = o.y + fxmul(d.y, tmin);
        let pz: i64 = o.z + fxmul(d.z, tmin);
        let lx: i64 = px - self.center.x;
        let ly: i64 = py - self.center.y;
        let lz: i64 = pz - self.center.z;
        let ax: i64 = if lx >= 0 { lx } else { -lx };
        let ay: i64 = if ly >= 0 { ly } else { -ly };
        let az: i64 = if lz >= 0 { lz } else { -lz };
        let (normal, uv): (Vec3, Vec2) = if ax > ay && ax > az {
            let ns: i64 = if lx >= 0 { ONE } else { -ONE };
            let cu: i64 = if lx >= 0 { lz } else { -lz };
            let n = Vec3 { x: ns, y: 0, z: 0 };
            let u: i64 = uv_coord_exec(cu, half, self.size);
            let v: i64 = uv_coord_exec(ly, half, self.size);
            (n, Vec2 { x: u, y: v })
        } else if ay > az {
            let ns: i64 = if ly >= 0 { ONE } else { -ONE };
            let cv: i64 = if ly >= 0 { -lz } else { lz };
            let n = Vec3 { x: 0, y: ns, z: 0 };
            let u: i64 = uv_coord_exec(lx, half, self.size);
            let v: i64 = uv_coord_exec(cv, half, self.size);
            (n, Vec2 { x: u, y: v })
        } else {
            let ns: i64 = if lz >= 0 { ONE } else { -ONE };
            let cu: i64 = if lz >= 0 { -lx } else { lx };
            let n = Vec3 { x: 0, y: 0, z: ns };
            let u: i64 = uv_coord_exec(cu, half, self.size);
            let v: i64 = uv_coord_exec(ly, half, self.size);
            (n, Vec2 { x: u, y: v })
        };
        Intersect {
            material: self.material,
            distance: tmin,
            is_intersecting: true,
            normal,
            point: Vec3 { x: px, y: py, z: pz },
            uv: Some(uv),
        }
    }
}

/// A direction component scaled by an accepted hit distance stays small.
pub proof fn lemma_hit_step_bounds(d: int, t: int)
    requires
        -(DIR_LIM as int) <= d <= DIR_LIM as int,
        0 <= t <= DIST_LIM as int,
    ensures
        -0x4_0000_0000 <= fx_mul(d, t) <= 0x4_0000_0000,
{
    assert(-(0x4_0000_0000 * ONE as int) <= d * t <= 0x4_0000_0000 * ONE as int)
        by (nonlinear_arith)
        requires -0x4_0000 <= d <= 0x4_0000, 0 <= t <= 0x1_0000_0000;
    lemma_divf_range(d * t, ONE as int, 0x4_0000_0000);
}

/// The executable UV remap, exactly `uv_coord`.
fn uv_coord_exec(c: i64, half: i64, size: i64) -> (r: i64)
    requires
        1 <= size <= POS_LIM,
        0 <= half <= POS_LIM,
        -0x20_0000_0000 <= c <= 0x20_0000_0000,
    ensures
        r == uv_coord(c as int, half as int, size as int),
        0 <= r <= ONE,
{
    proof {
        assert(-0x21_0000_0000 * 65536 <= ((c + half) as int) * 65536
            && ((c + half) as int) * 65536 <= 0x21_0000_0000 * 65536) by (nonlinear_arith)
            requires -0x21_0000_0000 <= (c + half) as int <= 0x21_0000_0000;
    }
    let q: i128 = div_floor128(((c as i128) + (half as i128)) * (ONE as i128), size as i128);
    proof {
        lemma_divf_bound(((c + half) as int) * (ONE as int), size as int);
    }
    clampi(q as i64, 0, ONE)
}


/// A ray fired along −X at the +X face of a cube of edge 2 centered at
/// the origin strikes that face: the hit comes at the face plane with
/// normal exactly (+1, 0, 0) and UV coordinates within the unit square.
pub proof fn lemma_cube_px_face(material: Material, ox: i64, oy: i64, oz: i64)
    requires
        ONE < ox <= DIST_LIM,
        -ONE < oy && oy < ONE,
        -ONE < oz && oz < ONE,
    ensures
        ({
            let cube = (Cube {
                center: (Vec3 { x: 0i64, y: 0i64, z: 0i64 }),
                size: (2 * ONE) as i64,
                material,
            });
            let hit = cube.hit_model((Vec3 { x: ox, y: oy, z: oz }),
                (Vec3 { x: (-(ONE as int)) as i64, y: 0i64, z: 0i64 }));
            &&& hit.is_intersecting
            &&& hit.distance == ox - ONE
            &&& hit.normal == (Vec3 { x: ONE, y: 0i64, z: 0i64 })
            &&& hit.material == material
            &&& match hit.uv {
                Some(uv) => 0 <= uv.x <= ONE && 0 <= uv.y <= ONE,
                None => false,
            }
        }),
{
    let cube = Cube { center: Vec3 { x: 0i64, y: 0i64, z: 0i64 }, size: (2 * ONE) as i64, material };
    let o = Vec3 { x: ox, y: oy, z: oz };
    let d = Vec3 { x: (-(ONE as int)) as i64, y: 0i64, z: 0i64 };
    let one = ONE as int;
    let half = divf(cube.size as int, 2);
    assert((2 * one) == one * 2 && one * 2 == 2 * one) by (nonlinear_arith);
    crate::fixed::lemma_divf_exact(one, 2);
    assert(half == one);
    // The X slab: entry at ox - ONE, exit at ox + ONE, both exact since
    // the direction component is exactly -ONE.
    assert((-one - ox) * one == -((one + ox) * one) && (one - ox) * one
        == -((ox - one) * one)) by (nonlinear_arith);
    crate::fixed::lemma_divf_exact(one + ox as int, one);
    crate::fixed::lemma_divf_exact(ox as int - one, one);
    assert(divf((-half - ox) * one, d.x as int) == one + ox);
    assert(divf((half - ox) * one, d.x as int) == ox - one);
    assert(slab_lo(-half, half, ox as int, d.x as int) == ox - one);
    assert(slab_hi(-half, half, ox as int, d.x as int) == ox + one);
    // The Y and Z slabs are unconstrained: the origin sits between the
    // planes and the direction components are zero.
    assert(slab_ok(-half, half, oy as int, 0));
    assert(slab_ok(-half, half, oz as int, 0));
    assert(slab_lo(-half, half, oy as int, 0) == -(T_SENTINEL as int));
    let tmin = ox as int - one;
    let hit = cube.hit_model(o, d);
    assert(0 < tmin <= DIST_LIM);
    // The hit point lands exactly on the face plane.
    assert(d.x * tmin == -(tmin * one) && 0 * tmin == 0) by (nonlinear_arith)
        requires d.x == -one;
    crate::fixed::lemma_divf_exact(-tmin, one);
    assert(fx_mul(d.x as int, tmin) == -tmin);
    assert(fx_mul(0, tmin) == 0) by {
        assert(0 * tmin == 0) by (nonlinear_arith);
        assert(divf(0, one) == 0);
    }
    assert(hit.point == (Vec3 { x: ONE, y: oy, z: oz }));
    assert(abs_spec(one) > abs_spec(oy as int) && abs_spec(one) > abs_spec(oz as int));
}

} // verus!
