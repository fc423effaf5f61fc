//! The orbital camera: an eye/center/up frame with a derived right-handed
//! orthonormal-by-construction basis, spherical orbiting around the center
//! with the pitch clamped away from the poles, and the camera-to-world
//! basis transform.

use vstd::prelude::*;
use crate::fixed::{
    ONE, divf, fx_mul, clamp_spec, abs_spec, fxmul, clampi, lemma_divf_range,
    lemma_fx_mul_range, lemma_fx_mul_unit, lemma_isqrt_at_least,
};
use crate::vec3::{Vec3, sqrt_floor, lemma_sqrt_floor};
use crate::light::POS_LIM;
use crate::trig::{
    sin_spec, cos_spec, atan2_spec, asin_spec, sin_fx, cos_fx, atan2_fx, asin_fx, TWO_PI_FX,
};

verus! {

/// The pitch clamp bound: 1.5 radians exactly, at the fixed scale.
pub const PITCH_LIMIT_FX: i64 = 98304;

/// An orbital camera. `forward`, `right` and `up` are recomputed from
/// `eye`, `center` and the previous `up` whenever the eye moves.
#[derive(Clone, Copy, Debug)]
pub struct Camera {
    pub eye: Vec3,
    pub center: Vec3,
    pub up: Vec3,
    pub forward: Vec3,
    pub right: Vec3,
}

/// The forward basis vector derived from an eye/center pair.
pub open spec fn forward_spec(eye: Vec3, center: Vec3) -> Vec3 {
    center.sub_spec(eye).normalize_spec()
}

/// The right basis vector derived from an eye/center pair and the
/// previous up vector.
pub open spec fn right_spec(eye: Vec3, center: Vec3, up: Vec3) -> Vec3 {
    forward_spec(eye, center).cross_spec(up).normalize_spec()
}

/// The re-orthogonalized up vector: the (unnormalized) cross of the new
/// right and forward vectors.
pub open spec fn up_spec(eye: Vec3, center: Vec3, up: Vec3) -> Vec3 {
    right_spec(eye, center, up).cross_spec(forward_spec(eye, center))
}

/// The pitch angle an orbit call moves to: the current pitch of the
/// eye-center offset plus the delta, clamped into
/// `[-PITCH_LIMIT_FX, PITCH_LIMIT_FX]`.
pub open spec fn orbit_pitch_spec(eye: Vec3, center: Vec3, pitch: int) -> int {
    let rel = eye.sub_spec(center);
    let radius = sqrt_floor(rel.norm_sq());
    clamp_spec(asin_spec(rel.y as int, radius) + pitch, -(PITCH_LIMIT_FX as int),
        PITCH_LIMIT_FX as int)
}

/// The yaw angle an orbit call moves to: the current yaw plus the delta.
pub open spec fn orbit_yaw_spec(eye: Vec3, center: Vec3, yaw: int) -> int {
    let rel = eye.sub_spec(center);
    atan2_spec(rel.z as int, rel.x as int) + yaw
}

/// The eye position an orbit call moves to: the center plus the orbit
/// radius rebuilt along the new yaw/pitch direction.
pub open spec fn orbit_eye_spec(eye: Vec3, center: Vec3, yaw: int, pitch: int) -> Vec3 {
    let rel = eye.sub_spec(center);
    let radius = sqrt_floor(rel.norm_sq());
    let ny = orbit_yaw_spec(eye, center, yaw);
    let np = orbit_pitch_spec(eye, center, pitch);
    center.add_spec(
        Vec3 {
            x: fx_mul(radius, fx_mul(cos_spec(np), cos_spec(ny))) as i64,
            y: fx_mul(radius, sin_spec(np)) as i64,
            z: fx_mul(radius, fx_mul(cos_spec(np), sin_spec(ny))) as i64,
        },
    )
}

impl Camera {
    /// Eye and center within scene range, and a basis within its derived
    /// bounds.
    pub open spec fn wf(self) -> bool {
        &&& self.eye.in_range(POS_LIM as int)
        &&& self.center.in_range(POS_LIM as int)
        &&& self.up.in_range(2 * ONE as int)
        &&& self.forward.in_range(2 * ONE as int)
        &&& self.right.in_range(2 * ONE as int)
    }

    /// Builds the camera and derives its basis; the supplied up vector
    /// need not be orthogonal to the view direction, since it is
    /// re-orthogonalized.
    pub fn new(eye: Vec3, center: Vec3, up: Vec3) -> (c: Camera)
        requires
            eye.in_range(POS_LIM as int),
            center.in_range(POS_LIM as int),
            up.in_range(POS_LIM as int),
        ensures
            c.eye == eye,
            c.center == center,
            c.forward == forward_spec(eye, center),
            c.right == right_spec(eye, center, up),
            c.up == up_spec(eye, center, up),
            c.wf(),
    {
        let mut camera = Camera {
            eye,
            center,
            up,
            forward: Vec3 { x: 0, y: 0, z: 0 },
            right: Vec3 { x: 0, y: 0, z: 0 },
        };
        camera.update_basis_vectors();
        camera
    }

    /// Recomputes the right-handed basis from the current eye, center and
    /// up: forward toward the center, right by cross with the old up,
    /// up re-orthogonalized as `right × forward`.
    pub fn update_basis_vectors(&mut self)
        requires
            old(self).eye.in_range(POS_LIM as int),
            old(self).center.in_range(POS_LIM as int),
            old(self).up.in_range(POS_LIM as int),
        ensures
            final(self).eye == old(self).eye,
            final(self).center == old(self).center,
            final(self).forward == forward_spec(old(self).eye, old(self).center),
            final(self).right == right_spec(old(self).eye, old(self).center, old(self).up),
            final(self).up == up_spec(old(self).eye, old(self).center, old(self).up),
            final(self).forward.in_range(ONE as int),
            final(self).right.in_range(ONE as int),
            final(self).up.in_range(2 * ONE as int),
            final(self).wf(),
    {
        self.forward = self.center.sub(self.eye).normalize();
        proof {
            lemma_cross_range(self.forward, self.up, ONE as int, POS_LIM as int);
        }
        self.right = self.forward.cross(self.up).normalize();
        proof {
            lemma_cross_unit_range(self.right, self.forward);
        }
        self.up = self.right.cross(self.forward);
    }

    /// Moves the eye around the center on the sphere of the current orbit
    /// radius: spherical yaw/pitch are read off the eye-center offset, the
    /// deltas are added, the pitch is clamped into
    /// `[-PITCH_LIMIT_FX, PITCH_LIMIT_FX]`, and the eye is rebuilt at the
    /// same radius before the basis is recomputed. A camera already at its
    /// center, or a rebuilt eye outside the scene range (possible only at
    /// the coordinate limit), leaves the camera unchanged.
    pub fn orbit(&mut self, yaw: i64, pitch: i64)
        requires
            old(self).wf(),
            -TWO_PI_FX <= yaw <= TWO_PI_FX,
            -TWO_PI_FX <= pitch <= TWO_PI_FX,
        ensures
            final(self).center == old(self).center,
            final(self).wf(),
            old(self).eye == old(self).center ==> *final(self) == *old(self),
            old(self).eye != old(self).center ==> {
                let neye = orbit_eye_spec(old(self).eye, old(self).center, yaw as int,
                    pitch as int);
                if neye.in_range(POS_LIM as int) {
                    &&& final(self).eye == neye
                    &&& final(self).forward == forward_spec(neye, old(self).center)
                    &&& final(self).right == right_spec(neye, old(self).center, old(self).up)
                    &&& final(self).up == up_spec(neye, old(self).center, old(self).up)
                } else {
                    *final(self) == *old(self)
                }
            },
            old(self).eye != old(self).center ==> {
                let rel = old(self).eye.sub_spec(old(self).center);
                let radius = sqrt_floor(rel.norm_sq());
                let off = orbit_eye_spec(old(self).eye, old(self).center, yaw as int,
                    pitch as int).sub_spec(old(self).center);
                abs_spec(off.x as int) <= radius && abs_spec(off.y as int) <= radius
                    && abs_spec(off.z as int) <= radius
            },
    {
        let rel: Vec3 = self.eye.sub(self.center);
        proof {
            assert(rel.x * rel.x >= 0 && rel.y * rel.y >= 0 && rel.z * rel.z >= 0
                && (rel.x == 0 && rel.y == 0 && rel.z == 0 ==> rel.norm_sq() == 0)
                && (rel.norm_sq() == 0 ==> rel.x * rel.x == 0)
                && (rel.x * rel.x == 0 ==> rel.x == 0)
                && (rel.y * rel.y == 0 ==> rel.y == 0)
                && (rel.z * rel.z == 0 ==> rel.z == 0)) by (nonlinear_arith);
        }
        let radius: i64 = rel.length();
        if radius == 0 {
            proof {
                lemma_sqrt_floor(rel.norm_sq());
                assert(rel.norm_sq() < 1);
            }
            return;
        }
        proof {
            lemma_sqrt_floor(rel.norm_sq());
            lemma_isqrt_at_least(rel.norm_sq(), radius as int, rel.y as int);
            assert(rel.norm_sq() <= 0xC_0000_0000_0000_0000) by (nonlinear_arith)
                requires
                    -0x2_0000_0000 <= rel.x <= 0x2_0000_0000,
                    -0x2_0000_0000 <= rel.y <= 0x2_0000_0000,
                    -0x2_0000_0000 <= rel.z <= 0x2_0000_0000;
            assert((radius as int) <= 0x8_0000_0000) by (nonlinear_arith)
                requires
                    (radius as int) * (radius as int) <= rel.norm_sq(),
                    0 <= radius as int,
                    rel.norm_sq() <= 0xC_0000_0000_0000_0000;
        }
        let cur_yaw: i64 = atan2_fx(rel.z, rel.x);
        let cur_pitch: i64 = asin_fx(rel.y, radius);
        let new_yaw: i64 = cur_yaw + yaw;
        let new_pitch: i64 = clampi(cur_pitch + pitch, -PITCH_LIMIT_FX, PITCH_LIMIT_FX);
        let cos_p: i64 = cos_fx(new_pitch);
        let sin_p: i64 = sin_fx(new_pitch);
        let cos_y: i64 = cos_fx(new_yaw);
        let sin_y: i64 = sin_fx(new_yaw);
        proof {
            lemma_fx_mul_unit(cos_p as int, cos_y as int);
            lemma_fx_mul_unit(cos_p as int, sin_y as int);
            lemma_fx_mul_unit(radius as int, fx_mul(cos_p as int, cos_y as int));
            lemma_fx_mul_unit(radius as int, sin_p as int);
            lemma_fx_mul_unit(radius as int, fx_mul(cos_p as int, sin_y as int));
        }
        let off_x: i64 = fxmul(radius, fxmul(cos_p, cos_y));
        let off_y: i64 = fxmul(radius, sin_p);
        let off_z: i64 = fxmul(radius, fxmul(cos_p, sin_y));
        let neye: Vec3 = self.center.add(Vec3 { x: off_x, y: off_y, z: off_z });
        if neye.x < -POS_LIM || neye.x > POS_LIM || neye.y < -POS_LIM || neye.y > POS_LIM
            || neye.z < -POS_LIM || neye.z > POS_LIM {
            return;
        }
        self.eye = neye;
        self.update_basis_vectors();
    }

    /// The camera-space direction (x right, y up, looking along −z)
    /// expressed in world space: the linear combination of the basis
    /// vectors, not renormalized.
    pub open spec fn basis_change_spec(self, v: Vec3) -> Vec3 {
        Vec3 {
            x: (fx_mul(v.x as int, self.right.x as int) + fx_mul(v.y as int, self.up.x as int)
                - fx_mul(v.z as int, self.forward.x as int)) as i64,
            y: (fx_mul(v.x as int, self.right.y as int) + fx_mul(v.y as int, self.up.y as int)
                - fx_mul(v.z as int, self.forward.y as int)) as i64,
            z: (fx_mul(v.x as int, self.right.z as int) + fx_mul(v.y as int, self.up.z as int)
                - fx_mul(v.z as int, self.forward.z as int)) as i64,
        }
    }

    /// Maps a camera-space direction into world space through the basis.
    /// The input need not be unit length and the output is not
    /// renormalized.
    pub fn basis_change(&self, v: &Vec3) -> (r: Vec3)
        requires
            self.wf(),
            v.in_range(0x40_0000_0000),
        ensures
            r == self.basis_change_spec(*v),
            v.in_range(2 * ONE as int) ==> r.in_range(13 * ONE as int),
    {
        proof {
            lemma_basis_terms(*v, self.right, self.up, self.forward);
            if v.in_range(2 * ONE as int) {
                lemma_unit_basis_terms(*v, self.right, self.up, self.forward);
            }
        }
        let x: i64 = fxmul(v.x, self.right.x) + fxmul(v.y, self.up.x) - fxmul(v.z,
            self.forward.x);
        let y: i64 = fxmul(v.x, self.right.y) + fxmul(v.y, self.up.y) - fxmul(v.z,
            self.forward.y);
        let z: i64 = fxmul(v.x, self.right.z) + fxmul(v.y, self.up.z) - fxmul(v.z,
            self.forward.z);
        Vec3 { x, y, z }
    }
}

/// The cross of two vectors bounded by `ONE` has components within `2·ONE`.
proof fn lemma_cross_unit_range(a: Vec3, b: Vec3)
    requires
        a.in_range(ONE as int),
        b.in_range(ONE as int),
    ensures
        a.cross_spec(b).in_range(2 * ONE as int),
{
    let o = ONE as int;
    assert(-(2 * o) * o <= a.y * b.z - a.z * b.y <= (2 * o) * o
        && -(2 * o) * o <= a.z * b.x - a.x * b.z <= (2 * o) * o
        && -(2 * o) * o <= a.x * b.y - a.y * b.x <= (2 * o) * o) by (nonlinear_arith)
        requires
            -o <= a.x <= o && -o <= a.y <= o && -o <= a.z <= o,
            -o <= b.x <= o && -o <= b.y <= o && -o <= b.z <= o,
            o == 65536;
    lemma_divf_range(a.y * b.z - a.z * b.y, o, 2 * o);
    lemma_divf_range(a.z * b.x - a.x * b.z, o, 2 * o);
    lemma_divf_range(a.x * b.y - a.y * b.x, o, 2 * o);
}

/// Bounds for the nine products of the basis transform.
proof fn lemma_basis_terms(v: Vec3, r: Vec3, u: Vec3, f: Vec3)
    requires
        v.in_range(0x40_0000_0000),
        r.in_range(2 * ONE as int),
        u.in_range(2 * ONE as int),
        f.in_range(2 * ONE as int),
    ensures
        forall|a: int, b: int|
            -0x40_0000_0000 <= a <= 0x40_0000_0000 && -(2 * ONE as int) <= b <= 2 * ONE as int
                ==> -0x80_0000_0001 <= #[trigger] fx_mul(a, b) <= 0x80_0000_0000,
{
    assert forall|a: int, b: int|
        -0x40_0000_0000 <= a <= 0x40_0000_0000 && -(2 * ONE as int) <= b <= 2 * ONE as int
        implies -0x80_0000_0001 <= #[trigger] fx_mul(a, b) <= 0x80_0000_0000
    by {
        lemma_fx_mul_range(a, b, 0x40_0000_0000, 2 * ONE as int);
        assert(0x40_0000_0000 * (2 * ONE as int) == 0x80_0000_0000 * (ONE as int))
            by (nonlinear_arith);
        crate::fixed::lemma_divf_exact(0x80_0000_0000, ONE as int);
    }
}

/// Bounds on the factors bound the components of the fixed-point cross
/// product, one floor step past the scaled product bound.
proof fn lemma_cross_range(a: Vec3, b: Vec3, ba: int, bb: int)
    requires
        a.in_range(ba),
        b.in_range(bb),
        0 <= ba,
        0 <= bb,
    ensures
        a.cross_spec(b).in_range(divf(2 * ba * bb, ONE as int) + 1),
{
    let o = ONE as int;
    let m = 2 * ba * bb;
    assert(-m <= a.y * b.z - a.z * b.y <= m && -m <= a.z * b.x - a.x * b.z <= m
        && -m <= a.x * b.y - a.y * b.x <= m) by (nonlinear_arith)
        requires
            -ba <= a.x <= ba && -ba <= a.y <= ba && -ba <= a.z <= ba,
            -bb <= b.x <= bb && -bb <= b.y <= bb && -bb <= b.z <= bb,
            m == 2 * ba * bb;
    let q = divf(m, o);
    vstd::arithmetic::div_mod::lemma_fundamental_div_mod(m, o);
    vstd::arithmetic::div_mod::lemma_mod_bound(m, o);
    assert((q + 1) * o == o * q + o) by (nonlinear_arith);
    lemma_divf_range(a.y * b.z - a.z * b.y, o, q + 1);
    lemma_divf_range(a.z * b.x - a.x * b.z, o, q + 1);
    lemma_divf_range(a.x * b.y - a.y * b.x, o, q + 1);
}

/// Tighter bounds for the basis-transform products when the input is a
/// (near-)unit camera-space direction.
proof fn lemma_unit_basis_terms(v: Vec3, r: Vec3, u: Vec3, f: Vec3)
    requires
        v.in_range(2 * ONE as int),
        r.in_range(2 * ONE as int),
        u.in_range(2 * ONE as int),
        f.in_range(2 * ONE as int),
    ensures
        forall|a: int, b: int|
            -(2 * ONE as int) <= a <= 2 * ONE as int && -(2 * ONE as int) <= b <= 2 * ONE as int
                ==> -(4 * ONE as int) - 1 <= #[trigger] fx_mul(a, b) <= 4 * ONE as int,
{
    assert forall|a: int, b: int|
        -(2 * ONE as int) <= a <= 2 * ONE as int && -(2 * ONE as int) <= b <= 2 * ONE as int
        implies -(4 * ONE as int) - 1 <= #[trigger] fx_mul(a, b) <= 4 * ONE as int
    by {
        lemma_fx_mul_range(a, b, 2 * ONE as int, 2 * ONE as int);
        assert((2 * ONE as int) * (2 * ONE as int) == (4 * ONE as int) * (ONE as int))
            by (nonlinear_arith);
        crate::fixed::lemma_divf_exact(4 * ONE as int, ONE as int);
    }
}

/// The pitch an orbit call uses never leaves `[-PITCH_LIMIT_FX,
/// PITCH_LIMIT_FX]`, whatever the camera state and however large the
/// requested delta: repeated upward orbits cannot push the camera over
/// the pole.
pub proof fn lemma_orbit_pitch_clamped(eye: Vec3, center: Vec3, pitch: int)
    ensures
        -(PITCH_LIMIT_FX as int) <= orbit_pitch_spec(eye, center, pitch)
            <= PITCH_LIMIT_FX as int,
{
}

} // verus!
