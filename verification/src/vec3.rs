//! Three-component vectors of fixed-point scalars, used for positions,
//! directions and linear-RGB colors, plus the two-component vector used for
//! texture coordinates.
//!
//! Every operation's contract gives the result exactly, over `divf`-style
//! floor arithmetic; `sqrt_floor` is the functional model of the integer
//! square root that lengths and normalization are specified against.

use vstd::prelude::*;
use crate::fixed::{
    ONE, divf, fx_mul, abs_spec, is_isqrt, fxmul, isqrt_u128, div_floor128, DIV_LIM,
    lemma_divf_range, lemma_isqrt_at_least,
};

verus! {

/// Coordinate limit (2^38) under which all vector operations are overflow-free.
pub const VEC_LIM: i64 = 0x40_0000_0000i64;

/// A fixed-point 3-vector; each component stores `value * ONE`.
#[derive(Clone, Copy, Debug, PartialEq, Eq, Structural)]
pub struct Vec3 {
    pub x: i64,
    pub y: i64,
    pub z: i64,
}

/// A fixed-point 2-vector, used for UV texture coordinates.
#[derive(Clone, Copy, Debug, PartialEq, Eq, Structural)]
pub struct Vec2 {
    pub x: i64,
    pub y: i64,
}

/// The floor of the square root of `n` (0 for negative `n`), as a total
/// recursive spec function; `lemma_sqrt_floor` shows it is the integer
/// square root.
pub open spec fn sqrt_floor(n: int) -> int
    decreases n,
{
    if n <= 0 {
        0
    } else {
        let p = sqrt_floor(n - 1);
        if (p + 1) * (p + 1) <= n {
            p + 1
        } else {
            p
        }
    }
}

/// `sqrt_floor` satisfies the integer-square-root characterization.
pub proof fn lemma_sqrt_floor(n: int)
    requires
        n >= 0,
    ensures
        is_isqrt(n, sqrt_floor(n)),
    decreases n,
{
    if n == 0 {
    } else {
        lemma_sqrt_floor(n - 1);
        let p = sqrt_floor(n - 1);
        if (p + 1) * (p + 1) <= n {
            assert(n < ((p + 1) + 1) * ((p + 1) + 1)) by (nonlinear_arith)
                requires p >= 0, n - 1 < (p + 1) * (p + 1);
        }
    }
}

/// Two integer square roots of the same number are equal.
pub proof fn lemma_isqrt_unique(n: int, r1: int, r2: int)
    requires
        is_isqrt(n, r1),
        is_isqrt(n, r2),
    ensures
        r1 == r2,
{
    assert(r1 == r2) by (nonlinear_arith)
        requires
            0 <= r1 && r1 * r1 <= n && n < (r1 + 1) * (r1 + 1),
            0 <= r2 && r2 * r2 <= n && n < (r2 + 1) * (r2 + 1);
}

impl Vec3 {
    /// All components within `[-b, b]`.
    pub open spec fn in_range(self, b: int) -> bool {
        &&& -b <= self.x <= b
        &&& -b <= self.y <= b
        &&& -b <= self.z <= b
    }

    /// Well-formed scene coordinates: within the overflow-free range.
    pub open spec fn wf(self) -> bool {
        self.in_range(VEC_LIM as int)
    }

    /// The componentwise sum, at the spec level.
    pub open spec fn add_spec(self, other: Vec3) -> Vec3 {
        Vec3 {
            x: (self.x + other.x) as i64,
            y: (self.y + other.y) as i64,
            z: (self.z + other.z) as i64,
        }
    }

    /// The componentwise difference, at the spec level.
    pub open spec fn sub_spec(self, other: Vec3) -> Vec3 {
        Vec3 {
            x: (self.x - other.x) as i64,
            y: (self.y - other.y) as i64,
            z: (self.z - other.z) as i64,
        }
    }

    pub fn new(x: i64, y: i64, z: i64) -> (r: Vec3)
        ensures
            r == (Vec3 { x, y, z }),
    {
        Vec3 { x, y, z }
    }

    pub fn zero() -> (r: Vec3)
        ensures
            r == (Vec3 { x: 0i64, y: 0i64, z: 0i64 }),
    {
        Vec3 { x: 0, y: 0, z: 0 }
    }

    /// The componentwise sum.
    pub fn add(self, other: Vec3) -> (r: Vec3)
        requires
            self.in_range(0x3FFF_FFFF_FFFF_FFFF),
            other.in_range(0x3FFF_FFFF_FFFF_FFFF),
        ensures
            r.x == self.x + other.x,
            r.y == self.y + other.y,
            r.z == self.z + other.z,
    {
        Vec3 { x: self.x + other.x, y: self.y + other.y, z: self.z + other.z }
    }

    /// The componentwise difference.
    pub fn sub(self, other: Vec3) -> (r: Vec3)
        requires
            self.in_range(0x3FFF_FFFF_FFFF_FFFF),
            other.in_range(0x3FFF_FFFF_FFFF_FFFF),
        ensures
            r.x == self.x - other.x,
            r.y == self.y - other.y,
            r.z == self.z - other.z,
    {
        Vec3 { x: self.x - other.x, y: self.y - other.y, z: self.z - other.z }
    }

    /// The componentwise negation.
    pub fn neg(self) -> (r: Vec3)
        requires
            self.in_range(i64::MAX as int),
        ensures
            r.x == -self.x,
            r.y == -self.y,
            r.z == -self.z,
    {
        Vec3 { x: -self.x, y: -self.y, z: -self.z }
    }

    /// The vector scaled by the fixed-point factor `s`, each component
    /// floor-rounded.
    pub fn scale(self, s: i64) -> (r: Vec3)
        requires
            self.in_range(VEC_LIM as int),
            -VEC_LIM <= s <= VEC_LIM,
        ensures
            r.x == fx_mul(self.x as int, s as int),
            r.y == fx_mul(self.y as int, s as int),
            r.z == fx_mul(self.z as int, s as int),
    {
        Vec3 { x: fxmul(self.x, s), y: fxmul(self.y, s), z: fxmul(self.z, s) }
    }

    /// The fixed-point dot product: the raw product sum floor-divided by
    /// `ONE` once, at the end.
    pub fn dot(self, other: Vec3) -> (r: i64)
        requires
            self.in_range(VEC_LIM as int),
            other.in_range(VEC_LIM as int),
        ensures
            r == self.dot_spec(other),
    {
        proof {
            lemma_raw_products_bounded(self, other);
        }
        let raw: i128 = (self.x as i128) * (other.x as i128) + (self.y as i128) * (other.y
            as i128) + (self.z as i128) * (other.z as i128);
        let q: i128 = div_floor128(raw, ONE as i128);
        proof {
            lemma_divf_range(raw as int, ONE as int, 0x3000_0000_0000_0000);
        }
        q as i64
    }

    /// The exact value `dot` returns.
    pub open spec fn dot_spec(self, other: Vec3) -> int {
        divf(self.x * other.x + self.y * other.y + self.z * other.z, ONE as int)
    }

    /// The fixed-point cross product, each component's raw difference of
    /// products floor-divided by `ONE`.
    pub fn cross(self, other: Vec3) -> (r: Vec3)
        requires
            self.in_range(VEC_LIM as int),
            other.in_range(VEC_LIM as int),
        ensures
            r == self.cross_spec(other),
    {
        proof {
            lemma_raw_products_bounded(self, other);
            lemma_raw_products_bounded(other, self);
        }
        let cx: i128 = div_floor128(
            (self.y as i128) * (other.z as i128) - (self.z as i128) * (other.y as i128),
            ONE as i128,
        );
        let cy: i128 = div_floor128(
            (self.z as i128) * (other.x as i128) - (self.x as i128) * (other.z as i128),
            ONE as i128,
        );
        let cz: i128 = div_floor128(
            (self.x as i128) * (other.y as i128) - (self.y as i128) * (other.x as i128),
            ONE as i128,
        );
        proof {
            lemma_divf_range(
                (self.y * other.z - self.z * other.y) as int, ONE as int, 0x2000_0000_0000_0000);
            lemma_divf_range(
                (self.z * other.x - self.x * other.z) as int, ONE as int, 0x2000_0000_0000_0000);
            lemma_divf_range(
                (self.x * other.y - self.y * other.x) as int, ONE as int, 0x2000_0000_0000_0000);
        }
        Vec3 { x: cx as i64, y: cy as i64, z: cz as i64 }
    }

    /// The exact value `cross` returns.
    pub open spec fn cross_spec(self, other: Vec3) -> Vec3 {
        Vec3 {
            x: divf(self.y * other.z - self.z * other.y, ONE as int) as i64,
            y: divf(self.z * other.x - self.x * other.z, ONE as int) as i64,
            z: divf(self.x * other.y - self.y * other.x, ONE as int) as i64,
        }
    }

    /// The raw (unscaled) squared norm `x*x + y*y + z*z`.
    pub open spec fn norm_sq(self) -> int {
        self.x * self.x + self.y * self.y + self.z * self.z
    }

    /// The fixed-point length: the integer square root of the raw squared
    /// norm, which is the Euclidean length at the same `ONE` scale.
    pub fn length(self) -> (r: i64)
        requires
            self.in_range(VEC_LIM as int),
        ensures
            r == sqrt_floor(self.norm_sq()),
            0 <= r <= 0x80_0000_0000i64,
    {
        proof {
            lemma_raw_products_bounded(self, self);
            assert(self.norm_sq() >= 0) by (nonlinear_arith);
        }
        let raw: i128 = (self.x as i128) * (self.x as i128) + (self.y as i128) * (self.y
            as i128) + (self.z as i128) * (self.z as i128);
        let r: u128 = isqrt_u128(raw as u128);
        proof {
            lemma_sqrt_floor(self.norm_sq());
            lemma_isqrt_unique(self.norm_sq(), r as int, sqrt_floor(self.norm_sq()));
            assert((r as int) <= 0x80_0000_0000) by (nonlinear_arith)
                requires
                    (r as int) * (r as int) <= (raw as int),
                    0 <= (r as int),
                    (raw as int) <= 0x3000_0000_0000_0000_0000;
        }
        r as i64
    }

    /// The exact value `normalize` returns: zero when the length floors to
    /// zero, otherwise each component times `ONE` floor-divided by the length.
    pub open spec fn normalize_spec(self) -> Vec3 {
        let len = sqrt_floor(self.norm_sq());
        if len == 0 {
            Vec3 { x: 0i64, y: 0i64, z: 0i64 }
        } else {
            Vec3 {
                x: divf(self.x * (ONE as int), len) as i64,
                y: divf(self.y * (ONE as int), len) as i64,
                z: divf(self.z * (ONE as int), len) as i64,
            }
        }
    }

    /// Scales the vector to (floor-rounded) unit length; the zero vector
    /// stays zero. Every result component lies in `[-ONE, ONE]`.
    pub fn normalize(self) -> (r: Vec3)
        requires
            self.in_range(VEC_LIM as int),
        ensures
            r == self.normalize_spec(),
            r.in_range(ONE as int),
    {
        let len: i64 = self.length();
        if len == 0 {
            Vec3 { x: 0, y: 0, z: 0 }
        } else {
            proof {
                assert(self.x * self.x >= 0 && self.y * self.y >= 0 && self.z * self.z >= 0)
                    by (nonlinear_arith);
                lemma_sqrt_floor(self.norm_sq());
                lemma_normalize_component(self.x as int, self.norm_sq(), len as int);
                lemma_normalize_component(self.y as int, self.norm_sq(), len as int);
                lemma_normalize_component(self.z as int, self.norm_sq(), len as int);
            }
            let rx: i128 = div_floor128((self.x as i128) * (ONE as i128), len as i128);
            let ry: i128 = div_floor128((self.y as i128) * (ONE as i128), len as i128);
            let rz: i128 = div_floor128((self.z as i128) * (ONE as i128), len as i128);
            Vec3 { x: rx as i64, y: ry as i64, z: rz as i64 }
        }
    }
}

/// Raw component products of vectors within `VEC_LIM` stay well inside `i128`.
proof fn lemma_raw_products_bounded(a: Vec3, b: Vec3)
    requires
        a.in_range(VEC_LIM as int),
        b.in_range(VEC_LIM as int),
    ensures
        -0x1000_0000_0000_0000_0000 <= a.x * b.x <= 0x1000_0000_0000_0000_0000,
        -0x1000_0000_0000_0000_0000 <= a.y * b.y <= 0x1000_0000_0000_0000_0000,
        -0x1000_0000_0000_0000_0000 <= a.z * b.z <= 0x1000_0000_0000_0000_0000,
        -0x1000_0000_0000_0000_0000 <= a.y * b.z <= 0x1000_0000_0000_0000_0000,
        -0x1000_0000_0000_0000_0000 <= a.z * b.y <= 0x1000_0000_0000_0000_0000,
        -0x1000_0000_0000_0000_0000 <= a.z * b.x <= 0x1000_0000_0000_0000_0000,
        -0x1000_0000_0000_0000_0000 <= a.x * b.z <= 0x1000_0000_0000_0000_0000,
        -0x1000_0000_0000_0000_0000 <= a.x * b.y <= 0x1000_0000_0000_0000_0000,
        -0x1000_0000_0000_0000_0000 <= a.y * b.x <= 0x1000_0000_0000_0000_0000,
{
    assert forall|p: int, q: int|
        -0x40_0000_0000 <= p <= 0x40_0000_0000 && -0x40_0000_0000 <= q <= 0x40_0000_0000
        implies -0x1000_0000_0000_0000_0000 <= #[trigger] (p * q) <= 0x1000_0000_0000_0000_0000
    by {
        assert(-0x1000_0000_0000_0000_0000 <= p * q <= 0x1000_0000_0000_0000_0000)
            by (nonlinear_arith)
            requires -0x40_0000_0000 <= p <= 0x40_0000_0000, -0x40_0000_0000 <= q <= 0x40_0000_0000;
    }
}

/// A component of a vector divided by the vector's length stays within `ONE`.
proof fn lemma_normalize_component(c: int, n: int, len: int)
    requires
        c * c <= n,
        is_isqrt(n, len),
        1 <= len <= 0x80_0000_0000,
    ensures
        -(ONE as int) <= divf(c * (ONE as int), len) <= ONE as int,
        -DIV_LIM <= c * (ONE as int) <= DIV_LIM,
{
    lemma_isqrt_at_least(n, len, c);
    assert(-(ONE as int) * len <= c * (ONE as int) <= (ONE as int) * len
        && (ONE as int) * len == len * (ONE as int)
        && -DIV_LIM <= c * (ONE as int) <= DIV_LIM) by (nonlinear_arith)
        requires -len <= c <= len, len >= 1, len < 0x1_0000_0000_0000_0000;
    lemma_divf_range(c * (ONE as int), len, ONE as int);
}

/// Bounds on two vectors bound their fixed-point dot product, up to one
/// floor step.
pub proof fn lemma_dot_range(a: Vec3, b: Vec3, ba: int, bb: int)
    requires
        a.in_range(ba),
        b.in_range(bb),
        0 <= ba,
        0 <= bb,
    ensures
        -(divf(3 * ba * bb, ONE as int)) - 1 <= a.dot_spec(b) <= divf(3 * ba * bb, ONE as int),
{
    let o = ONE as int;
    let m = 3 * ba * bb;
    assert(-m <= a.x * b.x + a.y * b.y + a.z * b.z <= m) by (nonlinear_arith)
        requires
            -ba <= a.x <= ba && -ba <= a.y <= ba && -ba <= a.z <= ba,
            -bb <= b.x <= bb && -bb <= b.y <= bb && -bb <= b.z <= bb,
            m == 3 * ba * bb;
    let q = divf(m, o);
    vstd::arithmetic::div_mod::lemma_fundamental_div_mod(m, o);
    vstd::arithmetic::div_mod::lemma_mod_bound(m, o);
    assert((q + 1) * o == o * q + o) by (nonlinear_arith);
    crate::fixed::lemma_divf_range(a.x * b.x + a.y * b.y + a.z * b.z, o, q + 1);
}

/// The raw cross product of two integer vectors is exactly orthogonal to
/// both factors: the algebraic identity behind the camera's basis
/// construction, before any fixed-point rounding.
pub proof fn lemma_cross_raw_orthogonal(a: Vec3, b: Vec3)
    ensures
        (a.y * b.z - a.z * b.y) * a.x + (a.z * b.x - a.x * b.z) * a.y
            + (a.x * b.y - a.y * b.x) * a.z == 0,
        (a.y * b.z - a.z * b.y) * b.x + (a.z * b.x - a.x * b.z) * b.y
            + (a.x * b.y - a.y * b.x) * b.z == 0,
{
    assert((a.y * b.z - a.z * b.y) * a.x + (a.z * b.x - a.x * b.z) * a.y
        + (a.x * b.y - a.y * b.x) * a.z == 0) by (nonlinear_arith);
    assert((a.y * b.z - a.z * b.y) * b.x + (a.z * b.x - a.x * b.z) * b.y
        + (a.x * b.y - a.y * b.x) * b.z == 0) by (nonlinear_arith);
}

} // verus!
