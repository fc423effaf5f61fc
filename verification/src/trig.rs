//! Fixed-point trigonometry for the orbital camera: sine and cosine by
//! range reduction and a truncated odd polynomial, arctangent by a
//! quadratic approximation with quadrant folding, and arcsine through the
//! right-triangle identity.
//!
//! Each function's contract gives its result exactly, as the value of its
//! spec-level model; the models are the defining algorithms, since no
//! closed form exists for the true transcendental values in this scale.

use vstd::prelude::*;
use vstd::arithmetic::div_mod::{lemma_fundamental_div_mod, lemma_mod_bound};
use crate::fixed::{
    ONE, divf, fx_mul, fx_div, abs_spec, clamp_spec, div_floor128, fxmul, fxdiv, clampi,
    isqrt_u128, lemma_divf_bound, lemma_divf_range, lemma_fx_mul_range, lemma_fx_mul_unit,
};
use crate::vec3::{sqrt_floor, lemma_sqrt_floor, lemma_isqrt_unique};

verus! {

/// π at the fixed scale, rounded to nearest.
pub const PI_FX: i64 = 205887;

/// π/2 at the fixed scale, rounded to nearest.
pub const HALF_PI_FX: i64 = 102944;

/// 2π at the fixed scale, rounded to nearest.
pub const TWO_PI_FX: i64 = 411775;

/// π/4 at the fixed scale, rounded to nearest.
pub const QUARTER_PI_FX: i64 = 51472;

/// 0.273 at the fixed scale: the correction coefficient of the arctangent
/// approximation `atan(z) ≈ (π/4)·z + 0.273·z·(1 − z)` on `[0, 1]`.
pub const ATAN_K: i64 = 17891;

/// Largest argument magnitude (about 32 radians) the sine accepts.
pub const ANGLE_LIM: i64 = 0x20_0000i64;

/// The exact value `sin_fx` returns: the argument reduced into `[-π, π)`,
/// folded into `[-π/2, π/2]`, run through the odd Taylor polynomial of
/// degree 7, and clamped into `[-ONE, ONE]`.
pub open spec fn sin_spec(x: int) -> int {
    let k = divf(x + PI_FX, TWO_PI_FX as int);
    let xr = x - k * (TWO_PI_FX as int);
    let xf = if xr > HALF_PI_FX as int {
        (PI_FX as int) - xr
    } else if xr < -(HALF_PI_FX as int) {
        -(PI_FX as int) - xr
    } else {
        xr
    };
    let t2 = fx_mul(xf, xf);
    let t3 = fx_mul(t2, xf);
    let t5 = fx_mul(t3, t2);
    let t7 = fx_mul(t5, t2);
    let s = xf - divf(t3, 6) + divf(t5, 120) - divf(t7, 5040);
    clamp_spec(s, -(ONE as int), ONE as int)
}

/// The exact value `cos_fx` returns: the sine a quarter turn ahead.
pub open spec fn cos_spec(x: int) -> int {
    sin_spec(x + HALF_PI_FX as int)
}

/// The sine of a fixed-point angle, exactly `sin_spec`; always in
/// `[-ONE, ONE]`.
pub fn sin_fx(x: i64) -> (r: i64)
    requires
        -ANGLE_LIM <= x <= ANGLE_LIM,
    ensures
        r == sin_spec(x as int),
        -ONE <= r <= ONE,
{
    let k128: i128 = div_floor128((x as i128) + (PI_FX as i128), TWO_PI_FX as i128);
    proof {
        lemma_divf_bound((x + PI_FX) as int, TWO_PI_FX as int);
        lemma_fundamental_div_mod((x + PI_FX) as int, TWO_PI_FX as int);
        lemma_mod_bound((x + PI_FX) as int, TWO_PI_FX as int);
    }
    let k: i64 = k128 as i64;
    let xr: i64 = x - k * TWO_PI_FX;
    proof {
        assert(xr as int == (x + PI_FX) % (TWO_PI_FX as int) - PI_FX);
        assert(-(PI_FX as int) <= xr as int && (xr as int) <= PI_FX as int);
    }
    let xf: i64 = if xr > HALF_PI_FX {
        PI_FX - xr
    } else if xr < -HALF_PI_FX {
        -PI_FX - xr
    } else {
        xr
    };
    proof {
        lemma_fx_mul_range(xf as int, xf as int, 0x2_0000, 0x2_0000);
        assert(divf(0x2_0000int * 0x2_0000int, ONE as int) == 0x4_0000);
    }
    let t2: i64 = fxmul(xf, xf);
    proof {
        lemma_fx_mul_range(t2 as int, xf as int, 0x4_0001, 0x2_0000);
    }
    let t3: i64 = fxmul(t2, xf);
    proof {
        lemma_fx_mul_range(t3 as int, t2 as int, 0x8_0003, 0x4_0001);
    }
    let t5: i64 = fxmul(t3, t2);
    proof {
        lemma_fx_mul_range(t5 as int, t2 as int, 0x20_0015, 0x4_0001);
    }
    let t7: i64 = fxmul(t5, t2);
    let d3: i64 = div_floor128(t3 as i128, 6) as i64;
    let d5: i64 = div_floor128(t5 as i128, 120) as i64;
    let d7: i64 = div_floor128(t7 as i128, 5040) as i64;
    proof {
        lemma_divf_bound(t3 as int, 6);
        lemma_divf_bound(t5 as int, 120);
        lemma_divf_bound(t7 as int, 5040);
    }
    let s: i64 = xf - d3 + d5 - d7;
    clampi(s, -ONE, ONE)
}

/// The cosine of a fixed-point angle, exactly `cos_spec`; always in
/// `[-ONE, ONE]`.
pub fn cos_fx(x: i64) -> (r: i64)
    requires
        -ANGLE_LIM + HALF_PI_FX <= x <= ANGLE_LIM - HALF_PI_FX,
    ensures
        r == cos_spec(x as int),
        -ONE <= r <= ONE,
{
    sin_fx(x + HALF_PI_FX)
}

/// The exact value the arctangent core returns on a ratio in `[0, ONE]`:
/// the quadratic approximation `z·(π/4 + 0.273·(1 − z))`.
pub open spec fn atan_unit_spec(z: int) -> int {
    fx_mul(z, (QUARTER_PI_FX as int) + fx_mul(ATAN_K as int, (ONE as int) - z))
}

/// The arctangent of a ratio in `[0, ONE]`, exactly `atan_unit_spec`;
/// always in `[0, π/2)`.
fn atan_unit(z: i64) -> (r: i64)
    requires
        0 <= z <= ONE,
    ensures
        r == atan_unit_spec(z as int),
        0 <= r && r < HALF_PI_FX,
{
    proof {
        lemma_fx_mul_unit(ATAN_K as int, (ONE - z) as int);
    }
    let f: i64 = QUARTER_PI_FX + fxmul(ATAN_K, ONE - z);
    proof {
        lemma_fx_mul_unit(f as int, z as int);
        assert(fx_mul(z as int, f as int) == fx_mul(f as int, z as int)) by {
            assert((z as int) * (f as int) == (f as int) * (z as int)) by (nonlinear_arith);
        }
    }
    fxmul(z, f)
}

/// The exact value `atan2_fx` returns: the octant-folded arctangent
/// approximation. Both arguments zero give 0.
pub open spec fn atan2_spec(y: int, x: int) -> int {
    if x == 0 && y == 0 {
        0
    } else {
        let ax = abs_spec(x);
        let ay = abs_spec(y);
        let base = if ay <= ax {
            atan_unit_spec(fx_div(ay, ax))
        } else {
            (HALF_PI_FX as int) - atan_unit_spec(fx_div(ax, ay))
        };
        let ang = if x >= 0 {
            base
        } else {
            (PI_FX as int) - base
        };
        if y < 0 {
            -ang
        } else {
            ang
        }
    }
}

/// The angle of the point `(x, y)` from the positive X axis, exactly
/// `atan2_spec`; always in `[-π, π]`, and within `[-π/2, π/2]` when
/// `x >= 0`.
pub fn atan2_fx(y: i64, x: i64) -> (r: i64)
    requires
        -0x40_0000_0000 <= y <= 0x40_0000_0000,
        -0x40_0000_0000 <= x <= 0x40_0000_0000,
    ensures
        r == atan2_spec(y as int, x as int),
        -PI_FX <= r <= PI_FX,
        x >= 0 ==> -HALF_PI_FX <= r <= HALF_PI_FX,
{
    if x == 0 && y == 0 {
        return 0;
    }
    let ax: i64 = if x >= 0 { x } else { -x };
    let ay: i64 = if y >= 0 { y } else { -y };
    let base: i64 = if ay <= ax {
        proof {
            lemma_ratio_unit(ay as int, ax as int);
        }
        atan_unit(fxdiv(ay, ax))
    } else {
        proof {
            lemma_ratio_unit(ax as int, ay as int);
        }
        HALF_PI_FX - atan_unit(fxdiv(ax, ay))
    };
    let ang: i64 = if x >= 0 { base } else { PI_FX - base };
    if y < 0 { -ang } else { ang }
}

/// A numerator at most the positive denominator gives a fixed quotient in
/// `[0, ONE]`.
proof fn lemma_ratio_unit(n: int, d: int)
    requires
        0 <= n <= d,
        1 <= d,
    ensures
        0 <= fx_div(n, d) <= ONE as int,
        abs_spec(divf(n * (ONE as int), d)) <= i64::MAX as int,
{
    assert(0 <= n * (ONE as int) <= d * (ONE as int) && (ONE as int) * d == d * (ONE as int))
        by (nonlinear_arith)
        requires 0 <= n <= d;
    lemma_divf_range(n * (ONE as int), d, ONE as int);
}

/// The exact value `asin_fx` returns: the angle whose sine is `y / r`,
/// from the arctangent of `y` against the adjacent leg `sqrt(r² − y²)`.
pub open spec fn asin_spec(y: int, r: int) -> int {
    atan2_spec(y, sqrt_floor(r * r - y * y))
}

/// The arcsine of `y / r` for `|y| <= r`, exactly `asin_spec`; always in
/// `[-π/2, π/2]`.
pub fn asin_fx(y: i64, r: i64) -> (res: i64)
    requires
        1 <= r <= 0x8_0000_0000,
        -r <= y <= r,
    ensures
        res == asin_spec(y as int, r as int),
        -HALF_PI_FX <= res <= HALF_PI_FX,
{
    proof {
        assert(0 <= (r as int) * (r as int) <= 0x40_0000_0000_0000_0000
            && 0 <= (y as int) * (y as int) <= (r as int) * (r as int)) by (nonlinear_arith)
            requires -r <= y <= r, 1 <= r <= 0x8_0000_0000;
    }
    let under: i128 = (r as i128) * (r as i128) - (y as i128) * (y as i128);
    let leg128: u128 = isqrt_u128(under as u128);
    proof {
        lemma_sqrt_floor(under as int);
        lemma_isqrt_unique(under as int, leg128 as int, sqrt_floor(under as int));
        assert((leg128 as int) <= 0x8_0000_0000) by (nonlinear_arith)
            requires
                (leg128 as int) * (leg128 as int) <= (under as int),
                0 <= (leg128 as int),
                (under as int) <= 0x40_0000_0000_0000_0000;
    }
    let leg: i64 = leg128 as i64;
    atan2_fx(y, leg)
}

} // verus!
