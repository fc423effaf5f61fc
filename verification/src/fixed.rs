//! Fixed-point scalars: `i64` values carrying `real_value * ONE`.
//!
//! All rounding is toward negative infinity (floor), stated through the
//! spec-level `divf`. The executable operations compute intermediates in
//! `i128`, so the preconditions only have to keep the final results in range.

use vstd::prelude::*;
use vstd::arithmetic::div_mod::{
    lemma_fundamental_div_mod, lemma_fundamental_div_mod_converse_div, lemma_div_is_ordered,
    lemma_div_multiples_vanish,
};

verus! {

/// One whole unit of the fixed-point scale; a scalar `s` denotes `s / ONE`.
pub const ONE: i64 = 65536;

/// Magnitude limit (2^39) accepted by the scalar operations; well-formed
/// scene data stays far below it, leaving headroom for intermediates.
pub const FX_LIM: i64 = 0x80_0000_0000i64;

/// Magnitude limit (2^126) for the `i128` floor-division helper.
pub const DIV_LIM: i128 = 0x4000_0000_0000_0000_0000_0000_0000_0000i128;

/// Floor division as a total spec function: the quotient rounded toward
/// negative infinity, and 0 for a zero divisor (executable code never
/// divides by zero). For a positive divisor Verus's Euclidean `/` on `int`
/// is exactly floor division, which the negative case is reduced to.
pub open spec fn divf(n: int, d: int) -> int {
    if d > 0 {
        n / d
    } else if d < 0 {
        (-n) / (-d)
    } else {
        0
    }
}

/// The fixed-point product: `(a * b) / ONE`, rounded toward negative infinity.
pub open spec fn fx_mul(a: int, b: int) -> int {
    divf(a * b, ONE as int)
}

/// The fixed-point quotient: `(a * ONE) / b`, rounded toward negative infinity.
pub open spec fn fx_div(a: int, b: int) -> int {
    divf(a * (ONE as int), b)
}

/// `v` forced into `[lo, hi]`.
pub open spec fn clamp_spec(v: int, lo: int, hi: int) -> int {
    if v < lo {
        lo
    } else if v > hi {
        hi
    } else {
        v
    }
}

/// Absolute value on `int`.
pub open spec fn abs_spec(v: int) -> int {
    if v < 0 {
        -v
    } else {
        v
    }
}

/// The integer square root: the unique `r >= 0` with `r * r <= n < (r + 1) * (r + 1)`.
pub open spec fn is_isqrt(n: int, r: int) -> bool {
    &&& 0 <= r
    &&& r * r <= n
    &&& n < (r + 1) * (r + 1)
}

/// Floor division, exactly `divf`, with all intermediates in `i128`.
pub fn div_floor128(n: i128, d: i128) -> (q: i128)
    requires
        d != 0,
        -DIV_LIM <= n <= DIV_LIM,
        -DIV_LIM <= d <= DIV_LIM,
    ensures
        q == divf(n as int, d as int),
{
    let nn: u128 = if n < 0 { (-n) as u128 } else { n as u128 };
    let dd: u128 = if d < 0 { (-d) as u128 } else { d as u128 };
    let q0: u128 = nn / dd;
    let r0: u128 = nn % dd;
    proof {
        lemma_fundamental_div_mod(nn as int, dd as int);
    }
    if (n < 0) == (d < 0) {
        proof {
            if n >= 0 && d > 0 {
                assert(divf(n as int, d as int) == n as int / d as int);
                assert(n as int == nn as int && d as int == dd as int);
            } else {
                assert(divf(n as int, d as int) == (-n) as int / (-d) as int);
            }
        }
        q0 as i128
    } else {
        let base: i128 = -(q0 as i128);
        let q: i128 = if r0 == 0 { base } else { base - 1 };
        proof {
            let ni = n as int;
            let di = d as int;
            let nni = nn as int;
            let ddi = dd as int;
            assert(nni == ddi * (q0 as int) + (r0 as int));
            if r0 == 0 {
                // The magnitude divides evenly: the quotient is exactly -q0.
                if ni < 0 {
                    // divf(n, d) == n / d with d > 0 here.
                    assert(ni == (-(q0 as int)) * ddi + 0) by (nonlinear_arith)
                        requires nni == ddi * (q0 as int), ni == -nni;
                    lemma_fundamental_div_mod_converse_div(ni, ddi, -(q0 as int), 0);
                } else {
                    // d < 0, n >= 0: divf(n, d) == (-n) / (-d).
                    assert(-ni == (-(q0 as int)) * ddi + 0) by (nonlinear_arith)
                        requires nni == ddi * (q0 as int), ni == nni;
                    lemma_fundamental_div_mod_converse_div(-ni, ddi, -(q0 as int), 0);
                }
            } else {
                assert(0 <= (r0 as int) && (r0 as int) < ddi);
                if ni < 0 {
                    assert(ni == (-(q0 as int) - 1) * ddi + (ddi - r0 as int)) by (nonlinear_arith)
                        requires nni == ddi * (q0 as int) + (r0 as int), ni == -nni;
                    lemma_fundamental_div_mod_converse_div(
                        ni, ddi, -(q0 as int) - 1, ddi - r0 as int);
                } else {
                    assert(-ni == (-(q0 as int) - 1) * ddi + (ddi - r0 as int)) by (nonlinear_arith)
                        requires nni == ddi * (q0 as int) + (r0 as int), ni == nni;
                    lemma_fundamental_div_mod_converse_div(
                        -ni, ddi, -(q0 as int) - 1, ddi - r0 as int);
                }
            }
        }
        q
    }
}

/// A dividend within `[-bound * d, bound * d]` has its floor quotient by `d`
/// within `[-bound, bound]`.
pub proof fn lemma_divf_range(n: int, d: int, bound: int)
    requires
        d >= 1,
        bound >= 0,
        -(bound * d) <= n <= bound * d,
    ensures
        -bound <= divf(n, d) <= bound,
{
    assert((-bound) * d == -(bound * d)) by (nonlinear_arith);
    lemma_divf_ordered(n, bound * d, d);
    lemma_divf_ordered(-(bound * d), n, d);
    lemma_divf_exact(bound, d);
    lemma_divf_exact(-bound, d);
}

/// Floor division is bounded by the dividend whenever the divisor is at least 1.
pub proof fn lemma_divf_bound(n: int, d: int)
    requires
        d >= 1,
    ensures
        abs_spec(divf(n, d)) <= abs_spec(n),
        n >= 0 ==> 0 <= divf(n, d) <= n,
        n <= 0 ==> n <= divf(n, d) <= 0,
{
    if n >= 0 {
        lemma_div_is_ordered(0, n, d);
        assert(n / d <= n) by (nonlinear_arith)
            requires n >= 0, d >= 1;
    } else {
        lemma_div_is_ordered(n, 0, d);
        lemma_fundamental_div_mod(n, d);
        assert(n <= n / d) by (nonlinear_arith)
            requires n < 0, d >= 1, n == d * (n / d) + (n % d), 0 <= n % d < d;
    }
}

/// Floor division by a positive divisor is monotone in the dividend.
pub proof fn lemma_divf_ordered(x: int, y: int, d: int)
    requires
        x <= y,
        d >= 1,
    ensures
        divf(x, d) <= divf(y, d),
{
    lemma_div_is_ordered(x, y, d);
}

/// Multiples of the divisor divide exactly.
pub proof fn lemma_divf_exact(x: int, d: int)
    requires
        d >= 1,
    ensures
        divf(x * d, d) == x,
{
    lemma_div_multiples_vanish(x, d);
    assert((d * x) == (x * d)) by (nonlinear_arith);
}

/// Bounds on the factors bound the fixed-point product, up to one floor step.
pub proof fn lemma_fx_mul_range(a: int, b: int, ba: int, bb: int)
    requires
        -ba <= a <= ba,
        -bb <= b <= bb,
        0 <= ba,
        0 <= bb,
    ensures
        -(divf(ba * bb, ONE as int)) - 1 <= fx_mul(a, b) <= divf(ba * bb, ONE as int),
{
    let o = ONE as int;
    assert(-(ba * bb) <= a * b <= ba * bb) by (nonlinear_arith)
        requires -ba <= a <= ba, -bb <= b <= bb, 0 <= ba, 0 <= bb;
    lemma_divf_ordered(a * b, ba * bb, o);
    lemma_divf_ordered(-(ba * bb), a * b, o);
    let q = divf(ba * bb, o);
    lemma_fundamental_div_mod(ba * bb, o);
    vstd::arithmetic::div_mod::lemma_mod_bound(ba * bb, o);
    lemma_divf_exact(-(q + 1), o);
    lemma_divf_ordered((-(q + 1)) * o, -(ba * bb), o);
}

/// The bound of `lemma_fx_mul_range`, quantified over all factor pairs
/// within the given bounds.
pub proof fn lemma_fx_mul_range_all(ba: int, bb: int)
    requires
        0 <= ba,
        0 <= bb,
    ensures
        forall|a: int, b: int|
            -ba <= a <= ba && -bb <= b <= bb
                ==> -(divf(ba * bb, ONE as int)) - 1 <= #[trigger] fx_mul(a, b)
                    <= divf(ba * bb, ONE as int),
{
    assert forall|a: int, b: int| -ba <= a <= ba && -bb <= b <= bb
        implies -(divf(ba * bb, ONE as int)) - 1 <= #[trigger] fx_mul(a, b)
            <= divf(ba * bb, ONE as int)
    by {
        lemma_fx_mul_range(a, b, ba, bb);
    }
}

/// A fixed-point product with a factor of magnitude at most `ONE` cannot
/// grow the other factor's magnitude.
pub proof fn lemma_fx_mul_unit(a: int, b: int)
    requires
        -(ONE as int) <= b <= ONE as int,
    ensures
        abs_spec(fx_mul(a, b)) <= abs_spec(a),
        a >= 0 && b >= 0 ==> 0 <= fx_mul(a, b) <= a,
{
    let o = ONE as int;
    assert(a * b <= abs_spec(a) * o && -(abs_spec(a)) * o <= a * b) by (nonlinear_arith)
        requires -o <= b <= o;
    lemma_divf_ordered(a * b, abs_spec(a) * o, o);
    lemma_divf_ordered(-(abs_spec(a)) * o, a * b, o);
    lemma_divf_exact(abs_spec(a), o);
    lemma_divf_exact(-(abs_spec(a)), o);
    if a >= 0 && b >= 0 {
        assert(0 <= a * b) by (nonlinear_arith)
            requires a >= 0, b >= 0;
        lemma_divf_bound(a * b, o);
        assert(fx_mul(a, b) <= a);
    }
}

/// The fixed-point product, `fx_mul` exactly.
pub fn fxmul(a: i64, b: i64) -> (r: i64)
    requires
        -FX_LIM <= a <= FX_LIM,
        -FX_LIM <= b <= FX_LIM,
    ensures
        r == fx_mul(a as int, b as int),
{
    proof {
        assert(-DIV_LIM <= (a as int) * (b as int) <= DIV_LIM
            && -(0x4000_0000_0000_0000 * (ONE as int)) <= (a as int) * (b as int)
            <= 0x4000_0000_0000_0000 * (ONE as int)) by (nonlinear_arith)
            requires
                -0x80_0000_0000 <= (a as int) <= 0x80_0000_0000,
                -0x80_0000_0000 <= (b as int) <= 0x80_0000_0000;
    }
    let p: i128 = (a as i128) * (b as i128);
    let q: i128 = div_floor128(p, ONE as i128);
    proof {
        lemma_divf_range(p as int, ONE as int, 0x4000_0000_0000_0000);
    }
    q as i64
}

/// The fixed-point quotient, `fx_div` exactly.
pub fn fxdiv(a: i64, b: i64) -> (r: i64)
    requires
        b != 0,
        -FX_LIM <= a <= FX_LIM,
        abs_spec(divf(a as int * ONE as int, b as int)) <= i64::MAX as int,
    ensures
        r == fx_div(a as int, b as int),
{
    let p: i128 = (a as i128) * (ONE as i128);
    proof {
        assert(-DIV_LIM <= p <= DIV_LIM) by (nonlinear_arith)
            requires
                -0x80_0000_0000i128 <= (a as i128) <= 0x80_0000_0000i128,
                p == (a as i128) * 65536i128;
    }
    let q: i128 = div_floor128(p, b as i128);
    q as i64
}

/// `v` forced into `[lo, hi]`, exactly `clamp_spec`.
pub fn clampi(v: i64, lo: i64, hi: i64) -> (r: i64)
    requires
        lo <= hi,
    ensures
        r == clamp_spec(v as int, lo as int, hi as int),
        lo <= r <= hi,
{
    if v < lo {
        lo
    } else if v > hi {
        hi
    } else {
        v
    }
}

/// The integer square root of any `u128`, by bisection.
pub fn isqrt_u128(n: u128) -> (r: u128)
    ensures
        is_isqrt(n as int, r as int),
{
    let mut lo: u128 = 0;
    let mut hi: u128 = 0xFFFF_FFFF_FFFF_FFFF;
    if n < hi {
        hi = n;
    }
    proof {
        assert((n as int) < (n as int + 1) * (n as int + 1)) by (nonlinear_arith);
        assert((n as int) < (0xFFFF_FFFF_FFFF_FFFF + 1) * (0xFFFF_FFFF_FFFF_FFFF + 1))
            by (nonlinear_arith)
            requires n <= u128::MAX;
    }
    while lo < hi
        invariant
            0 <= lo <= hi <= 0xFFFF_FFFF_FFFF_FFFF,
            lo as int * lo as int <= n as int,
            (n as int) < (hi as int + 1) * (hi as int + 1),
        decreases hi - lo,
    {
        let mid: u128 = lo + (hi - lo + 1) / 2;
        proof {
            assert(lo < mid <= hi);
            assert(mid * mid <= 0xFFFF_FFFF_FFFF_FFFFu128 * 0xFFFF_FFFF_FFFF_FFFFu128)
                by (nonlinear_arith)
                requires mid <= 0xFFFF_FFFF_FFFF_FFFFu128;
        }
        if mid * mid <= n {
            lo = mid;
        } else {
            proof {
                assert((n as int) < (mid as int - 1 + 1) * (mid as int - 1 + 1));
            }
            hi = mid - 1;
        }
    }
    lo
}

/// If `y * y <= n` and `r` is the integer square root of `n`, then `|y| <= r`.
pub proof fn lemma_isqrt_at_least(n: int, r: int, y: int)
    requires
        is_isqrt(n, r),
        y * y <= n,
    ensures
        abs_spec(y) <= r,
{
    assert(abs_spec(y) <= r) by (nonlinear_arith)
        requires 0 <= r, y * y <= n, n < (r + 1) * (r + 1);
}

} // verus!
