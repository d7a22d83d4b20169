//! Saturating fixed-point scalar arithmetic.
//!
//! A scalar is an `i64` holding the real quantity multiplied by [`UNIT`].
//! Sums and differences saturate at the `i64` range; products and quotients
//! of scalars are computed exactly in wide arithmetic, rescaled by [`UNIT`]
//! with truncation toward zero, and then saturated. The spec functions here
//! give the exact mathematical value of every executable operation.

use vstd::prelude::*;

verus! {

/// Number of raw steps per scene unit: a scalar `s` stands for `s / UNIT`.
pub const UNIT: i64 = 1000000;

/// The mathematical value `x` saturated to the `i64` range.
pub open spec fn clip(x: int) -> int {
    if x > i64::MAX as int {
        i64::MAX as int
    } else if x < i64::MIN as int {
        i64::MIN as int
    } else {
        x
    }
}

/// Absolute value over the mathematical integers.
pub open spec fn iabs(x: int) -> int {
    if x >= 0 {
        x
    } else {
        -x
    }
}

/// Division truncated toward zero, the rounding used by the fixed-point
/// rescaling steps.
pub open spec fn quot(n: int, d: int) -> int
    recommends
        d != 0,
{
    let q = iabs(n) / iabs(d);
    if (n >= 0) == (d >= 0) {
        q
    } else {
        -q
    }
}

/// Exact value of saturating addition.
pub open spec fn spec_add_sat(a: int, b: int) -> int {
    clip(a + b)
}

/// Exact value of saturating subtraction.
pub open spec fn spec_sub_sat(a: int, b: int) -> int {
    clip(a - b)
}

/// Exact value of the fixed-point product `a * b / UNIT`, truncated toward
/// zero and saturated.
pub open spec fn spec_mul_units(a: int, b: int) -> int {
    clip(quot(a * b, UNIT as int))
}

/// Exact value of the fixed-point quotient `a * UNIT / b`, truncated toward
/// zero and saturated.
pub open spec fn spec_div_units(a: int, b: int) -> int
    recommends
        b != 0,
{
    clip(quot(a * (UNIT as int), b))
}

/// Saturating addition of two scalars.
pub fn sat_add(a: i64, b: i64) -> (r: i64)
    ensures
        r as int == spec_add_sat(a as int, b as int),
{
    let s: i128 = a as i128 + b as i128;
    if s > i64::MAX as i128 {
        i64::MAX
    } else if s < i64::MIN as i128 {
        i64::MIN
    } else {
        s as i64
    }
}

/// Saturating subtraction of two scalars.
pub fn sat_sub(a: i64, b: i64) -> (r: i64)
    ensures
        r as int == spec_sub_sat(a as int, b as int),
{
    let s: i128 = a as i128 - b as i128;
    if s > i64::MAX as i128 {
        i64::MAX
    } else if s < i64::MIN as i128 {
        i64::MIN
    } else {
        s as i64
    }
}

/// Magnitude of a scalar as an unsigned wide integer.
fn abs_u128(a: i64) -> (r: u128)
    ensures
        r as int == iabs(a as int),
{
    if a >= 0 {
        a as u128
    } else {
        let m: i128 = -(a as i128);
        m as u128
    }
}

/// The magnitude of a product is the product of the magnitudes.
proof fn lemma_abs_mul(a: int, b: int)
    ensures
        iabs(a) * iabs(b) == iabs(a * b),
{
    assert(iabs(a) * iabs(b) == iabs(a * b)) by (nonlinear_arith);
}

/// Factors of equal sign give a nonnegative product; factors of opposite
/// sign give a nonpositive one.
proof fn lemma_mul_sign(a: int, b: int)
    ensures
        ((a < 0) == (b < 0)) ==> a * b >= 0,
        ((a < 0) != (b < 0)) ==> a * b <= 0,
        (a < 0 && b > 0) ==> a * b < 0,
        (a > 0 && b < 0) ==> a * b < 0,
        (a < 0 && b < 0) ==> a * b > 0,
        (a > 0 && b > 0) ==> a * b > 0,
{
    assert(((a < 0) == (b < 0)) ==> a * b >= 0) by (nonlinear_arith);
    assert(((a < 0) != (b < 0)) ==> a * b <= 0) by (nonlinear_arith);
    assert((a < 0 && b > 0) ==> a * b < 0) by (nonlinear_arith);
    assert((a > 0 && b < 0) ==> a * b < 0) by (nonlinear_arith);
    assert((a < 0 && b < 0) ==> a * b > 0) by (nonlinear_arith);
    assert((a > 0 && b > 0) ==> a * b > 0) by (nonlinear_arith);
}

/// When `d` divides `n` exactly, truncating division agrees with Euclidean
/// division.
proof fn lemma_quot_exact(n: int, d: int)
    requires
        d > 0,
        n % d == 0,
    ensures
        quot(n, d) == n / d,
        d * (n / d) == n,
{
    vstd::arithmetic::div_mod::lemma_fundamental_div_mod(n, d);
    let k = n / d;
    assert(n == d * k);
    if n >= 0 {
        assert(quot(n, d) == n / d);
    } else {
        assert(iabs(n) == -n);
        assert(d * (-k) == -(d * k)) by (nonlinear_arith);
        assert(-n == d * (-k));
        vstd::arithmetic::div_mod::lemma_div_multiples_vanish(-k, d);
        assert((d * (-k)) / d == -k);
        assert(quot(n, d) == -((-n) / d));
    }
}

/// Multiplying by a nonzero scalar and truncating-dividing by the same
/// scalar gives the original value back.
proof fn lemma_quot_mul_cancel(a: int, s: int)
    requires
        s != 0,
    ensures
        quot(a * s, s) == a,
{
    let n = a * s;
    lemma_abs_mul(a, s);
    assert(iabs(n) == iabs(a) * iabs(s));
    assert(iabs(s) > 0);
    vstd::arithmetic::div_mod::lemma_div_multiples_vanish(iabs(a), iabs(s));
    assert((iabs(s) * iabs(a)) / iabs(s) == iabs(a));
    assert(iabs(a) * iabs(s) == iabs(s) * iabs(a)) by (nonlinear_arith);
    assert(iabs(n) / iabs(s) == iabs(a));
    lemma_mul_sign(a, s);
    if a == 0 {
        assert(n == 0);
    } else if a > 0 {
        assert((n >= 0) == (s >= 0));
    } else {
        assert((n >= 0) != (s >= 0));
    }
}

/// Scaling by `s` and then dividing by `s` is the identity wherever the
/// intermediate product rescales without truncation or saturation.
pub proof fn lemma_units_mul_div_cancel(a: int, s: int)
    requires
        s != 0,
        i64::MIN <= a <= i64::MAX,
        (a * s) % (UNIT as int) == 0,
        i64::MIN <= quot(a * s, UNIT as int) <= i64::MAX,
    ensures
        spec_div_units(spec_mul_units(a, s), s) == a,
{
    lemma_quot_exact(a * s, UNIT as int);
    let k = (a * s) / (UNIT as int);
    assert(spec_mul_units(a, s) == k);
    assert((UNIT as int) * k == a * s);
    assert(k * (UNIT as int) == (UNIT as int) * k) by (nonlinear_arith);
    lemma_quot_mul_cancel(a, s);
    assert(quot(k * (UNIT as int), s) == a);
}

/// Divides magnitude `ma` by magnitude `mb`, reattaches the sign asked for,
/// and saturates to the `i64` range.
fn signed_quot_clip(ma: u128, mb: u128, neg: bool) -> (r: i64)
    requires
        mb > 0,
    ensures
        r as int == ({
            let q = ma as int / mb as int;
            if neg {
                clip(-q)
            } else {
                clip(q)
            }
        }),
{
    let q: u128 = ma / mb;
    if neg {
        if q > i64::MAX as u128 {
            i64::MIN
        } else {
            -(q as i64)
        }
    } else {
        if q > i64::MAX as u128 {
            i64::MAX
        } else {
            q as i64
        }
    }
}

/// Saturating fixed-point multiplication: `a * b / UNIT`, truncated toward
/// zero.
pub fn mul_units(a: i64, b: i64) -> (r: i64)
    ensures
        r as int == spec_mul_units(a as int, b as int),
{
    let ma = abs_u128(a);
    let mb = abs_u128(b);
    proof {
        lemma_abs_mul(a as int, b as int);
        assert(ma as int * mb as int <= 0x40000000000000000000000000000000int) by (nonlinear_arith)
            requires
                0 <= ma as int <= 0x8000000000000000int,
                0 <= mb as int <= 0x8000000000000000int,
        ;
    }
    let p: u128 = ma * mb;
    let neg = (a < 0) != (b < 0);
    let r = signed_quot_clip(p, UNIT as u128, neg);
    proof {
        lemma_mul_sign(a as int, b as int);
        let n = a as int * b as int;
        if neg && n == 0 {
            assert(p as int / (UNIT as int) == 0);
        }
    }
    r
}

/// Saturating fixed-point division: `a * UNIT / b`, truncated toward zero.
pub fn div_units(a: i64, b: i64) -> (r: i64)
    requires
        b != 0,
    ensures
        r as int == spec_div_units(a as int, b as int),
{
    let ma = abs_u128(a);
    let mb = abs_u128(b);
    proof {
        lemma_abs_mul(a as int, UNIT as int);
        assert(ma as int * (UNIT as int) <= 0x8000000000000000000000000000int) by (nonlinear_arith)
            requires
                0 <= ma as int <= 0x8000000000000000int,
        ;
    }
    let p: u128 = ma * (UNIT as u128);
    let neg = (a < 0) != (b < 0);
    let r = signed_quot_clip(p, mb, neg);
    proof {
        lemma_mul_sign(a as int, UNIT as int);
        let n = a as int * (UNIT as int);
        if a == 0 {
            assert(n == 0);
            assert(p as int / mb as int == 0);
        }
    }
    r
}

/// `r` is the integer square root of `n`.
pub open spec fn is_sqrt(n: int, r: int) -> bool {
    0 <= r && r * r <= n && n < (r + 1) * (r + 1)
}

/// The integer square root: the unique `r` with `r * r <= n < (r+1) * (r+1)`.
pub open spec fn spec_isqrt(n: int) -> int {
    choose|r: int| is_sqrt(n, r)
}

/// The integer square root is unique.
pub proof fn lemma_sqrt_unique(n: int, r1: int, r2: int)
    requires
        is_sqrt(n, r1),
        is_sqrt(n, r2),
    ensures
        r1 == r2,
{
    if r1 < r2 {
        assert((r1 + 1) * (r1 + 1) <= r2 * r2) by (nonlinear_arith)
            requires
                0 <= r1 < r2,
        ;
    }
    if r2 < r1 {
        assert((r2 + 1) * (r2 + 1) <= r1 * r1) by (nonlinear_arith)
            requires
                0 <= r2 < r1,
        ;
    }
}

/// The integer square root exists for every nonnegative integer, so
/// [`spec_isqrt`] satisfies its defining property there.
pub proof fn lemma_isqrt_exists(n: int)
    requires
        n >= 0,
    ensures
        is_sqrt(n, spec_isqrt(n)),
    decreases n,
{
    if n == 0 {
        assert(is_sqrt(0, 0));
    } else {
        lemma_isqrt_exists(n - 1);
        let r = spec_isqrt(n - 1);
        if (r + 1) * (r + 1) <= n {
            assert(n - 1 < (r + 1) * (r + 1));
            assert(n == (r + 1) * (r + 1));
            assert((r + 2) * (r + 2) > (r + 1) * (r + 1)) by (nonlinear_arith)
                requires
                    r >= 0,
            ;
            assert(is_sqrt(n, r + 1));
        } else {
            assert(is_sqrt(n, r));
        }
    }
}

/// The truncating quotient's magnitude is the Euclidean quotient of the
/// magnitudes, and it brackets the dividend to within one divisor.
pub proof fn lemma_quot_bounds(n: int, d: int)
    requires
        d > 0,
    ensures
        iabs(quot(n, d)) == iabs(n) / d,
        d * (iabs(n) / d) <= iabs(n) < d * (iabs(n) / d) + d,
{
    vstd::arithmetic::div_mod::lemma_fundamental_div_mod(iabs(n), d);
    vstd::arithmetic::div_mod::lemma_mod_bound(iabs(n), d);
    assert(iabs(n) / d >= 0) by {
        vstd::arithmetic::div_mod::lemma_div_pos_is_pos(iabs(n), d);
    }
}

/// Integer square root by bisection.
pub fn isqrt(n: u128) -> (r: u128)
    ensures
        is_sqrt(n as int, r as int),
        r as int == spec_isqrt(n as int),
{
    let mut lo: u128 = 0;
    let mut hi: u128 = 0x10000000000000000;
    proof {
        assert(0x10000000000000000int * 0x10000000000000000int > u128::MAX as int) by (nonlinear_arith);
    }
    while lo + 1 < hi
        invariant
            lo < hi <= 0x10000000000000000u128,
            (lo as int) * (lo as int) <= n as int,
            (hi as int) * (hi as int) > n as int,
        decreases hi - lo,
    {
        let mid = lo + (hi - lo) / 2;
        proof {
            assert(lo < mid < hi);
            assert((mid as int) * (mid as int) <= 0xffffffffffffffffint * 0xffffffffffffffffint)
                by (nonlinear_arith)
                requires
                    0 <= mid as int <= 0xffffffffffffffffint,
            ;
            assert(0xffffffffffffffffint * 0xffffffffffffffffint < 0x100000000000000000000000000000000int)
                by (nonlinear_arith);
        }
        if mid * mid <= n {
            lo = mid;
        } else {
            hi = mid;
        }
    }
    proof {
        assert(is_sqrt(n as int, lo as int));
        assert(is_sqrt(n as int, spec_isqrt(n as int)));
        lemma_sqrt_unique(n as int, spec_isqrt(n as int), lo as int);
    }
    lo
}

} // verus!
