//! Fixed-point scalar arithmetic.
//!
//! A scalar is an `i128` holding an integer multiple of `1/SCALE`; the real
//! value `1.0` is stored as `SCALE`.  Multiplication and division of two such
//! scalars rescale their raw integer result, rounding toward zero exactly as
//! hardware signed division does.  The square root is the integer square root
//! of the raw value, which is the fixed-point root of the represented value
//! when the operand is a squared magnitude.

use vstd::prelude::*;
use vstd::arithmetic::mul::*;
use vstd::math::abs;

verus! {

/// Number of fractional steps per unit: the real value 1.0.
pub const SCALE: i128 = 65536;

/// Half a unit, used for pixel centres and jitter bounds.
pub const HALF_SCALE: i128 = 32768;

/// Truncating division (rounding toward zero), the rounding of hardware
/// signed division.  Spec-level `/` is Euclidean, which agrees with
/// truncation for a non-negative dividend.
pub open spec fn tdiv(a: int, b: int) -> int {
    if a >= 0 {
        a / b
    } else {
        -((-a) / b)
    }
}

/// Product of two fixed-point scalars.
pub open spec fn fx_mul(a: int, b: int) -> int {
    tdiv(a * b, SCALE as int)
}

/// Quotient of two fixed-point scalars, rounded toward zero.  Hardware
/// division by a negative divisor equals negated division by its magnitude.
pub open spec fn fx_div(a: int, b: int) -> int {
    if b >= 0 {
        tdiv(a * SCALE, b)
    } else {
        -tdiv(a * SCALE, -b)
    }
}

/// Floor of the square root of a non-negative integer.
pub open spec fn sqrt_floor(n: int) -> int {
    choose|r: int| 0 <= r && #[trigger] (r * r) <= n && n < (r + 1) * (r + 1)
}

/// A floor square root exists for every non-negative integer.
proof fn lemma_sqrt_floor_exists(n: int)
    requires
        n >= 0,
    ensures
        exists|r: int| 0 <= r && #[trigger] (r * r) <= n && n < (r + 1) * (r + 1),
    decreases n,
{
    if n == 0 {
        assert(0int * 0int == 0 && (0int + 1) * (0int + 1) == 1) by (nonlinear_arith);
        assert(0 <= 0int && (0int * 0int) <= n && n < (0int + 1) * (0int + 1));
    } else {
        lemma_sqrt_floor_exists(n - 1);
        let r = choose|r: int| 0 <= r && #[trigger] (r * r) <= n - 1 && n - 1 < (r + 1) * (r + 1);
        if n < (r + 1) * (r + 1) {
            assert(0 <= r && r * r <= n < (r + 1) * (r + 1));
        } else {
            assert(n == (r + 1) * (r + 1));
            assert((r + 1) * (r + 1) < (r + 2) * (r + 2)) by (nonlinear_arith)
                requires
                    r >= 0,
            ;
            assert(0 <= r + 1 && (r + 1) * (r + 1) <= n < (r + 2) * (r + 2));
        }
    }
}

/// The defining properties of `sqrt_floor`.
pub proof fn lemma_sqrt_floor(n: int)
    requires
        n >= 0,
    ensures
        0 <= sqrt_floor(n),
        sqrt_floor(n) * sqrt_floor(n) <= n,
        n < (sqrt_floor(n) + 1) * (sqrt_floor(n) + 1),
{
    lemma_sqrt_floor_exists(n);
    let r = sqrt_floor(n);
    assert(0 <= r && r * r <= n < (r + 1) * (r + 1));
}

/// Any integer with the floor-square-root properties is `sqrt_floor`.
pub proof fn lemma_sqrt_floor_unique(n: int, r: int)
    requires
        n >= 0,
        0 <= r,
        r * r <= n,
        n < (r + 1) * (r + 1),
    ensures
        r == sqrt_floor(n),
{
    let s = sqrt_floor(n);
    lemma_sqrt_floor(n);
    if r < s {
        lemma_mul_inequality(r + 1, s, r + 1);
        lemma_mul_inequality(r + 1, s, s);
        assert((r + 1) * (r + 1) <= s * s) by (nonlinear_arith)
            requires
                0 <= r + 1 <= s,
        ;
        assert(false);
    }
    if s < r {
        assert((s + 1) * (s + 1) <= r * r) by (nonlinear_arith)
            requires
                0 <= s + 1 <= r,
        ;
        assert(false);
    }
}

/// Integer square root by bisection.
pub fn isqrt(n: u128) -> (r: u128)
    ensures
        r == sqrt_floor(n as int),
{
    let mut lo: u128 = 0;
    let mut hi: u128 = 0x1_0000_0000_0000_0000;
    assert((0x1_0000_0000_0000_0000 as int) * (0x1_0000_0000_0000_0000 as int) > u128::MAX as int);
    while hi - lo > 1
        invariant
            0 <= lo < hi <= 0x1_0000_0000_0000_0000,
            (lo as int) * (lo as int) <= n as int,
            (n as int) < (hi as int) * (hi as int),
        decreases hi - lo,
    {
        let mid = lo + (hi - lo) / 2;
        assert(lo < mid < hi);
        assert((mid as int) * (mid as int) <= (0xffff_ffff_ffff_ffff as int) * (
        0xffff_ffff_ffff_ffff as int)) by (nonlinear_arith)
            requires
                0 <= mid <= 0xffff_ffff_ffff_ffff,
        ;
        assert((0xffff_ffff_ffff_ffff as int) * (0xffff_ffff_ffff_ffff as int) <= u128::MAX as int);
        if mid * mid <= n {
            lo = mid;
        } else {
            hi = mid;
        }
    }
    proof {
        lemma_sqrt_floor_unique(n as int, lo as int);
    }
    lo
}

/// Fixed-point product: the raw product rescaled by `SCALE`.
pub fn mul_fixed(a: i128, b: i128) -> (r: i128)
    requires
        i128::MIN <= a * b <= i128::MAX,
    ensures
        r == fx_mul(a as int, b as int),
{
    (a * b) / SCALE
}

/// Fixed-point quotient: the dividend upscaled by `SCALE`, then divided.
pub fn div_fixed(a: i128, b: i128) -> (r: i128)
    requires
        b != 0,
        b > i128::MIN,
        i128::MIN < a * SCALE <= i128::MAX,
    ensures
        r == fx_div(a as int, b as int),
{
    let p = a * SCALE;
    if b > 0 {
        proof {
            lemma_tdiv_bound(p as int, b as int);
        }
        p / b
    } else {
        proof {
            lemma_tdiv_bound(p as int, -b as int);
        }
        -(p / (-b))
    }
}

/// A fixed-point quotient is bounded by `SCALE` times the dividend's
/// magnitude.
pub proof fn lemma_fx_div_bound(a: int, b: int)
    requires
        b != 0,
    ensures
        -abs(a * SCALE) <= fx_div(a, b) <= abs(a * SCALE),
{
    if b > 0 {
        lemma_tdiv_bound(a * SCALE, b);
    } else {
        lemma_tdiv_bound(a * SCALE, -b);
    }
}

/// A product is bounded by the product of the operands' bounds.
pub proof fn lemma_mul_bounds(a: int, am: int, b: int, bm: int) by (nonlinear_arith)
    requires
        -am <= a <= am,
        -bm <= b <= bm,
    ensures
        -(am * bm) <= a * b <= am * bm,
        0 <= am * bm,
{
}

/// Squares are non-negative.
pub proof fn lemma_square_nonneg(a: int) by (nonlinear_arith)
    ensures
        0 <= a * a,
{
}

/// The floor square root is monotone against squared bounds.
pub proof fn lemma_sqrt_le(n: int, b: int)
    requires
        0 <= n,
        0 <= b,
        n <= b * b,
    ensures
        sqrt_floor(n) <= b,
{
    lemma_sqrt_floor(n);
    let s = sqrt_floor(n);
    if s > b {
        assert(false) by (nonlinear_arith)
            requires
                0 <= b < s,
                s * s <= n,
                n <= b * b,
        ;
    }
}

/// Truncating division never grows the magnitude of the dividend.
pub proof fn lemma_tdiv_bound(a: int, b: int)
    requires
        b >= 1,
    ensures
        -abs(a) <= tdiv(a, b) <= abs(a),
        a >= 0 ==> 0 <= tdiv(a, b) <= a,
        a <= 0 ==> a <= tdiv(a, b) <= 0,
{
    if a >= 0 {
        assert(0 <= a / b <= a) by (nonlinear_arith)
            requires
                a >= 0,
                b >= 1,
        ;
    } else {
        assert(0 <= (-a) / b <= -a) by (nonlinear_arith)
            requires
                -a >= 0,
                b >= 1,
        ;
    }
}

/// Truncating division is antisymmetric in the dividend.
pub proof fn lemma_tdiv_neg(a: int, b: int)
    requires
        b >= 1,
    ensures
        tdiv(-a, b) == -tdiv(a, b),
{
}

/// The magnitude of a truncated quotient is bounded by the magnitude of the
/// exact quotient: `|tdiv(a, b)| * b <= |a|`.
pub proof fn lemma_tdiv_mul_bound(a: int, b: int)
    requires
        b >= 1,
    ensures
        abs(tdiv(a, b)) * b <= abs(a),
{
    if a >= 0 {
        assert((a / b) * b <= a && a / b >= 0) by (nonlinear_arith)
            requires
                a >= 0,
                b >= 1,
        ;
    } else {
        assert(((-a) / b) * b <= -a && (-a) / b >= 0) by (nonlinear_arith)
            requires
                -a >= 0,
                b >= 1,
        ;
    }
}

} // verus!
