//! Three-component vector algebra over fixed-point scalars.
//!
//! `Vector` doubles as a spatial point/direction and as an RGB triple, as the
//! rendering equations use it both ways.  Its mathematical view is `V3`, a
//! triple of unbounded integers; every operation's contract states the exact
//! integer result.

use vstd::prelude::*;
use vstd::math::abs;
use crate::fixed::{SCALE, tdiv, fx_mul, fx_div, sqrt_floor, isqrt, div_fixed, mul_fixed};
use crate::fixed::{
    lemma_sqrt_floor, lemma_tdiv_mul_bound, lemma_tdiv_neg, lemma_mul_bounds, lemma_square_nonneg,
    lemma_sqrt_le,
};

verus! {

/// Component bound under which all vector operations are overflow-free.
pub const VEC_MAX: i128 = 0x4_0000_0000_0000;

/// Mathematical view of a `Vector`: exact integer components.
pub ghost struct V3 {
    pub x: int,
    pub y: int,
    pub z: int,
}

pub open spec fn v3_zero() -> V3 {
    V3 { x: 0, y: 0, z: 0 }
}

pub open spec fn v3_add(a: V3, b: V3) -> V3 {
    V3 { x: a.x + b.x, y: a.y + b.y, z: a.z + b.z }
}

pub open spec fn v3_sub(a: V3, b: V3) -> V3 {
    V3 { x: a.x - b.x, y: a.y - b.y, z: a.z - b.z }
}

pub open spec fn v3_neg(a: V3) -> V3 {
    V3 { x: -a.x, y: -a.y, z: -a.z }
}

/// Vector scaled by a fixed-point scalar.
pub open spec fn v3_scale(a: V3, k: int) -> V3 {
    V3 { x: fx_mul(a.x, k), y: fx_mul(a.y, k), z: fx_mul(a.z, k) }
}

/// Vector divided by a fixed-point scalar.
pub open spec fn v3_div(a: V3, k: int) -> V3 {
    V3 { x: fx_div(a.x, k), y: fx_div(a.y, k), z: fx_div(a.z, k) }
}

/// Unscaled sum of componentwise products, used by the intersection tests,
/// where it keeps full precision.
pub open spec fn dot_raw(a: V3, b: V3) -> int {
    a.x * b.x + a.y * b.y + a.z * b.z
}

/// Fixed-point dot product.
pub open spec fn v3_dot(a: V3, b: V3) -> int {
    tdiv(dot_raw(a, b), SCALE as int)
}

/// Unscaled cross product.
pub open spec fn cross_raw(a: V3, b: V3) -> V3 {
    V3 { x: a.y * b.z - a.z * b.y, y: a.z * b.x - a.x * b.z, z: a.x * b.y - a.y * b.x }
}

/// Fixed-point cross product.
pub open spec fn v3_cross(a: V3, b: V3) -> V3 {
    V3 {
        x: tdiv(cross_raw(a, b).x, SCALE as int),
        y: tdiv(cross_raw(a, b).y, SCALE as int),
        z: tdiv(cross_raw(a, b).z, SCALE as int),
    }
}

/// Squared length in raw (unscaled) form: `SCALE * SCALE` times the real
/// squared length.
pub open spec fn norm2_raw(a: V3) -> int {
    dot_raw(a, a)
}

/// Fixed-point length: the integer square root of the raw squared length.
pub open spec fn v3_magnitude(a: V3) -> int {
    sqrt_floor(norm2_raw(a))
}

/// Fixed-point unit vector; the zero vector is its own degenerate result.
pub open spec fn v3_normalize(a: V3) -> V3 {
    if v3_magnitude(a) == 0 {
        v3_zero()
    } else {
        v3_div(a, v3_magnitude(a))
    }
}

/// All three components lie in `[-b, b]`.
pub open spec fn bounded(a: V3, b: int) -> bool {
    -b <= a.x <= b && -b <= a.y <= b && -b <= a.z <= b
}

/// A squared component is at most the raw squared length.
proof fn lemma_comp_sq_le_norm2(a: V3)
    ensures
        0 <= a.x * a.x <= norm2_raw(a),
        0 <= a.y * a.y <= norm2_raw(a),
        0 <= a.z * a.z <= norm2_raw(a),
        0 <= norm2_raw(a),
{
    lemma_square_nonneg(a.x);
    lemma_square_nonneg(a.y);
    lemma_square_nonneg(a.z);
}

/// An integer whose square is within `q` lies within the floor root of `q`.
proof fn lemma_sq_within_root(c: int, q: int, m: int) by (nonlinear_arith)
    requires
        c * c <= q,
        q < (m + 1) * (m + 1),
        0 <= m,
    ensures
        -m <= c <= m,
{
}

/// The magnitude of a component never exceeds the vector's magnitude.
proof fn lemma_comp_le_magnitude(a: V3)
    ensures
        -v3_magnitude(a) <= a.x <= v3_magnitude(a),
        -v3_magnitude(a) <= a.y <= v3_magnitude(a),
        -v3_magnitude(a) <= a.z <= v3_magnitude(a),
        0 <= v3_magnitude(a),
{
    lemma_comp_sq_le_norm2(a);
    let q = norm2_raw(a);
    let m = v3_magnitude(a);
    lemma_sqrt_floor(q);
    lemma_sq_within_root(a.x, q, m);
    lemma_sq_within_root(a.y, q, m);
    lemma_sq_within_root(a.z, q, m);
}

/// Dividing a component by a magnitude that bounds it keeps it within one
/// unit.
pub proof fn lemma_unit_div_bounded(c: int, m: int)
    requires
        1 <= m,
        -m <= c <= m,
    ensures
        -(SCALE as int) <= fx_div(c, m) <= SCALE as int,
{
    lemma_tdiv_mul_bound(c * SCALE, m);
    let t = tdiv(c * SCALE, m);
    let u = abs(t) as int;
    assert(abs(c * SCALE) <= m * SCALE);
    assert(u <= SCALE as int) by (nonlinear_arith)
        requires
            u * m <= m * (SCALE as int),
            1 <= m,
            0 <= u,
    ;
}

/// Normalization keeps every component within one unit.
pub proof fn lemma_normalize_bounded(a: V3)
    ensures
        bounded(v3_normalize(a), SCALE as int),
{
    let m = v3_magnitude(a);
    lemma_comp_le_magnitude(a);
    if m != 0 {
        lemma_unit_div_bounded(a.x, m);
        lemma_unit_div_bounded(a.y, m);
        lemma_unit_div_bounded(a.z, m);
    }
}

/// The ray-tracing vector: fixed-point components.
#[derive(Clone, Copy, PartialEq, Eq, Structural, Debug)]
pub struct Vector {
    pub x: i128,
    pub y: i128,
    pub z: i128,
}

impl View for Vector {
    type V = V3;

    open spec fn view(&self) -> V3 {
        V3 { x: self.x as int, y: self.y as int, z: self.z as int }
    }
}

impl Vector {
    pub fn new(x: i128, y: i128, z: i128) -> (v: Vector)
        ensures
            v@ == (V3 { x: x as int, y: y as int, z: z as int }),
    {
        Vector { x, y, z }
    }

    /// Componentwise sum.
    pub fn add(self, other: Vector) -> (r: Vector)
        requires
            bounded(self@, VEC_MAX as int),
            bounded(other@, VEC_MAX as int),
        ensures
            r@ == v3_add(self@, other@),
    {
        Vector { x: self.x + other.x, y: self.y + other.y, z: self.z + other.z }
    }

    /// Componentwise difference.
    pub fn sub(self, other: Vector) -> (r: Vector)
        requires
            bounded(self@, VEC_MAX as int),
            bounded(other@, VEC_MAX as int),
        ensures
            r@ == v3_sub(self@, other@),
    {
        Vector { x: self.x - other.x, y: self.y - other.y, z: self.z - other.z }
    }

    /// Componentwise negation.
    pub fn neg(self) -> (r: Vector)
        requires
            bounded(self@, VEC_MAX as int),
        ensures
            r@ == v3_neg(self@),
    {
        Vector { x: -self.x, y: -self.y, z: -self.z }
    }

    /// Multiplication by a fixed-point scalar.
    pub fn scale(self, k: i128) -> (r: Vector)
        requires
            bounded(self@, VEC_MAX as int),
            -VEC_MAX <= k <= VEC_MAX,
        ensures
            r@ == v3_scale(self@, k as int),
    {
        proof {
            lemma_mul_bounds(self.x as int, VEC_MAX as int, k as int, VEC_MAX as int);
            lemma_mul_bounds(self.y as int, VEC_MAX as int, k as int, VEC_MAX as int);
            lemma_mul_bounds(self.z as int, VEC_MAX as int, k as int, VEC_MAX as int);
        }
        Vector { x: mul_fixed(self.x, k), y: mul_fixed(self.y, k), z: mul_fixed(self.z, k) }
    }

    /// Division by a fixed-point scalar.
    pub fn div_by(self, k: i128) -> (r: Vector)
        requires
            k != 0,
            k > i128::MIN,
            bounded(self@, VEC_MAX as int),
        ensures
            r@ == v3_div(self@, k as int),
    {
        Vector { x: div_fixed(self.x, k), y: div_fixed(self.y, k), z: div_fixed(self.z, k) }
    }

    /// Fixed-point dot product.
    pub fn dot_product(v1: Vector, v2: Vector) -> (r: i128)
        requires
            bounded(v1@, VEC_MAX as int),
            bounded(v2@, VEC_MAX as int),
        ensures
            r == v3_dot(v1@, v2@),
    {
        proof {
            lemma_mul_bounds(v1.x as int, VEC_MAX as int, v2.x as int, VEC_MAX as int);
            lemma_mul_bounds(v1.y as int, VEC_MAX as int, v2.y as int, VEC_MAX as int);
            lemma_mul_bounds(v1.z as int, VEC_MAX as int, v2.z as int, VEC_MAX as int);
        }
        (v1.x * v2.x + v1.y * v2.y + v1.z * v2.z) / SCALE
    }

    /// Fixed-point cross product.
    pub fn cross_product(v1: Vector, v2: Vector) -> (r: Vector)
        requires
            bounded(v1@, VEC_MAX as int),
            bounded(v2@, VEC_MAX as int),
        ensures
            r@ == v3_cross(v1@, v2@),
    {
        proof {
            lemma_mul_bounds(v1.y as int, VEC_MAX as int, v2.z as int, VEC_MAX as int);
            lemma_mul_bounds(v1.z as int, VEC_MAX as int, v2.y as int, VEC_MAX as int);
            lemma_mul_bounds(v1.z as int, VEC_MAX as int, v2.x as int, VEC_MAX as int);
            lemma_mul_bounds(v1.x as int, VEC_MAX as int, v2.z as int, VEC_MAX as int);
            lemma_mul_bounds(v1.x as int, VEC_MAX as int, v2.y as int, VEC_MAX as int);
            lemma_mul_bounds(v1.y as int, VEC_MAX as int, v2.x as int, VEC_MAX as int);
        }
        Vector {
            x: (v1.y * v2.z - v1.z * v2.y) / SCALE,
            y: (v1.z * v2.x - v1.x * v2.z) / SCALE,
            z: (v1.x * v2.y - v1.y * v2.x) / SCALE,
        }
    }

    /// Fixed-point length.
    pub fn magnitude(self) -> (r: i128)
        requires
            bounded(self@, VEC_MAX as int),
        ensures
            r == v3_magnitude(self@),
            0 <= r,
    {
        proof {
            lemma_comp_sq_le_norm2(self@);
            lemma_mul_bounds(self.x as int, VEC_MAX as int, self.x as int, VEC_MAX as int);
            lemma_mul_bounds(self.y as int, VEC_MAX as int, self.y as int, VEC_MAX as int);
            lemma_mul_bounds(self.z as int, VEC_MAX as int, self.z as int, VEC_MAX as int);
            lemma_sqrt_floor(norm2_raw(self@));
            lemma_mul_bounds(2 * VEC_MAX as int, 2 * VEC_MAX as int, 2 * VEC_MAX as int, 2
                * VEC_MAX as int);
            lemma_sqrt_le(norm2_raw(self@), 2 * VEC_MAX as int);
        }
        let q: u128 = (self.x * self.x + self.y * self.y + self.z * self.z) as u128;
        isqrt(q) as i128
    }

    /// Fixed-point unit vector; the zero vector is returned unchanged, as the
    /// degenerate sentinel of normalization.
    pub fn normalize(self) -> (r: Vector)
        requires
            bounded(self@, VEC_MAX as int),
        ensures
            r@ == v3_normalize(self@),
            bounded(r@, SCALE as int),
    {
        proof {
            lemma_normalize_bounded(self@);
        }
        let m = self.magnitude();
        if m == 0 {
            Vector { x: 0, y: 0, z: 0 }
        } else {
            self.div_by(m)
        }
    }
}

/// Bound on a single componentwise product inside a raw dot or cross
/// product.
pub const RAW_MAX: i128 = 0x100_0000_0000_0000_0000_0000_0000_0000;

/// Raw (unscaled) dot product, exact: the intersection tests decide on it.
pub fn dot_raw_exec(v1: Vector, v2: Vector) -> (r: i128)
    requires
        -RAW_MAX <= v1@.x * v2@.x <= RAW_MAX,
        -RAW_MAX <= v1@.y * v2@.y <= RAW_MAX,
        -RAW_MAX <= v1@.z * v2@.z <= RAW_MAX,
    ensures
        r == dot_raw(v1@, v2@),
{
    v1.x * v2.x + v1.y * v2.y + v1.z * v2.z
}

/// Raw (unscaled) cross product, exact.
pub fn cross_raw_exec(v1: Vector, v2: Vector) -> (r: Vector)
    requires
        -RAW_MAX <= v1@.y * v2@.z <= RAW_MAX,
        -RAW_MAX <= v1@.z * v2@.y <= RAW_MAX,
        -RAW_MAX <= v1@.z * v2@.x <= RAW_MAX,
        -RAW_MAX <= v1@.x * v2@.z <= RAW_MAX,
        -RAW_MAX <= v1@.x * v2@.y <= RAW_MAX,
        -RAW_MAX <= v1@.y * v2@.x <= RAW_MAX,
    ensures
        r@ == cross_raw(v1@, v2@),
{
    Vector {
        x: v1.y * v2.z - v1.z * v2.y,
        y: v1.z * v2.x - v1.x * v2.z,
        z: v1.x * v2.y - v1.y * v2.x,
    }
}

/// Squaring preserves an ordering of non-negative products.
proof fn lemma_sq_prod_le(u: int, m: int, v: int, s: int) by (nonlinear_arith)
    requires
        0 <= u,
        0 <= m,
        0 <= v,
        0 <= s,
        u * m <= v * s,
    ensures
        (u * u) * (m * m) <= (v * v) * (s * s),
{
}

/// Squaring a floor-division lower bound: if `m * u` misses `v * s` by less
/// than `m`, the squares miss by less than `2 * v * s * m`.
proof fn lemma_sq_prod_ge(u: int, m: int, v: int, s: int) by (nonlinear_arith)
    requires
        0 <= u,
        1 <= m,
        0 <= v,
        0 < s,
        m * u >= v * s - m,
    ensures
        (u * u) * (m * m) >= (v * v) * (s * s) - 2 * ((v * s) * m),
{
}

/// One component of a normalization: its square times the squared magnitude
/// approximates the squared component times the squared scale from below
/// and above.
proof fn lemma_norm_comp(c: int, m: int)
    requires
        1 <= m,
    ensures
        (tdiv(c * SCALE, m) * tdiv(c * SCALE, m)) * (m * m) <= (c * c) * ((SCALE as int) * (
        SCALE as int)),
        (tdiv(c * SCALE, m) * tdiv(c * SCALE, m)) * (m * m) >= (c * c) * ((SCALE as int) * (
        SCALE as int)) - 2 * (((abs(c) as int) * (SCALE as int)) * m),
{
    let s = SCALE as int;
    let t = tdiv(c * SCALE, m);
    let u = abs(t) as int;
    let v = abs(c) as int;
    lemma_tdiv_mul_bound(c * SCALE, m);
    assert(abs(c * SCALE) == v * s);
    assert(u == t || u == -t);
    assert(v == c || v == -c);
    assert(u * u == t * t) by (nonlinear_arith)
        requires
            u == t || u == -t,
    ;
    assert(v * v == c * c) by (nonlinear_arith)
        requires
            v == c || v == -c,
    ;
    lemma_sq_prod_le(u, m, v, s);
    if c >= 0 {
        vstd::arithmetic::div_mod::lemma_div_pos_is_pos(c * SCALE, m);
        assert(u == (v * s) / m);
    } else {
        vstd::arithmetic::div_mod::lemma_div_pos_is_pos(-(c * SCALE), m);
        assert(-(c * SCALE) == v * s);
        assert(u == (v * s) / m);
    }
    vstd::arithmetic::div_mod::lemma_fundamental_div_mod(v * s, m);
    vstd::arithmetic::div_mod::lemma_mod_bound(v * s, m);
    assert(m * u >= v * s - m);
    lemma_sq_prod_ge(u, m, v, s);
}

/// Normalizing a non-zero vector yields a vector of unit length, within the
/// rounding slack of fixed-point arithmetic: the magnitude lands in
/// `[SCALE - 5, SCALE * (m + 1) / m)`, where `m` is the original magnitude.
pub proof fn lemma_normalize_magnitude(a: V3)
    requires
        v3_magnitude(a) >= 1,
    ensures
        v3_magnitude(v3_normalize(a)) * v3_magnitude(a) < (SCALE as int) * (v3_magnitude(a) + 1),
        SCALE as int - 5 <= v3_magnitude(v3_normalize(a)),
{
    let s = SCALE as int;
    let q = norm2_raw(a);
    let m = v3_magnitude(a);
    lemma_comp_sq_le_norm2(a);
    lemma_sqrt_floor(q);
    let n = v3_normalize(a);
    assert(n.x == tdiv(a.x * SCALE, m));
    assert(n.y == tdiv(a.y * SCALE, m));
    assert(n.z == tdiv(a.z * SCALE, m));
    let qp = norm2_raw(n);
    lemma_comp_sq_le_norm2(n);
    let mp = v3_magnitude(n);
    lemma_sqrt_floor(qp);
    lemma_norm_comp(a.x, m);
    lemma_norm_comp(a.y, m);
    lemma_norm_comp(a.z, m);
    let vx = abs(a.x) as int;
    let vy = abs(a.y) as int;
    let vz = abs(a.z) as int;
    let t = vx + vy + vz;
    assert(vx == a.x || vx == -a.x);
    assert(vy == a.y || vy == -a.y);
    assert(vz == a.z || vz == -a.z);
    assert(vx * vx == a.x * a.x && vy * vy == a.y * a.y && vz * vz == a.z * a.z)
        by (nonlinear_arith)
        requires
            vx == a.x || vx == -a.x,
            vy == a.y || vy == -a.y,
            vz == a.z || vz == -a.z,
    ;
    assert(qp * (m * m) <= q * (s * s)) by (nonlinear_arith)
        requires
            qp == n.x * n.x + n.y * n.y + n.z * n.z,
            q == a.x * a.x + a.y * a.y + a.z * a.z,
            (n.x * n.x) * (m * m) <= (a.x * a.x) * (s * s),
            (n.y * n.y) * (m * m) <= (a.y * a.y) * (s * s),
            (n.z * n.z) * (m * m) <= (a.z * a.z) * (s * s),
    ;
    assert(qp * (m * m) < ((m + 1) * (m + 1)) * (s * s)) by (nonlinear_arith)
        requires
            qp * (m * m) <= q * (s * s),
            q < (m + 1) * (m + 1),
            0 < s,
    ;
    assert(mp * m < (m + 1) * s) by (nonlinear_arith)
        requires
            mp * mp <= qp,
            qp * (m * m) < ((m + 1) * (m + 1)) * (s * s),
            0 <= mp,
            1 <= m,
            0 < s,
    ;
    assert(qp * (m * m) >= q * (s * s) - 2 * ((t * s) * m)) by (nonlinear_arith)
        requires
            qp == n.x * n.x + n.y * n.y + n.z * n.z,
            q == a.x * a.x + a.y * a.y + a.z * a.z,
            t == vx + vy + vz,
            (n.x * n.x) * (m * m) >= (a.x * a.x) * (s * s) - 2 * ((vx * s) * m),
            (n.y * n.y) * (m * m) >= (a.y * a.y) * (s * s) - 2 * ((vy * s) * m),
            (n.z * n.z) * (m * m) >= (a.z * a.z) * (s * s) - 2 * ((vz * s) * m),
    ;
    assert(t * t <= 3 * q) by (nonlinear_arith)
        requires
            t == vx + vy + vz,
            vx * vx == a.x * a.x,
            vy * vy == a.y * a.y,
            vz * vz == a.z * a.z,
            q == a.x * a.x + a.y * a.y + a.z * a.z,
    ;
    assert(t <= 2 * m + 1) by (nonlinear_arith)
        requires
            t * t <= 3 * q,
            q < (m + 1) * (m + 1),
            0 <= t,
            0 <= m,
    ;
    assert(qp >= s * s - 8 * s) by (nonlinear_arith)
        requires
            qp * (m * m) >= q * (s * s) - 2 * ((t * s) * m),
            t <= 2 * m + 1,
            q >= m * m,
            1 <= m,
            0 <= qp,
            s == 65536,
    ;
    assert(mp >= s - 5) by (nonlinear_arith)
        requires
            qp < (mp + 1) * (mp + 1),
            qp >= s * s - 8 * s,
            0 <= mp,
            s == 65536,
    ;
}

/// The dot product does not depend on the order of its operands.
pub proof fn lemma_dot_symmetric(a: V3, b: V3)
    ensures
        v3_dot(a, b) == v3_dot(b, a),
{
    assert(dot_raw(a, b) == dot_raw(b, a)) by (nonlinear_arith);
}

/// Swapping the operands of the cross product negates it.
pub proof fn lemma_cross_antisymmetric(a: V3, b: V3)
    ensures
        v3_cross(a, b) == v3_neg(v3_cross(b, a)),
{
    assert(cross_raw(a, b).x == -cross_raw(b, a).x && cross_raw(a, b).y == -cross_raw(b, a).y
        && cross_raw(a, b).z == -cross_raw(b, a).z) by (nonlinear_arith);
    lemma_tdiv_neg(cross_raw(b, a).x, SCALE as int);
    lemma_tdiv_neg(cross_raw(b, a).y, SCALE as int);
    lemma_tdiv_neg(cross_raw(b, a).z, SCALE as int);
}

} // verus!
