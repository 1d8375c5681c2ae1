//! Geometric primitives: surfaces, intersection tests and local shading.
//!
//! All intersection decisions are made on raw (unscaled) integer products,
//! so they are exact: a primitive is hit precisely when the real-arithmetic
//! test of its defining quadratic or linear system says so.  Hit points and
//! shading are fixed-point computations whose rounding is pinned down, step
//! by step, in the spec functions below.

use vstd::prelude::*;
use crate::fixed::{
    SCALE, tdiv, fx_mul, fx_div, sqrt_floor, isqrt, mul_fixed, div_fixed, lemma_sqrt_floor,
    lemma_sqrt_le, lemma_mul_bounds, lemma_tdiv_bound, lemma_square_nonneg,
};
use crate::math::{
    Vector, V3, v3_add, v3_sub, v3_neg, v3_scale, v3_div, v3_dot, v3_cross, v3_normalize, dot_raw,
    cross_raw, bounded, RAW_MAX, dot_raw_exec, cross_raw_exec,
};
use crate::util::{Ray, Color, COORD_MAX, POINT_MAX, ORIGIN_MAX, DIR_MAX};
use crate::light::Light;

verus! {

/// Blinn-Phong shininess exponent, shared by all surfaces.
pub const SHININESS: u32 = 50;

/// Bound on the normal vector handed to the shading equation: a stored unit
/// normal, or a sphere normal `(p - centre) / radius`.
pub const NORMAL_MAX: i128 = 0x8000_0000_0000;

/// Bound on a single light's shading contribution per channel.
pub const CONTRIB_MAX: i128 = 0x200_0000;

/// Bound on a plane's signed offset from the origin.
pub const OFFSET_MAX: i128 = 0x200_0000_0000;

/// Bound on an accepted ray parameter; a hit farther along the ray than this
/// is not representable and counts as no intersection.
pub const T_CAP: i128 = 0x4000_0000_0000_0000;

/// Reflectance coefficients of a primitive, as RGB triples in `[0, 1]`.
#[derive(Clone, Copy)]
pub struct Surface {
    pub diffuse_constant: Vector,
    pub specular_constant: Vector,
}

impl Surface {
    pub fn new(dc: Vector, sc: Vector) -> (s: Surface)
        ensures
            s.diffuse_constant == dc,
            s.specular_constant == sc,
    {
        Surface { diffuse_constant: dc, specular_constant: sc }
    }

    /// Reflectance lies in `[0, 1]` per channel.
    pub open spec fn wf(self) -> bool {
        0 <= self.diffuse_constant@.x <= SCALE as int && 0 <= self.diffuse_constant@.y
            <= SCALE as int && 0 <= self.diffuse_constant@.z <= SCALE as int && 0
            <= self.specular_constant@.x <= SCALE as int && 0 <= self.specular_constant@.y
            <= SCALE as int && 0 <= self.specular_constant@.z <= SCALE as int
    }
}

/// A cosine obtained from a dot product of unit-length vectors, clamped into
/// `[0, 1]`: rounding can push such a dot product slightly past one, and the
/// lighting equation discards negative incidence.
pub open spec fn cos_clamp(x: int) -> int {
    if x < 0 {
        0
    } else if x > SCALE as int {
        SCALE as int
    } else {
        x
    }
}

/// Iterated fixed-point power.
pub open spec fn fxpow(x: int, n: nat) -> int
    decreases n,
{
    if n == 0 {
        SCALE as int
    } else {
        fx_mul(x, fxpow(x, (n - 1) as nat))
    }
}

/// Fixed-point products commute.
pub proof fn lemma_fx_mul_comm(a: int, b: int)
    ensures
        fx_mul(a, b) == fx_mul(b, a),
{
    assert(a * b == b * a) by (nonlinear_arith);
}

/// A fixed-point product with a factor in `[0, 1]` shrinks the other
/// non-negative factor.
pub proof fn lemma_fx_mul_unit(a: int, b: int)
    requires
        0 <= a <= SCALE as int,
        0 <= b,
    ensures
        0 <= fx_mul(a, b) <= b,
{
    assert(0 <= a * b <= (SCALE as int) * b) by (nonlinear_arith)
        requires
            0 <= a <= SCALE as int,
            0 <= b,
    ;
    assert(0 <= tdiv(a * b, SCALE as int) <= b) by (nonlinear_arith)
        requires
            0 <= a * b <= (SCALE as int) * b,
            tdiv(a * b, SCALE as int) == (a * b) / (SCALE as int),
            SCALE as int > 0,
    ;
}

/// The iterated power of a factor in `[0, 1]` stays in `[0, 1]`.
pub proof fn lemma_fxpow_unit(x: int, n: nat)
    requires
        0 <= x <= SCALE as int,
    ensures
        0 <= fxpow(x, n) <= SCALE as int,
    decreases n,
{
    if n != 0 {
        lemma_fxpow_unit(x, (n - 1) as nat);
        lemma_fx_mul_unit(x, fxpow(x, (n - 1) as nat));
    }
}

/// One channel of a light term: reflectance times intensity times the
/// incidence factor.
pub open spec fn shade_channel(k: int, intensity: int, f: int) -> int {
    fx_mul(fx_mul(k, intensity), f)
}

/// The Blinn-Phong contribution of one light at one surface point, as an RGB
/// triple: diffuse plus specular, both attenuated by the clamped cosine of
/// their respective angles.
pub open spec fn blinn_phong(surface: Surface, n: V3, p: V3, d: V3, light: Light) -> V3 {
    let lvec = v3_normalize(v3_sub(light.position@, p));
    let vv = v3_normalize(v3_neg(d));
    let h = v3_normalize(v3_add(lvec, vv));
    let spow = fxpow(cos_clamp(v3_dot(n, h)), SHININESS as nat);
    let dbase = cos_clamp(v3_dot(n, lvec));
    let kd = surface.diffuse_constant@;
    let ks = surface.specular_constant@;
    let i = light.intensity as int;
    V3 {
        x: shade_channel(kd.x, i, dbase) + shade_channel(ks.x, i, spow),
        y: shade_channel(kd.y, i, dbase) + shade_channel(ks.y, i, spow),
        z: shade_channel(kd.z, i, dbase) + shade_channel(ks.z, i, spow),
    }
}

/// One shading channel is non-negative and bounded by the light intensity
/// when the reflectance and the factor lie in `[0, 1]`.
proof fn lemma_shade_channel_bounds(k: int, intensity: int, f: int)
    requires
        0 <= k <= SCALE as int,
        0 <= intensity <= COORD_MAX as int,
        0 <= f <= SCALE as int,
    ensures
        0 <= shade_channel(k, intensity, f) <= COORD_MAX as int,
{
    lemma_fx_mul_unit(k, intensity);
    lemma_fx_mul_comm(fx_mul(k, intensity), f);
    lemma_fx_mul_unit(f, fx_mul(k, intensity));
}

/// Every Blinn-Phong contribution is non-negative and bounded per channel.
pub proof fn lemma_blinn_phong_bounds(surface: Surface, n: V3, p: V3, d: V3, light: Light)
    requires
        surface.wf(),
        light.wf(),
    ensures
        0 <= blinn_phong(surface, n, p, d, light).x <= CONTRIB_MAX as int,
        0 <= blinn_phong(surface, n, p, d, light).y <= CONTRIB_MAX as int,
        0 <= blinn_phong(surface, n, p, d, light).z <= CONTRIB_MAX as int,
{
    let lvec = v3_normalize(v3_sub(light.position@, p));
    let vv = v3_normalize(v3_neg(d));
    let h = v3_normalize(v3_add(lvec, vv));
    let spow = fxpow(cos_clamp(v3_dot(n, h)), SHININESS as nat);
    let dbase = cos_clamp(v3_dot(n, lvec));
    lemma_fxpow_unit(cos_clamp(v3_dot(n, h)), SHININESS as nat);
    let i = light.intensity as int;
    lemma_shade_channel_bounds(surface.diffuse_constant@.x, i, dbase);
    lemma_shade_channel_bounds(surface.diffuse_constant@.y, i, dbase);
    lemma_shade_channel_bounds(surface.diffuse_constant@.z, i, dbase);
    lemma_shade_channel_bounds(surface.specular_constant@.x, i, spow);
    lemma_shade_channel_bounds(surface.specular_constant@.y, i, spow);
    lemma_shade_channel_bounds(surface.specular_constant@.z, i, spow);
}

/// Clamp a dot product into the unit interval.
fn cos_clamp_exec(x: i128) -> (r: i128)
    ensures
        r == cos_clamp(x as int),
{
    if x < 0 {
        0
    } else if x > SCALE {
        SCALE
    } else {
        x
    }
}

/// Iterated fixed-point power of a factor in `[0, 1]`.
fn pow_fixed(x: i128, n: u32) -> (r: i128)
    requires
        0 <= x <= SCALE,
    ensures
        r == fxpow(x as int, n as nat),
        0 <= r <= SCALE,
{
    let mut k: u32 = 0;
    let mut p: i128 = SCALE;
    proof {
        lemma_fxpow_unit(x as int, 0);
    }
    while k < n
        invariant
            0 <= k <= n,
            0 <= x <= SCALE,
            p == fxpow(x as int, k as nat),
            0 <= p <= SCALE,
        decreases n - k,
    {
        proof {
            lemma_fx_mul_unit(x as int, p as int);
        }
        p = mul_fixed(x, p);
        k = k + 1;
        proof {
            lemma_fx_mul_comm(x as int, fxpow(x as int, (k - 1) as nat));
        }
        assert(p == fxpow(x as int, k as nat));
    }
    p
}

/// One shading channel.
fn shade_channel_exec(k: i128, intensity: i128, f: i128) -> (r: i128)
    requires
        0 <= k <= SCALE,
        0 <= intensity <= COORD_MAX,
        0 <= f <= SCALE,
    ensures
        r == shade_channel(k as int, intensity as int, f as int),
        0 <= r <= COORD_MAX,
{
    proof {
        lemma_shade_channel_bounds(k as int, intensity as int, f as int);
        lemma_mul_bounds(k as int, SCALE as int, intensity as int, COORD_MAX as int);
        lemma_fx_mul_unit(k as int, intensity as int);
        lemma_mul_bounds(fx_mul(k as int, intensity as int), COORD_MAX as int, f as int,
            SCALE as int);
    }
    mul_fixed(mul_fixed(k, intensity), f)
}

/// The Blinn-Phong contribution of one light at one surface point.
fn shade(surface: &Surface, normal: Vector, point: Vector, ray_dir: Vector, light: &Light) -> (c:
    Color)
    requires
        surface.wf(),
        light.wf(),
        bounded(normal@, NORMAL_MAX as int),
        bounded(point@, POINT_MAX as int),
        bounded(ray_dir@, DIR_MAX as int),
    ensures
        c@ == blinn_phong(*surface, normal@, point@, ray_dir@, *light),
{
    let lvec = light.position.sub(point).normalize();
    let vv = ray_dir.neg().normalize();
    let h = lvec.add(vv).normalize();
    let sbase = cos_clamp_exec(Vector::dot_product(normal, h));
    let spow = pow_fixed(sbase, SHININESS);
    let dbase = cos_clamp_exec(Vector::dot_product(normal, lvec));
    let i = light.intensity;
    let dx = shade_channel_exec(surface.diffuse_constant.x, i, dbase);
    let dy = shade_channel_exec(surface.diffuse_constant.y, i, dbase);
    let dz = shade_channel_exec(surface.diffuse_constant.z, i, dbase);
    let sx = shade_channel_exec(surface.specular_constant.x, i, spow);
    let sy = shade_channel_exec(surface.specular_constant.y, i, spow);
    let sz = shade_channel_exec(surface.specular_constant.z, i, spow);
    Color::new(dx + sx, dy + sy, dz + sz)
}

/// An executable hit result agrees with a specified one: same presence, same
/// point, and the point is representable.
pub open spec fn hit_matches(spec_hit: Option<V3>, p: Option<Vector>) -> bool {
    match p {
        Some(v) => spec_hit == Some(v@) && bounded(v@, POINT_MAX as int),
        None => spec_hit is None,
    }
}

/// The capability set shared by every primitive: intersection test, hit
/// point, and local shading.
pub trait Object: Sized {
    /// The primitive is a valid scene object.
    spec fn wf(&self) -> bool;

    /// The exact intersection decision for a ray.
    spec fn spec_intersects(&self, o: V3, d: V3) -> bool;

    /// The nearest valid forward hit point, if it exists and is
    /// representable.
    spec fn spec_hit(&self, o: V3, d: V3) -> Option<V3>;

    /// The Blinn-Phong contribution of one light at one surface point.
    spec fn spec_shade(&self, p: V3, d: V3, light: Light) -> V3;

    /// Shading contributions are non-negative and bounded per channel.
    proof fn shade_bounds(&self, p: V3, d: V3, light: Light)
        requires
            self.wf(),
            light.wf(),
        ensures
            0 <= self.spec_shade(p, d, light).x <= CONTRIB_MAX as int,
            0 <= self.spec_shade(p, d, light).y <= CONTRIB_MAX as int,
            0 <= self.spec_shade(p, d, light).z <= CONTRIB_MAX as int,
    ;

    /// True iff a valid forward intersection exists.
    fn is_intersected_by(&self, ray: &Ray) -> (b: bool)
        requires
            self.wf(),
            ray.wf(),
        ensures
            b == self.spec_intersects(ray.origin@, ray.direction@),
    ;

    /// The position of the nearest valid forward intersection, if any.
    fn get_point_intersected_by(&self, ray: &Ray) -> (p: Option<Vector>)
        requires
            self.wf(),
            ray.wf(),
        ensures
            hit_matches(self.spec_hit(ray.origin@, ray.direction@), p),
    ;

    /// The Blinn-Phong contribution of one light at one surface point; does
    /// not itself check visibility.
    fn compute_color(&self, point: &Vector, ray: &Ray, light: &Light) -> (c: Color)
        requires
            self.wf(),
            ray.wf(),
            bounded(point@, POINT_MAX as int),
            light.wf(),
        ensures
            c@ == self.spec_shade(point@, ray.direction@, *light),
    ;
}

/// A sphere: centre, positive radius, surface.
#[derive(Clone, Copy)]
pub struct Sphere {
    pub center: Vector,
    pub radius: i128,
    pub surface: Surface,
}

/// Quadratic coefficient `a` of the sphere equation along a ray.
pub open spec fn sphere_a(d: V3) -> int {
    dot_raw(d, d)
}

/// Quadratic coefficient `b`.
pub open spec fn sphere_b(s: Sphere, o: V3, d: V3) -> int {
    2 * dot_raw(v3_sub(o, s.center@), d)
}

/// Quadratic coefficient `c`.
pub open spec fn sphere_c(s: Sphere, o: V3) -> int {
    dot_raw(v3_sub(o, s.center@), v3_sub(o, s.center@)) - (s.radius as int) * (s.radius as int)
}

/// Discriminant of the sphere quadratic.
pub open spec fn sphere_disc(s: Sphere, o: V3, d: V3) -> int {
    sphere_b(s, o, d) * sphere_b(s, o, d) - 4 * (sphere_a(d) * sphere_c(s, o))
}

/// Both roots of the quadratic are strictly positive: with `a > 0` this is
/// exactly a real discriminant, a negative root sum coefficient and a
/// positive root product, so the decision needs no square root.  A
/// zero-length direction (`a == 0`) is degenerate and never intersects.
pub open spec fn spec_sphere_intersects(s: Sphere, o: V3, d: V3) -> bool {
    sphere_a(d) != 0 && sphere_disc(s, o, d) >= 0 && sphere_b(s, o, d) < 0 && sphere_c(s, o) > 0
}

/// The smaller root, as a fixed-point ray parameter.
pub open spec fn sphere_t(s: Sphere, o: V3, d: V3) -> int {
    fx_div(-sphere_b(s, o, d) - sqrt_floor(sphere_disc(s, o, d)), 2 * sphere_a(d))
}

/// The hit point at the smaller root.
pub open spec fn sphere_point(s: Sphere, o: V3, d: V3) -> V3 {
    v3_add(o, v3_scale(d, sphere_t(s, o, d)))
}

/// The sphere's hit result: the point at the smaller root, when both roots
/// are ahead of the origin and the point is representable.  The point query
/// is stricter than `spec_sphere_intersects`: a geometric hit whose point
/// falls outside `POINT_MAX` yields `None` here while the boolean test,
/// which needs no point, still answers true.
pub open spec fn spec_sphere_hit(s: Sphere, o: V3, d: V3) -> Option<V3> {
    if spec_sphere_intersects(s, o, d) && bounded(sphere_point(s, o, d), POINT_MAX as int) {
        Some(sphere_point(s, o, d))
    } else {
        None
    }
}

/// The sign test of `spec_sphere_intersects` agrees with requiring both
/// roots `(-b -+ sqrt(disc)) / (2a)` of the quadratic to be strictly
/// positive, evaluated with the floor square root.
pub proof fn lemma_sphere_decision_matches_roots(s: Sphere, o: V3, d: V3)
    requires
        sphere_a(d) != 0,
    ensures
        spec_sphere_intersects(s, o, d) <==> (sphere_disc(s, o, d) >= 0 && -sphere_b(s, o, d)
            - sqrt_floor(sphere_disc(s, o, d)) > 0 && -sphere_b(s, o, d) + sqrt_floor(
            sphere_disc(s, o, d),
        ) > 0),
{
    let a = sphere_a(d);
    let b = sphere_b(s, o, d);
    let c = sphere_c(s, o);
    let disc = sphere_disc(s, o, d);
    lemma_square_nonneg(d.x);
    lemma_square_nonneg(d.y);
    lemma_square_nonneg(d.z);
    assert(a > 0);
    if disc >= 0 {
        lemma_sqrt_floor(disc);
        let sq = sqrt_floor(disc);
        if b < 0 && c > 0 {
            assert(4 * (a * c) > 0) by (nonlinear_arith)
                requires
                    a > 0,
                    c > 0,
            ;
            assert(sq < -b) by (nonlinear_arith)
                requires
                    sq * sq <= disc,
                    disc == b * b - 4 * (a * c),
                    4 * (a * c) > 0,
                    0 <= sq,
                    b < 0,
            ;
        }
        if -b - sq > 0 && -b + sq > 0 {
            assert(b < 0);
            assert(4 * (a * c) > 0) by (nonlinear_arith)
                requires
                    disc < (sq + 1) * (sq + 1),
                    sq + 1 <= -b,
                    0 <= sq,
                    disc == b * b - 4 * (a * c),
            ;
            assert(c > 0) by (nonlinear_arith)
                requires
                    4 * (a * c) > 0,
                    a > 0,
            ;
        }
    }
}

/// The origin shifted by `k` whole copies of the direction vector.
pub open spec fn shifted_origin(o: V3, d: V3, k: int) -> V3 {
    V3 { x: o.x + k * d.x, y: o.y + k * d.y, z: o.z + k * d.z }
}

/// A negative discriminant means no real roots: the ray misses the sphere.
pub proof fn lemma_negative_discriminant_no_hit(s: Sphere, o: V3, d: V3)
    ensures
        sphere_disc(s, o, d) < 0 ==> !spec_sphere_intersects(s, o, d),
{
}

/// Translating the ray origin along the ray direction leaves the
/// discriminant unchanged, and a backward translation (away from the
/// sphere) preserves the hit.
pub proof fn lemma_sphere_translation(s: Sphere, o: V3, d: V3, k: int)
    ensures
        sphere_disc(s, shifted_origin(o, d, k), d) == sphere_disc(s, o, d),
        spec_sphere_intersects(s, o, d) && k <= 0 ==> spec_sphere_intersects(
            s,
            shifted_origin(o, d, k),
            d,
        ),
{
    let o2 = shifted_origin(o, d, k);
    let cx = s.center@.x;
    let cy = s.center@.y;
    let cz = s.center@.z;
    let a = sphere_a(d);
    let b = sphere_b(s, o, d);
    let c = sphere_c(s, o);
    let b2 = sphere_b(s, o2, d);
    let c2 = sphere_c(s, o2);
    assert((o.x + k * d.x - cx) * d.x == (o.x - cx) * d.x + k * (d.x * d.x)) by (nonlinear_arith);
    assert((o.y + k * d.y - cy) * d.y == (o.y - cy) * d.y + k * (d.y * d.y)) by (nonlinear_arith);
    assert((o.z + k * d.z - cz) * d.z == (o.z - cz) * d.z + k * (d.z * d.z)) by (nonlinear_arith);
    assert(k * (d.x * d.x + d.y * d.y + d.z * d.z) == k * (d.x * d.x) + k * (d.y * d.y) + k * (d.z
        * d.z)) by (nonlinear_arith);
    assert(b2 == b + 2 * (k * a));
    assert((o.x + k * d.x - cx) * (o.x + k * d.x - cx) == (o.x - cx) * (o.x - cx) + 2 * (k * ((o.x
        - cx) * d.x)) + (k * k) * (d.x * d.x)) by (nonlinear_arith);
    assert((o.y + k * d.y - cy) * (o.y + k * d.y - cy) == (o.y - cy) * (o.y - cy) + 2 * (k * ((o.y
        - cy) * d.y)) + (k * k) * (d.y * d.y)) by (nonlinear_arith);
    assert((o.z + k * d.z - cz) * (o.z + k * d.z - cz) == (o.z - cz) * (o.z - cz) + 2 * (k * ((o.z
        - cz) * d.z)) + (k * k) * (d.z * d.z)) by (nonlinear_arith);
    assert(k * b == 2 * (k * ((o.x - cx) * d.x)) + 2 * (k * ((o.y - cy) * d.y)) + 2 * (k * ((o.z
        - cz) * d.z))) by (nonlinear_arith)
        requires
            b == 2 * ((o.x - cx) * d.x + (o.y - cy) * d.y + (o.z - cz) * d.z),
    ;
    assert((k * k) * (d.x * d.x + d.y * d.y + d.z * d.z) == (k * k) * (d.x * d.x) + (k * k) * (d.y
        * d.y) + (k * k) * (d.z * d.z)) by (nonlinear_arith);
    assert(c2 == c + k * b + (k * k) * a);
    assert((b + 2 * (k * a)) * (b + 2 * (k * a)) == b * b + 4 * (k * (a * b)) + 4 * ((k * k) * (a
        * a))) by (nonlinear_arith);
    assert(4 * (a * (c + k * b + (k * k) * a)) == 4 * (a * c) + 4 * (k * (a * b)) + 4 * ((k * k) * (
    a * a))) by (nonlinear_arith);
    assert(b2 * b2 - 4 * (a * c2) == b * b - 4 * (a * c));
    if spec_sphere_intersects(s, o, d) && k <= 0 {
        lemma_square_nonneg(d.x);
        lemma_square_nonneg(d.y);
        lemma_square_nonneg(d.z);
        assert(k * a <= 0) by (nonlinear_arith)
            requires
                k <= 0,
                a > 0,
        ;
        assert(k * b >= 0) by (nonlinear_arith)
            requires
                k <= 0,
                b < 0,
        ;
        assert((k * k) * a >= 0) by (nonlinear_arith)
            requires
                a > 0,
        ;
        assert(b2 < 0 && c2 > 0);
    }
}

impl Sphere {
    pub fn new(center: Vector, radius: i128, surface: Surface) -> (s: Sphere)
        requires
            bounded(center@, COORD_MAX as int),
            1 <= radius <= COORD_MAX,
            surface.wf(),
        ensures
            s.center == center,
            s.radius == radius,
            s.surface == surface,
            s.wf(),
    {
        Sphere { center, radius, surface }
    }

    /// The outward surface normal at a point of the sphere.
    fn compute_normal(&self, point: &Vector) -> (n: Vector)
        requires
            self.wf(),
            bounded(point@, POINT_MAX as int),
        ensures
            n@ == v3_div(v3_sub(point@, self.center@), self.radius as int),
            bounded(n@, NORMAL_MAX as int),
    {
        proof {
            let dv = v3_sub(point@, self.center@);
            lemma_tdiv_bound(dv.x * SCALE, self.radius as int);
            lemma_tdiv_bound(dv.y * SCALE, self.radius as int);
            lemma_tdiv_bound(dv.z * SCALE, self.radius as int);
        }
        point.sub(self.center).div_by(self.radius)
    }

    /// Establishes the product bounds of the quadratic's raw dot products.
    proof fn quadratic_bounds(&self, o: V3, d: V3)
        requires
            self.wf(),
            bounded(o, ORIGIN_MAX as int),
            bounded(d, DIR_MAX as int),
        ensures
            ({
                let oc = v3_sub(o, self.center@);
                &&& -RAW_MAX <= d.x * d.x <= RAW_MAX
                &&& -RAW_MAX <= d.y * d.y <= RAW_MAX
                &&& -RAW_MAX <= d.z * d.z <= RAW_MAX
                &&& -RAW_MAX <= oc.x * d.x <= RAW_MAX
                &&& -RAW_MAX <= oc.y * d.y <= RAW_MAX
                &&& -RAW_MAX <= oc.z * d.z <= RAW_MAX
                &&& -RAW_MAX <= oc.x * oc.x <= RAW_MAX
                &&& -RAW_MAX <= oc.y * oc.y <= RAW_MAX
                &&& -RAW_MAX <= oc.z * oc.z <= RAW_MAX
                &&& 0 <= sphere_a(d) <= 0x100_0000_0000_0000
                &&& -0x4000_0000_0000_0000 <= sphere_b(*self, o, d) <= 0x4000_0000_0000_0000
                &&& -0x4_0000_0000_0000_0000 <= sphere_c(*self, o) <= 0x4_0000_0000_0000_0000
            }),
    {
        let oc = v3_sub(o, self.center@);
        lemma_mul_bounds(d.x, DIR_MAX as int, d.x, DIR_MAX as int);
        lemma_mul_bounds(d.y, DIR_MAX as int, d.y, DIR_MAX as int);
        lemma_mul_bounds(d.z, DIR_MAX as int, d.z, DIR_MAX as int);
        lemma_square_nonneg(d.x);
        lemma_square_nonneg(d.y);
        lemma_square_nonneg(d.z);
        let ocm = ORIGIN_MAX as int + COORD_MAX as int;
        lemma_mul_bounds(oc.x, ocm, d.x, DIR_MAX as int);
        lemma_mul_bounds(oc.y, ocm, d.y, DIR_MAX as int);
        lemma_mul_bounds(oc.z, ocm, d.z, DIR_MAX as int);
        lemma_mul_bounds(oc.x, ocm, oc.x, ocm);
        lemma_mul_bounds(oc.y, ocm, oc.y, ocm);
        lemma_mul_bounds(oc.z, ocm, oc.z, ocm);
        lemma_mul_bounds(self.radius as int, COORD_MAX as int, self.radius as int,
            COORD_MAX as int);
    }
}

impl Object for Sphere {
    open spec fn wf(&self) -> bool {
        bounded(self.center@, COORD_MAX as int) && 1 <= self.radius <= COORD_MAX
            && self.surface.wf()
    }

    open spec fn spec_intersects(&self, o: V3, d: V3) -> bool {
        spec_sphere_intersects(*self, o, d)
    }

    open spec fn spec_hit(&self, o: V3, d: V3) -> Option<V3> {
        spec_sphere_hit(*self, o, d)
    }

    open spec fn spec_shade(&self, p: V3, d: V3, light: Light) -> V3 {
        blinn_phong(self.surface, v3_div(v3_sub(p, self.center@), self.radius as int), p, d, light)
    }

    proof fn shade_bounds(&self, p: V3, d: V3, light: Light) {
        lemma_blinn_phong_bounds(self.surface, v3_div(v3_sub(p, self.center@), self.radius as int),
            p, d, light);
    }

    fn is_intersected_by(&self, ray: &Ray) -> (b: bool) {
        proof {
            self.quadratic_bounds(ray.origin@, ray.direction@);
        }
        let oc = ray.origin.sub(self.center);
        let a = dot_raw_exec(ray.direction, ray.direction);
        if a == 0 {
            return false;
        }
        let b = 2 * dot_raw_exec(oc, ray.direction);
        let c = dot_raw_exec(oc, oc) - self.radius * self.radius;
        proof {
            lemma_mul_bounds(b as int, 0x4000_0000_0000_0000, b as int, 0x4000_0000_0000_0000);
            lemma_mul_bounds(a as int, 0x100_0000_0000_0000, c as int, 0x4_0000_0000_0000_0000);
        }
        let bb: i128 = b * b;
        let ac4: i128 = 4 * (a * c);
        let disc = bb - ac4;
        disc >= 0 && b < 0 && c > 0
    }

    fn get_point_intersected_by(&self, ray: &Ray) -> (p: Option<Vector>) {
        proof {
            self.quadratic_bounds(ray.origin@, ray.direction@);
        }
        let oc = ray.origin.sub(self.center);
        let a = dot_raw_exec(ray.direction, ray.direction);
        if a == 0 {
            return None;
        }
        let b = 2 * dot_raw_exec(oc, ray.direction);
        let c = dot_raw_exec(oc, oc) - self.radius * self.radius;
        proof {
            lemma_mul_bounds(b as int, 0x4000_0000_0000_0000, b as int, 0x4000_0000_0000_0000);
            lemma_mul_bounds(a as int, 0x100_0000_0000_0000, c as int, 0x4_0000_0000_0000_0000);
        }
        let bb: i128 = b * b;
        let ac4: i128 = 4 * (a * c);
        let disc = bb - ac4;
        if !(disc >= 0 && b < 0 && c > 0) {
            return None;
        }
        proof {
            lemma_sqrt_floor(disc as int);
            lemma_mul_bounds(0x8000_0000_0000_0000, 0x8000_0000_0000_0000,
                0x8000_0000_0000_0000, 0x8000_0000_0000_0000);
            lemma_sqrt_le(disc as int, 0x8000_0000_0000_0000);
        }
        let sq = isqrt(disc as u128) as i128;
        let tnum = -b - sq;
        let t = div_fixed(tnum, 2 * a);
        proof {
            lemma_tdiv_bound(tnum * SCALE, 2 * sphere_a(ray.direction@));
            lemma_mul_bounds(ray.direction@.x, DIR_MAX as int, t as int,
                0x10_0000_0000_0000_0000_0000);
            lemma_mul_bounds(ray.direction@.y, DIR_MAX as int, t as int,
                0x10_0000_0000_0000_0000_0000);
            lemma_mul_bounds(ray.direction@.z, DIR_MAX as int, t as int,
                0x10_0000_0000_0000_0000_0000);
        }
        let px = ray.origin.x + mul_fixed(ray.direction.x, t);
        let py = ray.origin.y + mul_fixed(ray.direction.y, t);
        let pz = ray.origin.z + mul_fixed(ray.direction.z, t);
        if -POINT_MAX <= px && px <= POINT_MAX && -POINT_MAX <= py && py <= POINT_MAX && -POINT_MAX
            <= pz && pz <= POINT_MAX {
            Some(Vector::new(px, py, pz))
        } else {
            None
        }
    }

    fn compute_color(&self, point: &Vector, ray: &Ray, light: &Light) -> (c: Color) {
        let normal = self.compute_normal(point);
        shade(&self.surface, normal, *point, ray.direction, light)
    }
}

/// An infinite plane: unit normal and signed offset `-dot(point, normal)`.
#[derive(Clone, Copy)]
pub struct Plane {
    pub normal: Vector,
    pub distance_to_origin: i128,
    pub surface: Surface,
}

/// Denominator of the plane's ray equation: the angle between normal and
/// direction.
pub open spec fn plane_vd(pl: Plane, d: V3) -> int {
    v3_dot(pl.normal@, d)
}

/// The origin's signed offset along the normal.
pub open spec fn plane_vo(pl: Plane, o: V3) -> int {
    v3_dot(pl.normal@, o)
}

/// The ray parameter `t = -(vo + d0) / vd` is strictly positive, decided
/// without division by a sign test; a ray parallel to the plane (`vd == 0`)
/// is degenerate and never intersects.
pub open spec fn spec_plane_intersects(pl: Plane, o: V3, d: V3) -> bool {
    plane_vd(pl, d) != 0 && (plane_vo(pl, o) + pl.distance_to_origin) * plane_vd(pl, d) < 0
}

/// The ray parameter of the plane hit.
pub open spec fn plane_t(pl: Plane, o: V3, d: V3) -> int {
    fx_div(-(plane_vo(pl, o) + pl.distance_to_origin), plane_vd(pl, d))
}

/// The plane hit point.
pub open spec fn plane_point(pl: Plane, o: V3, d: V3) -> V3 {
    v3_add(o, v3_scale(d, plane_t(pl, o, d)))
}

/// The plane's hit result, when it exists and is representable.  The point
/// query is stricter than `spec_plane_intersects`: a geometric hit whose
/// point falls outside `POINT_MAX` yields `None` here while the boolean
/// test, which needs no point, still answers true.
pub open spec fn spec_plane_hit(pl: Plane, o: V3, d: V3) -> Option<V3> {
    if spec_plane_intersects(pl, o, d) && bounded(plane_point(pl, o, d), POINT_MAX as int) {
        Some(plane_point(pl, o, d))
    } else {
        None
    }
}

impl Plane {
    pub fn new(normal: Vector, point: Vector, surface: Surface) -> (pl: Plane)
        requires
            bounded(normal@, COORD_MAX as int),
            bounded(point@, COORD_MAX as int),
            surface.wf(),
        ensures
            pl.normal == normal,
            pl.distance_to_origin == -v3_dot(point@, normal@),
            pl.surface == surface,
            pl.wf(),
    {
        proof {
            lemma_mul_bounds(point@.x, COORD_MAX as int, normal@.x, COORD_MAX as int);
            lemma_mul_bounds(point@.y, COORD_MAX as int, normal@.y, COORD_MAX as int);
            lemma_mul_bounds(point@.z, COORD_MAX as int, normal@.z, COORD_MAX as int);
            crate::fixed::lemma_tdiv_mul_bound(dot_raw(point@, normal@), SCALE as int);
        }
        Plane {
            normal,
            distance_to_origin: -Vector::dot_product(point, normal),
            surface,
        }
    }

    /// Establishes the bounds of the plane's two fixed-point dot products.
    proof fn equation_bounds(&self, o: V3, d: V3)
        requires
            self.wf(),
            bounded(o, ORIGIN_MAX as int),
            bounded(d, DIR_MAX as int),
        ensures
            -0x10_0000_0000_0000 <= plane_vd(*self, d) <= 0x10_0000_0000_0000,
            -0x80_0000_0000_0000 <= plane_vo(*self, o) <= 0x80_0000_0000_0000,
            -RAW_MAX <= self.normal@.x * d.x <= RAW_MAX,
            -RAW_MAX <= self.normal@.y * d.y <= RAW_MAX,
            -RAW_MAX <= self.normal@.z * d.z <= RAW_MAX,
            -RAW_MAX <= self.normal@.x * o.x <= RAW_MAX,
            -RAW_MAX <= self.normal@.y * o.y <= RAW_MAX,
            -RAW_MAX <= self.normal@.z * o.z <= RAW_MAX,
    {
        lemma_mul_bounds(self.normal@.x, COORD_MAX as int, d.x, DIR_MAX as int);
        lemma_mul_bounds(self.normal@.y, COORD_MAX as int, d.y, DIR_MAX as int);
        lemma_mul_bounds(self.normal@.z, COORD_MAX as int, d.z, DIR_MAX as int);
        lemma_tdiv_bound(dot_raw(self.normal@, d), SCALE as int);
        lemma_mul_bounds(self.normal@.x, COORD_MAX as int, o.x, ORIGIN_MAX as int);
        lemma_mul_bounds(self.normal@.y, COORD_MAX as int, o.y, ORIGIN_MAX as int);
        lemma_mul_bounds(self.normal@.z, COORD_MAX as int, o.z, ORIGIN_MAX as int);
        lemma_tdiv_bound(dot_raw(self.normal@, o), SCALE as int);
    }
}

impl Object for Plane {
    open spec fn wf(&self) -> bool {
        bounded(self.normal@, COORD_MAX as int) && -OFFSET_MAX <= self.distance_to_origin
            <= OFFSET_MAX && self.surface.wf()
    }

    open spec fn spec_intersects(&self, o: V3, d: V3) -> bool {
        spec_plane_intersects(*self, o, d)
    }

    open spec fn spec_hit(&self, o: V3, d: V3) -> Option<V3> {
        spec_plane_hit(*self, o, d)
    }

    open spec fn spec_shade(&self, p: V3, d: V3, light: Light) -> V3 {
        blinn_phong(self.surface, self.normal@, p, d, light)
    }

    proof fn shade_bounds(&self, p: V3, d: V3, light: Light) {
        lemma_blinn_phong_bounds(self.surface, self.normal@, p, d, light);
    }

    fn is_intersected_by(&self, ray: &Ray) -> (b: bool) {
        proof {
            self.equation_bounds(ray.origin@, ray.direction@);
        }
        let vd = Vector::dot_product(self.normal, ray.direction);
        let vo = Vector::dot_product(self.normal, ray.origin);
        proof {
            lemma_mul_bounds((vo + self.distance_to_origin) as int, 0x100_0000_0000_0000,
                vd as int, 0x10_0000_0000_0000);
        }
        vd != 0 && (vo + self.distance_to_origin) * vd < 0
    }

    fn get_point_intersected_by(&self, ray: &Ray) -> (p: Option<Vector>) {
        proof {
            self.equation_bounds(ray.origin@, ray.direction@);
        }
        let vd = Vector::dot_product(self.normal, ray.direction);
        let vo = Vector::dot_product(self.normal, ray.origin);
        if vd == 0 {
            return None;
        }
        proof {
            lemma_mul_bounds((vo + self.distance_to_origin) as int, 0x100_0000_0000_0000,
                vd as int, 0x10_0000_0000_0000);
        }
        if !((vo + self.distance_to_origin) * vd < 0) {
            return None;
        }
        let t = div_fixed(-(vo + self.distance_to_origin), vd);
        proof {
            crate::fixed::lemma_fx_div_bound(-(plane_vo(*self, ray.origin@)
                + self.distance_to_origin), plane_vd(*self, ray.direction@));
            lemma_mul_bounds(ray.direction@.x, DIR_MAX as int, t as int,
                0x1000_0000_0000_0000_0000);
            lemma_mul_bounds(ray.direction@.y, DIR_MAX as int, t as int,
                0x1000_0000_0000_0000_0000);
            lemma_mul_bounds(ray.direction@.z, DIR_MAX as int, t as int,
                0x1000_0000_0000_0000_0000);
        }
        let px = ray.origin.x + mul_fixed(ray.direction.x, t);
        let py = ray.origin.y + mul_fixed(ray.direction.y, t);
        let pz = ray.origin.z + mul_fixed(ray.direction.z, t);
        if -POINT_MAX <= px && px <= POINT_MAX && -POINT_MAX <= py && py <= POINT_MAX && -POINT_MAX
            <= pz && pz <= POINT_MAX {
            Some(Vector::new(px, py, pz))
        } else {
            None
        }
    }

    fn compute_color(&self, point: &Vector, ray: &Ray, light: &Light) -> (c: Color) {
        shade(&self.surface, self.normal, *point, ray.direction, light)
    }
}

/// A triangle: three vertices, two precomputed edges, a precomputed unit
/// normal.
#[derive(Clone, Copy)]
pub struct Triangle {
    pub p0: Vector,
    pub p1: Vector,
    pub p2: Vector,
    pub u: Vector,
    pub v: Vector,
    pub normal: Vector,
    pub surface: Surface,
}

/// First auxiliary vector of the ray-triangle system.
pub open spec fn tri_h(t: Triangle, d: V3) -> V3 {
    cross_raw(d, t.v@)
}

/// The system's determinant; zero means the ray is parallel to the
/// triangle's plane.
pub open spec fn tri_a(t: Triangle, d: V3) -> int {
    dot_raw(t.u@, tri_h(t, d))
}

/// Origin offset from the first vertex.
pub open spec fn tri_s(t: Triangle, o: V3) -> V3 {
    v3_sub(o, t.p0@)
}

/// Numerator of the first barycentric coordinate.
pub open spec fn tri_unum(t: Triangle, o: V3, d: V3) -> int {
    dot_raw(tri_s(t, o), tri_h(t, d))
}

/// Second auxiliary vector.
pub open spec fn tri_q(t: Triangle, o: V3) -> V3 {
    cross_raw(tri_s(t, o), t.u@)
}

/// Numerator of the second barycentric coordinate.
pub open spec fn tri_vnum(t: Triangle, o: V3, d: V3) -> int {
    dot_raw(d, tri_q(t, o))
}

/// Numerator of the ray parameter.
pub open spec fn tri_tnum(t: Triangle, o: V3, d: V3) -> int {
    dot_raw(t.v@, tri_q(t, o))
}

/// The ray-triangle test: the barycentric coordinates `unum/a` and `vnum/a`
/// lie in the triangle and the ray parameter `tnum/a` is strictly positive,
/// decided by exact sign tests on the raw numerators.
pub open spec fn spec_triangle_intersects(t: Triangle, o: V3, d: V3) -> bool {
    let a = tri_a(t, d);
    let unum = tri_unum(t, o, d);
    let vnum = tri_vnum(t, o, d);
    let tnum = tri_tnum(t, o, d);
    a != 0 && (if a > 0 {
        0 <= unum && unum <= a && 0 <= vnum && unum + vnum <= a && tnum > 0
    } else {
        a <= unum && unum <= 0 && vnum <= 0 && unum + vnum >= a && tnum < 0
    })
}

/// The ray parameter of the triangle hit.
pub open spec fn triangle_t(t: Triangle, o: V3, d: V3) -> int {
    fx_div(tri_tnum(t, o, d), tri_a(t, d))
}

/// The triangle hit point.
pub open spec fn triangle_point(t: Triangle, o: V3, d: V3) -> V3 {
    v3_add(o, v3_scale(d, triangle_t(t, o, d)))
}

/// The triangle's hit result, when it exists, its parameter is within the
/// representable range, and its point is representable.  The point query is
/// stricter than `spec_triangle_intersects`: a geometric hit whose ray
/// parameter exceeds `T_CAP` or whose point falls outside `POINT_MAX`
/// yields `None` here while the boolean test, which needs no point, still
/// answers true.
pub open spec fn spec_triangle_hit(t: Triangle, o: V3, d: V3) -> Option<V3> {
    if spec_triangle_intersects(t, o, d) && -T_CAP <= triangle_t(t, o, d) <= T_CAP && bounded(
        triangle_point(t, o, d),
        POINT_MAX as int,
    ) {
        Some(triangle_point(t, o, d))
    } else {
        None
    }
}

impl Triangle {
    pub fn new(p0: Vector, p1: Vector, p2: Vector, surface: Surface) -> (t: Triangle)
        requires
            bounded(p0@, COORD_MAX as int),
            bounded(p1@, COORD_MAX as int),
            bounded(p2@, COORD_MAX as int),
            surface.wf(),
        ensures
            t.p0 == p0,
            t.p1 == p1,
            t.p2 == p2,
            t.u@ == v3_sub(p1@, p0@),
            t.v@ == v3_sub(p2@, p0@),
            t.normal@ == v3_normalize(v3_cross(t.u@, t.v@)),
            t.surface == surface,
            t.wf(),
    {
        let u = p1.sub(p0);
        let v = p2.sub(p0);
        proof {
            lemma_mul_bounds(u@.y, 0x200_0000, v@.z, 0x200_0000);
            lemma_mul_bounds(u@.z, 0x200_0000, v@.y, 0x200_0000);
            lemma_mul_bounds(u@.z, 0x200_0000, v@.x, 0x200_0000);
            lemma_mul_bounds(u@.x, 0x200_0000, v@.z, 0x200_0000);
            lemma_mul_bounds(u@.x, 0x200_0000, v@.y, 0x200_0000);
            lemma_mul_bounds(u@.y, 0x200_0000, v@.x, 0x200_0000);
            crate::fixed::lemma_tdiv_mul_bound(cross_raw(u@, v@).x, SCALE as int);
            crate::fixed::lemma_tdiv_mul_bound(cross_raw(u@, v@).y, SCALE as int);
            crate::fixed::lemma_tdiv_mul_bound(cross_raw(u@, v@).z, SCALE as int);
        }
        let normal = Vector::cross_product(u, v).normalize();
        Triangle { p0, p1, p2, u, v, normal, surface }
    }

    /// Establishes the product bounds of the ray-triangle system.
    proof fn system_bounds(&self, o: V3, d: V3)
        requires
            self.wf(),
            bounded(o, ORIGIN_MAX as int),
            bounded(d, DIR_MAX as int),
        ensures
            bounded(tri_h(*self, d), 0x20_0000_0000_0000),
            bounded(tri_s(*self, o), 0x1_0000_0000),
            bounded(tri_q(*self, o), 0x400_0000_0000_0000),
            -0x1_0000_0000_0000_0000_0000 <= tri_a(*self, d) <= 0x1_0000_0000_0000_0000_0000,
            -0x100_0000_0000_0000_0000_0000 <= tri_unum(*self, o, d)
                <= 0x100_0000_0000_0000_0000_0000,
            -0x100_0000_0000_0000_0000_0000 <= tri_vnum(*self, o, d)
                <= 0x100_0000_0000_0000_0000_0000,
            -0x100_0000_0000_0000_0000_0000 <= tri_tnum(*self, o, d)
                <= 0x100_0000_0000_0000_0000_0000,
            -RAW_MAX <= d.y * self.v@.z <= RAW_MAX,
            -RAW_MAX <= d.z * self.v@.y <= RAW_MAX,
            -RAW_MAX <= d.z * self.v@.x <= RAW_MAX,
            -RAW_MAX <= d.x * self.v@.z <= RAW_MAX,
            -RAW_MAX <= d.x * self.v@.y <= RAW_MAX,
            -RAW_MAX <= d.y * self.v@.x <= RAW_MAX,
            -RAW_MAX <= self.u@.x * tri_h(*self, d).x <= RAW_MAX,
            -RAW_MAX <= self.u@.y * tri_h(*self, d).y <= RAW_MAX,
            -RAW_MAX <= self.u@.z * tri_h(*self, d).z <= RAW_MAX,
            -RAW_MAX <= tri_s(*self, o).x * tri_h(*self, d).x <= RAW_MAX,
            -RAW_MAX <= tri_s(*self, o).y * tri_h(*self, d).y <= RAW_MAX,
            -RAW_MAX <= tri_s(*self, o).z * tri_h(*self, d).z <= RAW_MAX,
            -RAW_MAX <= tri_s(*self, o).y * self.u@.z <= RAW_MAX,
            -RAW_MAX <= tri_s(*self, o).z * self.u@.y <= RAW_MAX,
            -RAW_MAX <= tri_s(*self, o).z * self.u@.x <= RAW_MAX,
            -RAW_MAX <= tri_s(*self, o).x * self.u@.z <= RAW_MAX,
            -RAW_MAX <= tri_s(*self, o).x * self.u@.y <= RAW_MAX,
            -RAW_MAX <= tri_s(*self, o).y * self.u@.x <= RAW_MAX,
            -RAW_MAX <= d.x * tri_q(*self, o).x <= RAW_MAX,
            -RAW_MAX <= d.y * tri_q(*self, o).y <= RAW_MAX,
            -RAW_MAX <= d.z * tri_q(*self, o).z <= RAW_MAX,
            -RAW_MAX <= self.v@.x * tri_q(*self, o).x <= RAW_MAX,
            -RAW_MAX <= self.v@.y * tri_q(*self, o).y <= RAW_MAX,
            -RAW_MAX <= self.v@.z * tri_q(*self, o).z <= RAW_MAX,
    {
        let em = 0x200_0000;
        let hm = 0x20_0000_0000_0000;
        let sm = 0x1_0000_0000;
        let qm = 0x400_0000_0000_0000;
        lemma_mul_bounds(d.y, DIR_MAX as int, self.v@.z, em);
        lemma_mul_bounds(d.z, DIR_MAX as int, self.v@.y, em);
        lemma_mul_bounds(d.z, DIR_MAX as int, self.v@.x, em);
        lemma_mul_bounds(d.x, DIR_MAX as int, self.v@.z, em);
        lemma_mul_bounds(d.x, DIR_MAX as int, self.v@.y, em);
        lemma_mul_bounds(d.y, DIR_MAX as int, self.v@.x, em);
        lemma_mul_bounds(self.u@.x, em, tri_h(*self, d).x, hm);
        lemma_mul_bounds(self.u@.y, em, tri_h(*self, d).y, hm);
        lemma_mul_bounds(self.u@.z, em, tri_h(*self, d).z, hm);
        lemma_mul_bounds(tri_s(*self, o).x, sm, tri_h(*self, d).x, hm);
        lemma_mul_bounds(tri_s(*self, o).y, sm, tri_h(*self, d).y, hm);
        lemma_mul_bounds(tri_s(*self, o).z, sm, tri_h(*self, d).z, hm);
        lemma_mul_bounds(tri_s(*self, o).y, sm, self.u@.z, em);
        lemma_mul_bounds(tri_s(*self, o).z, sm, self.u@.y, em);
        lemma_mul_bounds(tri_s(*self, o).z, sm, self.u@.x, em);
        lemma_mul_bounds(tri_s(*self, o).x, sm, self.u@.z, em);
        lemma_mul_bounds(tri_s(*self, o).x, sm, self.u@.y, em);
        lemma_mul_bounds(tri_s(*self, o).y, sm, self.u@.x, em);
        lemma_mul_bounds(d.x, DIR_MAX as int, tri_q(*self, o).x, qm);
        lemma_mul_bounds(d.y, DIR_MAX as int, tri_q(*self, o).y, qm);
        lemma_mul_bounds(d.z, DIR_MAX as int, tri_q(*self, o).z, qm);
        lemma_mul_bounds(self.v@.x, em, tri_q(*self, o).x, qm);
        lemma_mul_bounds(self.v@.y, em, tri_q(*self, o).y, qm);
        lemma_mul_bounds(self.v@.z, em, tri_q(*self, o).z, qm);
    }
}

impl Object for Triangle {
    open spec fn wf(&self) -> bool {
        bounded(self.p0@, COORD_MAX as int) && bounded(self.p1@, COORD_MAX as int) && bounded(
            self.p2@,
            COORD_MAX as int,
        ) && self.u@ == v3_sub(self.p1@, self.p0@) && self.v@ == v3_sub(self.p2@, self.p0@)
            && self.normal@ == v3_normalize(v3_cross(self.u@, self.v@)) && bounded(
            self.normal@,
            SCALE as int,
        ) && self.surface.wf()
    }

    open spec fn spec_intersects(&self, o: V3, d: V3) -> bool {
        spec_triangle_intersects(*self, o, d)
    }

    open spec fn spec_hit(&self, o: V3, d: V3) -> Option<V3> {
        spec_triangle_hit(*self, o, d)
    }

    open spec fn spec_shade(&self, p: V3, d: V3, light: Light) -> V3 {
        blinn_phong(self.surface, self.normal@, p, d, light)
    }

    proof fn shade_bounds(&self, p: V3, d: V3, light: Light) {
        lemma_blinn_phong_bounds(self.surface, self.normal@, p, d, light);
    }

    fn is_intersected_by(&self, ray: &Ray) -> (b: bool) {
        proof {
            self.system_bounds(ray.origin@, ray.direction@);
        }
        let h = cross_raw_exec(ray.direction, self.v);
        let a = dot_raw_exec(self.u, h);
        if a == 0 {
            return false;
        }
        let s = ray.origin.sub(self.p0);
        let unum = dot_raw_exec(s, h);
        let q = cross_raw_exec(s, self.u);
        let vnum = dot_raw_exec(ray.direction, q);
        let tnum = dot_raw_exec(self.v, q);
        if a > 0 {
            0 <= unum && unum <= a && 0 <= vnum && unum + vnum <= a && tnum > 0
        } else {
            a <= unum && unum <= 0 && vnum <= 0 && unum + vnum >= a && tnum < 0
        }
    }

    fn get_point_intersected_by(&self, ray: &Ray) -> (p: Option<Vector>) {
        proof {
            self.system_bounds(ray.origin@, ray.direction@);
        }
        let h = cross_raw_exec(ray.direction, self.v);
        let a = dot_raw_exec(self.u, h);
        if a == 0 {
            return None;
        }
        let s = ray.origin.sub(self.p0);
        let unum = dot_raw_exec(s, h);
        let q = cross_raw_exec(s, self.u);
        let vnum = dot_raw_exec(ray.direction, q);
        let tnum = dot_raw_exec(self.v, q);
        let inside = if a > 0 {
            0 <= unum && unum <= a && 0 <= vnum && unum + vnum <= a && tnum > 0
        } else {
            a <= unum && unum <= 0 && vnum <= 0 && unum + vnum >= a && tnum < 0
        };
        if !inside {
            return None;
        }
        let t = div_fixed(tnum, a);
        if t < -T_CAP || t > T_CAP {
            return None;
        }
        proof {
            lemma_mul_bounds(ray.direction@.x, DIR_MAX as int, t as int, T_CAP as int);
            lemma_mul_bounds(ray.direction@.y, DIR_MAX as int, t as int, T_CAP as int);
            lemma_mul_bounds(ray.direction@.z, DIR_MAX as int, t as int, T_CAP as int);
        }
        let px = ray.origin.x + mul_fixed(ray.direction.x, t);
        let py = ray.origin.y + mul_fixed(ray.direction.y, t);
        let pz = ray.origin.z + mul_fixed(ray.direction.z, t);
        if -POINT_MAX <= px && px <= POINT_MAX && -POINT_MAX <= py && py <= POINT_MAX && -POINT_MAX
            <= pz && pz <= POINT_MAX {
            Some(Vector::new(px, py, pz))
        } else {
            None
        }
    }

    fn compute_color(&self, point: &Vector, ray: &Ray, light: &Light) -> (c: Color) {
        shade(&self.surface, self.normal, *point, ray.direction, light)
    }
}

/// The closed set of primitive shapes a scene may hold, dispatched by match.
#[derive(Clone, Copy)]
pub enum Primitive {
    Sphere(Sphere),
    Plane(Plane),
    Triangle(Triangle),
}

impl Object for Primitive {
    open spec fn wf(&self) -> bool {
        match *self {
            Primitive::Sphere(s) => s.wf(),
            Primitive::Plane(pl) => pl.wf(),
            Primitive::Triangle(t) => t.wf(),
        }
    }

    open spec fn spec_intersects(&self, o: V3, d: V3) -> bool {
        match *self {
            Primitive::Sphere(s) => s.spec_intersects(o, d),
            Primitive::Plane(pl) => pl.spec_intersects(o, d),
            Primitive::Triangle(t) => t.spec_intersects(o, d),
        }
    }

    open spec fn spec_hit(&self, o: V3, d: V3) -> Option<V3> {
        match *self {
            Primitive::Sphere(s) => s.spec_hit(o, d),
            Primitive::Plane(pl) => pl.spec_hit(o, d),
            Primitive::Triangle(t) => t.spec_hit(o, d),
        }
    }

    open spec fn spec_shade(&self, p: V3, d: V3, light: Light) -> V3 {
        match *self {
            Primitive::Sphere(s) => s.spec_shade(p, d, light),
            Primitive::Plane(pl) => pl.spec_shade(p, d, light),
            Primitive::Triangle(t) => t.spec_shade(p, d, light),
        }
    }

    proof fn shade_bounds(&self, p: V3, d: V3, light: Light) {
        match *self {
            Primitive::Sphere(s) => s.shade_bounds(p, d, light),
            Primitive::Plane(pl) => pl.shade_bounds(p, d, light),
            Primitive::Triangle(t) => t.shade_bounds(p, d, light),
        }
    }

    fn is_intersected_by(&self, ray: &Ray) -> (b: bool) {
        match self {
            Primitive::Sphere(s) => s.is_intersected_by(ray),
            Primitive::Plane(pl) => pl.is_intersected_by(ray),
            Primitive::Triangle(t) => t.is_intersected_by(ray),
        }
    }

    fn get_point_intersected_by(&self, ray: &Ray) -> (p: Option<Vector>) {
        match self {
            Primitive::Sphere(s) => s.get_point_intersected_by(ray),
            Primitive::Plane(pl) => pl.get_point_intersected_by(ray),
            Primitive::Triangle(t) => t.get_point_intersected_by(ray),
        }
    }

    fn compute_color(&self, point: &Vector, ray: &Ray, light: &Light) -> (c: Color) {
        match self {
            Primitive::Sphere(s) => s.compute_color(point, ray, light),
            Primitive::Plane(pl) => pl.compute_color(point, ray, light),
            Primitive::Triangle(t) => t.compute_color(point, ray, light),
        }
    }
}

} // verus!
