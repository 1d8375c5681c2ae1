//! The camera: an orthonormal basis, a virtual lens plane, and the mapping
//! from (possibly fractional) pixel coordinates to world-space rays.

use vstd::prelude::*;
use crate::fixed::{SCALE, HALF_SCALE, tdiv, fx_mul, fx_div, lemma_mul_bounds};
use crate::math::{
    Vector, V3, v3_add, v3_sub, v3_neg, v3_scale, v3_cross, v3_normalize, v3_zero, v3_magnitude,
    bounded, lemma_unit_div_bounded,
};
use crate::util::{Ray, COORD_MAX};

verus! {

/// Bound on screen dimensions in fixed-point pixels.
pub const SCREEN_MAX: i128 = 0x10_0000_0000;

/// Bound on the lens plane's corner coordinates.
pub const CORNER_MAX: i128 = 0x400_0000;

/// A geometric degeneracy: a zero look direction, or one parallel to the
/// world up vector, from which no camera basis can be built.
#[derive(Clone, Copy, PartialEq, Eq, Structural, Debug)]
pub struct DegenerateGeometry;

/// A height/width pair of fixed-point scalars.
#[derive(Clone, Copy)]
pub struct Dimensions {
    pub height: i128,
    pub width: i128,
}

impl Dimensions {
    pub fn new(height: i128, width: i128) -> (d: Dimensions)
        ensures
            d.height == height,
            d.width == width,
    {
        Dimensions { height, width }
    }
}

/// The world's fixed up direction.
pub open spec fn world_up() -> V3 {
    V3 { x: 0, y: SCALE as int, z: 0 }
}

/// Basis vector pointing against the look direction.
pub open spec fn spec_w(dir: V3) -> V3 {
    v3_neg(v3_normalize(dir))
}

/// Basis vector pointing right along the lens.
pub open spec fn spec_u(dir: V3) -> V3 {
    v3_normalize(v3_cross(world_up(), spec_w(dir)))
}

/// Basis vector pointing up along the lens.
pub open spec fn spec_v(dir: V3) -> V3 {
    v3_cross(spec_w(dir), spec_u(dir))
}

/// The construction is degenerate: a zero look direction, or one parallel
/// to the world up vector.
pub open spec fn spec_degenerate(dir: V3) -> bool {
    v3_magnitude(dir) == 0 || v3_cross(world_up(), spec_w(dir)) == v3_zero()
}

/// The top-left corner of the lens plane.
pub open spec fn spec_corner(p: V3, dir: V3, lh: int, lw: int) -> V3 {
    v3_sub(v3_add(p, v3_scale(spec_v(dir), tdiv(lh, 2))), v3_scale(spec_u(dir), tdiv(lw, 2)))
}

/// The camera: immutable after construction; `u`, `v`, `w` and the lens
/// corner are derived once from the position, look direction and world up.
#[derive(Clone, Copy)]
pub struct Camera {
    pub position: Vector,
    pub focal_distance: i128,
    pub lens_dimensions: Dimensions,
    pub screen_dimensions: Dimensions,
    pub u: Vector,
    pub v: Vector,
    pub w: Vector,
    pub lens_top_left_corner: Vector,
}

/// The world-space direction of the ray through pixel `(row, col)`: from
/// the lens corner, down by the lens-relative row, right by the
/// lens-relative column, forward by the focal distance.
pub open spec fn spec_generate_dir(cam: Camera, row: int, col: int) -> V3 {
    let qr = fx_div(row + HALF_SCALE, cam.screen_dimensions.height as int);
    let mr = fx_mul(cam.lens_dimensions.height as int, qr);
    let qc = fx_div(col + HALF_SCALE, cam.screen_dimensions.width as int);
    let mc = fx_mul(cam.lens_dimensions.width as int, qc);
    v3_sub(
        v3_add(v3_sub(cam.lens_top_left_corner@, v3_scale(cam.v@, mr)), v3_scale(cam.u@, mc)),
        v3_scale(cam.w@, cam.focal_distance as int),
    )
}

impl Camera {
    /// The bounds under which ray generation is overflow-free and produces
    /// a well-formed ray.
    pub open spec fn wf(self) -> bool {
        bounded(self.position@, COORD_MAX as int) && bounded(self.u@, SCALE as int) && bounded(
            self.v@,
            2 * SCALE as int,
        ) && bounded(self.w@, SCALE as int) && bounded(
            self.lens_top_left_corner@,
            CORNER_MAX as int,
        ) && 0 <= self.focal_distance <= COORD_MAX && 1 <= self.lens_dimensions.height <= COORD_MAX
            && 1 <= self.lens_dimensions.width <= COORD_MAX && SCALE
            <= self.screen_dimensions.height <= SCREEN_MAX && SCALE <= self.screen_dimensions.width
            <= SCREEN_MAX
    }

    /// Build the orthonormal basis and the lens corner.  Fails exactly on a
    /// degenerate look direction: zero, or parallel to the world up vector.
    pub fn new(
        position: Vector,
        direction: Vector,
        focal_distance: i128,
        lens_dimensions: Dimensions,
        screen_dimensions: Dimensions,
    ) -> (r: Result<Camera, DegenerateGeometry>)
        requires
            bounded(position@, COORD_MAX as int),
            bounded(direction@, COORD_MAX as int),
            0 <= focal_distance <= COORD_MAX,
            1 <= lens_dimensions.height <= COORD_MAX,
            1 <= lens_dimensions.width <= COORD_MAX,
            SCALE <= screen_dimensions.height <= SCREEN_MAX,
            SCALE <= screen_dimensions.width <= SCREEN_MAX,
        ensures
            r is Ok <==> !spec_degenerate(direction@),
            r is Ok ==> ({
                let c = r->Ok_0;
                &&& c.position == position
                &&& c.focal_distance == focal_distance
                &&& c.lens_dimensions == lens_dimensions
                &&& c.screen_dimensions == screen_dimensions
                &&& c.u@ == spec_u(direction@)
                &&& c.v@ == spec_v(direction@)
                &&& c.w@ == spec_w(direction@)
                &&& c.lens_top_left_corner@ == spec_corner(
                    position@,
                    direction@,
                    lens_dimensions.height as int,
                    lens_dimensions.width as int,
                )
                &&& c.wf()
            }),
    {
        let m = direction.magnitude();
        if m == 0 {
            return Err(DegenerateGeometry);
        }
        let w = direction.normalize().neg();
        let up = Vector::new(0, SCALE, 0);
        let cu = Vector::cross_product(up, w);
        if cu.x == 0 && cu.y == 0 && cu.z == 0 {
            return Err(DegenerateGeometry);
        }
        let u = cu.normalize();
        let v = Vector::cross_product(w, u);
        proof {
            lemma_mul_bounds(w@.y, SCALE as int, u@.z, SCALE as int);
            lemma_mul_bounds(w@.z, SCALE as int, u@.y, SCALE as int);
            lemma_mul_bounds(w@.z, SCALE as int, u@.x, SCALE as int);
            lemma_mul_bounds(w@.x, SCALE as int, u@.z, SCALE as int);
            lemma_mul_bounds(w@.x, SCALE as int, u@.y, SCALE as int);
            lemma_mul_bounds(w@.y, SCALE as int, u@.x, SCALE as int);
        }
        let half_h = lens_dimensions.height / 2;
        let half_w = lens_dimensions.width / 2;
        proof {
            lemma_mul_bounds(v@.x, 2 * SCALE as int, half_h as int, COORD_MAX as int);
            lemma_mul_bounds(v@.y, 2 * SCALE as int, half_h as int, COORD_MAX as int);
            lemma_mul_bounds(v@.z, 2 * SCALE as int, half_h as int, COORD_MAX as int);
            lemma_mul_bounds(u@.x, SCALE as int, half_w as int, COORD_MAX as int);
            lemma_mul_bounds(u@.y, SCALE as int, half_w as int, COORD_MAX as int);
            lemma_mul_bounds(u@.z, SCALE as int, half_w as int, COORD_MAX as int);
        }
        let lens_top_left_corner = position.add(v.scale(half_h)).sub(u.scale(half_w));
        Ok(
            Camera {
                position,
                focal_distance,
                lens_dimensions,
                screen_dimensions,
                u,
                v,
                w,
                lens_top_left_corner,
            },
        )
    }

    /// The ray through pixel `(row, col)`, with fractional coordinates for
    /// sub-pixel jitter.  The direction is not normalized; consumers
    /// normalize where needed.
    pub fn generate_ray(&self, row: i128, col: i128) -> (r: Ray)
        requires
            self.wf(),
            -self.screen_dimensions.height <= row + HALF_SCALE <= self.screen_dimensions.height,
            -self.screen_dimensions.width <= col + HALF_SCALE <= self.screen_dimensions.width,
        ensures
            r.origin == self.position,
            r.direction@ == spec_generate_dir(*self, row as int, col as int),
            r.wf(),
    {
        proof {
            lemma_unit_div_bounded(row + HALF_SCALE, self.screen_dimensions.height as int);
            lemma_unit_div_bounded(col + HALF_SCALE, self.screen_dimensions.width as int);
        }
        let qr = crate::fixed::div_fixed(row + HALF_SCALE, self.screen_dimensions.height);
        let qc = crate::fixed::div_fixed(col + HALF_SCALE, self.screen_dimensions.width);
        proof {
            lemma_mul_bounds(self.lens_dimensions.height as int, COORD_MAX as int, qr as int,
                SCALE as int);
            lemma_mul_bounds(self.lens_dimensions.width as int, COORD_MAX as int, qc as int,
                SCALE as int);
        }
        let mr = crate::fixed::mul_fixed(self.lens_dimensions.height, qr);
        let mc = crate::fixed::mul_fixed(self.lens_dimensions.width, qc);
        proof {
            lemma_mul_bounds(self.v@.x, 2 * SCALE as int, mr as int, COORD_MAX as int);
            lemma_mul_bounds(self.v@.y, 2 * SCALE as int, mr as int, COORD_MAX as int);
            lemma_mul_bounds(self.v@.z, 2 * SCALE as int, mr as int, COORD_MAX as int);
            lemma_mul_bounds(self.u@.x, SCALE as int, mc as int, COORD_MAX as int);
            lemma_mul_bounds(self.u@.y, SCALE as int, mc as int, COORD_MAX as int);
            lemma_mul_bounds(self.u@.z, SCALE as int, mc as int, COORD_MAX as int);
            lemma_mul_bounds(self.w@.x, SCALE as int, self.focal_distance as int, COORD_MAX as int);
            lemma_mul_bounds(self.w@.y, SCALE as int, self.focal_distance as int, COORD_MAX as int);
            lemma_mul_bounds(self.w@.z, SCALE as int, self.focal_distance as int, COORD_MAX as int);
        }
        let direction = self.lens_top_left_corner.sub(self.v.scale(mr)).add(self.u.scale(mc)).sub(
            self.w.scale(self.focal_distance),
        );
        Ray::new(self.position, direction)
    }
}

} // verus!
