//! Rays and colours.

use vstd::prelude::*;
use vstd::math::min;
use crate::fixed::{SCALE, tdiv};
use crate::math::{Vector, V3, v3_add, bounded};

verus! {

/// Bound on scene-description coordinates (centres, vertices, light
/// positions, camera parameters).
pub const COORD_MAX: i128 = 0x100_0000;

/// Bound on computed intersection points; a hit whose point falls outside
/// this range is not representable and counts as no intersection.
pub const POINT_MAX: i128 = 0x4000_0000;

/// Bound on ray origins: a scene coordinate or a computed hit point, plus a
/// one-step self-intersection offset.
pub const ORIGIN_MAX: i128 = 0x8000_0000;

/// Bound on ray directions.
pub const DIR_MAX: i128 = 0x800_0000;

/// Bound on colour channels during accumulation.
pub const CHAN_MAX: i128 = 0x10_0000_0000_0000_0000_0000_0000;

/// A half-line: origin plus direction.  The direction need not be unit
/// length; consumers normalize where the mathematics requires it.
#[derive(Clone, Copy)]
pub struct Ray {
    pub origin: Vector,
    pub direction: Vector,
}

impl Ray {
    pub fn new(origin: Vector, direction: Vector) -> (r: Ray)
        ensures
            r.origin == origin,
            r.direction == direction,
    {
        Ray { origin, direction }
    }

    /// The bounds under which every intersection test on this ray is
    /// overflow-free.
    pub open spec fn wf(self) -> bool {
        bounded(self.origin@, ORIGIN_MAX as int) && bounded(self.direction@, DIR_MAX as int)
    }
}

/// Each channel capped at one; channels are never negative by construction,
/// so no lower cap is applied.
pub open spec fn v3_clamp_upper(c: V3) -> V3 {
    V3 {
        x: min(c.x, SCALE as int),
        y: min(c.y, SCALE as int),
        z: min(c.z, SCALE as int),
    }
}

/// Each channel divided by a sample count, rounding toward zero.
pub open spec fn v3_div_count(c: V3, n: int) -> V3 {
    V3 { x: tdiv(c.x, n), y: tdiv(c.y, n), z: tdiv(c.z, n) }
}

/// An RGB triple of fixed-point channels; a channel value of `SCALE` is full
/// intensity.
#[derive(Clone, Copy, PartialEq, Eq, Structural, Debug)]
pub struct Color {
    pub r: i128,
    pub g: i128,
    pub b: i128,
}

impl View for Color {
    type V = V3;

    open spec fn view(&self) -> V3 {
        V3 { x: self.r as int, y: self.g as int, z: self.b as int }
    }
}

impl Color {
    pub fn new(r: i128, g: i128, b: i128) -> (c: Color)
        ensures
            c@ == (V3 { x: r as int, y: g as int, z: b as int }),
    {
        Color { r, g, b }
    }

    /// Cap each channel at full intensity.
    pub fn clamp(&mut self)
        ensures
            final(self)@ == v3_clamp_upper(old(self)@),
    {
        if self.r > SCALE {
            self.r = SCALE;
        }
        if self.g > SCALE {
            self.g = SCALE;
        }
        if self.b > SCALE {
            self.b = SCALE;
        }
    }

    /// Channelwise sum.
    pub fn add(self, other: Color) -> (c: Color)
        requires
            bounded(self@, CHAN_MAX as int),
            bounded(other@, CHAN_MAX as int),
        ensures
            c@ == v3_add(self@, other@),
    {
        Color { r: self.r + other.r, g: self.g + other.g, b: self.b + other.b }
    }

    /// Channelwise accumulation.
    pub fn add_assign(&mut self, other: Color)
        requires
            bounded(old(self)@, CHAN_MAX as int),
            bounded(other@, CHAN_MAX as int),
        ensures
            final(self)@ == v3_add(old(self)@, other@),
    {
        self.r = self.r + other.r;
        self.g = self.g + other.g;
        self.b = self.b + other.b;
    }

    /// Channelwise division by a sample count.
    pub fn div_by(self, n: u32) -> (c: Color)
        requires
            n > 0,
            bounded(self@, CHAN_MAX as int),
        ensures
            c@ == v3_div_count(self@, n as int),
    {
        Color { r: self.r / (n as i128), g: self.g / (n as i128), b: self.b / (n as i128) }
    }
}

/// Clamping is idempotent, and the identity on colours whose channels are
/// already at most one.
pub proof fn lemma_clamp_idempotent(c: V3)
    ensures
        v3_clamp_upper(v3_clamp_upper(c)) == v3_clamp_upper(c),
        (c.x <= SCALE as int && c.y <= SCALE as int && c.z <= SCALE as int) ==> v3_clamp_upper(c)
            == c,
{
}

} // verus!
