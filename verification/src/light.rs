//! Point light sources.

use vstd::prelude::*;
use crate::math::{Vector, bounded};
use crate::util::COORD_MAX;

verus! {

/// A point light: a position and a non-negative scalar intensity.
#[derive(Clone, Copy)]
pub struct Light {
    pub position: Vector,
    pub intensity: i128,
}

impl Light {
    pub fn new(p: Vector, i: i128) -> (l: Light)
        ensures
            l.position == p,
            l.intensity == i,
    {
        Light { position: p, intensity: i }
    }

    /// A scene light: in-range position, non-negative bounded intensity.
    pub open spec fn wf(self) -> bool {
        bounded(self.position@, COORD_MAX as int) && 0 <= self.intensity <= COORD_MAX
    }
}

} // verus!
