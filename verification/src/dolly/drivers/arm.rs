//! The part that holds the camera at a distance.

use vstd::prelude::*;
use bevy::math::Vec3;

verus! {

/// Offsets the camera along a vector, in the space of the part before it.
#[derive(Debug)]
pub struct Arm {
    pub offset: Vec3,
}

impl Arm {
    /// An arm with the offset `offset`.
    pub fn new(offset: Vec3) -> (r: Arm)
        ensures
            r.offset == offset,
    {
        Arm { offset }
    }
}

} // verus!
