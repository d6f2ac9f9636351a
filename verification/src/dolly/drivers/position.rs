//! The part that sets the position.

use vstd::prelude::*;
use bevy::math::Vec3;
use crate::dolly::driver::RigDriver;
use crate::dolly::transform::CameraTransform;

verus! {

/// Sets the position of the camera, and keeps the rotation.
#[derive(Debug)]
pub struct Position {
    pub position: Vec3,
}

impl Position {
    /// A part that sets the position `position`.
    pub fn new(position: Vec3) -> (r: Position)
        ensures
            r.position == position,
    {
        Position { position }
    }
}

impl RigDriver for Position {
    open spec fn updated(&self, parent: CameraTransform) -> Option<CameraTransform> {
        Some(CameraTransform { position: self.position, rotation: parent.rotation })
    }

    fn update(&mut self, parent: &CameraTransform) -> (r: CameraTransform)
        ensures
            *final(self) == *old(self),
    {
        CameraTransform { position: self.position, rotation: parent.rotation }
    }
}

} // verus!
