//! The part that sets the rotation.

use vstd::prelude::*;
use bevy::math::Quat;
use crate::dolly::driver::RigDriver;
use crate::dolly::transform::CameraTransform;

verus! {

/// Sets the rotation of the camera, and keeps the position.
#[derive(Debug)]
pub struct Rotation {
    pub rotation: Quat,
}

impl Rotation {
    /// A part that sets the rotation `rotation`.
    pub fn new(rotation: Quat) -> (r: Rotation)
        ensures
            r.rotation == rotation,
    {
        Rotation { rotation }
    }
}

impl RigDriver for Rotation {
    open spec fn updated(&self, parent: CameraTransform) -> Option<CameraTransform> {
        Some(CameraTransform { position: parent.position, rotation: self.rotation })
    }

    fn update(&mut self, parent: &CameraTransform) -> (r: CameraTransform)
        ensures
            *final(self) == *old(self),
    {
        CameraTransform { position: parent.position, rotation: self.rotation }
    }
}

} // verus!
