//! A position with a rotation.

use vstd::prelude::*;
use bevy::math::{Quat, Vec3};

verus! {

/// A vector of three numbers of `bevy::math`. Nothing is said of what it
/// holds: it is handed on.
#[verifier::external_type_specification]
#[verifier::external_body]
pub struct ExVec3(Vec3);

/// A rotation of `bevy::math`. Nothing is said of what it holds: it is
/// handed on.
#[verifier::external_type_specification]
#[verifier::external_body]
pub struct ExQuat(Quat);

/// Where a camera is and how it is turned.
#[derive(Clone, Copy, Debug)]
pub struct CameraTransform {
    pub position: Vec3,
    pub rotation: Quat,
}

impl CameraTransform {
    /// The transform at `position`, turned by `rotation`.
    pub fn from_position_rotation(position: Vec3, rotation: Quat) -> (r: CameraTransform)
        ensures
            r.position == position,
            r.rotation == rotation,
    {
        CameraTransform { position, rotation }
    }

    /// The position and the rotation.
    pub fn into_position_rotation(self) -> (r: (Vec3, Quat))
        ensures
            r.0 == self.position,
            r.1 == self.rotation,
    {
        (self.position, self.rotation)
    }
}

} // verus!
