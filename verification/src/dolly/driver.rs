//! What a part of a camera rig does.

use vstd::prelude::*;
use crate::dolly::transform::CameraTransform;

verus! {

/// A part of a camera rig: it turns the transform of the part before it
/// into its own.
pub trait RigDriver {
    /// The transform that this part gives for the transform `parent` of the
    /// part before it, where the part says so. A part that says nothing
    /// promises nothing.
    open spec fn updated(&self, parent: CameraTransform) -> Option<CameraTransform> {
        None
    }

    /// The transform of this part, given that of the part before it.
    fn update(&mut self, parent: &CameraTransform) -> (r: CameraTransform)
        ensures
            old(self).updated(*parent) matches Some(transform) ==> r == transform,
    ;
}

} // verus!
