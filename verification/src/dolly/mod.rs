//! The parts of a camera rig: the transform that each part hands to the
//! next, and the parts that set the position or the rotation.

pub mod driver;
pub mod drivers;
pub mod transform;
