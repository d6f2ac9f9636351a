//! The parts of a camera rig.

pub mod arm;
pub mod position;
pub mod rotation;
