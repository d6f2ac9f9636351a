//! Tools for games: reading Valve-220 `.map` levels and the bookkeeping of
//! their geometry, clocks for animations, the parts of a camera rig, and the numbering of the
//! triangles of generated meshes.
//!
//! Every executable function here carries a contract over a mathematical
//! model of its data, and the contract is proved.

pub mod dolly;
pub mod egui_helper;
pub mod meshes;
pub mod tween;
pub mod valve_maps;
