//! The grammar of the `.map` text format.

pub mod base;
pub mod common;
pub mod formats;
pub mod text;
