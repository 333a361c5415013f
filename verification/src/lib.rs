//! A retained-mode 2D box-model scene renderer.
//!
//! The crate keeps a tree of styled rectangular containers (plus leaf text
//! nodes) and, given externally computed layout rectangles, produces a
//! deterministic, ordered stream of drawing primitives for a pluggable
//! rasterization backend.

pub mod commons;
pub mod render;
