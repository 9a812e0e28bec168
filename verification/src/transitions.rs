//! The reveal effects.  Each variant keeps its own state, takes a new
//! fitted image through `update_image`, and advances one increment per
//! `draw` call, recording plain draw operations; `transition::Transition`
//! closes the set of variants for dispatch by name.

pub mod distortion;
pub mod fade;
pub mod pixels;
pub mod quads;
pub mod slides;
pub mod sphere;
pub mod transition;
