//! Core of a slideshow engine: a cooperative event timer, a non-linear
//! velocity curve, an image-fit computation, and the incremental reveal
//! transitions that uncover each new image, all paced by a playlist
//! controller.  Rendering and file loading are left to the host; the
//! library emits plain draw operations and consumes plain pixel buffers.

mod canvas;
mod fitter;
mod frame;
mod random;
mod slideshow;
mod sync_timer;
mod text;
mod transitions;
mod utils;
mod velocity;

pub use canvas::{Canvas, DrawOp};
pub use fitter::{fit, fit_frame, letterbox, FitError, FitGeometry};
pub use frame::{Frame, Rgba};
pub use slideshow::{ConfigError, SlideShow, LOAD_IMAGE_DELAY};
pub use sync_timer::{SyncEvent, SyncTimer};
pub use transitions::distortion::{Dim, Distortion, RATE_SCALE};
pub use transitions::fade::Fade;
pub use transitions::pixels::{Pixel, Pixels};
pub use transitions::quads::{Quad, Quads};
pub use transitions::slides::{Direction, Slide, Slides, SLIDE_VELOCITY};
pub use transitions::sphere::{Sphere, SphereDim};
pub use transitions::transition::{SimpleTransition, Transition};
pub use text::str_eq;
pub use utils::format_duration;
pub use velocity::{StepsVelocity, VELOCITY_SCALE};
