//! Integer core of a progressive Julia-set renderer.
//!
//! The crate holds every decision the renderer takes that does not need
//! floating point or a display: which spectral band a wavelength falls in and
//! which ramps colour it, how an escape-time orbit is counted, how the image
//! is cut into scanline jobs for a worker pool, and how the presentation loop
//! reacts to pixels, input and the frame clock. Callers supply the
//! floating-point arithmetic and the window.

pub mod dispatch;
pub mod escape;
pub mod pacing;
pub mod pipeline;
pub mod presenter;
pub mod raster;
pub mod spectrum;
