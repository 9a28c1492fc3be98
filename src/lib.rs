//! Cross-fading a looping sequence of same-sized still images.
//!
//! The pipeline is a pure transform: pixels are blended by an integer
//! weight, each pair of consecutive images yields a run of frames, and the
//! runs of all pairs, the last image wrapping back to the first, make up
//! one loop of the animation.
pub mod pixel;
pub mod raster;
pub mod animation;
pub mod sidecar;
pub mod config;
pub mod paths;
