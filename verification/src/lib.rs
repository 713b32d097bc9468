//! A per-sample dynamic-range compressor in fixed-point arithmetic.
//!
//! Given a detector level, the compressor works out a gain that lowers levels
//! above a threshold by a ratio, with a soft knee and with attack and release
//! smoothing in the decibel domain.
//!
//! - [`fixed`]: the numbers everything is computed in.
//! - [`curve`]: the soft-knee static gain curve.
//! - [`detector`]: the decoupled peak detector that smooths the gain reduction.
//! - [`compressor`]: the gain computer that ties them together.
//!
//! Each of the three parts has a companion module of laws that are proved of
//! its specification: [`curve_laws`], [`detector_laws`], [`compressor_laws`].

pub mod fixed;
pub mod curve;
pub mod curve_laws;
pub mod detector;
pub mod detector_laws;
pub mod compressor;
pub mod compressor_laws;

pub use compressor::Action;
pub use compressor::Compressor;
pub use compressor::Event;
pub use detector::DecoupledPeakDetector;
pub use fixed::Fixed;
