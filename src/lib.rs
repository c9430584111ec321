//! Resolution and colour-depth reduction of raster pixel buffers.
//!
//! The library shrinks an interleaved pixel buffer to a coarse grid, expands it
//! back to its original size and collapses every channel to a few levels. Each
//! step is stated over mathematical models of the buffers and proved.
//!
//! - [`grid`]: the row-major buffer model, block sums and means, coordinate scaling.
//! - [`interpolation`]: the resampling trait; [`nearest`] and [`average`] implement it.
//! - [`quantize`]: bit-depth reduction and the bound on the levels it leaves.
//! - [`pipeline`]: downsample, upsample and quantize in one run.
//! - [`cli`]: what a user asks for, and the run it selects.
//! - [`transformer`]: block averaging and whole-factor pixel repetition on three channels.
//! - [`format`], [`error`], [`text`]: pixel layouts, errors and their messages.

pub mod format;
pub mod grid;
pub mod text;
pub mod error;
pub mod interpolation;
pub mod nearest;
pub mod average;
pub mod quantize;
pub mod pipeline;
pub mod cli;
pub mod transformer;

pub use format::{ImageInfo, PixelFormat};
pub use error::{InterpolationError, UserFacingError};
pub use interpolation::InterpolationAlgorithm;
pub use average::AverageAreaInterpolation;
pub use nearest::NearestNeighborInterpolation;
pub use quantize::reduce_bit_depth;
pub use pipeline::run_interpolation;
pub use cli::{Algorithm, Args, run};
