//! Disc-shaped ("bokeh") blur, built from a sum of complex Gaussian kernels.
//!
//! A disc kernel is approximated by a small family of complex Gaussian
//! components; each component is separable, so a blur pass is a horizontal
//! 1-D convolution followed by a vertical one, and the per-component results
//! are folded into one real image with the component weights.
//!
//! Floating-point arithmetic cannot be verified here, so this crate verifies
//! everything around it: the parameter tables that define a kernel family,
//! the flat image buffer and its row-major addressing, the tap geometry of
//! the separable convolution (including the exact policy of dropping taps
//! that fall outside the image), mask compositing, and the validation of a
//! blur call. The numeric leaf operations are left to the caller, which
//! executes the convolution plans produced here.

pub mod convolve;
pub mod error;
pub mod image;
pub mod mask;
pub mod params;
pub mod pipeline;
pub mod validate;

pub use crate::error::BlurError;
pub use crate::image::Image;
pub use crate::params::KernelParamSet;
