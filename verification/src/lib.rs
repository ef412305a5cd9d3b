//! Distance kernels over fixed-length integer vectors.
//!
//! The crate has three layers. [`number`] defines the capabilities of an
//! element type. [`vectors`] holds the element-by-element kernels, written
//! once for every element type. [`simd`] holds fixed-width lane vectors and
//! the kernels that process their input in chunks of one lane vector; each is
//! proved to return what the element-by-element kernel returns.

pub mod number;
pub mod simd;
pub mod vectors;

pub use number::variants::{IInt, Int, UInt};
pub use number::Number;
pub use vectors::utils::abs_diff_iter;
pub use vectors::{euclidean_sq, DistanceError};
pub use simd::u32x16::U32x16;
pub use simd::u32x4::U32x4;
pub use simd::u32x8::U32x8;
