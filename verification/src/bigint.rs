//! Arbitrary-precision signed integers.
//!
//! A [`BigInt`] is a sign together with a magnitude held as a sequence of
//! limbs in base [`BASE`], least-significant limb first. Every operation is
//! specified by the mathematical integer that the value denotes.

pub mod arith;
pub mod compare;
pub mod convert;
pub mod convert_traits;
pub mod derived;
pub mod laws;
pub mod limbs;
pub mod magnitude;
pub mod number;
pub mod text;
pub mod toom;

pub use limbs::{BASE, BASE_WIDTH};
pub use convert_traits::ToBigInt;
pub use number::BigInt;
pub use text::BigIntError;
