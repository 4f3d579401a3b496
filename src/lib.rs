//! Decomposition of single-precision (binary32) bit patterns into their
//! sign, biased exponent and mantissa fields, decoding of those fields into
//! exact numeric components, and reassembly of the components into a bit
//! pattern.
//!
//! Every value here is exact: the significand is held in fixed point with
//! `MANTISSA_BITS` fraction bits and the exponent as a power of two, so the
//! contracts speak of integers only.
pub mod decode;
pub mod laws;
pub mod layout;
pub mod reconstruct;

pub use decode::{decode, BIAS};
pub use layout::{to_parts, MANTISSA_BITS};
pub use reconstruct::from_parts;
