//! Positions of the highest and lowest set bit of a 128-bit unsigned integer.
//!
//! Bits are numbered from the low end: index 0 is the least significant bit and
//! index 127 the most significant one. Zero has no set bit, so both scans reject it.
use vstd::prelude::*;

pub mod bits;
pub mod laws;
pub mod scan;

pub use scan::{least_significant_bit, most_significant_bit};

verus! {

/// A 128-bit unsigned integer as it arrives from the caller.
#[derive(Clone, Copy, Debug, PartialEq, Eq)]
pub struct U128Wrapper {
    pub value: u128,
}

/// Why a scan, or the boundary around it, produced no index.
#[derive(Clone, Copy, Debug, PartialEq, Eq, Structural)]
pub enum BitScanError {
    /// The input could not be read as a 128-bit unsigned integer.
    DecodeError,
    /// The input is zero, which has no set bit.
    ZeroInput,
    /// The index could not be handed back to the caller.
    EncodeError,
}

} // verus!
