//! Real-valued settings and weights.

use vstd::prelude::*;

verus! {

/// A double-precision number carried by its IEEE-754 bit pattern.
///
/// Thresholds, weights and durations that the guard's configuration gives as
/// real numbers travel through the library in this form: the library selects,
/// stores and hands them back, and never does arithmetic on them.
#[derive(Debug, Clone, Copy, PartialEq, Eq, Structural)]
pub struct Real {
    pub bits: u64,
}

/// The IEEE-754 bit pattern of 1.0.
pub const ONE_BITS: u64 = 0x3FF0_0000_0000_0000;

impl Real {
    /// The number whose bit pattern is `bits`.
    pub fn from_bits(bits: u64) -> (r: Real)
        ensures
            r.bits == bits,
    {
        Real { bits }
    }
}

} // verus!
