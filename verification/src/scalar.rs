//! Single-precision numbers carried through the library by their bit pattern.

use vstd::prelude::*;

verus! {

/// An IEEE-754 single-precision number, held as its 32 bits.
///
/// The library moves such numbers from the records to the caller and never
/// computes with them, so the bit pattern is all it keeps.
#[derive(Clone, Copy, Debug, PartialEq, Eq, Hash, Structural)]
pub struct Scalar {
    pub bits: u32,
}

impl Scalar {
    /// The number whose bit pattern is `bits`.
    pub fn from_bits(bits: u32) -> (s: Scalar)
        ensures
            s.bits == bits,
    {
        Scalar { bits }
    }

    /// The bit pattern of the number.
    pub fn to_bits(&self) -> (bits: u32)
        ensures
            bits == self.bits,
    {
        self.bits
    }
}

} // verus!
