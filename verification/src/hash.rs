//! 256-bit hashes.

use vstd::prelude::*;

verus! {

/// A 256-bit hash, big end first.
#[derive(Clone, Copy, PartialEq, Eq, Structural, Hash, Debug)]
pub struct H256 {
    /// The upper 128 bits.
    pub hi: u128,
    /// The lower 128 bits.
    pub lo: u128,
}

impl Default for H256 {
    /// The hash whose bits are all zero.
    fn default() -> (hash: H256)
        ensures
            hash.hi == 0,
            hash.lo == 0,
    {
        H256 { hi: 0, lo: 0 }
    }
}

} // verus!
