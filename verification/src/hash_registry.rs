//! The hash functions that a session may be configured with, and their sizes.

use vstd::prelude::*;

verus! {

/// All supported hash functions.
#[allow(non_camel_case_types)]
#[derive(Clone, Copy, Debug, PartialEq, Eq, Structural)]
pub enum HashFunction {
    Blake2b,
    SHA3_256,
}

impl HashFunction {
    /// The block size of the hash function, in bytes.
    pub open spec fn spec_block_len(self) -> nat {
        match self {
            HashFunction::Blake2b => 128,
            HashFunction::SHA3_256 => 136,
        }
    }

    /// The digest size of the hash function, in bytes.
    pub open spec fn spec_digest_len(self) -> nat {
        match self {
            HashFunction::Blake2b => 64,
            HashFunction::SHA3_256 => 32,
        }
    }

    /// Returns the block size in bytes.
    pub fn block_len(&self) -> (len: usize)
        ensures
            len == self.spec_block_len(),
    {
        match self {
            HashFunction::Blake2b => 128,
            HashFunction::SHA3_256 => 136,
        }
    }

    /// Returns the expected hash size in bytes.
    pub fn digest_len(&self) -> (len: usize)
        ensures
            len == self.spec_digest_len(),
    {
        match self {
            HashFunction::Blake2b => 64,
            HashFunction::SHA3_256 => 32,
        }
    }
}

} // verus!
