//! Block headers and the identifiers by which they are requested.

use vstd::prelude::*;

verus! {

/// Number of a block in the chain.
pub type BlockNumber = u64;

/// A 32-byte content hash.
#[derive(Clone, Copy, Debug, PartialEq, Eq)]
pub struct H256 {
    pub bytes: [u8; 32],
}

/// A block header. The store reads only `number`; the hashes are carried along.
#[derive(Clone, Copy, Debug, PartialEq, Eq)]
pub struct BlockHeader {
    pub number: BlockNumber,
    pub hash: H256,
    pub parent_hash: H256,
}

/// The body of a block. No store in this crate keeps bodies.
#[derive(Clone, Debug, PartialEq, Eq)]
pub struct BlockBody {
    pub transactions: Vec<Vec<u8>>,
}

/// Names a block either by its number or by its hash.
#[derive(Clone, Copy, Debug, PartialEq, Eq)]
pub enum BlockId {
    Number(BlockNumber),
    Hash(H256),
}

impl H256 {
    /// The hash whose bytes are all zero.
    pub fn zero() -> (h: H256)
        ensures
            forall|i: int| 0 <= i < 32 ==> h.bytes@[i] == 0u8,
    {
        H256 { bytes: [0u8; 32] }
    }
}

} // verus!
