use vstd::prelude::*;
use crate::crypto::CryptoHash;
use crate::reference::Reference;

verus! {

/// What a node reports about a block, as much of it as the pipeline reads.
#[derive(Debug, Clone, Copy, PartialEq, Eq)]
pub struct BlockInfo {
    pub height: u64,
    pub hash: CryptoHash,
}

/// A block read against a state view.
#[derive(Debug, Clone, PartialEq, Eq)]
pub struct BlockQueryBuilder {
    pub reference: Reference,
}

/// Chain-level reads.
#[derive(Debug, Clone, Copy, PartialEq, Eq, Structural)]
pub struct Chain;

impl Chain {
    /// The latest block, postprocessed to its height.
    pub fn block_number() -> (r: BlockQueryBuilder)
        ensures
            r.reference == Reference::Optimistic,
    {
        BlockQueryBuilder { reference: Reference::Optimistic }
    }

    /// The latest block, postprocessed to its hash.
    pub fn block_hash() -> (r: BlockQueryBuilder)
        ensures
            r.reference == Reference::Optimistic,
    {
        BlockQueryBuilder { reference: Reference::Optimistic }
    }

    /// The latest block, whole.
    pub fn block() -> (r: BlockQueryBuilder)
        ensures
            r.reference == Reference::Optimistic,
    {
        BlockQueryBuilder { reference: Reference::Optimistic }
    }
}

/// The postprocess step of `block_number`.
pub fn block_height_of(block: &BlockInfo) -> (r: u64)
    ensures
        r == block.height,
{
    block.height
}

/// The postprocess step of `block_hash`.
pub fn block_hash_of(block: &BlockInfo) -> (r: CryptoHash)
    ensures
        r@ == block.hash@,
{
    block.hash
}

} // verus!
