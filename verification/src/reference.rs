use vstd::prelude::*;
use crate::crypto::CryptoHash;

verus! {

/// The state view a read goes against: the most recent state, or a pinned
/// point. Both plain queries and the nonce/block lookup of the write path
/// take one of these.
#[derive(Debug, Clone, PartialEq, Eq)]
pub enum Reference {
    /// The latest state the queried node has.
    Optimistic,
    /// The latest state every node has finalized.
    Final,
    AtBlock(u64),
    AtBlockHash(CryptoHash),
}

/// A pinned epoch for validator queries.
#[derive(Debug, Clone, PartialEq, Eq)]
pub enum EpochReference {
    Latest,
    AtBlock(u64),
    AtBlockHash(CryptoHash),
}

} // verus!
