//! Response-side value types: streamed units and single-block fetch results.

use vstd::prelude::*;

verus! {

/// How a streamed block relates to the canonical chain.
#[derive(Clone, Copy, Debug, PartialEq, Eq, Structural)]
pub enum ForkStep {
    /// The block is appended to the canonical chain.
    New,
    /// The block is being retracted because of a reorganization.
    Undo,
    /// The block is now irreversible.
    Final,
}

/// Denormalized facts about a block, usable for filtering without decoding
/// the opaque payload.
#[derive(Clone, Debug, PartialEq, Eq)]
pub struct BlockMetadata {
    pub num: u64,
    pub hash: String,
    pub timestamp: u64,
}

/// One streamed unit: the opaque payload (domain-specific block bytes, not
/// interpreted by this layer), the fork-transition tag, the resumption cursor
/// that the consumer must retain after processing this response, and optional
/// metadata.
#[derive(Clone, Debug, PartialEq, Eq)]
pub struct Response {
    pub block: Vec<u8>,
    pub step: ForkStep,
    pub cursor: String,
    pub metadata: Option<BlockMetadata>,
}

/// The result of a single-block fetch: a point lookup, so there is no fork
/// tag and no cursor.
#[derive(Clone, Debug, PartialEq, Eq)]
pub struct SingleBlockResponse {
    pub block: Vec<u8>,
    pub metadata: Option<BlockMetadata>,
}

} // verus!
