//! Request-side value types: single-block lookup requests and streaming
//! range requests.

use vstd::prelude::*;

verus! {

/// A block named by its 64-bit number alone.
#[derive(Clone, Debug, PartialEq, Eq)]
pub struct BlockNumber {
    pub num: u64,
}

/// A block named by its hash together with its number. The hash is an opaque,
/// protocol-defined string and is not validated at this layer.
#[derive(Clone, Debug, PartialEq, Eq)]
pub struct BlockHashAndNumber {
    pub hash: String,
    pub num: u64,
}

/// The reference of a single-block request: exactly one way of naming the
/// wanted block is populated.
#[derive(Clone, Debug, PartialEq, Eq)]
pub enum Reference {
    /// Look the block up by its number.
    BlockNumber(BlockNumber),
    /// Look the block up by its hash, with the number as a cross-check.
    BlockHashAndNumber(BlockHashAndNumber),
    /// Look the block up by an opaque resumption cursor a stream returned.
    Cursor(String),
}

/// A request for one block. A default-constructed request names no block;
/// the server rejects such a request, this layer does not.
#[derive(Clone, Debug, PartialEq, Eq)]
pub struct SingleBlockRequest {
    pub reference: Option<Reference>,
}

impl SingleBlockRequest {
    /// The request value that names a block by number alone.
    pub open spec fn by_number_spec(num: u64) -> SingleBlockRequest {
        SingleBlockRequest { reference: Some(Reference::BlockNumber(BlockNumber { num })) }
    }

    /// The request value that names a block by hash and number.
    pub open spec fn by_hash_and_number_spec(hash: String, num: u64) -> SingleBlockRequest {
        SingleBlockRequest {
            reference: Some(
                Reference::BlockHashAndNumber(BlockHashAndNumber { hash, num }),
            ),
        }
    }

    /// Create a request for the given block number.
    ///
    /// Kept as an alias of [`Self::new_by_block_number`] for backwards
    /// compatibility; the two produce equal requests for every `num`.
    pub fn new(num: u64) -> (r: SingleBlockRequest)
        ensures
            r == Self::by_number_spec(num),
    {
        SingleBlockRequest::new_by_block_number(num)
    }

    /// Create a request for the given block number.
    pub fn new_by_block_number(num: u64) -> (r: SingleBlockRequest)
        ensures
            r == Self::by_number_spec(num),
    {
        SingleBlockRequest { reference: Some(Reference::BlockNumber(BlockNumber { num })) }
    }

    /// Create a request for the given block hash and number. The hash is
    /// passed through unvalidated.
    pub fn new_by_block_hash_and_number(hash: String, num: u64) -> (r: SingleBlockRequest)
        ensures
            r == Self::by_hash_and_number_spec(hash, num),
            (match r.reference {
                Some(Reference::BlockHashAndNumber(h)) => h.hash@ == hash@ && h.num == num,
                _ => false,
            }),
    {
        SingleBlockRequest {
            reference: Some(Reference::BlockHashAndNumber(BlockHashAndNumber { hash, num })),
        }
    }
}

impl Default for SingleBlockRequest {
    /// The default request: no reference populated.
    fn default() -> (r: Self)
        ensures
            r.reference is None,
    {
        SingleBlockRequest { reference: None }
    }
}

/// A streaming range request.
///
/// `start_block_num` is inclusive; `stop_block_num == 0` means unbounded;
/// a non-empty `cursor` asks the server to resume from that cursor, which
/// takes precedence over `start_block_num` — a server-side rule that this
/// layer documents but does not enforce, so supplying both is not rejected
/// here. `final_blocks_only` restricts delivery to irreversible blocks.
/// `transforms` carries opaque filter payloads for server-side trimming.
pub struct Request {
    pub start_block_num: u64,
    pub stop_block_num: u64,
    pub cursor: String,
    pub final_blocks_only: bool,
    pub transforms: Vec<Vec<u8>>,
}

impl Request {
    /// The default streaming request: start at 0, unbounded, no cursor, all
    /// blocks, no transforms.
    pub open spec fn is_default(self) -> bool {
        &&& self.start_block_num == 0
        &&& self.stop_block_num == 0
        &&& self.cursor@ == Seq::<char>::empty()
        &&& !self.final_blocks_only
        &&& self.transforms@.len() == 0
    }

    /// Create the default streaming request; the caller then sets the fields
    /// it wants (the combination space is a caller decision, not a validated
    /// invariant at this layer).
    pub fn new() -> (r: Request)
        ensures
            r.is_default(),
    {
        Request {
            start_block_num: 0,
            stop_block_num: 0,
            cursor: String::new(),
            final_blocks_only: false,
            transforms: Vec::new(),
        }
    }

    /// Re-issue a request after an interruption: every field keeps its prior
    /// value and the retained cursor is populated, so the server resumes from
    /// the cursor rather than from the literal start number.
    pub fn resume(self, cursor: String) -> (r: Request)
        ensures
            r.cursor == cursor,
            r.start_block_num == self.start_block_num,
            r.stop_block_num == self.stop_block_num,
            r.final_blocks_only == self.final_blocks_only,
            r.transforms == self.transforms,
    {
        Request {
            start_block_num: self.start_block_num,
            stop_block_num: self.stop_block_num,
            cursor,
            final_blocks_only: self.final_blocks_only,
            transforms: self.transforms,
        }
    }
}

impl Default for Request {
    /// The default streaming request, equal to [`Request::new`].
    fn default() -> (r: Self)
        ensures
            r.is_default(),
    {
        Request::new()
    }
}

} // verus!
