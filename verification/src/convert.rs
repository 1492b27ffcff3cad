//! The conversion contract: turning an opaque response payload into a
//! caller-chosen domain block type, with a typed error on failure.

use vstd::bytes::lemma_auto_spec_u64_to_from_le_bytes;
use vstd::bytes::spec_u64_from_le_bytes;
use vstd::bytes::spec_u64_to_le_bytes;
use vstd::bytes::u64_from_le_bytes;
use vstd::bytes::u64_to_le_bytes;
use vstd::prelude::*;
use vstd::slice::slice_subrange;

use crate::response::Response;

verus! {

/// Unified access to a block's ordering key: a block number for execution
/// layer blocks, a consensus slot for consensus layer blocks. Implementing
/// types must be duplicable and safe to hand across concurrency boundaries,
/// and not tied to a single call's lifetime, so generic stream processing can
/// retain and share them.
pub trait HasNumberOrSlot: Clone + Send + 'static {
    /// The block's single 64-bit ordering key: each implementing type says
    /// which of its fields names the block's position in its layer.
    spec fn ordering_key(&self) -> u64;

    /// Return the block number or slot: a pure accessor with no side effects,
    /// returning exactly the type's ordering key.
    fn number_or_slot(&self) -> (n: u64)
        ensures
            n == self.ordering_key(),
    ;
}

/// Conversion of a response into a domain block type: the sole extension
/// point for supporting new block representations without touching the
/// streaming machinery. The conversion must be a pure function of the message
/// and must report failure as a value, never abort; the error type crosses
/// concurrency boundaries and should render itself readably for reporting.
pub trait FromResponse: Sized {
    type Error: Send;

    /// What the conversion promises of its result: each implementing type
    /// states here how its values and its errors relate to the message, and
    /// [`Self::from_response`] is held to it.
    spec fn from_response_post(msg: Response, r: Result<Self, Self::Error>) -> bool;

    /// Convert one received response into the implementing type, or report a
    /// typed error on a malformed or undecodable payload. A verified
    /// implementation returns in every case; it cannot abort.
    fn from_response(msg: Response) -> (r: Result<Self, Self::Error>)
        ensures
            Self::from_response_post(msg, r),
    ;
}

/// Why a payload could not be decoded into a [`BlockHeader`].
#[derive(Clone, Copy, Debug, PartialEq, Eq, Structural)]
pub enum ConversionError {
    /// The payload is shorter than the fixed eight-byte number prefix.
    PayloadTooShort,
}

impl ConversionError {
    /// A human-readable rendering of the error.
    pub fn describe(&self) -> (s: String)
        ensures
            s@.len() > 0,
    {
        let s = "payload too short to hold a block header".to_string();
        proof {
            reveal_strlit("payload too short to hold a block header");
        }
        s
    }
}

/// A minimal domain block: the ordering number and the block's hash bytes.
/// Its payload encoding is the number as eight little-endian bytes followed
/// by the hash bytes.
#[derive(Clone, Debug, PartialEq, Eq)]
pub struct BlockHeader {
    pub number: u64,
    pub hash: Vec<u8>,
}

/// The payload bytes that encode a header with this number and hash.
pub open spec fn header_payload(number: u64, hash: Seq<u8>) -> Seq<u8> {
    spec_u64_to_le_bytes(number) + hash
}

impl BlockHeader {
    /// Encode this header as a payload: eight little-endian bytes of the
    /// number, then the hash bytes.
    pub fn encode(&self) -> (payload: Vec<u8>)
        ensures
            payload@ =~= header_payload(self.number, self.hash@),
    {
        proof {
            lemma_auto_spec_u64_to_from_le_bytes();
        }
        let mut payload: Vec<u8> = u64_to_le_bytes(self.number);
        let mut i: usize = 0;
        while i < self.hash.len()
            invariant
                0 <= i <= self.hash@.len(),
                payload@ =~= spec_u64_to_le_bytes(self.number) + self.hash@.take(i as int),
            decreases self.hash@.len() - i,
        {
            payload.push(self.hash[i]);
            i = i + 1;
        }
        assert(self.hash@.take(self.hash@.len() as int) =~= self.hash@);
        payload
    }

    /// Decode a payload into a header. Succeeds on exactly the payloads long
    /// enough to hold the eight-byte number prefix; the rest of the payload
    /// becomes the hash, with no byte lost.
    pub fn decode(payload: &Vec<u8>) -> (r: Result<BlockHeader, ConversionError>)
        ensures
            payload@.len() >= 8 ==> (r matches Ok(h)
                && h.number == spec_u64_from_le_bytes(payload@.subrange(0, 8))
                && h.hash@ =~= payload@.skip(8)),
            payload@.len() < 8 ==> r == Err::<BlockHeader, ConversionError>(
                ConversionError::PayloadTooShort,
            ),
    {
        if payload.len() < 8 {
            return Err(ConversionError::PayloadTooShort);
        }
        let number: u64 = u64_from_le_bytes(slice_subrange(payload.as_slice(), 0, 8));
        let mut hash: Vec<u8> = Vec::new();
        let mut i: usize = 8;
        while i < payload.len()
            invariant
                8 <= i <= payload@.len(),
                payload@.len() >= 8,
                hash@ =~= payload@.subrange(8, i as int),
            decreases payload@.len() - i,
        {
            hash.push(payload[i]);
            i = i + 1;
        }
        Ok(BlockHeader { number, hash })
    }

    /// Decode the payload of a response into a header, with the exact
    /// success and failure conditions of [`BlockHeader::decode`].
    pub fn decode_response(msg: &Response) -> (r: Result<BlockHeader, ConversionError>)
        ensures
            msg.block@.len() >= 8 ==> (r matches Ok(h)
                && h.number == spec_u64_from_le_bytes(msg.block@.subrange(0, 8))
                && h.hash@ =~= msg.block@.skip(8)),
            msg.block@.len() < 8 ==> r == Err::<BlockHeader, ConversionError>(
                ConversionError::PayloadTooShort,
            ),
    {
        BlockHeader::decode(&msg.block)
    }
}

impl HasNumberOrSlot for BlockHeader {
    /// A header's ordering key is its block number.
    open spec fn ordering_key(&self) -> u64 {
        self.number
    }

    fn number_or_slot(&self) -> u64 {
        self.number
    }
}

impl FromResponse for BlockHeader {
    type Error = ConversionError;

    /// The conversion promises exactly what [`BlockHeader::decode_response`]
    /// ensures: a payload with the eight-byte number prefix decodes with no
    /// field lost, and a shorter one yields the typed error.
    open spec fn from_response_post(msg: Response, r: Result<Self, ConversionError>) -> bool {
        &&& (msg.block@.len() >= 8 ==> (r matches Ok(h)
            && h.number == spec_u64_from_le_bytes(msg.block@.subrange(0, 8))
            && h.hash@ =~= msg.block@.skip(8)))
        &&& (msg.block@.len() < 8 ==> r == Err::<BlockHeader, ConversionError>(
            ConversionError::PayloadTooShort,
        ))
    }

    fn from_response(msg: Response) -> Result<Self, Self::Error> {
        BlockHeader::decode_response(&msg)
    }
}

/// Law: decoding reproduces an encoded header exactly — the payload built
/// from a number and hash bytes is long enough to decode, its number prefix
/// decodes back to the same number, and its tail is the same hash, so no
/// field is lost in the round trip.
pub proof fn lemma_codec_round_trip(number: u64, hash: Seq<u8>)
    ensures
        header_payload(number, hash).len() >= 8,
        spec_u64_from_le_bytes(header_payload(number, hash).subrange(0, 8)) == number,
        header_payload(number, hash).skip(8) =~= hash,
{
    lemma_auto_spec_u64_to_from_le_bytes();
    let payload = header_payload(number, hash);
    assert(payload.subrange(0, 8) =~= spec_u64_to_le_bytes(number));
    assert(payload.skip(8) =~= hash);
}

} // verus!
