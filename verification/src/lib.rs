//! Client-side core of a blockchain-data streaming protocol.
//!
//! The library models the request and response values that a caller exchanges
//! with a block-streaming service: single-block lookup requests addressed by
//! number, by hash and number, or by opaque cursor; streaming range requests
//! with a resumption cursor and a finality filter; and the streamed responses
//! carrying an opaque payload, a fork-transition tag and a cursor.
//!
//! On top of the value types it states and proves the client-side discipline:
//! how a retained cursor is fed back into the next request, how fork
//! transitions (new / undo / final) update a consumer's canonical view of the
//! chain, and how an opaque payload is converted into a caller-chosen domain
//! type.

mod chain;
mod convert;
mod request;
mod response;

pub use chain::apply_all;
pub use chain::chain_wf;
pub use chain::is_resumption_of;
pub use chain::lemma_resume_at_boundary;
pub use chain::lemma_resume_exact;
pub use chain::lemma_redelivery_idempotent;
pub use chain::lemma_resumption_no_gap;
pub use chain::lemma_step_model_preserves_wf;
pub use chain::step_model;
pub use chain::BlockId;
pub use chain::CanonicalChain;
pub use chain::StreamError;
pub use chain::StreamState;
pub use convert::header_payload;
pub use convert::lemma_codec_round_trip;
pub use convert::BlockHeader;
pub use convert::ConversionError;
pub use convert::FromResponse;
pub use convert::HasNumberOrSlot;
pub use request::BlockHashAndNumber;
pub use request::BlockNumber;
pub use request::Reference;
pub use request::Request;
pub use request::SingleBlockRequest;
pub use response::BlockMetadata;
pub use response::ForkStep;
pub use response::Response;
pub use response::SingleBlockResponse;
