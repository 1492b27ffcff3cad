use firehose_rs::{
    BlockHeader, BlockMetadata, ConversionError, ForkStep, FromResponse, HasNumberOrSlot,
    Reference, Response, SingleBlockRequest, SingleBlockResponse, StreamState,
};

fn response_with_payload(payload: Vec<u8>) -> Response {
    Response {
        block: payload,
        step: ForkStep::New,
        cursor: "c".to_string(),
        metadata: None,
    }
}

#[test]
fn round_trip_keeps_every_field() {
    let header = BlockHeader {
        number: 123456789,
        hash: vec![0xde, 0xad, 0xbe, 0xef],
    };
    let payload = header.encode();
    let msg = response_with_payload(payload);
    let decoded = BlockHeader::from_response(msg).expect("well-formed payload must decode");
    assert_eq!(decoded, header);

    // The accessor returns the decoded ordering key, so a request rebuilt
    // from it references exactly the block the payload carried.
    let key = decoded.number_or_slot();
    assert_eq!(key, 123456789);
    let req = SingleBlockRequest::new_by_block_hash_and_number("0xfeed".to_string(), key);
    match req.reference {
        Some(Reference::BlockHashAndNumber(b)) => {
            assert_eq!(b.hash, "0xfeed");
            assert_eq!(b.num, 123456789);
        }
        other => panic!("expected a hash-and-number reference, got {:?}", other),
    }
}

#[test]
fn round_trip_of_empty_hash() {
    let header = BlockHeader {
        number: 0,
        hash: Vec::new(),
    };
    let payload = header.encode();
    assert_eq!(payload.len(), 8);
    let decoded = BlockHeader::decode(&payload).expect("eight bytes must decode");
    assert_eq!(decoded, header);
}

#[test]
fn decode_reads_little_endian_number() {
    // 0x0807060504030201 stored as bytes 01 02 .. 08, followed by one hash byte.
    let payload = vec![1, 2, 3, 4, 5, 6, 7, 8, 0xaa];
    let decoded = BlockHeader::decode(&payload).expect("nine bytes must decode");
    assert_eq!(decoded.number, 0x0807060504030201);
    assert_eq!(decoded.hash, vec![0xaa]);
}

#[test]
fn short_payload_yields_error_not_panic() {
    let msg = response_with_payload(vec![1, 2, 3]);
    let r = BlockHeader::from_response(msg);
    assert_eq!(r, Err(ConversionError::PayloadTooShort));

    let empty = response_with_payload(Vec::new());
    assert_eq!(
        BlockHeader::from_response(empty),
        Err(ConversionError::PayloadTooShort)
    );
}

#[test]
fn conversion_error_describes_itself() {
    let e = ConversionError::PayloadTooShort;
    assert!(!e.describe().is_empty());
}

#[test]
fn failed_conversion_leaves_resumption_state_alone() {
    // A caller that retries a message after a conversion failure keeps its
    // prior cursor: the conversion is a pure function and touches no state.
    let mut state = StreamState::new();
    let good = Response {
        block: BlockHeader {
            number: 5,
            hash: vec![1],
        }
        .encode(),
        step: ForkStep::New,
        cursor: "c5".to_string(),
        metadata: Some(BlockMetadata {
            num: 5,
            hash: "h5".to_string(),
            timestamp: 0,
        }),
    };
    assert!(state.process(&good).is_ok());
    assert_eq!(state.cursor, "c5");

    let bad = response_with_payload(vec![9]);
    assert!(BlockHeader::from_response(bad).is_err());
    assert_eq!(state.cursor, "c5");
    assert_eq!(state.chain.len(), 1);
}

#[test]
fn number_or_slot_returns_the_ordering_key() {
    let header = BlockHeader {
        number: 77,
        hash: vec![3],
    };
    assert_eq!(header.number_or_slot(), 77);
}

#[test]
fn single_block_response_payload_decodes_like_a_stream_payload() {
    let header = BlockHeader {
        number: 9,
        hash: vec![4, 5],
    };
    let fetched = SingleBlockResponse {
        block: header.encode(),
        metadata: None,
    };
    let decoded = BlockHeader::decode(&fetched.block).expect("well-formed payload must decode");
    assert_eq!(decoded, header);
}
