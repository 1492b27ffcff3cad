use firehose_rs::{
    BlockId, BlockMetadata, CanonicalChain, ForkStep, Request, Response, StreamError, StreamState,
};

fn id(num: u64, hash: &str) -> BlockId {
    BlockId {
        num,
        hash: hash.to_string(),
    }
}

fn response(step: ForkStep, num: u64, hash: &str, cursor: &str) -> Response {
    Response {
        block: Vec::new(),
        step,
        cursor: cursor.to_string(),
        metadata: Some(BlockMetadata {
            num,
            hash: hash.to_string(),
            timestamp: 0,
        }),
    }
}

#[test]
fn fork_scenario_keeps_replacement_block() {
    // [New(5), New(6), Undo(6), New(6')] leaves 5 and 6'; the undone 6 is gone.
    let mut chain = CanonicalChain::new();
    assert!(chain.apply(ForkStep::New, &id(5, "h5")).is_ok());
    assert!(chain.apply(ForkStep::New, &id(6, "h6")).is_ok());
    assert!(chain.apply(ForkStep::Undo, &id(6, "h6")).is_ok());
    assert!(chain.apply(ForkStep::New, &id(6, "h6-prime")).is_ok());
    assert_eq!(chain.len(), 2);
    assert_eq!(*chain.get(0), id(5, "h5"));
    assert_eq!(*chain.get(1), id(6, "h6-prime"));
    assert!(chain.contains_id(&id(6, "h6-prime")));
    assert!(!chain.contains_id(&id(6, "h6")));
}

#[test]
fn redelivery_of_tip_is_a_no_op() {
    let mut chain = CanonicalChain::new();
    assert!(chain.apply(ForkStep::New, &id(5, "h5")).is_ok());
    assert!(chain.apply(ForkStep::New, &id(5, "h5")).is_ok());
    assert_eq!(chain.len(), 1);
    assert_eq!(chain.tip(), Some(&id(5, "h5")));
}

#[test]
fn non_monotonic_new_is_refused() {
    let mut chain = CanonicalChain::new();
    assert!(chain.apply(ForkStep::New, &id(5, "h5")).is_ok());
    assert_eq!(
        chain.apply(ForkStep::New, &id(4, "h4")),
        Err(StreamError::NonMonotonicNew)
    );
    assert_eq!(chain.len(), 1);
}

#[test]
fn undo_of_non_tip_is_refused() {
    let mut chain = CanonicalChain::new();
    assert!(chain.apply(ForkStep::New, &id(5, "h5")).is_ok());
    assert!(chain.apply(ForkStep::New, &id(6, "h6")).is_ok());
    assert_eq!(
        chain.apply(ForkStep::Undo, &id(5, "h5")),
        Err(StreamError::UndoMismatch)
    );
    assert_eq!(
        chain.apply(ForkStep::Undo, &id(6, "other-hash")),
        Err(StreamError::UndoMismatch)
    );
    assert_eq!(chain.len(), 2);
}

#[test]
fn undo_of_empty_chain_is_refused() {
    let mut chain = CanonicalChain::new();
    assert_eq!(
        chain.apply(ForkStep::Undo, &id(1, "h1")),
        Err(StreamError::UndoMismatch)
    );
}

#[test]
fn undo_of_final_block_is_refused() {
    let mut chain = CanonicalChain::new();
    assert!(chain.apply(ForkStep::New, &id(5, "h5")).is_ok());
    assert!(chain.apply(ForkStep::Final, &id(5, "h5")).is_ok());
    assert_eq!(chain.final_num, Some(5));
    assert_eq!(
        chain.apply(ForkStep::Undo, &id(5, "h5")),
        Err(StreamError::UndoFinal)
    );
    assert_eq!(chain.len(), 1);
}

#[test]
fn final_of_unknown_block_is_refused() {
    let mut chain = CanonicalChain::new();
    assert!(chain.apply(ForkStep::New, &id(5, "h5")).is_ok());
    assert_eq!(
        chain.apply(ForkStep::Final, &id(9, "h9")),
        Err(StreamError::UnknownFinal)
    );
    assert_eq!(chain.final_num, None);
}

#[test]
fn final_mark_never_lowers() {
    let mut chain = CanonicalChain::new();
    assert!(chain.apply(ForkStep::New, &id(5, "h5")).is_ok());
    assert!(chain.apply(ForkStep::New, &id(6, "h6")).is_ok());
    assert!(chain.apply(ForkStep::Final, &id(6, "h6")).is_ok());
    assert_eq!(chain.final_num, Some(6));
    assert!(chain.apply(ForkStep::Final, &id(5, "h5")).is_ok());
    assert_eq!(chain.final_num, Some(6));
}

#[test]
fn cursor_is_retained_after_each_processed_response() {
    let mut state = StreamState::new();
    assert_eq!(state.cursor, "");
    assert!(state.process(&response(ForkStep::New, 5, "h5", "c5")).is_ok());
    assert_eq!(state.cursor, "c5");
    assert!(state.process(&response(ForkStep::New, 6, "h6", "c6")).is_ok());
    assert_eq!(state.cursor, "c6");
}

#[test]
fn failed_response_does_not_advance_cursor_or_view() {
    let mut state = StreamState::new();
    assert!(state.process(&response(ForkStep::New, 5, "h5", "c5")).is_ok());
    assert_eq!(
        state.process(&response(ForkStep::New, 4, "h4", "c4")),
        Err(StreamError::NonMonotonicNew)
    );
    assert_eq!(state.cursor, "c5");
    assert_eq!(state.chain.len(), 1);
}

#[test]
fn missing_metadata_does_not_advance_cursor_or_view() {
    let mut state = StreamState::new();
    assert!(state.process(&response(ForkStep::New, 5, "h5", "c5")).is_ok());
    let mut bad = response(ForkStep::New, 6, "h6", "c6");
    bad.metadata = None;
    assert_eq!(state.process(&bad), Err(StreamError::MissingMetadata));
    assert_eq!(state.cursor, "c5");
    assert_eq!(state.chain.len(), 1);
}

#[test]
fn resumption_replays_a_suffix_without_gaps() {
    // Full stream R1..R4; interruption after R2; a resumption may redeliver
    // the boundary block (at-least-once) and must then deliver the rest.
    let full = vec![
        response(ForkStep::New, 1, "h1", "c1"),
        response(ForkStep::New, 2, "h2", "c2"),
        response(ForkStep::New, 3, "h3", "c3"),
        response(ForkStep::New, 4, "h4", "c4"),
    ];

    let mut state = StreamState::new();
    for r in &full[..2] {
        assert!(state.process(r).is_ok());
    }
    assert_eq!(state.cursor, "c2");

    // The re-issued request keeps its range and carries the retained cursor.
    let mut prior = Request::new();
    prior.start_block_num = 1;
    let resumed_req = state.resume_request(prior);
    assert_eq!(resumed_req.cursor, "c2");
    assert_eq!(resumed_req.start_block_num, 1);

    // The server replays from one before the boundary: R2 is redelivered,
    // R3 and R4 follow; processing ends in the same state as the unbroken run.
    let replay = &full[1..];
    for r in replay {
        assert!(state.process(r).is_ok());
    }
    assert_eq!(state.cursor, "c4");
    assert_eq!(state.chain.len(), 4);

    let mut unbroken = StreamState::new();
    for r in &full {
        assert!(unbroken.process(r).is_ok());
    }
    assert_eq!(unbroken.chain.len(), state.chain.len());
    for i in 0..4 {
        assert_eq!(unbroken.chain.get(i), state.chain.get(i));
    }
    assert_eq!(unbroken.cursor, state.cursor);
}
