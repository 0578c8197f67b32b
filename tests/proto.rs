use bytes::Bytes;
use ingester_state::{
    DocBatchV2, IngestFailureReason, IngestV2Error, MRecordBatch, PersistFailureReason, Position,
    ReplicateFailureReason, ServiceErrorCode, Shard, ShardIdPosition, ShardIdPositions, ShardIds,
    ShardState,
};

#[test]
fn test_shard_state_json_str_name() {
    let shard_state_json_name = ShardState::Unspecified.as_json_str_name();
    let shard_state = ShardState::from_json_str_name(shard_state_json_name).unwrap();
    assert_eq!(shard_state, ShardState::Unspecified);

    let shard_state_json_name = ShardState::Open.as_json_str_name();
    let shard_state = ShardState::from_json_str_name(shard_state_json_name).unwrap();
    assert_eq!(shard_state, ShardState::Open);

    let shard_state_json_name = ShardState::Unavailable.as_json_str_name();
    let shard_state = ShardState::from_json_str_name(shard_state_json_name).unwrap();
    assert_eq!(shard_state, ShardState::Unavailable);

    let shard_state_json_name = ShardState::Closed.as_json_str_name();
    let shard_state = ShardState::from_json_str_name(shard_state_json_name).unwrap();
    assert_eq!(shard_state, ShardState::Closed);

    assert!(ShardState::from_json_str_name("unknown").is_none());
}

#[test]
fn shard_state_json_names_are_exact() {
    assert_eq!(ShardState::Unavailable.as_json_str_name(), "unavailable");
    assert!(ShardState::from_json_str_name("Open").is_none());
    assert!(ShardState::from_json_str_name("").is_none());
    assert!(ShardState::from_json_str_name("opened").is_none());
}

fn shard(follower_id: Option<&str>, state: ShardState) -> Shard {
    Shard {
        index_uid: Some("idx".to_string()),
        source_id: "src".to_string(),
        shard_id: Some("1".to_string()),
        shard_state: state,
        leader_id: "leader".to_string(),
        follower_id: follower_id.map(|f| f.to_string()),
        publish_position_inclusive: Some(Position::Offset(3)),
    }
}

#[test]
fn shard_accessors() {
    let solo = shard(None, ShardState::Open);
    assert_eq!(solo.ingesters(), vec!["leader".to_string()]);
    assert!(solo.is_open());
    assert!(!solo.is_closed());
    assert!(!solo.is_unavailable());
    assert_eq!(solo.queue_id(), "idx:src:1");
    assert_eq!(solo.shard_id(), "1");
    assert_eq!(*solo.publish_position_inclusive(), Position::Offset(3));

    let replicated = shard(Some("follower"), ShardState::Closed);
    assert_eq!(
        replicated.ingesters(),
        vec!["leader".to_string(), "follower".to_string()]
    );
    assert!(replicated.is_closed());
    assert!(shard(None, ShardState::Unavailable).is_unavailable());
}

#[test]
fn shard_ids_queue_ids() {
    let shard_ids = ShardIds {
        index_uid: Some("idx".to_string()),
        source_id: "src".to_string(),
        shard_ids: vec!["1".to_string(), "2".to_string()],
        shard_positions: Vec::new(),
    };
    assert_eq!(shard_ids.queue_ids(), vec!["idx:src:1".to_string(), "idx:src:2".to_string()]);
}

#[test]
fn shard_id_positions_queue_id_positions() {
    let positions = ShardIdPositions {
        index_uid: Some("idx".to_string()),
        source_id: "src".to_string(),
        shard_positions: vec![
            ShardIdPosition {
                shard_id: Some("1".to_string()),
                publish_position_inclusive: Some(Position::Offset(2)),
            },
            ShardIdPosition {
                shard_id: Some("7".to_string()),
                publish_position_inclusive: Some(Position::Beginning),
            },
        ],
    };
    assert!(positions.check_complete());
    assert_eq!(positions.index_uid(), "idx");
    assert_eq!(
        positions.queue_id_positions(),
        vec![
            ("idx:src:1".to_string(), Position::Offset(2)),
            ("idx:src:7".to_string(), Position::Beginning)
        ]
    );
    let incomplete = ShardIdPositions {
        index_uid: None,
        source_id: "src".to_string(),
        shard_positions: Vec::new(),
    };
    assert!(!incomplete.check_complete());
}

#[test]
fn doc_batch_splits_documents() {
    let batch = DocBatchV2 {
        doc_buffer: Bytes::from(b"helloworld!".to_vec()),
        doc_lengths: vec![5, 5, 1],
    };
    assert!(!batch.is_empty());
    assert_eq!(batch.num_bytes(), 11);
    assert_eq!(batch.num_docs(), 3);
    let docs = batch.docs();
    assert_eq!(docs, vec![Bytes::from("hello"), Bytes::from("world"), Bytes::from("!")]);

    let empty = DocBatchV2 { doc_buffer: Bytes::new(), doc_lengths: Vec::new() };
    assert!(empty.is_empty());
    assert!(empty.docs().is_empty());
}

#[test]
fn mrecord_batch_splits_records() {
    let batch = MRecordBatch {
        mrecord_buffer: Bytes::from(b"abcdef".to_vec()),
        mrecord_lengths: vec![2, 0, 4],
    };
    assert!(!batch.is_empty());
    assert_eq!(batch.num_mrecords(), 3);
    assert_eq!(batch.estimate_size().0, 6 + 3 * 4);
    assert_eq!(
        batch.encoded_mrecords(),
        vec![Bytes::from("ab"), Bytes::from(""), Bytes::from("cdef")]
    );
}

#[test]
fn ingest_error_messages_and_codes() {
    let error = IngestV2Error::new_internal("boom".to_string());
    assert_eq!(error.to_string(), "internal error: boom");
    assert_eq!(error.error_code(), ServiceErrorCode::Internal);

    let error = IngestV2Error::ShardNotFound { shard_id: "1".to_string() };
    assert_eq!(error.to_string(), "shard `1` not found");
    assert_eq!(error.error_code(), ServiceErrorCode::NotFound);

    let error = IngestV2Error::new_timeout("slow".to_string());
    assert_eq!(error.to_string(), "request timed out: slow");
    assert_eq!(error.error_code(), ServiceErrorCode::Timeout);

    assert_eq!(IngestV2Error::TooManyRequests.to_string(), "too many requests");
    assert_eq!(IngestV2Error::TooManyRequests.error_code(), ServiceErrorCode::TooManyRequests);

    let error = IngestV2Error::new_unavailable("down".to_string());
    assert_eq!(error.to_string(), "service unavailable: down");
    assert_eq!(error.error_code(), ServiceErrorCode::Unavailable);
}

#[test]
fn failure_reason_conversions() {
    assert_eq!(IngestFailureReason::from(PersistFailureReason::ShardClosed), IngestFailureReason::NoShardsAvailable);
    assert_eq!(IngestFailureReason::from(PersistFailureReason::ShardNotFound), IngestFailureReason::NoShardsAvailable);
    assert_eq!(IngestFailureReason::from(PersistFailureReason::RateLimited), IngestFailureReason::RateLimited);
    assert_eq!(IngestFailureReason::from(PersistFailureReason::Unspecified), IngestFailureReason::Unspecified);
    assert_eq!(
        IngestFailureReason::from(PersistFailureReason::ResourceExhausted),
        IngestFailureReason::ResourceExhausted
    );
    assert_eq!(PersistFailureReason::from(ReplicateFailureReason::ShardClosed), PersistFailureReason::ShardClosed);
    assert_eq!(PersistFailureReason::from(ReplicateFailureReason::ShardNotFound), PersistFailureReason::ShardNotFound);
    assert_eq!(PersistFailureReason::from(ReplicateFailureReason::Unspecified), PersistFailureReason::Unspecified);
    assert_eq!(
        PersistFailureReason::from(ReplicateFailureReason::ResourceExhausted),
        PersistFailureReason::ResourceExhausted
    );
}

#[test]
fn doc_batch_for_test_round_trip() {
    let batch = DocBatchV2::for_test(vec!["foo", "", "barbaz"]);
    assert_eq!(batch.doc_lengths, vec![3, 0, 6]);
    assert_eq!(batch.num_bytes(), 9);
    assert_eq!(batch.docs(), vec![Bytes::from("foo"), Bytes::from(""), Bytes::from("barbaz")]);

    let batch = MRecordBatch::for_test(vec!["ab", "c"]).unwrap();
    assert_eq!(batch.mrecord_lengths, vec![2, 1]);
    assert_eq!(batch.mrecord_buffer, Bytes::from("abc"));
    assert_eq!(batch.encoded_mrecords(), vec![Bytes::from("ab"), Bytes::from("c")]);
}

#[test]
fn lengths_fit_checks_the_buffer() {
    let batch = DocBatchV2 { doc_buffer: Bytes::from("abc"), doc_lengths: vec![1, 2] };
    assert!(batch.lengths_fit());
    let batch = DocBatchV2 { doc_buffer: Bytes::from("abc"), doc_lengths: vec![2, 2] };
    assert!(!batch.lengths_fit());
    let batch = MRecordBatch { mrecord_buffer: Bytes::from("abc"), mrecord_lengths: vec![u32::MAX, 1] };
    assert!(!batch.lengths_fit());
    let batch = MRecordBatch { mrecord_buffer: Bytes::new(), mrecord_lengths: Vec::new() };
    assert!(batch.lengths_fit());
    assert_eq!(batch.estimate_size().0, 0);
}
