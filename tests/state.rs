use ingester_state::{
    lock_gate, queue_id, recover_from_wal, repair_commands, split_queue_id, IngesterShard,
    IngesterStatus, InnerIngesterState, InspectShardsResponse, Position, RateLimiterSettings,
    RateTracker, RepairCommand, ShardIdPosition, ShardIdPositions, ShardIds, ShardRole, ShardState,
    WalOutcome,
};
use mrecordlog::error::{DeleteQueueError, TruncateError};
use mrecordlog::{MultiRecordLog, SyncPolicy};
use std::time::Duration;
use tokio::runtime::Runtime;

fn settings() -> RateLimiterSettings {
    RateLimiterSettings { burst_limit: 1024, rate_limit_bytes_per_sec: 512, refill_period_millis: 100 }
}

fn runtime() -> Runtime {
    tokio::runtime::Builder::new_current_thread().enable_all().build().unwrap()
}

fn open_wal(rt: &Runtime, dir: &std::path::Path) -> MultiRecordLog {
    rt.block_on(MultiRecordLog::open_with_prefs(dir, SyncPolicy::OnDelay(Duration::from_secs(5))))
        .unwrap()
}

/// Creates `queue` holding records at positions `0..=last`, then truncates
/// it up to `truncated` if given.
fn seed_queue(rt: &Runtime, wal: &mut MultiRecordLog, queue: &str, last: Option<u64>, truncated: Option<u64>) {
    rt.block_on(wal.create_queue(queue)).unwrap();
    if let Some(last) = last {
        for _ in 0..=last {
            rt.block_on(wal.append_record(queue, None, &b"doc"[..])).unwrap();
        }
    }
    if let Some(position) = truncated {
        rt.block_on(wal.truncate(queue, position)).unwrap();
    }
}

fn s(text: &str) -> String {
    text.to_string()
}

/// Recovers from the WAL, deletes its empty queues, and becomes ready.
fn recover(rt: &Runtime, wal: &mut MultiRecordLog) -> InnerIngesterState {
    let (mut inner, _rx) = InnerIngesterState::new();
    let empty = recover_from_wal(&mut inner, wal, settings());
    for queue in empty {
        match rt.block_on(wal.delete_queue(&queue)) {
            Ok(()) | Err(DeleteQueueError::MissingQueue(_)) => {}
            Err(DeleteQueueError::IoError(error)) => panic!("{error}"),
        }
    }
    inner.set_status(IngesterStatus::Ready);
    inner
}

/// Carries out the commands of a response against the WAL.
fn repair(rt: &Runtime, wal: &mut MultiRecordLog, inner: &mut InnerIngesterState, response: &InspectShardsResponse) {
    for command in repair_commands(response) {
        match command {
            RepairCommand::Delete(queue) => {
                if inner.contains_shard(&queue) {
                    let outcome = match rt.block_on(wal.delete_queue(&queue)) {
                        Ok(()) => WalOutcome::Done,
                        Err(DeleteQueueError::MissingQueue(_)) => WalOutcome::MissingQueue,
                        Err(DeleteQueueError::IoError(_)) => WalOutcome::IoError,
                    };
                    inner.apply_delete_outcome(&queue, outcome);
                }
            }
            RepairCommand::Truncate(queue, position) => {
                if let Some(offset) = inner.truncate_target(&queue, &position) {
                    let outcome = match rt.block_on(wal.truncate(&queue, offset)) {
                        Ok(_) => WalOutcome::Done,
                        Err(TruncateError::MissingQueue(_)) => WalOutcome::MissingQueue,
                        Err(TruncateError::IoError(_)) => WalOutcome::IoError,
                    };
                    inner.apply_truncate_outcome(&queue, &position, outcome);
                }
            }
        }
    }
}

fn truncate_response(shard_id: &str, position: Position) -> InspectShardsResponse {
    InspectShardsResponse {
        shards_to_delete: Vec::new(),
        shards_to_truncate: vec![ShardIdPositions {
            index_uid: Some(s("idx")),
            source_id: s("src"),
            shard_positions: vec![ShardIdPosition {
                shard_id: Some(s(shard_id)),
                publish_position_inclusive: Some(position),
            }],
        }],
    }
}

fn delete_response(shard_id: &str) -> InspectShardsResponse {
    InspectShardsResponse {
        shards_to_delete: vec![ShardIds {
            index_uid: Some(s("idx")),
            source_id: s("src"),
            shard_ids: vec![s(shard_id)],
            shard_positions: Vec::new(),
        }],
        shards_to_truncate: Vec::new(),
    }
}

#[test]
fn test_ingester_state_does_not_lock_while_initializing() {
    let (inner, rx) = InnerIngesterState::new();
    assert_eq!(inner.status(), IngesterStatus::Initializing);
    assert_eq!(*rx.borrow(), IngesterStatus::Initializing);

    let error = lock_gate(*rx.borrow(), inner.status()).unwrap_err().to_string();
    assert!(error.contains("ingester is initializing"));
    let error = lock_gate(*rx.borrow(), IngesterStatus::Ready).unwrap_err().to_string();
    assert!(error.contains("ingester is initializing"));
}

#[test]
fn test_ingester_state_failed() {
    let (mut inner, rx) = InnerIngesterState::new();
    inner.set_status(IngesterStatus::Failed);
    assert_eq!(*rx.borrow(), IngesterStatus::Failed);

    let error = lock_gate(*rx.borrow(), inner.status()).unwrap_err().to_string();
    assert!(error.to_string().ends_with("failed to initialize ingester"));
    let error = lock_gate(*rx.borrow(), inner.status()).unwrap_err().to_string();
    assert!(error.contains("failed to initialize ingester"));
}

#[test]
fn test_ingester_state_init() {
    let rt = runtime();
    let temp_dir = tempfile::tempdir().unwrap();
    let mut wal = open_wal(&rt, temp_dir.path());
    let (mut inner, rx) = InnerIngesterState::new();
    let empty = recover_from_wal(&mut inner, &wal, settings());
    assert!(empty.is_empty());
    inner.set_status(IngesterStatus::Ready);
    let response = InspectShardsResponse { shards_to_delete: Vec::new(), shards_to_truncate: Vec::new() };
    repair(&rt, &mut wal, &mut inner, &response);

    assert_eq!(*rx.borrow(), IngesterStatus::Ready);
    assert!(lock_gate(*rx.borrow(), inner.status()).is_ok());
    assert_eq!(inner.status(), IngesterStatus::Ready);
    assert_eq!(inner.num_shards(), 0);
}

#[test]
fn cold_boot_with_empty_wal() {
    let rt = runtime();
    let temp_dir = tempfile::tempdir().unwrap();
    let mut wal = open_wal(&rt, temp_dir.path());
    let (mut inner, rx) = InnerIngesterState::new();
    assert_eq!(*rx.borrow(), IngesterStatus::Initializing);
    assert!(recover_from_wal(&mut inner, &wal, settings()).is_empty());
    inner.set_status(IngesterStatus::Ready);
    let request = inner.inspect_shards_request();
    assert!(request.shard_ids.is_empty());
    repair(&rt, &mut wal, &mut inner, &InspectShardsResponse { shards_to_delete: Vec::new(), shards_to_truncate: Vec::new() });
    assert_eq!(*rx.borrow(), IngesterStatus::Ready);
    assert_eq!(inner.num_shards(), 0);
    assert!(lock_gate(*rx.borrow(), inner.status()).is_ok());
}

#[test]
fn recovery_of_non_empty_queue() {
    let rt = runtime();
    let temp_dir = tempfile::tempdir().unwrap();
    let mut wal = open_wal(&rt, temp_dir.path());
    seed_queue(&rt, &mut wal, "idx:src:1", Some(4), None);
    let inner = recover(&rt, &mut wal);
    let shard = inner.shard(&s("idx:src:1")).unwrap();
    assert_eq!(shard.shard_state, ShardState::Closed);
    assert_eq!(shard.role, ShardRole::Solo);
    assert_eq!(shard.replication_position_inclusive, Position::Offset(4));
    assert_eq!(shard.truncation_position_inclusive, Position::Beginning);
    assert_eq!(inner.rate_tracker(&s("idx:src:1")), Some(RateTracker::new(settings())));
}

#[test]
fn recovery_with_first_offset_above_zero() {
    let rt = runtime();
    let temp_dir = tempfile::tempdir().unwrap();
    let mut wal = open_wal(&rt, temp_dir.path());
    seed_queue(&rt, &mut wal, "idx:src:2", Some(7), Some(2));
    let inner = recover(&rt, &mut wal);
    let shard = inner.shard(&s("idx:src:2")).unwrap();
    assert_eq!(shard.replication_position_inclusive, Position::Offset(7));
    assert_eq!(shard.truncation_position_inclusive, Position::Offset(2));
}

#[test]
fn empty_queue_is_purged() {
    let rt = runtime();
    let temp_dir = tempfile::tempdir().unwrap();
    let mut wal = open_wal(&rt, temp_dir.path());
    seed_queue(&rt, &mut wal, "idx:src:3", None, None);
    let (mut inner, _rx) = InnerIngesterState::new();
    let empty = recover_from_wal(&mut inner, &wal, settings());
    assert_eq!(empty, vec![s("idx:src:3")]);
    let inner = {
        rt.block_on(wal.delete_queue("idx:src:3")).unwrap();
        inner
    };
    assert!(!wal.queue_exists("idx:src:3"));
    assert!(!inner.contains_shard(&s("idx:src:3")));
    assert_eq!(inner.num_shards(), 0);
}

#[test]
fn repair_truncates_shard() {
    let rt = runtime();
    let temp_dir = tempfile::tempdir().unwrap();
    let mut wal = open_wal(&rt, temp_dir.path());
    seed_queue(&rt, &mut wal, "idx:src:1", Some(4), None);
    let mut inner = recover(&rt, &mut wal);
    repair(&rt, &mut wal, &mut inner, &truncate_response("1", Position::Offset(2)));
    let shard = inner.shard(&s("idx:src:1")).unwrap();
    assert_eq!(shard.truncation_position_inclusive, Position::Offset(2));
    assert_eq!(shard.replication_position_inclusive, Position::Offset(4));
}

#[test]
fn repair_deletes_shard() {
    let rt = runtime();
    let temp_dir = tempfile::tempdir().unwrap();
    let mut wal = open_wal(&rt, temp_dir.path());
    seed_queue(&rt, &mut wal, "idx:src:1", Some(4), None);
    let mut inner = recover(&rt, &mut wal);
    repair(&rt, &mut wal, &mut inner, &delete_response("1"));
    assert_eq!(inner.num_shards(), 0);
    assert!(inner.rate_tracker(&s("idx:src:1")).is_none());
    assert!(!wal.queue_exists("idx:src:1"));
}

#[test]
fn wal_open_failure_fails_both_locks() {
    let rt = runtime();
    let temp_dir = tempfile::tempdir().unwrap();
    let file_path = temp_dir.path().join("missing");
    let open_result = rt.block_on(MultiRecordLog::open_with_prefs(
        &file_path,
        SyncPolicy::OnDelay(Duration::from_secs(5)),
    ));
    assert!(open_result.is_err());
    let (mut inner, rx) = InnerIngesterState::new();
    inner.set_status(IngesterStatus::Failed);
    assert_eq!(inner.status(), IngesterStatus::Failed);
    for _lock_mode in ["partial", "full"] {
        let error = lock_gate(*rx.borrow(), inner.status()).unwrap_err();
        assert_eq!(error, ingester_state::IngestV2Error::Internal(s("failed to initialize ingester")));
    }
}

#[test]
fn stale_truncation_is_rejected() {
    let rt = runtime();
    let temp_dir = tempfile::tempdir().unwrap();
    let mut wal = open_wal(&rt, temp_dir.path());
    seed_queue(&rt, &mut wal, "idx:src:1", Some(4), None);
    let mut inner = recover(&rt, &mut wal);
    repair(&rt, &mut wal, &mut inner, &truncate_response("1", Position::Offset(2)));
    let queue = s("idx:src:1");
    assert_eq!(inner.truncate_target(&queue, &Position::Offset(1)), None);
    inner.apply_truncate_outcome(&queue, &Position::Offset(1), WalOutcome::Done);
    assert_eq!(inner.shard(&queue).unwrap().truncation_position_inclusive, Position::Offset(2));
}

fn ready_state_with(queues: &[(&str, u64, u64)]) -> InnerIngesterState {
    let (mut inner, _rx) = InnerIngesterState::new();
    for (queue, first, last) in queues {
        assert!(inner.recover_queue(s(queue), Some((*first, *last)), settings()));
    }
    inner.set_status(IngesterStatus::Ready);
    inner
}

#[test]
fn truncate_target_rules() {
    let inner = ready_state_with(&[("idx:src:1", 3, 9)]);
    let queue = s("idx:src:1");
    assert_eq!(inner.truncate_target(&queue, &Position::Beginning), None);
    assert_eq!(inner.truncate_target(&s("idx:src:9"), &Position::Offset(5)), None);
    assert_eq!(inner.truncate_target(&queue, &Position::Offset(2)), None);
    assert_eq!(inner.truncate_target(&queue, &Position::Offset(5)), Some(5));
}

#[test]
fn truncate_outcomes() {
    let queue = s("idx:src:1");
    let mut inner = ready_state_with(&[("idx:src:1", 0, 9)]);
    inner.apply_truncate_outcome(&queue, &Position::Offset(5), WalOutcome::IoError);
    assert_eq!(inner.shard(&queue).unwrap().truncation_position_inclusive, Position::Beginning);
    inner.apply_truncate_outcome(&queue, &Position::Offset(5), WalOutcome::Done);
    assert_eq!(inner.shard(&queue).unwrap().truncation_position_inclusive, Position::Offset(5));
    inner.apply_truncate_outcome(&queue, &Position::Offset(6), WalOutcome::MissingQueue);
    assert!(!inner.contains_shard(&queue));
    assert!(inner.rate_tracker(&queue).is_none());
}

#[test]
fn delete_twice_is_delete_once() {
    let queue = s("idx:src:1");
    let mut inner = ready_state_with(&[("idx:src:1", 0, 4), ("idx:src:2", 0, 4)]);
    inner.apply_delete_outcome(&queue, WalOutcome::IoError);
    assert!(inner.contains_shard(&queue));
    inner.apply_delete_outcome(&queue, WalOutcome::Done);
    assert_eq!(inner.num_shards(), 1);
    assert!(!inner.contains_shard(&queue));
    inner.apply_delete_outcome(&queue, WalOutcome::MissingQueue);
    assert_eq!(inner.num_shards(), 1);
    assert!(inner.contains_shard(&s("idx:src:2")));
    assert_eq!(inner.queue_ids(), vec![s("idx:src:2")]);
}

#[test]
fn map_parity_and_truncation_bound() {
    let mut inner = ready_state_with(&[("idx:src:1", 0, 4), ("idx:src:2", 3, 7)]);
    inner.apply_truncate_outcome(&s("idx:src:2"), &Position::Offset(5), WalOutcome::Done);
    assert!(inner.remove_shard(&s("idx:src:1")));
    let mut queues = inner.queue_ids();
    queues.sort();
    assert_eq!(queues, vec![s("idx:src:2")]);
    for queue in &queues {
        assert!(inner.rate_tracker(queue).is_some());
        let shard = inner.shard(queue).unwrap();
        assert!(shard.truncation_position_inclusive.le(&shard.replication_position_inclusive));
    }
    assert!(inner.rate_tracker(&s("idx:src:1")).is_none());
}

#[test]
fn repair_convergence() {
    let mut inner = ready_state_with(&[("idx:src:1", 0, 9), ("idx:src:2", 0, 9), ("idx:other:3", 0, 9)]);
    let response = InspectShardsResponse {
        shards_to_delete: delete_response("2").shards_to_delete,
        shards_to_truncate: vec![ShardIdPositions {
            index_uid: Some(s("idx")),
            source_id: s("src"),
            shard_positions: vec![
                ShardIdPosition { shard_id: Some(s("1")), publish_position_inclusive: Some(Position::Offset(6)) },
                ShardIdPosition { shard_id: Some(s("1")), publish_position_inclusive: Some(Position::Offset(3)) },
                ShardIdPosition { shard_id: Some(s("2")), publish_position_inclusive: Some(Position::Offset(3)) },
            ],
        }],
    };
    let commands = repair_commands(&response);
    assert_eq!(commands.len(), 4);
    for command in commands {
        match command {
            RepairCommand::Delete(queue) => inner.apply_delete_outcome(&queue, WalOutcome::Done),
            RepairCommand::Truncate(queue, position) => {
                inner.apply_truncate_outcome(&queue, &position, WalOutcome::Done)
            }
        }
    }
    let mut queues = inner.queue_ids();
    queues.sort();
    assert_eq!(queues, vec![s("idx:other:3"), s("idx:src:1")]);
    assert_eq!(inner.shard(&s("idx:src:1")).unwrap().truncation_position_inclusive, Position::Offset(6));
}

#[test]
fn repair_commands_skip_incomplete_entries() {
    let response = InspectShardsResponse {
        shards_to_delete: vec![ShardIds {
            index_uid: None,
            source_id: s("src"),
            shard_ids: vec![s("1")],
            shard_positions: Vec::new(),
        }],
        shards_to_truncate: vec![ShardIdPositions {
            index_uid: Some(s("idx")),
            source_id: s("src"),
            shard_positions: vec![ShardIdPosition { shard_id: None, publish_position_inclusive: Some(Position::Offset(1)) }],
        }],
    };
    assert!(repair_commands(&response).is_empty());
}

#[test]
fn inspect_request_groups_by_source() {
    let mut inner = ready_state_with(&[("idx:src:1", 0, 1), ("idx:src:2", 0, 1), ("idx:other:3", 0, 1)]);
    inner.insert_shard(
        s("not-a-queue-id"),
        IngesterShard::new_solo(ShardState::Open, Position::Beginning, Position::Beginning),
        RateTracker::new(settings()),
    );
    let request = inner.inspect_shards_request();
    assert_eq!(request.shard_ids.len(), 2);
    let mut groups: Vec<(String, String, Vec<String>)> = request
        .shard_ids
        .iter()
        .map(|group| {
            assert!(group.shard_positions.is_empty());
            let mut ids = group.shard_ids.clone();
            ids.sort();
            (group.index_uid.clone().unwrap(), group.source_id.clone(), ids)
        })
        .collect();
    groups.sort();
    assert_eq!(
        groups,
        vec![
            (s("idx"), s("other"), vec![s("3")]),
            (s("idx"), s("src"), vec![s("1"), s("2")]),
        ]
    );
}

#[test]
fn queue_id_round_trip() {
    assert_eq!(queue_id("idx", "src", "1"), "idx:src:1");
    assert_eq!(split_queue_id("idx:src:1"), Some((s("idx"), s("src"), s("1"))));
    assert_eq!(split_queue_id("idx::"), Some((s("idx"), s(""), s(""))));
    assert_eq!(split_queue_id("idx:src"), None);
    assert_eq!(split_queue_id("a:b:c:d"), None);
    assert_eq!(split_queue_id(""), None);
}

#[test]
fn position_order() {
    assert!(Position::Beginning.le(&Position::Offset(0)));
    assert!(!Position::Offset(0).le(&Position::Beginning));
    assert!(Position::Offset(3).le(&Position::Offset(3)));
    assert!(!Position::Offset(4).le(&Position::Offset(3)));
    assert_eq!(Position::offset(7).as_u64(), Some(7));
    assert_eq!(Position::Beginning.as_u64(), None);
}

#[test]
fn position_range_of_records() {
    assert_eq!(ingester_state::position_range(None), None);
    assert_eq!(ingester_state::position_range(Some(Vec::new())), None);
    assert_eq!(ingester_state::position_range(Some(vec![3, 4, 5, 6, 7])), Some((3, 7)));
    assert_eq!(ingester_state::position_range(Some(vec![9])), Some((9, 9)));
}

#[test]
fn queue_position_range_reads_the_wal() {
    let rt = runtime();
    let temp_dir = tempfile::tempdir().unwrap();
    let mut wal = open_wal(&rt, temp_dir.path());
    seed_queue(&rt, &mut wal, "idx:src:2", Some(7), Some(2));
    seed_queue(&rt, &mut wal, "idx:src:3", None, None);
    assert_eq!(ingester_state::queue_position_range(&wal, "idx:src:2"), Some((3, 7)));
    assert_eq!(ingester_state::queue_position_range(&wal, "idx:src:3"), None);
    assert_eq!(ingester_state::queue_position_range(&wal, "idx:src:4"), None);
    let mut scanned = ingester_state::scan_wal(&wal);
    scanned.sort();
    assert_eq!(scanned, vec![(s("idx:src:2"), Some((3, 7))), (s("idx:src:3"), None)]);
}

#[test]
fn rate_trackers_follow_delete_and_truncate_outcomes() {
    let queue = s("idx:src:1");
    let mut inner = ready_state_with(&[("idx:src:1", 0, 9), ("idx:src:2", 0, 9)]);
    let tracker = inner.rate_tracker(&queue).unwrap();
    inner.apply_delete_outcome(&queue, WalOutcome::IoError);
    assert_eq!(inner.rate_tracker(&queue), Some(tracker));
    inner.apply_truncate_outcome(&queue, &Position::Offset(3), WalOutcome::IoError);
    assert_eq!(inner.rate_tracker(&queue), Some(tracker));
    inner.apply_truncate_outcome(&queue, &Position::Offset(3), WalOutcome::Done);
    assert_eq!(inner.rate_tracker(&queue), Some(tracker));
    inner.apply_delete_outcome(&queue, WalOutcome::MissingQueue);
    assert!(inner.rate_tracker(&queue).is_none());
    inner.apply_delete_outcome(&queue, WalOutcome::Done);
    assert!(inner.rate_tracker(&queue).is_none());
    assert!(inner.rate_tracker(&s("idx:src:2")).is_some());
}

#[test]
fn inspect_request_lists_each_shard_once() {
    let inner = ready_state_with(&[("idx:src:1", 0, 1), ("idx:src:2", 0, 1)]);
    let request = inner.inspect_shards_request();
    assert_eq!(request.shard_ids.len(), 1);
    let mut ids = request.shard_ids[0].shard_ids.clone();
    ids.sort();
    assert_eq!(ids, vec![s("1"), s("2")]);
}
