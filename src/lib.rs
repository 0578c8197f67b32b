//! Shared state of an ingester: the shard registry, the lifecycle status, the
//! gating of the two lock scopes, and the recovery and repair rules that
//! reconcile the write-ahead log with the control plane.

pub mod buffers;
pub mod error;
pub mod proto;
mod registry;
pub mod repair;
pub mod state;
pub mod types;
pub mod wal;

pub use error::{IngestFailureReason, IngestV2Error, PersistFailureReason, ReplicateFailureReason, ServiceErrorCode};
pub use proto::{
    DocBatchV2, InspectShardsRequest, InspectShardsResponse, MRecordBatch, Shard, ShardIdPosition,
    ShardIdPositions, ShardIds, ShardState,
};
pub use registry::Registry;
pub use repair::{repair_commands, RepairCommand};
pub use state::{
    lock_gate, IngesterShard, InnerIngesterState, RateLimiterSettings, RateTracker, ShardRole, WalOutcome,
};
pub use types::{queue_id, split_queue_id, IngesterStatus, Position};
pub use wal::{position_range, queue_position_range, recover_from_wal, scan_wal};
