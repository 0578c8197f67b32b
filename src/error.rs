use vstd::prelude::*;
use vstd::string::*;

verus! {

/// Category of a service error.
#[derive(Clone, Copy, Debug, PartialEq, Eq, Structural)]
pub enum ServiceErrorCode {
    Internal,
    NotFound,
    Timeout,
    TooManyRequests,
    Unavailable,
}

/// Errors that the ingest service reports to its callers.
#[derive(Debug, PartialEq, Eq)]
pub enum IngestV2Error {
    Internal(String),
    ShardNotFound { shard_id: String },
    Timeout(String),
    TooManyRequests,
    Unavailable(String),
}

/// The message that an error prints.
pub open spec fn error_message(e: IngestV2Error) -> Seq<char> {
    match e {
        IngestV2Error::Internal(m) => "internal error: "@ + m@,
        IngestV2Error::ShardNotFound { shard_id } => "shard `"@ + shard_id@ + "` not found"@,
        IngestV2Error::Timeout(m) => "request timed out: "@ + m@,
        IngestV2Error::TooManyRequests => "too many requests"@,
        IngestV2Error::Unavailable(m) => "service unavailable: "@ + m@,
    }
}

impl IngestV2Error {
    pub fn error_code(&self) -> (r: ServiceErrorCode)
        ensures
            r == (match *self {
                IngestV2Error::Internal(_) => ServiceErrorCode::Internal,
                IngestV2Error::ShardNotFound { .. } => ServiceErrorCode::NotFound,
                IngestV2Error::Timeout(_) => ServiceErrorCode::Timeout,
                IngestV2Error::TooManyRequests => ServiceErrorCode::TooManyRequests,
                IngestV2Error::Unavailable(_) => ServiceErrorCode::Unavailable,
            }),
    {
        match self {
            IngestV2Error::Internal(_) => ServiceErrorCode::Internal,
            IngestV2Error::ShardNotFound { .. } => ServiceErrorCode::NotFound,
            IngestV2Error::Timeout(_) => ServiceErrorCode::Timeout,
            IngestV2Error::TooManyRequests => ServiceErrorCode::TooManyRequests,
            IngestV2Error::Unavailable(_) => ServiceErrorCode::Unavailable,
        }
    }

    pub fn new_internal(message: String) -> (r: IngestV2Error)
        ensures
            r == IngestV2Error::Internal(message),
    {
        IngestV2Error::Internal(message)
    }

    pub fn new_timeout(message: String) -> (r: IngestV2Error)
        ensures
            r == IngestV2Error::Timeout(message),
    {
        IngestV2Error::Timeout(message)
    }

    pub fn new_unavailable(message: String) -> (r: IngestV2Error)
        ensures
            r == IngestV2Error::Unavailable(message),
    {
        IngestV2Error::Unavailable(message)
    }

    /// The human-readable message of the error.
    pub fn to_string(&self) -> (r: String)
        ensures
            r@ == error_message(*self),
    {
        match self {
            IngestV2Error::Internal(m) => String::from_str("internal error: ").concat(m.as_str()),
            IngestV2Error::ShardNotFound { shard_id } => {
                String::from_str("shard `").concat(shard_id.as_str()).concat("` not found")
            },
            IngestV2Error::Timeout(m) => String::from_str("request timed out: ").concat(m.as_str()),
            IngestV2Error::TooManyRequests => String::from_str("too many requests"),
            IngestV2Error::Unavailable(m) => String::from_str("service unavailable: ").concat(m.as_str()),
        }
    }
}

/// Why a persist request failed.
#[derive(Clone, Copy, Debug, PartialEq, Eq, Structural)]
pub enum PersistFailureReason {
    Unspecified,
    ShardNotFound,
    ShardClosed,
    ResourceExhausted,
    RateLimited,
}

/// Why a replicate request failed.
#[derive(Clone, Copy, Debug, PartialEq, Eq, Structural)]
pub enum ReplicateFailureReason {
    Unspecified,
    ShardNotFound,
    ShardClosed,
    ResourceExhausted,
}

/// Why an ingest request failed.
#[derive(Clone, Copy, Debug, PartialEq, Eq, Structural)]
pub enum IngestFailureReason {
    Unspecified,
    NoShardsAvailable,
    ResourceExhausted,
    RateLimited,
}

pub open spec fn ingest_reason_of(reason: PersistFailureReason) -> IngestFailureReason {
    match reason {
        PersistFailureReason::Unspecified => IngestFailureReason::Unspecified,
        PersistFailureReason::ShardNotFound => IngestFailureReason::NoShardsAvailable,
        PersistFailureReason::ShardClosed => IngestFailureReason::NoShardsAvailable,
        PersistFailureReason::ResourceExhausted => IngestFailureReason::ResourceExhausted,
        PersistFailureReason::RateLimited => IngestFailureReason::RateLimited,
    }
}

pub open spec fn persist_reason_of(reason: ReplicateFailureReason) -> PersistFailureReason {
    match reason {
        ReplicateFailureReason::Unspecified => PersistFailureReason::Unspecified,
        ReplicateFailureReason::ShardNotFound => PersistFailureReason::ShardNotFound,
        ReplicateFailureReason::ShardClosed => PersistFailureReason::ShardClosed,
        ReplicateFailureReason::ResourceExhausted => PersistFailureReason::ResourceExhausted,
    }
}

impl From<PersistFailureReason> for IngestFailureReason {
    fn from(reason: PersistFailureReason) -> (r: IngestFailureReason) {
        match reason {
            PersistFailureReason::Unspecified => IngestFailureReason::Unspecified,
            PersistFailureReason::ShardNotFound => IngestFailureReason::NoShardsAvailable,
            PersistFailureReason::ShardClosed => IngestFailureReason::NoShardsAvailable,
            PersistFailureReason::ResourceExhausted => IngestFailureReason::ResourceExhausted,
            PersistFailureReason::RateLimited => IngestFailureReason::RateLimited,
        }
    }
}

impl vstd::std_specs::convert::FromSpecImpl<PersistFailureReason> for IngestFailureReason {
    open spec fn obeys_from_spec() -> bool {
        true
    }

    open spec fn from_spec(reason: PersistFailureReason) -> IngestFailureReason {
        ingest_reason_of(reason)
    }
}

impl From<ReplicateFailureReason> for PersistFailureReason {
    fn from(reason: ReplicateFailureReason) -> (r: PersistFailureReason) {
        match reason {
            ReplicateFailureReason::Unspecified => PersistFailureReason::Unspecified,
            ReplicateFailureReason::ShardNotFound => PersistFailureReason::ShardNotFound,
            ReplicateFailureReason::ShardClosed => PersistFailureReason::ShardClosed,
            ReplicateFailureReason::ResourceExhausted => PersistFailureReason::ResourceExhausted,
        }
    }
}

impl vstd::std_specs::convert::FromSpecImpl<ReplicateFailureReason> for PersistFailureReason {
    open spec fn obeys_from_spec() -> bool {
        true
    }

    open spec fn from_spec(reason: ReplicateFailureReason) -> PersistFailureReason {
        persist_reason_of(reason)
    }
}

} // verus!
