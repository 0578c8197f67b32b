use crate::state::{empty_queues_of, recover_all, scanned_view, InnerIngesterState, RateLimiterSettings};
use mrecordlog::MultiRecordLog;
use vstd::prelude::*;

verus! {

#[verifier::external_type_specification]
#[verifier::external_body]
pub struct ExMultiRecordLog(MultiRecordLog);

/// The queue names of a WAL, in the order in which it lists them.
pub uninterp spec fn wal_queue_list(wal: MultiRecordLog) -> Seq<Seq<char>>;

/// The positions of the records of each queue of a WAL, in order.
pub uninterp spec fn wal_queue_positions(wal: MultiRecordLog) -> Map<Seq<char>, Seq<u64>>;

/// The first and last of `positions`, or `None` when there is none.
pub open spec fn range_of(positions: Seq<u64>) -> Option<(u64, u64)> {
    if positions.len() > 0 {
        Some((positions[0], positions.last()))
    } else {
        None
    }
}

/// What recovery reads of a WAL: each listed queue with its range.
pub open spec fn wal_scan(wal: MultiRecordLog) -> Seq<(Seq<char>, Option<(u64, u64)>)> {
    wal_queue_list(wal).map_values(|q: Seq<char>| (q, range_of(wal_queue_positions(wal)[q])))
}

/// Relies on `MultiRecordLog::list_queues`: the keys of the WAL's in-memory
/// queue map, each once.
#[verifier::external_body]
fn wal_queue_ids(wal: &MultiRecordLog) -> (r: Vec<String>)
    ensures
        r@.map_values(|s: String| s@) == wal_queue_list(*wal),
        r@.map_values(|s: String| s@).to_set() == wal_queue_positions(*wal).dom(),
        r@.map_values(|s: String| s@).no_duplicates(),
{
    wal.list_queues().map(|queue_id| queue_id.to_string()).collect()
}

/// Relies on `MultiRecordLog::range` over the whole queue: the positions of
/// its records, or `None` when the WAL has no such queue.
#[verifier::external_body]
fn wal_record_positions(wal: &MultiRecordLog, queue_id: &str) -> (r: Option<Vec<u64>>)
    ensures
        r is Some <==> wal_queue_positions(*wal).contains_key(queue_id@),
        r matches Some(v) ==> v@ == wal_queue_positions(*wal)[queue_id@],
{
    match wal.range(queue_id, ..) {
        Ok(records) => Some(records.map(|(position, _)| position).collect()),
        Err(_) => None,
    }
}

/// The positions of the first and last records, or `None` when there is no
/// record.
pub fn position_range(positions: Option<Vec<u64>>) -> (r: Option<(u64, u64)>)
    ensures
        r == (match positions {
            Some(p) => if p@.len() > 0 {
                Some((p@[0], p@.last()))
            } else {
                None
            },
            None => None,
        }),
{
    match positions {
        Some(p) => if p.len() > 0 {
            Some((p[0], p[p.len() - 1]))
        } else {
            None
        },
        None => None,
    }
}

/// The first and last positions of a queue of the WAL; `None` when it is
/// empty or missing.
pub fn queue_position_range(wal: &MultiRecordLog, queue_id: &str) -> (r: Option<(u64, u64)>)
    ensures
        r == (if wal_queue_positions(*wal).contains_key(queue_id@) {
            range_of(wal_queue_positions(*wal)[queue_id@])
        } else {
            None
        }),
{
    position_range(wal_record_positions(wal, queue_id))
}

/// Every queue of the WAL with its range of positions.
pub fn scan_wal(wal: &MultiRecordLog) -> (r: Vec<(String, Option<(u64, u64)>)>)
    ensures
        scanned_view(r@) == wal_scan(*wal),
{
    let queue_ids = wal_queue_ids(wal);
    let ghost names = queue_ids@.map_values(|s: String| s@);
    let mut r: Vec<(String, Option<(u64, u64)>)> = Vec::new();
    let mut i: usize = 0;
    while i < queue_ids.len()
        invariant
            i <= queue_ids@.len(),
            names == queue_ids@.map_values(|s: String| s@),
            names == wal_queue_list(*wal),
            names.to_set() == wal_queue_positions(*wal).dom(),
            r@.len() == i,
            forall|k: int| 0 <= k < i ==> (#[trigger] scanned_view(r@)[k]) == wal_scan(*wal)[k],
        decreases queue_ids@.len() - i,
    {
        let range = queue_position_range(wal, queue_ids[i].as_str());
        assert(names[i as int] == queue_ids@[i as int]@);
        assert(names.to_set().contains(names[i as int]));
        let ghost prev = r@;
        r.push((queue_ids[i].clone(), range));
        assert forall|k: int| 0 <= k < i implies (#[trigger] scanned_view(r@)[k]) == wal_scan(*wal)[k] by {
            assert(r@[k] == prev[k]);
            assert(scanned_view(prev)[k] == wal_scan(*wal)[k]);
        }
        assert(scanned_view(r@)[i as int] == wal_scan(*wal)[i as int]);
        i = i + 1;
    }
    assert(scanned_view(r@) =~= wal_scan(*wal));
    r
}

/// Recovers the shards of a freshly opened WAL: each non-empty queue
/// becomes a closed shard, and the empty ones are returned, for the caller
/// to delete.
pub fn recover_from_wal(
    inner: &mut InnerIngesterState,
    wal: &MultiRecordLog,
    rate_limiter_settings: RateLimiterSettings,
) -> (r: Vec<String>)
    requires
        old(inner).wf(),
    ensures
        final(inner).wf(),
        final(inner).status_view() == old(inner).status_view(),
        final(inner).shards_view() == recover_all(old(inner).shards_view(), wal_scan(*wal)),
        r@.map_values(|q: String| q@) == empty_queues_of(wal_scan(*wal)),
{
    let scanned = scan_wal(wal);
    inner.recover_queues(scanned, rate_limiter_settings)
}

} // verus!
