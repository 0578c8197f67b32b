use crate::error::IngestV2Error;
use crate::proto::{InspectShardsRequest, ShardIds, ShardState};
use crate::registry::Registry;
use crate::types::{is_colon_free, is_valid_queue_id, pos_le, queue_id_of, split_queue_id, IngesterStatus, Position};
use tokio::sync::watch;
use vstd::prelude::*;
use vstd::string::*;

verus! {

#[verifier::external_type_specification]
#[verifier::external_body]
#[verifier::reject_recursive_types(T)]
pub struct ExSender<T>(watch::Sender<T>);

#[verifier::external_type_specification]
#[verifier::external_body]
#[verifier::reject_recursive_types(T)]
pub struct ExReceiver<T>(watch::Receiver<T>);

/// The value that a status channel holds: the last one sent.
pub uninterp spec fn watched_status(tx: watch::Sender<IngesterStatus>) -> IngesterStatus;

/// Relies on `tokio::sync::watch::channel`: a channel that holds `init`.
#[verifier::external_body]
fn status_channel(init: IngesterStatus) -> (r: (watch::Sender<IngesterStatus>, watch::Receiver<IngesterStatus>))
    ensures
        watched_status(r.0) == init,
{
    watch::channel(init)
}

/// Relies on `tokio::sync::watch::Sender::send_replace`: the channel then
/// holds `status` and the receivers are notified; it does not fail when
/// none is left.
#[verifier::external_body]
fn publish_status(tx: &mut watch::Sender<IngesterStatus>, status: IngesterStatus)
    ensures
        watched_status(*final(tx)) == status,
{
    tx.send_replace(status);
}

/// Which node leads the replication of a shard.
#[derive(Clone, Copy, Debug, PartialEq, Eq, Structural)]
pub enum ShardRole {
    Solo,
    Leader,
    Follower,
}

/// What this ingester knows of one of its shards.
#[derive(Clone, Copy, Debug, PartialEq, Eq, Structural)]
pub struct IngesterShard {
    pub shard_state: ShardState,
    pub role: ShardRole,
    /// Highest offset persisted here.
    pub replication_position_inclusive: Position,
    /// Highest offset that may be removed from the WAL.
    pub truncation_position_inclusive: Position,
}

impl IngesterShard {
    pub open spec fn is_bounded(&self) -> bool {
        pos_le(self.truncation_position_inclusive, self.replication_position_inclusive)
    }

    pub fn new_solo(
        shard_state: ShardState,
        replication_position_inclusive: Position,
        truncation_position_inclusive: Position,
    ) -> (r: IngesterShard)
        ensures
            r == (IngesterShard {
                shard_state,
                role: ShardRole::Solo,
                replication_position_inclusive,
                truncation_position_inclusive,
            }),
    {
        IngesterShard { shard_state, role: ShardRole::Solo, replication_position_inclusive, truncation_position_inclusive }
    }
}

/// Settings of the rate limiter of a shard.
#[derive(Clone, Copy, Debug, PartialEq, Eq, Structural)]
pub struct RateLimiterSettings {
    pub burst_limit: u64,
    pub rate_limit_bytes_per_sec: u64,
    pub refill_period_millis: u64,
}

/// The rate limiter and meter of a shard, created from the limiter's settings.
#[derive(Clone, Copy, Debug, PartialEq, Eq, Structural)]
pub struct RateTracker {
    pub settings: RateLimiterSettings,
}

impl RateTracker {
    pub open spec fn new_spec(settings: RateLimiterSettings) -> RateTracker {
        RateTracker { settings }
    }

    pub fn new(settings: RateLimiterSettings) -> (r: RateTracker)
        ensures
            r == RateTracker::new_spec(settings),
    {
        RateTracker { settings }
    }
}

/// What the WAL answered to a truncation or a deletion.
#[derive(Clone, Copy, Debug, PartialEq, Eq, Structural)]
pub enum WalOutcome {
    Done,
    MissingQueue,
    IoError,
}

/// The shard registry of a queue that recovery found with records from
/// `first` to `last`.
pub open spec fn recovered_shard_of(first: u64, last: u64) -> IngesterShard {
    IngesterShard {
        shard_state: ShardState::Closed,
        role: ShardRole::Solo,
        replication_position_inclusive: Position::Offset(last),
        truncation_position_inclusive: if first == 0 {
            Position::Beginning
        } else {
            Position::Offset((first - 1) as u64)
        },
    }
}

/// The shards after recovery has seen one queue and what range it holds.
pub open spec fn recover_step(
    m: Map<Seq<char>, IngesterShard>,
    queue_id: Seq<char>,
    range: Option<(u64, u64)>,
) -> Map<Seq<char>, IngesterShard> {
    match range {
        Some((first, last)) => m.insert(queue_id, recovered_shard_of(first, last)),
        None => m,
    }
}

/// A group of an inspection request: one per index and source, holding the
/// ids of shards of `shards`, with no positions.
pub open spec fn is_request_group(g: ShardIds, shards: Map<Seq<char>, IngesterShard>) -> bool {
    &&& g.index_uid is Some
    &&& g.shard_ids@.len() > 0
    &&& g.shard_positions@.len() == 0
    &&& is_colon_free((g.index_uid->0)@)
    &&& is_colon_free(g.source_id@)
    &&& forall|j: int| 0 <= j < g.shard_ids@.len() ==> is_colon_free((#[trigger] g.shard_ids@[j])@)
        && shards.contains_key(queue_id_of((g.index_uid->0)@, g.source_id@, g.shard_ids@[j]@))
}

/// Whether two groups name the same index and source.
pub open spec fn same_source(a: ShardIds, b: ShardIds) -> bool {
    &&& a.index_uid is Some
    &&& b.index_uid is Some
    &&& (a.index_uid->0)@ == (b.index_uid->0)@
    &&& a.source_id@ == b.source_id@
}

/// Whether `gs` has a shard `j` in its group `g`.
pub open spec fn is_pair(gs: Seq<ShardIds>, g: int, j: int) -> bool {
    0 <= g < gs.len() && 0 <= j < gs[g].shard_ids@.len()
}

/// The queue of shard `j` of group `g` of `gs`.
pub open spec fn pair_queue(gs: Seq<ShardIds>, g: int, j: int) -> Seq<char> {
    queue_id_of((gs[g].index_uid->0)@, gs[g].source_id@, gs[g].shard_ids@[j]@)
}

/// Whether shard `j` of group `g` of `gs` is the shard of queue `k`.
pub open spec fn names_queue(gs: Seq<ShardIds>, g: int, j: int, k: Seq<char>) -> bool {
    is_pair(gs, g, j) && pair_queue(gs, g, j) == k
}

/// No two shards of `gs` name the same queue.
pub open spec fn pairs_distinct(gs: Seq<ShardIds>) -> bool {
    forall|g1: int, j1: int, g2: int, j2: int|
        is_pair(gs, g1, j1) && is_pair(gs, g2, j2) && #[trigger] pair_queue(gs, g1, j1) == #[trigger] pair_queue(
            gs,
            g2,
            j2,
        ) ==> g1 == g2 && j1 == j2
}

/// The view of what recovery found: each queue id with its range.
pub open spec fn scanned_view(qs: Seq<(String, Option<(u64, u64)>)>) -> Seq<(Seq<char>, Option<(u64, u64)>)> {
    qs.map_values(|e: (String, Option<(u64, u64)>)| (e.0@, e.1))
}

/// The shards after recovery has seen the queues of `qs`, in order.
pub open spec fn recover_all(
    m: Map<Seq<char>, IngesterShard>,
    qs: Seq<(Seq<char>, Option<(u64, u64)>)>,
) -> Map<Seq<char>, IngesterShard>
    decreases qs.len(),
{
    if qs.len() == 0 {
        m
    } else {
        recover_step(recover_all(m, qs.drop_last()), qs.last().0, qs.last().1)
    }
}

/// The queues of `qs` that hold no record, in order.
pub open spec fn empty_queues_of(qs: Seq<(Seq<char>, Option<(u64, u64)>)>) -> Seq<Seq<char>>
    decreases qs.len(),
{
    if qs.len() == 0 {
        Seq::empty()
    } else if qs.last().1 is None {
        empty_queues_of(qs.drop_last()).push(qs.last().0)
    } else {
        empty_queues_of(qs.drop_last())
    }
}

/// The WAL offset that truncating `queue_id` up to `up_to` asks for, if the
/// truncation is to be made at all.
pub open spec fn truncate_target_of(
    m: Map<Seq<char>, IngesterShard>,
    queue_id: Seq<char>,
    up_to: Position,
) -> Option<u64> {
    match up_to {
        Position::Beginning => None,
        Position::Offset(o) => if m.contains_key(queue_id) && !pos_le(
            up_to,
            m[queue_id].truncation_position_inclusive,
        ) {
            Some(o)
        } else {
            None
        },
    }
}

/// The shards after a truncation of `queue_id` up to `up_to` that the WAL
/// answered with `outcome`.
pub open spec fn truncate_step(
    m: Map<Seq<char>, IngesterShard>,
    queue_id: Seq<char>,
    up_to: Position,
    outcome: WalOutcome,
) -> Map<Seq<char>, IngesterShard> {
    if truncate_target_of(m, queue_id, up_to) is None {
        m
    } else {
        match outcome {
            WalOutcome::Done => m.insert(
                queue_id,
                IngesterShard { truncation_position_inclusive: up_to, ..m[queue_id] },
            ),
            WalOutcome::MissingQueue => m.remove(queue_id),
            WalOutcome::IoError => m,
        }
    }
}

/// The shards after a deletion of `queue_id` that the WAL answered with `outcome`.
pub open spec fn delete_step(
    m: Map<Seq<char>, IngesterShard>,
    queue_id: Seq<char>,
    outcome: WalOutcome,
) -> Map<Seq<char>, IngesterShard> {
    if !m.contains_key(queue_id) {
        m
    } else {
        match outcome {
            WalOutcome::Done | WalOutcome::MissingQueue => m.remove(queue_id),
            WalOutcome::IoError => m,
        }
    }
}

/// The lifecycle moves only out of `Initializing`; `Ready` and `Failed` are final.
pub open spec fn is_status_transition(from: IngesterStatus, to: IngesterStatus) -> bool {
    from == to || from == IngesterStatus::Initializing
}

/// The rate trackers after a deletion of `queue_id` that the WAL answered
/// with `outcome`, given the shards before it.
pub open spec fn delete_trackers_step(
    shards: Map<Seq<char>, IngesterShard>,
    trackers: Map<Seq<char>, RateTracker>,
    queue_id: Seq<char>,
    outcome: WalOutcome,
) -> Map<Seq<char>, RateTracker> {
    if shards.contains_key(queue_id) && outcome != WalOutcome::IoError {
        trackers.remove(queue_id)
    } else {
        trackers
    }
}

/// The rate trackers after a truncation of `queue_id` up to `up_to` that the
/// WAL answered with `outcome`, given the shards before it.
pub open spec fn truncate_trackers_step(
    shards: Map<Seq<char>, IngesterShard>,
    trackers: Map<Seq<char>, RateTracker>,
    queue_id: Seq<char>,
    up_to: Position,
    outcome: WalOutcome,
) -> Map<Seq<char>, RateTracker> {
    if truncate_target_of(shards, queue_id, up_to) is Some && outcome == WalOutcome::MissingQueue {
        trackers.remove(queue_id)
    } else {
        trackers
    }
}

/// What taking a lock leads to, given the published status and the status
/// read under the lock.
pub open spec fn lock_gate_of(published: IngesterStatus, locked: IngesterStatus) -> Result<(), Seq<char>> {
    if published == IngesterStatus::Initializing {
        Err("ingester is initializing"@)
    } else if locked == IngesterStatus::Failed {
        Err("failed to initialize ingester"@)
    } else {
        Ok(())
    }
}

/// Decides whether a lock may be handed out.
pub fn lock_gate(published: IngesterStatus, locked: IngesterStatus) -> (r: Result<(), IngestV2Error>)
    ensures
        match (r, lock_gate_of(published, locked)) {
            (Ok(()), Ok(())) => true,
            (Err(IngestV2Error::Internal(m)), Err(s)) => m@ == s,
            _ => false,
        },
{
    if published == IngesterStatus::Initializing {
        return Err(IngestV2Error::Internal(String::from_str("ingester is initializing")));
    }
    if locked == IngesterStatus::Failed {
        return Err(IngestV2Error::Internal(String::from_str("failed to initialize ingester")));
    }
    Ok(())
}

/// The in-memory state of an ingester: its shards, their rate trackers, and
/// its status. Every shard has a rate tracker and the other way round.
pub struct InnerIngesterState {
    shards: Registry<IngesterShard>,
    rate_trackers: Registry<RateTracker>,
    status: IngesterStatus,
    status_tx: watch::Sender<IngesterStatus>,
}

impl InnerIngesterState {
    pub closed spec fn shards_view(&self) -> Map<Seq<char>, IngesterShard> {
        self.shards@
    }

    pub closed spec fn rate_trackers_view(&self) -> Map<Seq<char>, RateTracker> {
        self.rate_trackers@
    }

    pub closed spec fn status_view(&self) -> IngesterStatus {
        self.status
    }

    /// The status that the channel last published.
    pub closed spec fn published_status_view(&self) -> IngesterStatus {
        watched_status(self.status_tx)
    }

    pub closed spec fn wf(&self) -> bool {
        &&& self.shards.wf()
        &&& self.rate_trackers.wf()
        &&& self.shards@.dom() == self.rate_trackers@.dom()
        &&& watched_status(self.status_tx) == self.status
    }

    /// A state with no shard, in `Initializing`, and the receiving end of its status.
    pub fn new() -> (r: (InnerIngesterState, watch::Receiver<IngesterStatus>))
        ensures
            r.0.wf(),
            r.0.shards_view() == Map::<Seq<char>, IngesterShard>::empty(),
            r.0.rate_trackers_view() == Map::<Seq<char>, RateTracker>::empty(),
            r.0.status_view() == IngesterStatus::Initializing,
    {
        let (status_tx, status_rx) = status_channel(IngesterStatus::Initializing);
        let inner = InnerIngesterState {
            shards: Registry::new(),
            rate_trackers: Registry::new(),
            status: IngesterStatus::Initializing,
            status_tx,
        };
        (inner, status_rx)
    }

    pub fn status(&self) -> (r: IngesterStatus)
        ensures
            r == self.status_view(),
    {
        self.status
    }

    /// Sets the status and publishes it to the receivers.
    pub fn set_status(&mut self, status: IngesterStatus)
        requires
            old(self).wf(),
            is_status_transition(old(self).status_view(), status),
        ensures
            final(self).wf(),
            final(self).status_view() == status,
            final(self).shards_view() == old(self).shards_view(),
            final(self).rate_trackers_view() == old(self).rate_trackers_view(),
    {
        self.status = status;
        publish_status(&mut self.status_tx, status);
    }

    pub fn num_shards(&self) -> (r: usize)
        requires
            self.wf(),
        ensures
            r == self.shards_view().len(),
    {
        self.shards.len()
    }

    pub fn contains_shard(&self, queue_id: &String) -> (r: bool)
        requires
            self.wf(),
        ensures
            r == self.shards_view().contains_key(queue_id@),
    {
        self.shards.contains_key(queue_id)
    }

    pub fn shard(&self, queue_id: &String) -> (r: Option<IngesterShard>)
        requires
            self.wf(),
        ensures
            r is Some <==> self.shards_view().contains_key(queue_id@),
            r matches Some(s) ==> s == self.shards_view()[queue_id@],
    {
        match self.shards.get(queue_id) {
            Some(s) => Some(*s),
            None => None,
        }
    }

    pub fn rate_tracker(&self, queue_id: &String) -> (r: Option<RateTracker>)
        requires
            self.wf(),
        ensures
            r is Some <==> self.rate_trackers_view().contains_key(queue_id@),
            r matches Some(t) ==> t == self.rate_trackers_view()[queue_id@],
    {
        match self.rate_trackers.get(queue_id) {
            Some(t) => Some(*t),
            None => None,
        }
    }

    /// The queue ids of the shards, each once.
    pub fn queue_ids(&self) -> (r: Vec<String>)
        requires
            self.wf(),
        ensures
            r@.len() == self.shards_view().len(),
            forall|i: int| 0 <= i < r@.len() ==> self.shards_view().contains_key(#[trigger] r@[i]@),
            forall|k: Seq<char>| #[trigger] self.shards_view().contains_key(k) ==> exists|i: int|
                0 <= i < r@.len() && r@[i]@ == k,
            forall|i: int, j: int| 0 <= i < j < r@.len() ==> (#[trigger] r@[i])@ != (#[trigger] r@[j])@,
    {
        self.shards.keys()
    }

    /// Registers a shard together with its rate tracker.
    pub fn insert_shard(&mut self, queue_id: String, shard: IngesterShard, rate_tracker: RateTracker)
        requires
            old(self).wf(),
        ensures
            final(self).wf(),
            final(self).shards_view() == old(self).shards_view().insert(queue_id@, shard),
            final(self).rate_trackers_view() == old(self).rate_trackers_view().insert(queue_id@, rate_tracker),
            final(self).status_view() == old(self).status_view(),
    {
        let k = queue_id.clone();
        self.shards.insert(queue_id, shard);
        self.rate_trackers.insert(k, rate_tracker);
        assert(self.shards@.dom() =~= self.rate_trackers@.dom());
    }

    /// Forgets a shard and its rate tracker.
    pub fn remove_shard(&mut self, queue_id: &String) -> (r: bool)
        requires
            old(self).wf(),
        ensures
            final(self).wf(),
            r == old(self).shards_view().contains_key(queue_id@),
            final(self).shards_view() == old(self).shards_view().remove(queue_id@),
            final(self).rate_trackers_view() == old(self).rate_trackers_view().remove(queue_id@),
            final(self).status_view() == old(self).status_view(),
    {
        let r = self.shards.remove(queue_id).is_some();
        self.rate_trackers.remove(queue_id);
        assert(self.shards@.dom() =~= self.rate_trackers@.dom());
        r
    }

    /// Every shard has a rate tracker, and every rate tracker a shard.
    pub proof fn lemma_map_parity(&self)
        requires
            self.wf(),
        ensures
            self.shards_view().dom() == self.rate_trackers_view().dom(),
    {
    }

    /// The status channel holds the current status.
    pub proof fn lemma_published_status(&self)
        requires
            self.wf(),
        ensures
            self.published_status_view() == self.status_view(),
    {
    }

    /// Registers a queue that recovery found in the WAL. A queue that holds
    /// records from `first` to `last` becomes a closed solo shard with a fresh
    /// rate tracker; an empty one (`None`) is left alone and `false` is
    /// returned, for the caller to delete it from the WAL.
    pub fn recover_queue(
        &mut self,
        queue_id: String,
        range: Option<(u64, u64)>,
        rate_limiter_settings: RateLimiterSettings,
    ) -> (r: bool)
        requires
            old(self).wf(),
        ensures
            final(self).wf(),
            r == range is Some,
            final(self).shards_view() == recover_step(old(self).shards_view(), queue_id@, range),
            range is Some ==> final(self).rate_trackers_view() == old(self).rate_trackers_view().insert(
                queue_id@,
                RateTracker::new_spec(rate_limiter_settings),
            ),
            range is None ==> final(self).rate_trackers_view() == old(self).rate_trackers_view(),
            final(self).status_view() == old(self).status_view(),
    {
        match range {
            Some((first, last)) => {
                let replication_position_inclusive = Position::offset(last);
                let truncation_position_inclusive = if first == 0 {
                    Position::Beginning
                } else {
                    Position::offset(first - 1)
                };
                let solo_shard = IngesterShard::new_solo(
                    ShardState::Closed,
                    replication_position_inclusive,
                    truncation_position_inclusive,
                );
                self.insert_shard(queue_id, solo_shard, RateTracker::new(rate_limiter_settings));
                true
            },
            None => false,
        }
    }

    /// Registers every non-empty queue that recovery found, in order, and
    /// returns the empty ones, for the caller to delete from the WAL.
    pub fn recover_queues(
        &mut self,
        queues: Vec<(String, Option<(u64, u64)>)>,
        rate_limiter_settings: RateLimiterSettings,
    ) -> (r: Vec<String>)
        requires
            old(self).wf(),
        ensures
            final(self).wf(),
            final(self).shards_view() == recover_all(old(self).shards_view(), scanned_view(queues@)),
            r@.map_values(|q: String| q@) == empty_queues_of(scanned_view(queues@)),
            final(self).status_view() == old(self).status_view(),
    {
        let mut empty: Vec<String> = Vec::new();
        let mut i: usize = 0;
        while i < queues.len()
            invariant
                self.wf(),
                i <= queues@.len(),
                self.shards_view() == recover_all(old(self).shards_view(), scanned_view(queues@.take(i as int))),
                empty@.map_values(|q: String| q@) == empty_queues_of(scanned_view(queues@.take(i as int))),
                self.status_view() == old(self).status_view(),
            decreases queues@.len() - i,
        {
            let ghost sv = scanned_view(queues@.take(i + 1));
            assert(sv.drop_last() =~= scanned_view(queues@.take(i as int)));
            assert(sv.last() == (queues@[i as int].0@, queues@[i as int].1));
            let queue_id = queues[i].0.clone();
            let range = queues[i].1;
            let ghost prev = empty@;
            if !self.recover_queue(queue_id.clone(), range, rate_limiter_settings) {
                empty.push(queue_id);
                assert(empty@.map_values(|q: String| q@) =~= prev.map_values(|q: String| q@).push(sv.last().0));
            }
            i = i + 1;
        }
        assert(queues@.take(queues@.len() as int) =~= queues@);
        empty
    }

    /// The request that asks the control plane about every shard here: one
    /// entry per index and source, with the ids of its shards. Queue ids that
    /// do not parse are left out.
    pub fn inspect_shards_request(&self) -> (r: InspectShardsRequest)
        requires
            self.wf(),
        ensures
            forall|g: int| 0 <= g < r.shard_ids@.len() ==> is_request_group(#[trigger] r.shard_ids@[g], self.shards_view()),
            forall|g: int, h: int| 0 <= g < h < r.shard_ids@.len() ==> !same_source(
                #[trigger] r.shard_ids@[g],
                #[trigger] r.shard_ids@[h],
            ),
            forall|k: Seq<char>| #[trigger] self.shards_view().contains_key(k) && is_valid_queue_id(k) ==> exists|g: int, j: int|
                names_queue(r.shard_ids@, g, j, k),
            pairs_distinct(r.shard_ids@),
    {
        let queue_ids = self.queue_ids();
        let mut groups: Vec<ShardIds> = Vec::new();
        let mut i: usize = 0;
        while i < queue_ids.len()
            invariant
                self.wf(),
                i <= queue_ids@.len(),
                forall|t: int| 0 <= t < queue_ids@.len() ==> self.shards_view().contains_key(#[trigger] queue_ids@[t]@),
                forall|k: Seq<char>| #[trigger] self.shards_view().contains_key(k) ==> exists|t: int|
                    0 <= t < queue_ids@.len() && queue_ids@[t]@ == k,
                forall|g: int| 0 <= g < groups@.len() ==> is_request_group(#[trigger] groups@[g], self.shards_view()),
                forall|g: int, h: int| 0 <= g < h < groups@.len() ==> !same_source(
                    #[trigger] groups@[g],
                    #[trigger] groups@[h],
                ),
                forall|t: int| 0 <= t < i && is_valid_queue_id(#[trigger] queue_ids@[t]@) ==> exists|g: int, j: int|
                    names_queue(groups@, g, j, queue_ids@[t]@),
                forall|a: int, b: int| 0 <= a < b < queue_ids@.len() ==> (#[trigger] queue_ids@[a])@ != (#[trigger] queue_ids@[b])@,
                forall|g: int, j: int| #![trigger is_pair(groups@, g, j)] is_pair(groups@, g, j) ==> exists|t: int| #![trigger queue_ids@[t]] 0 <= t < i && queue_ids@[t]@ == pair_queue(groups@, g, j),
                pairs_distinct(groups@),
            decreases queue_ids@.len() - i,
        {
            let ghost k = queue_ids@[i as int]@;
            match split_queue_id(queue_ids[i].as_str()) {
                None => {},
                Some((index_uid, source_id, shard_id)) => {
                    let ghost old_groups = groups@;
                    let mut found: usize = groups.len();
                    let mut g: usize = 0;
                    while g < groups.len()
                        invariant
                            g <= groups@.len(),
                            groups@ == old_groups,
                            forall|h: int| 0 <= h < groups@.len() ==> (#[trigger] groups@[h]).index_uid is Some,
                            found == groups@.len() ==> forall|h: int| 0 <= h < g ==> !(
                                (#[trigger] groups@[h]).index_uid->0@ == index_uid@ && groups@[h].source_id@ == source_id@),
                            found < groups@.len() ==> (groups@[found as int].index_uid->0)@ == index_uid@
                                && groups@[found as int].source_id@ == source_id@,
                            found <= groups@.len(),
                        decreases groups@.len() - g,
                    {
                        let same = match &groups[g].index_uid {
                            Some(u) => *u == index_uid && groups[g].source_id == source_id,
                            None => false,
                        };
                        if same && found == groups.len() {
                            found = g;
                        }
                        g = g + 1;
                    }
                    if found < groups.len() {
                        let mut group = groups.remove(found);
                        let ghost n = group.shard_ids@.len();
                        group.shard_ids.push(shard_id);
                        let ghost new_group = group;
                        groups.insert(found, group);
                        assert(groups@ =~= old_groups.update(found as int, new_group));
                        assert(names_queue(groups@, found as int, n as int, k));
                        let ghost fg = found as int;
                        assert forall|g: int, j: int| is_pair(groups@, g, j) && !(g == fg && j == n) implies is_pair(
                            old_groups,
                            g,
                            j,
                        ) && #[trigger] pair_queue(groups@, g, j) == pair_queue(old_groups, g, j) by {
                            if g == fg {
                                assert(groups@[g].shard_ids@[j] == old_groups[g].shard_ids@[j]);
                            }
                        }
                        proof { self.lemma_pairs_grow(queue_ids@, i as int, old_groups, groups@, fg, n as int); }
                        assert forall|t: int| 0 <= t < i && is_valid_queue_id(#[trigger] queue_ids@[t]@) implies exists|g: int, j: int|
                            names_queue(groups@, g, j, queue_ids@[t]@) by {
                            let (g, j) = choose|g: int, j: int| names_queue(old_groups, g, j, queue_ids@[t]@);
                            assert(names_queue(groups@, g, j, queue_ids@[t]@));
                        }
                    } else {
                        let mut ids: Vec<String> = Vec::new();
                        ids.push(shard_id);
                        groups.push(ShardIds {
                            index_uid: Some(index_uid),
                            source_id,
                            shard_ids: ids,
                            shard_positions: Vec::new(),
                        });
                        assert(names_queue(groups@, old_groups.len() as int, 0, k));
                        let ghost fg = old_groups.len() as int;
                        assert forall|g: int, j: int| is_pair(groups@, g, j) && !(g == fg && j == 0) implies is_pair(
                            old_groups,
                            g,
                            j,
                        ) && #[trigger] pair_queue(groups@, g, j) == pair_queue(old_groups, g, j) by {
                            assert(groups@[g] == old_groups[g]);
                        }
                        proof { self.lemma_pairs_grow(queue_ids@, i as int, old_groups, groups@, fg, 0); }
                        assert forall|t: int| 0 <= t < i && is_valid_queue_id(#[trigger] queue_ids@[t]@) implies exists|g: int, j: int|
                            names_queue(groups@, g, j, queue_ids@[t]@) by {
                            let (g, j) = choose|g: int, j: int| names_queue(old_groups, g, j, queue_ids@[t]@);
                            assert(names_queue(groups@, g, j, queue_ids@[t]@));
                        }
                    }
                },
            }
            i = i + 1;
        }
        assert forall|k: Seq<char>| #[trigger] self.shards_view().contains_key(k) && is_valid_queue_id(k) implies exists|g: int, j: int|
            names_queue(groups@, g, j, k) by {
            let t = choose|t: int| 0 <= t < queue_ids@.len() && queue_ids@[t]@ == k;
            assert(is_valid_queue_id(queue_ids@[t]@));
            assert(exists|g: int, j: int| names_queue(groups@, g, j, queue_ids@[t]@));
        }
        let ghost gs = groups@;
        let r = InspectShardsRequest { shard_ids: groups };
        assert(r.shard_ids@ == gs);
        r
    }

    proof fn lemma_pairs_grow(
        &self,
        queue_ids: Seq<String>,
        i: int,
        old_groups: Seq<ShardIds>,
        groups: Seq<ShardIds>,
        fg: int,
        n: int,
    )
        requires
            0 <= i < queue_ids.len(),
            forall|a: int, b: int| 0 <= a < b < queue_ids.len() ==> (#[trigger] queue_ids[a])@ != (#[trigger] queue_ids[b])@,
            forall|g: int, j: int| #![trigger is_pair(old_groups, g, j)] is_pair(old_groups, g, j) ==> exists|t: int| #![trigger queue_ids[t]] 0 <= t < i && queue_ids[t]@ == pair_queue(old_groups, g, j),
            pairs_distinct(old_groups),
            names_queue(groups, fg, n, queue_ids[i]@),
            forall|g: int, j: int| is_pair(groups, g, j) && !(g == fg && j == n) ==> is_pair(old_groups, g, j)
                && #[trigger] pair_queue(groups, g, j) == pair_queue(old_groups, g, j),
        ensures
            forall|g: int, j: int| #![trigger is_pair(groups, g, j)] is_pair(groups, g, j) ==> exists|t: int| #![trigger queue_ids[t]] 0 <= t < i + 1 && queue_ids[t]@ == pair_queue(groups, g, j),
            pairs_distinct(groups),
    {
        assert forall|g: int, j: int| #![trigger is_pair(groups, g, j)] is_pair(groups, g, j) implies exists|t: int| #![trigger queue_ids[t]] 0 <= t < i + 1 && queue_ids[t]@ == pair_queue(groups, g, j) by {
            if g == fg && j == n {
                assert(queue_ids[i]@ == pair_queue(groups, g, j));
            } else {
                assert(pair_queue(groups, g, j) == pair_queue(old_groups, g, j));
                let t = choose|t: int| 0 <= t < i && queue_ids[t]@ == pair_queue(old_groups, g, j);
                assert(queue_ids[t]@ == pair_queue(groups, g, j));
            }
        }
        assert forall|g1: int, j1: int, g2: int, j2: int|
            is_pair(groups, g1, j1) && is_pair(groups, g2, j2) && #[trigger] pair_queue(groups, g1, j1)
                == #[trigger] pair_queue(groups, g2, j2) implies g1 == g2 && j1 == j2 by {
            let new1 = g1 == fg && j1 == n;
            let new2 = g2 == fg && j2 == n;
            if !new1 && !new2 {
                assert(pair_queue(old_groups, g1, j1) == pair_queue(groups, g1, j1));
                assert(pair_queue(old_groups, g2, j2) == pair_queue(groups, g2, j2));
            } else if new1 && !new2 {
                assert(pair_queue(old_groups, g2, j2) == pair_queue(groups, g2, j2));
                let t = choose|t: int| 0 <= t < i && queue_ids[t]@ == pair_queue(old_groups, g2, j2);
                assert(queue_ids[t]@ != queue_ids[i]@);
            } else if !new1 && new2 {
                assert(pair_queue(old_groups, g1, j1) == pair_queue(groups, g1, j1));
                let t = choose|t: int| 0 <= t < i && queue_ids[t]@ == pair_queue(old_groups, g1, j1);
                assert(queue_ids[t]@ != queue_ids[i]@);
            }
        }
    }

    /// The WAL offset to truncate `queue_id` up to, or `None` when the
    /// truncation is not to be made: `up_to` is `Beginning`, the shard is not
    /// here, or it is already truncated at least that far.
    pub fn truncate_target(&self, queue_id: &String, up_to: &Position) -> (r: Option<u64>)
        requires
            self.wf(),
        ensures
            r == truncate_target_of(self.shards_view(), queue_id@, *up_to),
    {
        let offset = match up_to.as_u64() {
            Some(o) => o,
            None => return None,
        };
        let shard = match self.shard(queue_id) {
            Some(s) => s,
            None => return None,
        };
        if up_to.le(&shard.truncation_position_inclusive) {
            return None;
        }
        Some(offset)
    }

    /// Applies what the WAL answered to the truncation of `queue_id` up to
    /// `up_to`: the truncation position moves on success, the shard goes when
    /// the WAL lost its queue, and nothing changes on an I/O error or when
    /// the truncation was not to be made.
    /// As the control plane is authoritative, `up_to` is not held to the
    /// shard's replication position: truncating past it leaves the shard
    /// truncated further than it is replicated.
    pub fn apply_truncate_outcome(&mut self, queue_id: &String, up_to: &Position, outcome: WalOutcome)
        requires
            old(self).wf(),
        ensures
            final(self).wf(),
            final(self).shards_view() == truncate_step(old(self).shards_view(), queue_id@, *up_to, outcome),
            final(self).rate_trackers_view() == truncate_trackers_step(
                old(self).shards_view(),
                old(self).rate_trackers_view(),
                queue_id@,
                *up_to,
                outcome,
            ),
            final(self).status_view() == old(self).status_view(),
            forall|k: Seq<char>| #[trigger] final(self).shards_view().contains_key(k) ==> old(self).shards_view().contains_key(k)
                && pos_le(
                    old(self).shards_view()[k].truncation_position_inclusive,
                    final(self).shards_view()[k].truncation_position_inclusive,
                ),
    {
        if self.truncate_target(queue_id, up_to).is_none() {
            return;
        }
        match outcome {
            WalOutcome::Done => {
                let shard = self.shard(queue_id).unwrap();
                let tracker = self.rate_tracker(queue_id).unwrap();
                let updated = IngesterShard { truncation_position_inclusive: *up_to, ..shard };
                self.insert_shard(queue_id.clone(), updated, tracker);
                assert(self.rate_trackers_view() =~= old(self).rate_trackers_view());
            },
            WalOutcome::MissingQueue => {
                self.remove_shard(queue_id);
            },
            WalOutcome::IoError => {},
        }
    }

    /// Applies what the WAL answered to the deletion of the queue of
    /// `queue_id`: the shard and its rate tracker go on success or when the
    /// queue was already gone, and nothing changes on an I/O error or when
    /// the shard is not here.
    pub fn apply_delete_outcome(&mut self, queue_id: &String, outcome: WalOutcome)
        requires
            old(self).wf(),
        ensures
            final(self).wf(),
            final(self).shards_view() == delete_step(old(self).shards_view(), queue_id@, outcome),
            final(self).rate_trackers_view() == delete_trackers_step(
                old(self).shards_view(),
                old(self).rate_trackers_view(),
                queue_id@,
                outcome,
            ),
            final(self).status_view() == old(self).status_view(),
            forall|k: Seq<char>| #[trigger] final(self).shards_view().contains_key(k) ==> old(self).shards_view().contains_key(k)
                && final(self).shards_view()[k] == old(self).shards_view()[k],
    {
        if !self.contains_shard(queue_id) {
            return;
        }
        match outcome {
            WalOutcome::Done | WalOutcome::MissingQueue => {
                self.remove_shard(queue_id);
            },
            WalOutcome::IoError => {},
        }
    }
}

/// The lock gate: with the published status equal to the status under the
/// lock, a lock is handed out exactly when the ingester is ready.
pub proof fn lemma_lock_gate_exactly_when_ready(status: IngesterStatus)
    ensures
        lock_gate_of(status, status) is Ok <==> status == IngesterStatus::Ready,
        status == IngesterStatus::Initializing ==> lock_gate_of(status, status) == Err::<(), Seq<char>>(
            "ingester is initializing"@,
        ),
        status == IngesterStatus::Failed ==> lock_gate_of(status, status) == Err::<(), Seq<char>>(
            "failed to initialize ingester"@,
        ),
{
}

/// A recovered shard is truncated no further than it is replicated.
pub proof fn lemma_recovered_shard_bounded(first: u64, last: u64)
    requires
        first <= last,
    ensures
        recovered_shard_of(first, last).is_bounded(),
{
}

/// A truncation keeps every shard truncated no further than it is
/// replicated, when it asks for no more than the shard's replication position.
/// A truncation past the replication position that the WAL carries out does
/// break the bound.
pub proof fn lemma_truncate_keeps_bound(
    m: Map<Seq<char>, IngesterShard>,
    queue_id: Seq<char>,
    up_to: Position,
    outcome: WalOutcome,
)
    requires
        forall|k: Seq<char>| #[trigger] m.contains_key(k) ==> m[k].is_bounded(),
        m.contains_key(queue_id) ==> pos_le(up_to, m[queue_id].replication_position_inclusive),
    ensures
        forall|k: Seq<char>| #[trigger] truncate_step(m, queue_id, up_to, outcome).contains_key(k)
            ==> truncate_step(m, queue_id, up_to, outcome)[k].is_bounded(),
{
}

} // verus!
