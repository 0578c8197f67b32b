use crate::proto::{InspectShardsResponse, ShardIdPositions, ShardIds};
use crate::state::{delete_step, delete_trackers_step, truncate_step, IngesterShard, RateTracker, WalOutcome};
use crate::types::{pos_le, queue_id_of, Position};
use vstd::prelude::*;

verus! {

/// One instruction of the control plane, addressed to a queue.
pub enum RepairCommand {
    Delete(String),
    Truncate(String, Position),
}

/// A repair command, with the queue id as characters.
pub enum RepairStep {
    Delete(Seq<char>),
    Truncate(Seq<char>, Position),
}

impl RepairCommand {
    pub open spec fn view(&self) -> RepairStep {
        match self {
            RepairCommand::Delete(q) => RepairStep::Delete(q@),
            RepairCommand::Truncate(q, p) => RepairStep::Truncate(q@, *p),
        }
    }
}

pub open spec fn commands_view(s: Seq<RepairCommand>) -> Seq<RepairStep> {
    s.map_values(|c: RepairCommand| c@)
}

/// The deletions that one entry of `shards_to_delete` asks for; none when
/// it names no index.
pub open spec fn group_deletes(g: ShardIds) -> Seq<RepairStep> {
    if g.index_uid is None {
        Seq::empty()
    } else {
        Seq::new(
            g.shard_ids@.len(),
            |i: int| RepairStep::Delete(queue_id_of((g.index_uid->0)@, g.source_id@, g.shard_ids@[i]@)),
        )
    }
}

pub open spec fn deletes_of(gs: Seq<ShardIds>) -> Seq<RepairStep>
    decreases gs.len(),
{
    if gs.len() == 0 {
        Seq::empty()
    } else {
        deletes_of(gs.drop_last()) + group_deletes(gs.last())
    }
}

/// The truncations that one entry of `shards_to_truncate` asks for; none when
/// a field of it is missing.
pub open spec fn group_truncates(g: ShardIdPositions) -> Seq<RepairStep> {
    if !g.is_complete() {
        Seq::empty()
    } else {
        Seq::new(
            g.shard_positions@.len(),
            |i: int|
                RepairStep::Truncate(
                    queue_id_of((g.index_uid->0)@, g.source_id@, (g.shard_positions@[i].shard_id->0)@),
                    g.shard_positions@[i].publish_position_inclusive->0,
                ),
        )
    }
}

pub open spec fn truncates_of(gs: Seq<ShardIdPositions>) -> Seq<RepairStep>
    decreases gs.len(),
{
    if gs.len() == 0 {
        Seq::empty()
    } else {
        truncates_of(gs.drop_last()) + group_truncates(gs.last())
    }
}

/// The commands of a response: all deletions, then all truncations, each in
/// the order of the response.
pub open spec fn repair_plan_of(r: InspectShardsResponse) -> Seq<RepairStep> {
    deletes_of(r.shards_to_delete@) + truncates_of(r.shards_to_truncate@)
}

/// Turns the answer of the control plane into the commands to carry out.
pub fn repair_commands(response: &InspectShardsResponse) -> (r: Vec<RepairCommand>)
    ensures
        commands_view(r@) == repair_plan_of(*response),
{
    let mut r: Vec<RepairCommand> = Vec::new();
    let groups = &response.shards_to_delete;
    let mut i: usize = 0;
    while i < groups.len()
        invariant
            i <= groups@.len(),
            commands_view(r@) == deletes_of(groups@.take(i as int)),
        decreases groups@.len() - i,
    {
        let g = &groups[i];
        assert(groups@.take(i + 1).drop_last() =~= groups@.take(i as int));
        if g.index_uid.is_some() {
            let queue_ids = g.queue_ids();
            let ghost start = r@;
            let mut j: usize = 0;
            let ghost qs0 = queue_ids@;
            while j < queue_ids.len()
                invariant
                    qs0 == queue_ids@,
                    j <= qs0.len(),
                    r@.len() == start.len() + j,
                    commands_view(start) == deletes_of(groups@.take(i as int)),
                    commands_view(r@) =~= commands_view(start) + group_deletes(*g).take(j as int),
                    qs0.len() == g.shard_ids@.len(),
                    g.index_uid is Some,
                    forall|k: int| 0 <= k < qs0.len() ==> (#[trigger] qs0[k])@ == queue_id_of(
                        (g.index_uid->0)@, g.source_id@, g.shard_ids@[k]@),
                decreases qs0.len() - j,
            {
                let q = queue_ids[j].clone();
                let ghost prev = r@;
                r.push(RepairCommand::Delete(q));
                assert(commands_view(r@) =~= commands_view(prev).push(RepairStep::Delete(qs0[j as int]@)));
                assert(group_deletes(*g).take(j + 1) =~= group_deletes(*g).take(j as int).push(
                    group_deletes(*g)[j as int]));
                j = j + 1;
                assert(commands_view(r@) =~= commands_view(start) + group_deletes(*g).take(j as int));
            }
            assert(group_deletes(*g).take(j as int) =~= group_deletes(*g));
        } else {
            assert(group_deletes(*g) =~= Seq::<RepairStep>::empty());
            assert(commands_view(r@) =~= commands_view(r@) + group_deletes(*g));
        }
        i = i + 1;
    }
    assert(groups@.take(groups@.len() as int) =~= groups@);
    let ghost deletes = r@;
    let groups = &response.shards_to_truncate;
    let mut i: usize = 0;
    while i < groups.len()
        invariant
            i <= groups@.len(),
            commands_view(deletes) == deletes_of(response.shards_to_delete@),
            commands_view(r@) == commands_view(deletes) + truncates_of(groups@.take(i as int)),
            groups == &response.shards_to_truncate,
        decreases groups@.len() - i,
    {
        let g = &groups[i];
        assert(groups@.take(i + 1).drop_last() =~= groups@.take(i as int));
        if g.check_complete() {
            let positions = g.queue_id_positions();
            let ghost start = r@;
            let mut j: usize = 0;
            let ghost ps0 = positions@;
            while j < positions.len()
                invariant
                    ps0 == positions@,
                    j <= ps0.len(),
                    commands_view(r@) =~= commands_view(start) + group_truncates(*g).take(j as int),
                    commands_view(start) == commands_view(deletes) + truncates_of(groups@.take(i as int)),
                    ps0.len() == g.shard_positions@.len(),
                    g.is_complete(),
                    forall|k: int| 0 <= k < ps0.len() ==> (#[trigger] ps0[k]).0@ == queue_id_of(
                        (g.index_uid->0)@, g.source_id@, (g.shard_positions@[k].shard_id->0)@)
                        && ps0[k].1 == g.shard_positions@[k].publish_position_inclusive->0,
                decreases ps0.len() - j,
            {
                let q = positions[j].0.clone();
                let p = positions[j].1;
                let ghost prev = r@;
                r.push(RepairCommand::Truncate(q, p));
                assert(commands_view(r@) =~= commands_view(prev).push(RepairStep::Truncate(ps0[j as int].0@, p)));
                assert(group_truncates(*g).take(j + 1) =~= group_truncates(*g).take(j as int).push(
                    group_truncates(*g)[j as int]));
                j = j + 1;
                assert(commands_view(r@) =~= commands_view(start) + group_truncates(*g).take(j as int));
            }
            assert(group_truncates(*g).take(j as int) =~= group_truncates(*g));
        } else {
            assert(group_truncates(*g) =~= Seq::<RepairStep>::empty());
        }
        assert(commands_view(r@) =~= commands_view(deletes) + truncates_of(groups@.take(i + 1)));
        i = i + 1;
    }
    assert(groups@.take(groups@.len() as int) =~= groups@);
    r
}

/// The shards after one command that the WAL carried out.
pub open spec fn apply_step(m: Map<Seq<char>, IngesterShard>, step: RepairStep) -> Map<Seq<char>, IngesterShard> {
    match step {
        RepairStep::Delete(q) => delete_step(m, q, WalOutcome::Done),
        RepairStep::Truncate(q, p) => truncate_step(m, q, p, WalOutcome::Done),
    }
}

/// The shards after the commands of `plan`, in order, all carried out by the WAL.
pub open spec fn apply_plan(m: Map<Seq<char>, IngesterShard>, plan: Seq<RepairStep>) -> Map<Seq<char>, IngesterShard>
    decreases plan.len(),
{
    if plan.len() == 0 {
        m
    } else {
        apply_plan(apply_step(m, plan[0]), plan.subrange(1, plan.len() as int))
    }
}

/// A truncation command is met when its shard is gone or truncated at least
/// as far as it asks.
pub open spec fn truncation_met(m: Map<Seq<char>, IngesterShard>, step: RepairStep) -> bool {
    match step {
        RepairStep::Truncate(q, p) => m.contains_key(q) ==> pos_le(p, m[q].truncation_position_inclusive),
        RepairStep::Delete(_) => true,
    }
}

/// The queue ids that a plan deletes.
pub open spec fn deleted_ids(plan: Seq<RepairStep>) -> Set<Seq<char>> {
    Set::new(|q: Seq<char>| exists|i: int| 0 <= i < plan.len() && plan[i] == RepairStep::Delete(q))
}

proof fn lemma_apply_plan_monotone(m: Map<Seq<char>, IngesterShard>, plan: Seq<RepairStep>)
    ensures
        forall|k: Seq<char>| #[trigger] apply_plan(m, plan).contains_key(k) ==> m.contains_key(k) && pos_le(
            m[k].truncation_position_inclusive,
            apply_plan(m, plan)[k].truncation_position_inclusive,
        ),
    decreases plan.len(),
{
    if plan.len() > 0 {
        let m1 = apply_step(m, plan[0]);
        lemma_apply_plan_monotone(m1, plan.subrange(1, plan.len() as int));
    }
}

/// Repair converges: once the WAL has carried out every command of a plan,
/// the shards left are those of the start minus the deleted ones, and every
/// shard left is truncated at least as far as each truncation command for it
/// asked.
pub proof fn lemma_repair_converges(m: Map<Seq<char>, IngesterShard>, plan: Seq<RepairStep>)
    ensures
        apply_plan(m, plan).dom() == m.dom().difference(deleted_ids(plan)),
        forall|i: int| 0 <= i < plan.len() ==> truncation_met(apply_plan(m, plan), #[trigger] plan[i]),
    decreases plan.len(),
{
    if plan.len() > 0 {
        let m1 = apply_step(m, plan[0]);
        let rest = plan.subrange(1, plan.len() as int);
        let f = apply_plan(m, plan);
        lemma_repair_converges(m1, rest);
        lemma_apply_plan_monotone(m1, rest);
        assert forall|q: Seq<char>| f.dom().contains(q) <==> m.dom().difference(deleted_ids(plan)).contains(q) by {
            if deleted_ids(rest).contains(q) {
                let i = choose|i: int| 0 <= i < rest.len() && rest[i] == RepairStep::Delete(q);
                assert(plan[i + 1] == RepairStep::Delete(q));
            }
            if deleted_ids(plan).contains(q) {
                let i = choose|i: int| 0 <= i < plan.len() && plan[i] == RepairStep::Delete(q);
                if i > 0 {
                    assert(rest[i - 1] == RepairStep::Delete(q));
                }
            }
        }
        assert(f.dom() =~= m.dom().difference(deleted_ids(plan)));
        assert forall|i: int| 0 <= i < plan.len() implies truncation_met(f, #[trigger] plan[i]) by {
            if i > 0 {
                assert(rest[i - 1] == plan[i]);
            }
        }
    }
}

/// Repair of the shards `m` with a response converges: with every command
/// carried out, the shards left are `m` minus those the response deletes,
/// each truncated at least as far as the response asks.
pub proof fn lemma_repair_response_converges(m: Map<Seq<char>, IngesterShard>, response: InspectShardsResponse)
    ensures
        apply_plan(m, repair_plan_of(response)).dom() == m.dom().difference(deleted_ids(repair_plan_of(response))),
        forall|i: int| 0 <= i < repair_plan_of(response).len() ==> truncation_met(
            apply_plan(m, repair_plan_of(response)),
            #[trigger] repair_plan_of(response)[i],
        ),
{
    lemma_repair_converges(m, repair_plan_of(response));
}

/// Deleting a shard twice is deleting it once: after a deletion that the WAL
/// did not fail with an I/O error, a second one changes neither the shards
/// nor the rate trackers.
pub proof fn lemma_delete_idempotent(
    m: Map<Seq<char>, IngesterShard>,
    trackers: Map<Seq<char>, RateTracker>,
    queue_id: Seq<char>,
    first: WalOutcome,
    second: WalOutcome,
)
    requires
        first != WalOutcome::IoError,
    ensures
        delete_step(delete_step(m, queue_id, first), queue_id, second) == delete_step(m, queue_id, first),
        delete_trackers_step(
            delete_step(m, queue_id, first),
            delete_trackers_step(m, trackers, queue_id, first),
            queue_id,
            second,
        ) == delete_trackers_step(m, trackers, queue_id, first),
        !delete_step(m, queue_id, first).contains_key(queue_id),
{
}

} // verus!
