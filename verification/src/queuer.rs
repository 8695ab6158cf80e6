//! The demand for workers: the queue's backlog, summed over protocol
//! versions, for each kind of job.

use vstd::prelude::*;
use crate::basic_types::{CircuitIdRoundTuple, CircuitProverStatsEntry};

verus! {

/// The jobs of an entry that count as backlog: waiting or in progress.
pub open spec fn backlog_of(entry: CircuitProverStatsEntry) -> int {
    entry.stats.queued + entry.stats.in_progress
}

/// The backlog of one kind of job, summed over all entries for it.
pub open spec fn total_demand(stats: Seq<CircuitProverStatsEntry>, kind: CircuitIdRoundTuple) -> int
    decreases stats.len(),
{
    if stats.len() == 0 {
        0
    } else {
        total_demand(stats.drop_last(), kind) + if stats.last().circuit == kind {
            backlog_of(stats.last())
        } else {
            0
        }
    }
}

/// A count as a demand holds it: counts beyond `u64::MAX` are held as
/// `u64::MAX`.
pub open spec fn held_as_demand(count: int) -> u64 {
    if count > u64::MAX {
        u64::MAX
    } else {
        count as u64
    }
}

/// The list is the demand that the statistics show: each entry holds its
/// kind's total backlog, no entry is for a kind without backlog, no kind
/// has two entries, and every kind with backlog has one.
pub open spec fn is_demand_of(
    stats: Seq<CircuitProverStatsEntry>,
    demand: Seq<(CircuitIdRoundTuple, u64)>,
) -> bool {
    &&& forall|k: int|
        0 <= k < demand.len() ==> (#[trigger] demand[k]).1 == held_as_demand(
            total_demand(stats, demand[k].0),
        ) && demand[k].1 > 0
    &&& forall|a: int, b: int|
        0 <= a < demand.len() && 0 <= b < demand.len() && a != b ==> (#[trigger] demand[a]).0
            != (#[trigger] demand[b]).0
    &&& forall|i: int|
        0 <= i < stats.len() && backlog_of(#[trigger] stats[i]) > 0 ==> lists_demand(
            demand,
            stats[i].circuit,
        )
}

/// Some entry of the demand is for the kind.
pub open spec fn lists_demand(demand: Seq<(CircuitIdRoundTuple, u64)>, kind: CircuitIdRoundTuple) -> bool {
    exists|k: int| 0 <= k < demand.len() && (#[trigger] demand[k]).0 == kind
}

/// The demand for a kind of job: what the list holds for it, and nothing
/// where the list has no entry for it.
pub open spec fn demand_for(demand: Seq<(CircuitIdRoundTuple, u64)>, kind: CircuitIdRoundTuple) -> u64
    decreases demand.len(),
{
    if demand.len() == 0 {
        0
    } else if demand.last().0 == kind {
        demand.last().1
    } else {
        demand_for(demand.drop_last(), kind)
    }
}

/// A total is never negative, and without backlog for the kind it is zero.
pub proof fn lemma_total_demand(stats: Seq<CircuitProverStatsEntry>, kind: CircuitIdRoundTuple)
    ensures
        total_demand(stats, kind) >= 0,
        (forall|i: int|
            0 <= i < stats.len() && (#[trigger] stats[i]).circuit == kind ==> backlog_of(stats[i])
                == 0) ==> total_demand(stats, kind) == 0,
    decreases stats.len(),
{
    if stats.len() > 0 {
        let shorter = stats.drop_last();
        lemma_total_demand(shorter, kind);
        if forall|i: int|
            0 <= i < stats.len() && (#[trigger] stats[i]).circuit == kind ==> backlog_of(stats[i])
                == 0 {
            assert forall|i: int|
                0 <= i < shorter.len() && (#[trigger] shorter[i]).circuit == kind implies backlog_of(
                shorter[i],
            ) == 0 by {
                assert(shorter[i] == stats[i]);
            }
            assert(stats.last() == stats[stats.len() - 1]);
        }
    }
}

/// One entry more adds its backlog to its kind's total and to no other.
pub proof fn lemma_total_demand_step(
    stats: Seq<CircuitProverStatsEntry>,
    kind: CircuitIdRoundTuple,
    i: int,
)
    requires
        0 <= i < stats.len(),
    ensures
        total_demand(stats.take(i + 1), kind) == total_demand(stats.take(i), kind) + if stats[i].circuit
            == kind {
            backlog_of(stats[i])
        } else {
            0
        },
{
    assert(stats.take(i + 1).drop_last() =~= stats.take(i));
    assert(stats.take(i + 1).last() == stats[i]);
}

/// A protocol version without waiting jobs and without jobs in progress
/// adds nothing to the demand: with its entry or without it, the demand
/// is the same.
pub proof fn law_idle_version_adds_nothing(
    stats: Seq<CircuitProverStatsEntry>,
    idle: CircuitProverStatsEntry,
    demand: Seq<(CircuitIdRoundTuple, u64)>,
)
    requires
        backlog_of(idle) == 0,
    ensures
        is_demand_of(stats, demand) <==> is_demand_of(stats.push(idle), demand),
{
    let more = stats.push(idle);
    assert(more.drop_last() =~= stats);
    assert(more.last() == idle);
    assert forall|kind: CircuitIdRoundTuple| #[trigger]
        total_demand(more, kind) == total_demand(stats, kind) by {}
    if is_demand_of(stats, demand) {
        assert forall|i: int| 0 <= i < more.len() && backlog_of(#[trigger] more[i]) > 0 implies lists_demand(
            demand,
            more[i].circuit,
        ) by {
            assert(more[i] == stats[i]);
        }
    }
    if is_demand_of(more, demand) {
        assert forall|i: int|
            0 <= i < stats.len() && backlog_of(#[trigger] stats[i]) > 0 implies lists_demand(
            demand,
            stats[i].circuit,
        ) by {
            assert(more[i] == stats[i]);
        }
    }
}

/// Where the list is the demand that some statistics show, a kind's
/// demand is its total backlog.
pub proof fn law_demand_for_is_total(
    stats: Seq<CircuitProverStatsEntry>,
    demand: Seq<(CircuitIdRoundTuple, u64)>,
    kind: CircuitIdRoundTuple,
)
    requires
        is_demand_of(stats, demand),
    ensures
        demand_for(demand, kind) == held_as_demand(total_demand(stats, kind)),
{
    lemma_total_demand(stats, kind);
    if lists_demand(demand, kind) {
        let k = choose|k: int| 0 <= k < demand.len() && (#[trigger] demand[k]).0 == kind;
        lemma_demand_for_entry(demand, k);
    } else {
        lemma_demand_for_unlisted(demand, kind);
        assert forall|i: int|
            0 <= i < stats.len() && (#[trigger] stats[i]).circuit == kind implies backlog_of(
            stats[i],
        ) == 0 by {
            if backlog_of(stats[i]) > 0 {
                assert(lists_demand(demand, stats[i].circuit));
            }
        }
    }
}

/// Where no kind has two entries, an entry's kind has that entry's demand.
pub proof fn lemma_demand_for_entry(demand: Seq<(CircuitIdRoundTuple, u64)>, k: int)
    requires
        0 <= k < demand.len(),
        forall|a: int, b: int|
            0 <= a < demand.len() && 0 <= b < demand.len() && a != b ==> (#[trigger] demand[a]).0
                != (#[trigger] demand[b]).0,
    ensures
        demand_for(demand, demand[k].0) == demand[k].1,
    decreases demand.len(),
{
    let last = demand.len() - 1;
    if k != last {
        assert(demand[last].0 != demand[k].0);
        let shorter = demand.drop_last();
        assert(shorter[k] == demand[k]);
        assert forall|a: int, b: int|
            0 <= a < shorter.len() && 0 <= b < shorter.len() && a != b implies (
        #[trigger] shorter[a]).0 != (#[trigger] shorter[b]).0 by {
            assert(shorter[a] == demand[a]);
            assert(shorter[b] == demand[b]);
        }
        lemma_demand_for_entry(shorter, k);
    }
}

/// A kind without an entry has no demand.
pub proof fn lemma_demand_for_unlisted(
    demand: Seq<(CircuitIdRoundTuple, u64)>,
    kind: CircuitIdRoundTuple,
)
    requires
        !lists_demand(demand, kind),
    ensures
        demand_for(demand, kind) == 0,
    decreases demand.len(),
{
    if demand.len() > 0 {
        let shorter = demand.drop_last();
        assert(demand[demand.len() - 1].0 != kind);
        if lists_demand(shorter, kind) {
            let k = choose|k: int| 0 <= k < shorter.len() && (#[trigger] shorter[k]).0 == kind;
            assert(demand[k] == shorter[k]);
        }
        lemma_demand_for_unlisted(shorter, kind);
    }
}

/// Turns the queue's statistics into the demand for workers.
#[derive(Debug, Clone, Copy)]
pub struct Queuer {}

impl Queuer {
    /// The demand that the statistics show: for each kind of job with
    /// backlog, its waiting jobs and jobs in progress over all protocol
    /// versions. Versions without backlog add nothing.
    pub fn demand(&self, stats: &Vec<CircuitProverStatsEntry>) -> (demand: Vec<
        (CircuitIdRoundTuple, u64),
    >)
        ensures
            is_demand_of(stats@, demand@),
    {
        let mut demand: Vec<(CircuitIdRoundTuple, u64)> = Vec::new();
        let mut i: usize = 0;
        while i < stats.len()
            invariant
                0 <= i <= stats.len(),
                is_demand_of(stats@.take(i as int), demand@),
            decreases stats.len() - i,
        {
            let entry = stats[i];
            let ghost seen = stats@.take(i as int);
            let ghost next = stats@.take(i as int + 1);
            let ghost old_demand = demand@;
            let backlog: u64 = (entry.stats.queued as u64).saturating_add(
                entry.stats.in_progress as u64,
            );
            let mut found: Option<usize> = None;
            proof {
                assert(next[i as int] == stats@[i as int]);
                assert forall|kind: CircuitIdRoundTuple| #[trigger]
                    total_demand(next, kind) == total_demand(seen, kind) + if entry.circuit
                        == kind {
                        backlog_of(entry)
                    } else {
                        0
                    } && total_demand(seen, kind) >= 0 by {
                    lemma_total_demand_step(stats@, kind, i as int);
                    lemma_total_demand(seen, kind);
                }
                assert(backlog == held_as_demand(backlog_of(entry)));
            }
            if backlog > 0 {
                let mut k: usize = 0;
                while k < demand.len() && found.is_none()
                    invariant
                        0 <= k <= demand.len(),
                        found matches Some(f) ==> f < demand.len() && demand@[f as int].0
                            == entry.circuit,
                        forall|j: int| 0 <= j < k ==> (#[trigger] demand@[j]).0 != entry.circuit,
                    decreases demand.len() - k + if found is None { 1int } else { 0int },
                {
                    if demand[k].0 == entry.circuit {
                        found = Some(k);
                    } else {
                        k += 1;
                    }
                }
                match found {
                    Some(k) => {
                        let sum = demand[k].1.saturating_add(backlog);
                        demand.set(k, (entry.circuit, sum));
                    },
                    None => {
                        proof {
                            assert forall|r: int|
                                0 <= r < seen.len() && (#[trigger] seen[r]).circuit
                                    == entry.circuit implies backlog_of(seen[r]) == 0 by {
                                if backlog_of(seen[r]) > 0 {
                                    assert(lists_demand(old_demand, seen[r].circuit));
                                }
                            }
                            lemma_total_demand(seen, entry.circuit);
                        }
                        demand.push((entry.circuit, backlog));
                    },
                }
            }
            proof {
                let at = match found {
                    Some(k) => k as int,
                    None => old_demand.len() as int,
                };
                assert forall|j: int| 0 <= j < old_demand.len() implies (#[trigger] demand@[j]).0
                    == old_demand[j].0 by {}
                assert forall|j: int| 0 <= j < old_demand.len() && j != at implies demand@[j]
                    == old_demand[j] by {}
                assert forall|r: int|
                    0 <= r < next.len() && backlog_of(#[trigger] next[r]) > 0 implies lists_demand(
                    demand@,
                    next[r].circuit,
                ) by {
                    if r < i {
                        assert(next[r] == seen[r]);
                        assert(lists_demand(old_demand, seen[r].circuit));
                        let j = choose|j: int|
                            0 <= j < old_demand.len() && (#[trigger] old_demand[j]).0
                                == seen[r].circuit;
                        assert(demand@[j].0 == old_demand[j].0);
                    } else {
                        assert(demand@[at].0 == entry.circuit);
                    }
                }
            }
            i += 1;
        }
        proof {
            assert(stats@.take(i as int) =~= stats@);
        }
        demand
    }

    /// Looks up the demand for one kind of job.
    pub fn demand_for(&self, demand: &Vec<(CircuitIdRoundTuple, u64)>, kind: CircuitIdRoundTuple) -> (jobs:
        u64)
        ensures
            jobs == demand_for(demand@, kind),
    {
        let mut jobs: u64 = 0;
        let mut i: usize = 0;
        assert(demand@.take(0) =~= Seq::empty());
        while i < demand.len()
            invariant
                0 <= i <= demand.len(),
                jobs == demand_for(demand@.take(i as int), kind),
            decreases demand.len() - i,
        {
            proof {
                assert(demand@.take(i as int + 1).drop_last() =~= demand@.take(i as int));
                assert(demand@.take(i as int + 1).last() == demand@[i as int]);
            }
            if demand[i].0 == kind {
                jobs = demand[i].1;
            }
            i += 1;
        }
        proof {
            assert(demand@.take(i as int) =~= demand@);
        }
        jobs
    }
}

} // verus!
