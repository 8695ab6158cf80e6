//! The agent of one cluster: it keeps the latest picture of the worker
//! pools it watches and hands it out on demand.

use vstd::prelude::*;
use crate::basic_types::CircuitIdRoundTuple;
use crate::seq_steps::{lemma_filter_ends, lemma_filter_step};

verus! {

/// A worker pool and the replicas seen in it.
#[derive(Clone, Copy, Debug, PartialEq, Eq, Structural, Hash)]
pub struct PoolReplicas {
    pub kind: CircuitIdRoundTuple,
    pub replicas: u32,
}

/// What a cluster reported: its pools with their replicas, and when.
#[derive(Debug)]
pub struct ClusterState {
    pub cluster_name: String,
    pub pools: Vec<PoolReplicas>,
    pub reported_at: u64,
}

/// A cluster's report as contracts see it.
pub struct ClusterReport {
    pub cluster_name: Seq<char>,
    pub pools: Seq<PoolReplicas>,
    pub reported_at: u64,
}

impl View for ClusterState {
    type V = ClusterReport;

    open spec fn view(&self) -> ClusterReport {
        ClusterReport {
            cluster_name: self.cluster_name@,
            pools: self.pools@,
            reported_at: self.reported_at,
        }
    }
}

/// The report that an optional state stands for.
pub open spec fn report_view(state: Option<ClusterState>) -> Option<ClusterReport> {
    match state {
        Some(s) => Some(s@),
        None => None,
    }
}

/// The replicas seen in the pool of the kind: what the list's last entry
/// for the kind says, and none where the list has no entry for it.
pub open spec fn observed_replicas(pools: Seq<PoolReplicas>, kind: CircuitIdRoundTuple) -> u32
    decreases pools.len(),
{
    if pools.len() == 0 {
        0
    } else if pools.last().kind == kind {
        pools.last().replicas
    } else {
        observed_replicas(pools.drop_last(), kind)
    }
}

/// The pools of the kinds in the list.
pub open spec fn pools_of_kinds(kinds: Seq<CircuitIdRoundTuple>) -> spec_fn(PoolReplicas) -> bool {
    |pool: PoolReplicas| kinds.contains(pool.kind)
}

/// Decides whether the kind is in the list.
pub fn lists_kind(kinds: &Vec<CircuitIdRoundTuple>, kind: CircuitIdRoundTuple) -> (listed: bool)
    ensures
        listed == kinds@.contains(kind),
{
    let mut i: usize = 0;
    while i < kinds.len()
        invariant
            0 <= i <= kinds.len(),
            forall|j: int| 0 <= j < i ==> kinds@[j] != kind,
        decreases kinds.len() - i,
    {
        if kinds[i] == kind {
            return true;
        }
        i += 1;
    }
    false
}

impl ClusterState {
    /// A copy of the state, field for field.
    pub fn duplicate(&self) -> (copy: ClusterState)
        ensures
            copy@ == self@,
    {
        let mut pools: Vec<PoolReplicas> = Vec::new();
        let mut i: usize = 0;
        while i < self.pools.len()
            invariant
                0 <= i <= self.pools.len(),
                pools@ == self.pools@.take(i as int),
            decreases self.pools.len() - i,
        {
            pools.push(self.pools[i]);
            proof {
                assert(pools@ =~= self.pools@.take(i as int + 1));
            }
            i += 1;
        }
        proof {
            assert(self.pools@.take(i as int) =~= self.pools@);
        }
        ClusterState {
            cluster_name: self.cluster_name.clone(),
            pools,
            reported_at: self.reported_at,
        }
    }

    /// The replicas seen in the pool of the kind.
    pub fn replicas_of(&self, kind: CircuitIdRoundTuple) -> (replicas: u32)
        ensures
            replicas == observed_replicas(self@.pools, kind),
    {
        let mut replicas: u32 = 0;
        let mut i: usize = 0;
        assert(self.pools@.take(0) =~= Seq::empty());
        while i < self.pools.len()
            invariant
                0 <= i <= self.pools.len(),
                replicas == observed_replicas(self.pools@.take(i as int), kind),
            decreases self.pools.len() - i,
        {
            proof {
                assert(self.pools@.take(i as int + 1).drop_last() =~= self.pools@.take(i as int));
                assert(self.pools@.take(i as int + 1).last() == self.pools@[i as int]);
            }
            if self.pools[i].kind == kind {
                replicas = self.pools[i].replicas;
            }
            i += 1;
        }
        proof {
            assert(self.pools@.take(i as int) =~= self.pools@);
        }
        replicas
    }
}

/// Why a poll of the cluster brought no report.
#[derive(Clone, Copy, Debug, PartialEq, Eq, Structural, Hash)]
pub enum PollError {
    /// The cluster did not answer in time.
    TimedOut,
    /// The cluster answered with an error.
    Refused,
}

/// The watcher of one cluster.
pub struct Watcher {
    cluster_name: String,
    watched: Vec<CircuitIdRoundTuple>,
    snapshot: Option<ClusterState>,
}

/// A watcher as contracts see it.
pub struct WatcherView {
    pub cluster_name: Seq<char>,
    pub watched: Seq<CircuitIdRoundTuple>,
    pub snapshot: Option<ClusterReport>,
}

impl WatcherView {
    /// The watcher after a poll. A poll that brought pools replaces the
    /// picture as a whole, with the watched pools among them and the time
    /// of the poll; a failed poll leaves the picture as it was.
    pub open spec fn after_poll(self, poll: Result<Seq<PoolReplicas>, PollError>, now: u64) -> WatcherView {
        match poll {
            Ok(pools) => WatcherView {
                snapshot: Some(
                    ClusterReport {
                        cluster_name: self.cluster_name,
                        pools: pools.filter(pools_of_kinds(self.watched)),
                        reported_at: now,
                    },
                ),
                ..self
            },
            Err(_) => self,
        }
    }
}

/// The pools that a poll brought, if it brought any.
pub open spec fn poll_view(poll: Result<Vec<PoolReplicas>, PollError>) -> Result<
    Seq<PoolReplicas>,
    PollError,
> {
    match poll {
        Ok(pools) => Ok(pools@),
        Err(e) => Err(e),
    }
}

impl View for Watcher {
    type V = WatcherView;

    closed spec fn view(&self) -> WatcherView {
        WatcherView {
            cluster_name: self.cluster_name@,
            watched: self.watched@,
            snapshot: report_view(self.snapshot),
        }
    }
}

impl Watcher {
    /// A watcher of the cluster that has seen nothing yet.
    pub fn new(cluster_name: String, watched: Vec<CircuitIdRoundTuple>) -> (watcher: Watcher)
        ensures
            watcher@ == (WatcherView {
                cluster_name: cluster_name@,
                watched: watched@,
                snapshot: None,
            }),
    {
        Watcher { cluster_name, watched, snapshot: None }
    }

    /// Takes in the outcome of one poll of the cluster. Pools that were
    /// read replace the picture as a whole; a failed read changes nothing,
    /// so the picture of the last good poll stays.
    pub fn record_poll(&mut self, poll: Result<Vec<PoolReplicas>, PollError>, now: u64)
        ensures
            final(self)@ == old(self)@.after_poll(poll_view(poll), now),
    {
        match poll {
            Err(_) => {},
            Ok(pools) => {
                let ghost pred = pools_of_kinds(self.watched@);
                let mut kept: Vec<PoolReplicas> = Vec::new();
                let mut i: usize = 0;
                proof {
                    lemma_filter_ends(pools@, pred);
                }
                while i < pools.len()
                    invariant
                        0 <= i <= pools.len(),
                        pred == pools_of_kinds(self.watched@),
                        kept@ == pools@.take(i as int).filter(pred),
                    decreases pools.len() - i,
                {
                    proof {
                        lemma_filter_step(pools@, pred, i as int);
                    }
                    if lists_kind(&self.watched, pools[i].kind) {
                        kept.push(pools[i]);
                    }
                    i += 1;
                }
                proof {
                    lemma_filter_ends(pools@, pred);
                }
                self.snapshot = Some(
                    ClusterState {
                        cluster_name: self.cluster_name.clone(),
                        pools: kept,
                        reported_at: now,
                    },
                );
            },
        }
    }

    /// The latest picture of the cluster, if any poll has succeeded.
    pub fn snapshot(&self) -> (state: Option<ClusterState>)
        ensures
            report_view(state) == self@.snapshot,
    {
        match &self.snapshot {
            Some(state) => Some(state.duplicate()),
            None => None,
        }
    }
}

/// A failed poll leaves the picture of the last good poll in place, and
/// a good poll replaces it whatever it was.
pub proof fn law_snapshot_outlasts_failures(
    watcher: WatcherView,
    error: PollError,
    pools: Seq<PoolReplicas>,
    other: WatcherView,
    now: u64,
    later: u64,
)
    requires
        other.cluster_name == watcher.cluster_name,
        other.watched == watcher.watched,
    ensures
        watcher.after_poll(Err(error), now) == watcher,
        watcher.after_poll(Ok(pools), now).after_poll(Err(error), later).snapshot
            == watcher.after_poll(Ok(pools), now).snapshot,
        watcher.after_poll(Ok(pools), now) == other.after_poll(Ok(pools), now),
{
}

} // verus!
