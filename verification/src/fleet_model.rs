//! The fleet scaler as a mathematical value: its configuration, what it
//! knows of each cluster, and the decisions that follow.

use vstd::prelude::*;
use crate::basic_types::CircuitIdRoundTuple;
use crate::cluster_watcher::{observed_replicas, ClusterReport};
use crate::queuer::demand_for;
use crate::scaling_rules::{desired_replicas, eased_target};

verus! {

/// How one kind of job is scaled.
#[derive(Clone, Copy, Debug, PartialEq, Eq, Structural, Hash)]
pub struct PoolConfig {
    pub kind: CircuitIdRoundTuple,
    /// The jobs that one replica works off in a cycle's planning.
    pub throughput_per_replica: u64,
    /// The replicas that every cluster keeps whatever the demand.
    pub min_replicas: u32,
    /// The replicas that a pool may lose in one cycle.
    pub max_scale_down: u32,
}

/// A cluster as the configuration names it.
pub struct ClusterSpec {
    pub name: Seq<char>,
    /// The replicas that the cluster's quota allows a pool.
    pub capacity: u32,
}

/// Where the control loop stands within its cycle.
#[derive(Clone, Copy, Debug, PartialEq, Eq, Structural, Hash)]
pub enum Phase {
    Idle,
    Polling,
    Deciding,
    Applying,
}

/// The target of one pool in one cluster, as decided in this cycle.
#[derive(Clone, Copy, Debug, PartialEq, Eq, Structural, Hash)]
pub struct ScalingDecision {
    /// The cluster's place in the configuration.
    pub cluster: usize,
    /// The pool's place in the configuration.
    pub pool: usize,
    pub target: u32,
    /// The cluster did not report in this cycle, so the target is the
    /// one it had.
    pub stale: bool,
}

/// What the scaler knows of one cluster.
pub struct TrackView {
    /// The cluster's last report.
    pub snapshot: Option<ClusterReport>,
    /// The cluster has not reported in the current cycle.
    pub stale: bool,
    /// For each pool, the target that was last applied, if any was.
    pub applied: Seq<Option<u32>>,
}

/// The fleet scaler as contracts see it.
pub struct FleetView {
    pub clusters: Seq<ClusterSpec>,
    pub pools: Seq<PoolConfig>,
    pub tracks: Seq<TrackView>,
    pub phase: Phase,
    pub stopping: bool,
    /// The decisions of the current cycle that call for a command.
    pub pending: Seq<ScalingDecision>,
}

/// The first of the numbers below `n` that satisfies the predicate.
pub open spec fn first_index(n: int, pred: spec_fn(int) -> bool) -> Option<int>
    decreases n,
{
    if n <= 0 {
        None
    } else {
        match first_index(n - 1, pred) {
            Some(i) => Some(i),
            None => if pred(n - 1) {
                Some(n - 1)
            } else {
                None
            },
        }
    }
}

/// The cluster reported in this cycle and runs replicas of the kind.
pub open spec fn serves(track: TrackView, kind: CircuitIdRoundTuple) -> bool {
    &&& !track.stale
    &&& track.snapshot matches Some(report) && observed_replicas(report.pools, kind) > 0
}

/// The clusters that reported in this cycle and run the kind.
pub open spec fn serving_clusters(tracks: Seq<TrackView>, kind: CircuitIdRoundTuple) -> spec_fn(
    int,
) -> bool {
    |c: int| 0 <= c < tracks.len() && serves(tracks[c], kind)
}

/// The clusters that reported in this cycle.
pub open spec fn fresh_clusters(tracks: Seq<TrackView>) -> spec_fn(int) -> bool {
    |c: int| 0 <= c < tracks.len() && !tracks[c].stale
}

/// The cluster that the demand for a kind of job goes to: of the
/// clusters that reported in this cycle, the first in the configured
/// order that already runs the kind, else the first in that order.
pub open spec fn chosen_cluster(tracks: Seq<TrackView>, kind: CircuitIdRoundTuple) -> Option<int> {
    match first_index(tracks.len() as int, serving_clusters(tracks, kind)) {
        Some(c) => Some(c),
        None => first_index(tracks.len() as int, fresh_clusters(tracks)),
    }
}

/// The replicas a pool is taken to have had: the target last applied,
/// or else what the cluster last reported, or else none.
pub open spec fn previous_replicas(track: TrackView, pool: int, kind: CircuitIdRoundTuple) -> u32 {
    match track.applied[pool] {
        Some(target) => target,
        None => match track.snapshot {
            Some(report) => observed_replicas(report.pools, kind),
            None => 0,
        },
    }
}

impl FleetView {
    /// Every pool has a throughput, and no pool's minimum exceeds a
    /// cluster's capacity.
    pub open spec fn config_ok(self) -> bool {
        &&& forall|p: int| 0 <= p < self.pools.len() ==> (#[trigger] self.pools[p]).throughput_per_replica > 0
        &&& forall|c: int, p: int|
            0 <= c < self.clusters.len() && 0 <= p < self.pools.len() ==> (
            #[trigger] self.pools[p]).min_replicas <= (#[trigger] self.clusters[c]).capacity
    }

    /// The configuration is sound, there is a track for each cluster with
    /// a place for each pool, and the pending decisions name clusters and
    /// pools that exist.
    pub open spec fn wf(self) -> bool {
        &&& self.config_ok()
        &&& self.tracks.len() == self.clusters.len()
        &&& forall|c: int|
            0 <= c < self.tracks.len() ==> (#[trigger] self.tracks[c]).applied.len()
                == self.pools.len()
        &&& forall|k: int|
            0 <= k < self.pending.len() ==> (#[trigger] self.pending[k]).cluster
                < self.clusters.len() && self.pending[k].pool < self.pools.len()
    }

    /// The demand that is routed to the pool in the cluster: all of the
    /// kind's demand if the cluster is the chosen one, else none.
    pub open spec fn routed_demand(
        self,
        demand: Seq<(CircuitIdRoundTuple, u64)>,
        cluster: int,
        pool: int,
    ) -> u64 {
        if chosen_cluster(self.tracks, self.pools[pool].kind) == Some(cluster) {
            demand_for(demand, self.pools[pool].kind)
        } else {
            0
        }
    }

    /// The decision for the pool in the cluster. A cluster that did not
    /// report keeps the target it had and is marked stale. For any other
    /// the target is what the routed demand needs, within the pool's
    /// minimum and the cluster's capacity, with a decrease held to the
    /// pool's step.
    pub open spec fn decision(
        self,
        demand: Seq<(CircuitIdRoundTuple, u64)>,
        cluster: int,
        pool: int,
    ) -> ScalingDecision {
        let config = self.pools[pool];
        let track = self.tracks[cluster];
        let previous = previous_replicas(track, pool, config.kind);
        if track.stale {
            ScalingDecision {
                cluster: cluster as usize,
                pool: pool as usize,
                target: previous,
                stale: true,
            }
        } else {
            ScalingDecision {
                cluster: cluster as usize,
                pool: pool as usize,
                target: eased_target(
                    desired_replicas(
                        self.routed_demand(demand, cluster, pool),
                        config.throughput_per_replica,
                        config.min_replicas,
                        self.clusters[cluster].capacity,
                    ),
                    previous as int,
                    config.max_scale_down as int,
                ) as u32,
                stale: false,
            }
        }
    }

    /// The decisions for the clusters before `cluster` and for the pools
    /// before `pool` of that cluster, cluster by cluster and pool by
    /// pool in the configured order.
    pub open spec fn decisions_before(
        self,
        demand: Seq<(CircuitIdRoundTuple, u64)>,
        cluster: int,
        pool: int,
    ) -> Seq<ScalingDecision>
        decreases cluster, pool,
    {
        if pool > 0 {
            self.decisions_before(demand, cluster, pool - 1).push(
                self.decision(demand, cluster, pool - 1),
            )
        } else if cluster > 0 {
            self.decisions_before(demand, cluster - 1, self.pools.len() as int)
        } else {
            Seq::empty()
        }
    }

    /// The decisions of a cycle: one for each pool in each cluster.
    pub open spec fn decisions(self, demand: Seq<(CircuitIdRoundTuple, u64)>) -> Seq<ScalingDecision> {
        self.decisions_before(demand, self.clusters.len() as int, 0)
    }

    /// The decision calls for a command: its cluster reported, and its
    /// target is not the one that was last applied.
    pub open spec fn calls_for_command(self, decision: ScalingDecision) -> bool {
        &&& !decision.stale
        &&& self.tracks[decision.cluster as int].applied[decision.pool as int] != Some(
            decision.target,
        )
    }

    /// `calls_for_command` as a predicate on decisions.
    pub open spec fn commanded(self) -> spec_fn(ScalingDecision) -> bool {
        |decision: ScalingDecision| self.calls_for_command(decision)
    }

    /// The command that carries out a decision.
    pub open spec fn command_of(self, decision: ScalingDecision) -> CommandView {
        CommandView {
            cluster_name: self.clusters[decision.cluster as int].name,
            pool: self.pools[decision.pool as int].kind,
            target_replicas: decision.target,
        }
    }

    /// The commands of a cycle: one for each decision that calls for one,
    /// in the order of the decisions.
    pub open spec fn commands(self, demand: Seq<(CircuitIdRoundTuple, u64)>) -> Seq<CommandView> {
        self.decisions(demand).filter(self.commanded()).map_values(
            |decision: ScalingDecision| self.command_of(decision),
        )
    }

    /// The tracks after the reports of a cycle came in. A report under
    /// the cluster's own name replaces the cluster's snapshot as a whole;
    /// a cluster without such a report keeps its snapshot and is stale.
    pub open spec fn tracks_after_reports(self, reports: Seq<Option<ClusterReport>>) -> Seq<TrackView> {
        Seq::new(
            self.tracks.len(),
            |c: int|
                match reports[c] {
                    Some(report) if report.cluster_name == self.clusters[c].name => TrackView {
                        snapshot: Some(report),
                        stale: false,
                        ..self.tracks[c]
                    },
                    _ => TrackView { stale: true, ..self.tracks[c] },
                },
        )
    }

    /// The tracks after the first `n` pending commands were answered:
    /// each command that went through has set its pool's applied target.
    pub open spec fn tracks_after_results(self, results: Seq<bool>, n: int) -> Seq<TrackView>
        decreases n,
    {
        if n <= 0 {
            self.tracks
        } else {
            let before = self.tracks_after_results(results, n - 1);
            let done = self.pending[n - 1];
            if results[n - 1] {
                before.update(
                    done.cluster as int,
                    TrackView {
                        applied: before[done.cluster as int].applied.update(
                            done.pool as int,
                            Some(done.target),
                        ),
                        ..before[done.cluster as int]
                    },
                )
            } else {
                before
            }
        }
    }
}

/// A command to a cluster's scaler as contracts see it.
pub struct CommandView {
    pub cluster_name: Seq<char>,
    pub pool: CircuitIdRoundTuple,
    pub target_replicas: u32,
}

} // verus!
