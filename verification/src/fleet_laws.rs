//! What holds of the fleet scaler's decisions whatever the demand.

use vstd::prelude::*;
use crate::basic_types::CircuitIdRoundTuple;
use crate::fleet_model::{previous_replicas, FleetView, ScalingDecision};
use crate::scaling_rules::{desired_replicas, law_decrease_is_eased, law_desired_is_bounded};

verus! {

/// A cluster that did not report in the cycle keeps, for every pool, the
/// target it had; the decision says so, and no command goes out for it.
pub proof fn law_stale_cluster_is_held(
    fleet: FleetView,
    demand: Seq<(CircuitIdRoundTuple, u64)>,
    cluster: int,
    pool: int,
)
    requires
        fleet.wf(),
        0 <= cluster < fleet.clusters.len(),
        0 <= pool < fleet.pools.len(),
        fleet.tracks[cluster].stale,
    ensures
        fleet.decision(demand, cluster, pool).stale,
        fleet.decision(demand, cluster, pool).target == previous_replicas(
            fleet.tracks[cluster],
            pool,
            fleet.pools[pool].kind,
        ),
        !fleet.calls_for_command(fleet.decision(demand, cluster, pool)),
{
}

/// For a cluster that reported, a pool's target is never below the
/// pool's minimum nor below what the routed demand needs within the
/// cluster's capacity, it exceeds the capacity only while a larger pool
/// is still shrinking, and it is below what the pool had by no more than
/// the pool's step.
pub proof fn law_target_is_bounded(
    fleet: FleetView,
    demand: Seq<(CircuitIdRoundTuple, u64)>,
    cluster: int,
    pool: int,
)
    requires
        fleet.wf(),
        0 <= cluster < fleet.clusters.len(),
        0 <= pool < fleet.pools.len(),
        !fleet.tracks[cluster].stale,
    ensures
        ({
            let config = fleet.pools[pool];
            let capacity = fleet.clusters[cluster].capacity;
            let previous = previous_replicas(fleet.tracks[cluster], pool, config.kind);
            let decision = fleet.decision(demand, cluster, pool);
            let desired = desired_replicas(
                fleet.routed_demand(demand, cluster, pool),
                config.throughput_per_replica,
                config.min_replicas,
                capacity,
            );
            &&& !decision.stale
            &&& config.min_replicas <= desired <= capacity
            &&& decision.target >= desired
            &&& decision.target >= previous - config.max_scale_down
            &&& decision.target <= capacity || decision.target <= previous
            &&& desired >= previous ==> decision.target == desired
        }),
{
    let config = fleet.pools[pool];
    let capacity = fleet.clusters[cluster].capacity;
    let previous = previous_replicas(fleet.tracks[cluster], pool, config.kind);
    let routed = fleet.routed_demand(demand, cluster, pool);
    assert(fleet.pools[pool].min_replicas <= fleet.clusters[cluster].capacity);
    law_desired_is_bounded(
        routed,
        routed,
        config.throughput_per_replica,
        config.min_replicas,
        capacity,
    );
    let desired = desired_replicas(
        routed,
        config.throughput_per_replica,
        config.min_replicas,
        capacity,
    );
    law_decrease_is_eased(desired, previous as int, config.max_scale_down as int);
}

/// The decisions of a cycle are one for each pool in each cluster, in
/// the configured order: the decision for `pool` in `cluster` stands at
/// the place that many pools further on.
pub proof fn law_decisions_cover_the_fleet(
    fleet: FleetView,
    demand: Seq<(CircuitIdRoundTuple, u64)>,
    cluster: int,
    pool: int,
)
    requires
        0 <= cluster < fleet.clusters.len(),
        0 <= pool < fleet.pools.len(),
    ensures
        fleet.decisions(demand).len() == fleet.clusters.len() * fleet.pools.len(),
        fleet.decisions(demand)[cluster * fleet.pools.len() + pool] == fleet.decision(
            demand,
            cluster,
            pool,
        ),
{
    lemma_decisions_before(fleet, demand, fleet.clusters.len() as int, 0, cluster, pool);
}

/// The decisions before a place hold, at its own place, every decision
/// that comes before it.
pub proof fn lemma_decisions_before(
    fleet: FleetView,
    demand: Seq<(CircuitIdRoundTuple, u64)>,
    end_cluster: int,
    end_pool: int,
    cluster: int,
    pool: int,
)
    requires
        0 <= end_cluster,
        0 <= end_pool <= fleet.pools.len(),
        0 <= cluster,
        0 <= pool < fleet.pools.len(),
        cluster < end_cluster || (cluster == end_cluster && pool < end_pool),
    ensures
        fleet.decisions_before(demand, end_cluster, end_pool).len() == end_cluster
            * fleet.pools.len() + end_pool,
        fleet.decisions_before(demand, end_cluster, end_pool)[cluster * fleet.pools.len() + pool]
            == fleet.decision(demand, cluster, pool),
    decreases end_cluster, end_pool,
{
    let width = fleet.pools.len() as int;
    if cluster < end_cluster {
        lemma_rows_fit(cluster, end_cluster, width);
    }
    let place = cluster * width + pool;
    if end_pool > 0 {
        let shorter = fleet.decisions_before(demand, end_cluster, end_pool - 1);
        let added = fleet.decision(demand, end_cluster, end_pool - 1);
        assert(fleet.decisions_before(demand, end_cluster, end_pool) == shorter.push(added));
        lemma_decisions_len(fleet, demand, end_cluster, end_pool - 1);
        if cluster == end_cluster && pool == end_pool - 1 {
            assert(place == shorter.len());
        } else {
            if cluster < end_cluster {
                lemma_rows_fit(cluster, end_cluster, width);
            }
            lemma_decisions_before(fleet, demand, end_cluster, end_pool - 1, cluster, pool);
            assert(shorter.push(added)[place] == shorter[place]);
        }
    } else {
        assert((end_cluster - 1) * width + width == end_cluster * width) by (nonlinear_arith);
        lemma_decisions_before(fleet, demand, end_cluster - 1, width, cluster, pool);
    }
}

/// A whole row of `width` places after row `a` ends no later than row
/// `b` begins, where `a` comes before `b`.
pub proof fn lemma_rows_fit(a: int, b: int, width: int)
    requires
        0 <= a < b,
        0 <= width,
    ensures
        a * width + width <= b * width,
{
    assert(a * width + width <= b * width) by (nonlinear_arith)
        requires
            0 <= a < b,
            0 <= width,
    ;
}

/// How many decisions come before a place.
pub proof fn lemma_decisions_len(
    fleet: FleetView,
    demand: Seq<(CircuitIdRoundTuple, u64)>,
    end_cluster: int,
    end_pool: int,
)
    requires
        0 <= end_cluster,
        0 <= end_pool <= fleet.pools.len(),
    ensures
        fleet.decisions_before(demand, end_cluster, end_pool).len() == end_cluster
            * fleet.pools.len() + end_pool,
    decreases end_cluster, end_pool,
{
    let width = fleet.pools.len() as int;
    if end_pool > 0 {
        lemma_decisions_len(fleet, demand, end_cluster, end_pool - 1);
    } else if end_cluster > 0 {
        assert((end_cluster - 1) * width + width == end_cluster * width) by (nonlinear_arith);
        lemma_decisions_len(fleet, demand, end_cluster - 1, width);
    } else {
        assert(0 * width + 0 == 0) by (nonlinear_arith);
    }
}

/// A decision whose target is the one last applied calls for no
/// command, so that applying a target twice sends one command.
pub proof fn law_applied_target_is_not_resent(fleet: FleetView, decision: ScalingDecision)
    requires
        fleet.tracks[decision.cluster as int].applied[decision.pool as int] == Some(
            decision.target,
        ),
    ensures
        !fleet.calls_for_command(decision),
{
}

} // verus!
