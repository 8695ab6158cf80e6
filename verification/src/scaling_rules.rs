//! The arithmetic of a scaling decision: how many replicas a backlog
//! needs, within which bounds, and how fast a pool may shrink.

use vstd::prelude::*;

verus! {

/// The replicas that work off `demand` jobs when each handles
/// `throughput` of them: the quotient, rounded up.
pub open spec fn replicas_needed(demand: u64, throughput: u64) -> int
    recommends
        throughput > 0,
{
    demand / throughput + if demand % throughput > 0 {
        1int
    } else {
        0int
    }
}

/// `x` held between `low` and `high`.
pub open spec fn clamped(x: int, low: int, high: int) -> int
    recommends
        low <= high,
{
    if x < low {
        low
    } else if x > high {
        high
    } else {
        x
    }
}

/// The replicas that a pool should have for its demand: what the demand
/// needs, but no fewer than the pool's minimum and no more than the
/// cluster has room for.
pub open spec fn desired_replicas(demand: u64, throughput: u64, min_replicas: u32, capacity: u32) -> int {
    clamped(replicas_needed(demand, throughput), min_replicas as int, capacity as int)
}

/// The target that is applied when the pool had `previous` replicas and
/// may lose at most `max_decrease` of them in one cycle. Growth is not
/// held back.
pub open spec fn eased_target(desired: int, previous: int, max_decrease: int) -> int {
    if desired < previous - max_decrease {
        previous - max_decrease
    } else {
        desired
    }
}

/// `replicas_needed` is the least number of replicas whose combined
/// throughput covers the demand.
pub proof fn law_needed_is_least(demand: u64, throughput: u64)
    requires
        throughput > 0,
    ensures
        replicas_needed(demand, throughput) * throughput >= demand,
        forall|n: int| 0 <= n && #[trigger] (n * throughput) >= demand ==> n >= replicas_needed(
            demand,
            throughput,
        ),
{
    let q = demand as int / throughput as int;
    let r = demand as int % throughput as int;
    let t = throughput as int;
    assert(demand == q * t + r) by (nonlinear_arith)
        requires
            q == demand as int / t,
            r == demand as int % t,
            t > 0,
    ;
    assert((q + 1) * t == q * t + t) by (nonlinear_arith);
    assert forall|n: int| 0 <= n && #[trigger] (n * throughput) >= demand implies n
        >= replicas_needed(demand, throughput) by {
        if n < replicas_needed(demand, throughput) {
            if r > 0 {
                assert(n * t <= q * t) by (nonlinear_arith)
                    requires
                        n <= q,
                        t > 0,
                ;
            } else {
                assert(n * t <= (q - 1) * t) by (nonlinear_arith)
                    requires
                        n <= q - 1,
                        t > 0,
                ;
                assert((q - 1) * t == q * t - t) by (nonlinear_arith);
            }
        }
    }
}

/// A desired count lies within the pool's minimum and the cluster's
/// capacity, and grows with the demand.
pub proof fn law_desired_is_bounded(
    demand: u64,
    more: u64,
    throughput: u64,
    min_replicas: u32,
    capacity: u32,
)
    requires
        throughput > 0,
        min_replicas <= capacity,
        demand <= more,
    ensures
        min_replicas <= desired_replicas(demand, throughput, min_replicas, capacity) <= capacity,
        desired_replicas(demand, throughput, min_replicas, capacity) <= desired_replicas(
            more,
            throughput,
            min_replicas,
            capacity,
        ),
{
    law_needed_is_least(demand, throughput);
    law_needed_is_least(more, throughput);
    let n = replicas_needed(more, throughput);
    assert(n >= 0) by (nonlinear_arith)
        requires
            n == more as int / throughput as int + if more as int % throughput as int > 0 {
                1int
            } else {
                0int
            },
            throughput > 0,
    ;
    assert(n * throughput >= demand);
}

/// An applied target never falls short of the desired count, never
/// drops by more than the allowed step, and equals the desired count
/// whenever that is no decrease beyond the step.
pub proof fn law_decrease_is_eased(desired: int, previous: int, max_decrease: int)
    requires
        max_decrease >= 0,
    ensures
        eased_target(desired, previous, max_decrease) >= desired,
        eased_target(desired, previous, max_decrease) >= previous - max_decrease,
        desired >= previous ==> eased_target(desired, previous, max_decrease) == desired,
        desired <= previous ==> eased_target(desired, previous, max_decrease) <= previous,
{
}

/// Computes `replicas_needed`.
pub fn needed_replicas(demand: u64, throughput: u64) -> (needed: u64)
    requires
        throughput > 0,
    ensures
        needed == replicas_needed(demand, throughput),
{
    let whole = demand / throughput;
    if demand % throughput > 0 {
        assert(whole < u64::MAX) by {
            assert(demand as int / throughput as int <= demand as int - 1 || throughput == 1)
                by (nonlinear_arith)
                requires
                    throughput > 0,
                    demand as int % throughput as int > 0,
            ;
        }
        whole + 1
    } else {
        whole
    }
}

/// Computes `desired_replicas`: the target of a pool before any easing.
pub fn target_replicas(demand: u64, throughput: u64, min_replicas: u32, capacity: u32) -> (target:
    u32)
    requires
        throughput > 0,
        min_replicas <= capacity,
    ensures
        target == desired_replicas(demand, throughput, min_replicas, capacity),
{
    let needed = needed_replicas(demand, throughput);
    if needed < min_replicas as u64 {
        min_replicas
    } else if needed > capacity as u64 {
        capacity
    } else {
        needed as u32
    }
}

/// Computes `eased_target`: the target that is applied in this cycle.
pub fn ease_decrease(desired: u32, previous: u32, max_decrease: u32) -> (target: u32)
    ensures
        target == eased_target(desired as int, previous as int, max_decrease as int),
{
    if previous >= max_decrease && desired < previous - max_decrease {
        previous - max_decrease
    } else {
        desired
    }
}

} // verus!
