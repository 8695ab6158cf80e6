use prover_orchestration::basic_types::{
    CircuitIdRoundTuple, CircuitProverStatsEntry, JobCountStatistics, ProtocolSemanticVersion,
};
use prover_orchestration::cluster_scaler::{ReplicaPatch, ScaleError, Scaler};
use prover_orchestration::cluster_watcher::{ClusterState, PollError, PoolReplicas, Watcher};
use prover_orchestration::fleet_model::{Phase, PoolConfig};
use prover_orchestration::fleet_scaler::{
    ClusterConfig, ConfigError, CycleError, FleetConfig, FleetScaler, ScaleCommand,
};
use prover_orchestration::prover_job::ProverJob;
use prover_orchestration::queuer::Queuer;
use prover_orchestration::scaling_rules::{ease_decrease, needed_replicas, target_replicas};

fn kind(circuit_id: u8, aggregation_round: u8) -> CircuitIdRoundTuple {
    CircuitIdRoundTuple { circuit_id, aggregation_round }
}

fn entry(k: CircuitIdRoundTuple, minor: u16, queued: usize, in_progress: usize) -> CircuitProverStatsEntry {
    CircuitProverStatsEntry {
        circuit: k,
        protocol_semantic_version: ProtocolSemanticVersion { minor, patch: 0 },
        stats: JobCountStatistics { queued, in_progress },
    }
}

fn report(name: &str, pools: &[(CircuitIdRoundTuple, u32)], at: u64) -> ClusterState {
    ClusterState {
        cluster_name: name.to_string(),
        pools: pools.iter().map(|(kind, replicas)| PoolReplicas { kind: *kind, replicas: *replicas }).collect(),
        reported_at: at,
    }
}

fn fleet(clusters: &[(&str, u32)], pools: &[PoolConfig]) -> FleetScaler {
    FleetScaler::new(FleetConfig {
        clusters: clusters
            .iter()
            .map(|(name, capacity)| ClusterConfig { name: name.to_string(), capacity: *capacity })
            .collect(),
        pools: pools.to_vec(),
    })
    .unwrap()
}

fn pool(k: CircuitIdRoundTuple, throughput: u64, min: u32, step: u32) -> PoolConfig {
    PoolConfig { kind: k, throughput_per_replica: throughput, min_replicas: min, max_scale_down: step }
}

fn commands(list: &[ScaleCommand]) -> Vec<(String, CircuitIdRoundTuple, u32)> {
    list.iter().map(|c| (c.cluster_name.clone(), c.pool, c.target_replicas)).collect()
}

#[test]
fn replicas_needed_round_up() {
    assert_eq!(needed_replicas(120, 10), 12);
    assert_eq!(needed_replicas(121, 10), 13);
    assert_eq!(needed_replicas(0, 10), 0);
    assert_eq!(needed_replicas(u64::MAX, 1), u64::MAX);
    assert_eq!(needed_replicas(u64::MAX, 2), 1 << 63);
}

#[test]
fn target_is_clamped_to_minimum_and_capacity() {
    assert_eq!(target_replicas(120, 10, 0, 20), 12);
    assert_eq!(target_replicas(1200, 10, 0, 20), 20);
    assert_eq!(target_replicas(0, 10, 2, 20), 2);
    assert_eq!(target_replicas(u64::MAX, 1, 0, u32::MAX), u32::MAX);
    assert_eq!(target_replicas(5, 10, 7, 7), 7);
}

#[test]
fn decrease_is_held_to_the_step() {
    assert_eq!(ease_decrease(2, 12, 3), 9);
    assert_eq!(ease_decrease(9, 12, 3), 9);
    assert_eq!(ease_decrease(10, 12, 3), 10);
    assert_eq!(ease_decrease(20, 12, 3), 20);
    assert_eq!(ease_decrease(0, 2, 3), 0);
    assert_eq!(ease_decrease(0, 12, 0), 12);
}

#[test]
fn queuer_sums_backlog_over_versions() {
    let a = kind(1, 0);
    let b = kind(2, 1);
    let stats = vec![entry(a, 24, 100, 10), entry(b, 24, 0, 0), entry(a, 25, 5, 5), entry(b, 23, 0, 3)];
    let queuer = Queuer {};
    let demand = queuer.demand(&stats);
    assert_eq!(demand, vec![(a, 120), (b, 3)]);
    assert_eq!(queuer.demand_for(&demand, a), 120);
    assert_eq!(queuer.demand_for(&demand, kind(9, 9)), 0);
}

#[test]
fn queuer_drops_versions_without_backlog() {
    let a = kind(1, 0);
    let queuer = Queuer {};
    let with_idle = queuer.demand(&vec![entry(a, 23, 0, 0), entry(a, 24, 7, 0), entry(kind(3, 0), 22, 0, 0)]);
    let without = queuer.demand(&vec![entry(a, 24, 7, 0)]);
    assert_eq!(with_idle, without);
    assert_eq!(with_idle, vec![(a, 7)]);
    assert!(queuer.demand(&vec![]).is_empty());
}

#[test]
fn queuer_holds_overflowing_demand_at_the_limit() {
    let a = kind(1, 0);
    let queuer = Queuer {};
    let demand = queuer.demand(&vec![entry(a, 24, usize::MAX, usize::MAX), entry(a, 25, 1, 0)]);
    assert_eq!(demand, vec![(a, u64::MAX)]);
}

#[test]
fn scaler_computes_and_applies_target() {
    let a = kind(1, 0);
    let mut scaler = fleet(&[("east", 20)], &[pool(a, 10, 0, 3)]);
    assert_eq!(scaler.phase(), Phase::Idle);
    scaler.begin_cycle().unwrap();
    assert_eq!(scaler.phase(), Phase::Polling);
    scaler.record_reports(&vec![Some(report("east", &[(a, 5)], 1))]).unwrap();
    assert_eq!(scaler.phase(), Phase::Deciding);
    let demand = vec![(a, 120u64)];
    let decisions = scaler.decisions(&demand);
    assert_eq!(decisions.len(), 1);
    assert_eq!(decisions[0].target, 12);
    assert!(!decisions[0].stale);
    let issued = scaler.decide(&demand).unwrap();
    assert_eq!(commands(&issued), vec![("east".to_string(), a, 12)]);
    assert_eq!(scaler.phase(), Phase::Applying);
    scaler.record_applied(&vec![true]).unwrap();
    assert_eq!(scaler.phase(), Phase::Idle);

    // The same demand again: the target is the applied one, no command.
    scaler.begin_cycle().unwrap();
    scaler.record_reports(&vec![Some(report("east", &[(a, 12)], 2))]).unwrap();
    assert!(scaler.decide(&demand).unwrap().is_empty());
    scaler.record_applied(&vec![]).unwrap();

    // The backlog is gone: the pool shrinks by its step only.
    scaler.begin_cycle().unwrap();
    scaler.record_reports(&vec![Some(report("east", &[(a, 12)], 3))]).unwrap();
    let issued = scaler.decide(&vec![]).unwrap();
    assert_eq!(commands(&issued), vec![("east".to_string(), a, 9)]);
    // The command failed: the applied target stays 12, the next cycle tries again.
    scaler.record_applied(&vec![false]).unwrap();
    scaler.begin_cycle().unwrap();
    scaler.record_reports(&vec![Some(report("east", &[(a, 12)], 4))]).unwrap();
    let issued = scaler.decide(&vec![]).unwrap();
    assert_eq!(commands(&issued), vec![("east".to_string(), a, 9)]);
}

#[test]
fn absent_report_holds_the_clusters_targets() {
    let a = kind(1, 0);
    let b = kind(2, 1);
    let mut scaler = fleet(&[("east", 20), ("west", 30)], &[pool(a, 10, 1, 5), pool(b, 4, 0, 5)]);
    scaler.begin_cycle().unwrap();
    scaler
        .record_reports(&vec![
            Some(report("east", &[(a, 5), (b, 0)], 1)),
            Some(report("west", &[(a, 0), (b, 2)], 1)),
        ])
        .unwrap();
    let demand = vec![(a, 120u64), (b, 40u64)];
    let issued = scaler.decide(&demand).unwrap();
    // East runs kind a, west runs kind b; each keeps the other kind at the minimum.
    assert_eq!(
        commands(&issued),
        vec![
            ("east".to_string(), a, 12),
            ("east".to_string(), b, 0),
            ("west".to_string(), a, 1),
            ("west".to_string(), b, 10),
        ]
    );
    scaler.record_applied(&vec![true, true, true, true]).unwrap();

    // East does not answer in the next cycle.
    scaler.begin_cycle().unwrap();
    scaler.record_reports(&vec![None, Some(report("west", &[(a, 1), (b, 10)], 2))]).unwrap();
    let demand = vec![(a, 300u64), (b, 8u64)];
    let decisions = scaler.decisions(&demand);
    let seen: Vec<(usize, usize, u32, bool)> =
        decisions.iter().map(|d| (d.cluster, d.pool, d.target, d.stale)).collect();
    assert_eq!(
        seen,
        vec![(0, 0, 12, true), (0, 1, 0, true), (1, 0, 30, false), (1, 1, 5, false)]
    );
    let issued = scaler.decide(&demand).unwrap();
    assert_eq!(commands(&issued), vec![("west".to_string(), a, 30), ("west".to_string(), b, 5)]);
}

#[test]
fn report_under_another_name_counts_as_absent() {
    let a = kind(1, 0);
    let mut scaler = fleet(&[("east", 20)], &[pool(a, 10, 0, 3)]);
    scaler.begin_cycle().unwrap();
    scaler.record_reports(&vec![Some(report("west", &[(a, 5)], 1))]).unwrap();
    let decisions = scaler.decisions(&vec![(a, 120)]);
    assert!(decisions[0].stale);
    assert_eq!(decisions[0].target, 0);
    assert!(scaler.decide(&vec![(a, 120)]).unwrap().is_empty());
    assert_eq!(scaler.chosen_cluster(a), None);
}

#[test]
fn demand_goes_to_the_serving_cluster_then_by_priority() {
    let a = kind(1, 0);
    let mut scaler = fleet(&[("east", 20), ("west", 20), ("north", 20)], &[pool(a, 1, 0, 100)]);
    scaler.begin_cycle().unwrap();
    scaler
        .record_reports(&vec![
            Some(report("east", &[], 1)),
            Some(report("west", &[(a, 0)], 1)),
            Some(report("north", &[(a, 3)], 1)),
        ])
        .unwrap();
    assert_eq!(scaler.chosen_cluster(a), Some(2));
    assert_eq!(scaler.chosen_cluster(kind(7, 7)), Some(0));
}

#[test]
fn calls_out_of_turn_are_turned_down() {
    let a = kind(1, 0);
    let mut scaler = fleet(&[("east", 20)], &[pool(a, 10, 0, 3)]);
    assert_eq!(scaler.record_reports(&vec![None]), Err(CycleError::OutOfTurn));
    assert_eq!(scaler.decide(&vec![]).unwrap_err(), CycleError::OutOfTurn);
    assert_eq!(scaler.record_applied(&vec![]), Err(CycleError::OutOfTurn));
    scaler.begin_cycle().unwrap();
    assert_eq!(scaler.begin_cycle(), Err(CycleError::OutOfTurn));
    assert_eq!(scaler.record_reports(&vec![]), Err(CycleError::WrongCount));
    assert_eq!(scaler.phase(), Phase::Polling);
    scaler.record_reports(&vec![Some(report("east", &[(a, 5)], 1))]).unwrap();
    scaler.decide(&vec![(a, 120)]).unwrap();
    assert_eq!(scaler.record_applied(&vec![]), Err(CycleError::WrongCount));
    assert_eq!(scaler.phase(), Phase::Applying);
}

#[test]
fn stop_takes_effect_between_cycles() {
    let a = kind(1, 0);
    let mut scaler = fleet(&[("east", 20)], &[pool(a, 10, 0, 3)]);
    scaler.begin_cycle().unwrap();
    scaler.request_stop();
    assert!(!scaler.may_exit());
    scaler.record_reports(&vec![None]).unwrap();
    scaler.decide(&vec![]).unwrap();
    scaler.record_applied(&vec![]).unwrap();
    assert!(scaler.may_exit());
    assert_eq!(scaler.begin_cycle(), Err(CycleError::Stopping));
}

#[test]
fn faulty_configurations_are_turned_down() {
    let a = kind(1, 0);
    let make = |capacity: u32, p: PoolConfig| {
        FleetScaler::new(FleetConfig {
            clusters: vec![ClusterConfig { name: "east".to_string(), capacity }],
            pools: vec![p],
        })
    };
    assert_eq!(make(20, pool(a, 0, 0, 3)).err(), Some(ConfigError::ZeroThroughput));
    assert_eq!(make(20, pool(a, 0, 21, 3)).err(), Some(ConfigError::ZeroThroughput));
    assert_eq!(make(20, pool(a, 1, 21, 3)).err(), Some(ConfigError::MinimumAboveCapacity));
    assert!(make(20, pool(a, 1, 20, 3)).is_ok());
}

#[test]
fn watcher_keeps_last_good_snapshot() {
    let a = kind(1, 0);
    let b = kind(2, 0);
    let mut watcher = Watcher::new("east".to_string(), vec![a]);
    assert!(watcher.snapshot().is_none());
    watcher.record_poll(Err(PollError::TimedOut), 1);
    assert!(watcher.snapshot().is_none());
    watcher.record_poll(
        Ok(vec![PoolReplicas { kind: b, replicas: 9 }, PoolReplicas { kind: a, replicas: 4 }]),
        2,
    );
    let seen = watcher.snapshot().unwrap();
    assert_eq!(seen.cluster_name, "east");
    assert_eq!(seen.pools, vec![PoolReplicas { kind: a, replicas: 4 }]);
    assert_eq!(seen.reported_at, 2);
    assert_eq!(seen.replicas_of(a), 4);
    assert_eq!(seen.replicas_of(b), 0);
    watcher.record_poll(Err(PollError::Refused), 3);
    assert_eq!(watcher.snapshot().unwrap().reported_at, 2);
    watcher.record_poll(Ok(vec![]), 4);
    let seen = watcher.snapshot().unwrap();
    assert!(seen.pools.is_empty());
    assert_eq!(seen.reported_at, 4);
}

#[test]
fn cluster_scaler_patches_its_own_cluster_only() {
    let a = kind(1, 0);
    let scaler = Scaler::new("east".to_string());
    let command = ScaleCommand { cluster_name: "east".to_string(), pool: a, target_replicas: 12 };
    assert_eq!(scaler.patch_for(&command), Ok(ReplicaPatch { pool: a, replicas: 12 }));
    let other = ScaleCommand { cluster_name: "west".to_string(), pool: a, target_replicas: 12 };
    assert_eq!(scaler.patch_for(&other), Err(ScaleError::WrongCluster));
    assert_eq!(scaler.outcome(true), Ok(()));
    assert_eq!(scaler.outcome(false), Err(ScaleError::PatchFailed));
}

#[test]
fn patch_applied_twice_is_applied_once() {
    let a = kind(1, 0);
    let b = kind(2, 0);
    let mut state = report("east", &[(a, 5), (b, 7)], 1);
    let patch = ReplicaPatch { pool: a, replicas: 12 };
    state.apply_patch(patch);
    let once = state.pools.clone();
    state.apply_patch(patch);
    assert_eq!(state.pools, once);
    assert_eq!(
        once,
        vec![PoolReplicas { kind: a, replicas: 12 }, PoolReplicas { kind: b, replicas: 7 }]
    );
}

#[test]
fn prover_job_names() {
    assert_eq!(ProverJob::parse("scaler"), Ok(ProverJob::Scaler));
    assert_eq!("agent".parse::<ProverJob>(), Ok(ProverJob::Agent));
    assert_eq!(
        ProverJob::parse("Agent"),
        Err("Agent is not a valid Prover Scaler Job".to_string())
    );
    assert_eq!(ProverJob::Scaler.as_u8(), 0);
    assert_eq!(ProverJob::Agent.as_u8(), 1);
}
