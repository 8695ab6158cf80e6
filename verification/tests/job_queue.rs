use prover_orchestration::basic_types::{
    AggregationRound, CircuitIdRoundTuple, L1BatchNumber, ProtocolSemanticVersion,
    ProverJobStatus,
};
use prover_orchestration::fri_prover_dal::FriProverDal;

fn v1() -> ProtocolSemanticVersion {
    ProtocolSemanticVersion { minor: 1, patch: 0 }
}

fn v2() -> ProtocolSemanticVersion {
    ProtocolSemanticVersion { minor: 2, patch: 0 }
}

fn kind(circuit_id: u8, aggregation_round: u8) -> CircuitIdRoundTuple {
    CircuitIdRoundTuple { circuit_id, aggregation_round }
}

/// Batch 5, rounds 0 to 2, circuits 1 and 2 each; then batch 4 at round 1.
fn sample() -> FriProverDal {
    let mut dal = FriProverDal::new();
    let rounds = [
        AggregationRound::NodeAggregation,
        AggregationRound::BasicCircuits,
        AggregationRound::LeafAggregation,
    ];
    for round in rounds {
        dal.insert_prover_jobs(
            L1BatchNumber(5),
            vec![(2, "blob-b".to_string()), (1, "blob-a".to_string())],
            round,
            0,
            v1(),
            100,
        );
    }
    dal
}

fn status_of(dal: &FriProverDal, id: u32) -> ProverJobStatus {
    dal.jobs().iter().find(|row| row.id == id).unwrap().status
}

#[test]
fn claims_drain_lowest_round_first() {
    let mut dal = sample();
    let mut seen = Vec::new();
    while let Some(job) = dal.get_job(v1(), "worker", 200) {
        seen.push((job.aggregation_round, job.circuit_id));
    }
    assert_eq!(
        seen,
        vec![
            (AggregationRound::BasicCircuits, 1),
            (AggregationRound::BasicCircuits, 2),
            (AggregationRound::LeafAggregation, 1),
            (AggregationRound::LeafAggregation, 2),
            (AggregationRound::NodeAggregation, 1),
            (AggregationRound::NodeAggregation, 2),
        ]
    );
}

#[test]
fn ids_are_given_in_order_of_insertion() {
    let dal = sample();
    let ids: Vec<u32> = dal.jobs().iter().map(|row| row.id).collect();
    assert_eq!(ids, vec![1, 2, 3, 4, 5, 6]);
    let first = &dal.jobs()[0];
    assert_eq!(first.circuit_id, 2);
    assert_eq!(first.sequence_number, 0);
    assert_eq!(first.circuit_blob_url, "blob-b");
    assert_eq!(first.status, ProverJobStatus::Queued);
    assert_eq!(first.attempts, 0);
    assert_eq!(first.created_at, 100);
    assert!(!first.is_node_final_proof);
    assert_eq!(dal.jobs()[1].sequence_number, 1);
}

#[test]
fn more_claimers_than_jobs_get_each_job_once() {
    let mut dal = FriProverDal::new();
    dal.insert_prover_jobs(
        L1BatchNumber(1),
        vec![(1, "a".to_string()), (2, "b".to_string()), (3, "c".to_string())],
        AggregationRound::BasicCircuits,
        0,
        v1(),
        10,
    );
    let mut given = Vec::new();
    let mut refused = 0;
    for claimer in 0..5 {
        match dal.get_job(v1(), &format!("worker-{claimer}"), 20) {
            Some(job) => given.push(job.id),
            None => refused += 1,
        }
    }
    assert_eq!(given.len(), 3);
    assert_eq!(refused, 2);
    let mut distinct = given.clone();
    distinct.sort();
    distinct.dedup();
    assert_eq!(distinct.len(), 3);
    for (k, id) in given.iter().enumerate() {
        let row = dal.jobs().iter().find(|row| row.id == *id).unwrap();
        assert_eq!(row.status, ProverJobStatus::InProgress);
        assert_eq!(row.picked_by, Some(format!("worker-{k}")));
        assert_eq!(row.attempts, 1);
        assert_eq!(row.processing_started_at, Some(20));
    }
}

#[test]
fn claim_skips_other_protocol_versions() {
    let mut dal = FriProverDal::new();
    dal.insert_prover_job(
        L1BatchNumber(1),
        1,
        0,
        0,
        AggregationRound::BasicCircuits,
        "old",
        false,
        v1(),
        1,
    );
    dal.insert_prover_job(
        L1BatchNumber(2),
        1,
        0,
        0,
        AggregationRound::BasicCircuits,
        "new",
        false,
        v2(),
        1,
    );
    let job = dal.get_job(v2(), "w", 2).unwrap();
    assert_eq!(job.block_number, L1BatchNumber(2));
    assert_eq!(job.id, 2);
    assert!(dal.get_job(v2(), "w", 3).is_none());
    assert_eq!(status_of(&dal, 1), ProverJobStatus::Queued);
}

#[test]
fn claim_prefers_earlier_batch_over_lower_round() {
    let mut dal = sample();
    dal.insert_prover_job(
        L1BatchNumber(4),
        9,
        0,
        0,
        AggregationRound::Scheduler,
        "s",
        false,
        v1(),
        100,
    );
    let job = dal.get_job(v1(), "w", 200).unwrap();
    assert_eq!(job.block_number, L1BatchNumber(4));
    assert_eq!(job.aggregation_round, AggregationRound::Scheduler);
    assert_eq!(job.id, 7);
}

#[test]
fn older_claim_prefers_higher_round() {
    let mut dal = sample();
    dal.insert_prover_job(
        L1BatchNumber(4),
        9,
        0,
        0,
        AggregationRound::BasicCircuits,
        "s",
        false,
        v1(),
        100,
    );
    let job = dal.get_next_job(v1(), "w", 200).unwrap();
    assert_eq!(job.aggregation_round, AggregationRound::NodeAggregation);
    assert_eq!(job.block_number, L1BatchNumber(5));
    // Of the two node jobs of batch 5 the lower id wins, whatever the circuit.
    assert_eq!(job.id, 1);
    assert_eq!(job.circuit_id, 2);
}

#[test]
fn filtered_claim_takes_highest_round_of_earliest_batch() {
    let mut dal = sample();
    let picks = [kind(1, 0), kind(2, 1), kind(1, 2)];
    let job = dal.get_next_job_for_circuit_id_round(&picks, v1(), "w", 200).unwrap();
    assert_eq!(job.aggregation_round, AggregationRound::NodeAggregation);
    assert_eq!(job.circuit_id, 1);
    let job = dal.get_next_job_for_circuit_id_round(&picks, v1(), "w", 200).unwrap();
    assert_eq!(job.aggregation_round, AggregationRound::LeafAggregation);
    assert_eq!(job.circuit_id, 2);
    let job = dal.get_next_job_for_circuit_id_round(&picks, v1(), "w", 200).unwrap();
    assert_eq!(job.aggregation_round, AggregationRound::BasicCircuits);
    assert_eq!(job.circuit_id, 1);
    assert!(dal.get_next_job_for_circuit_id_round(&picks, v1(), "w", 200).is_none());
}

#[test]
fn filtered_claim_takes_each_kinds_earliest_batch() {
    let mut dal = FriProverDal::new();
    for batch in [7, 3, 5] {
        dal.insert_prover_job(
            L1BatchNumber(batch),
            1,
            0,
            0,
            AggregationRound::LeafAggregation,
            "x",
            false,
            v1(),
            1,
        );
    }
    dal.insert_prover_job(
        L1BatchNumber(4),
        2,
        0,
        0,
        AggregationRound::NodeAggregation,
        "y",
        false,
        v1(),
        1,
    );
    let picks = [kind(2, 2), kind(1, 1)];
    let job = dal.get_next_job_for_circuit_id_round(&picks, v1(), "w", 2).unwrap();
    assert_eq!((job.block_number, job.circuit_id), (L1BatchNumber(3), 1));
    let job = dal.get_next_job_for_circuit_id_round(&picks, v1(), "w", 2).unwrap();
    assert_eq!((job.block_number, job.circuit_id), (L1BatchNumber(4), 2));
    assert!(dal.get_next_job_for_circuit_id_round(&[], v1(), "w", 2).is_none());
}

#[test]
fn inserting_the_same_job_again_only_refreshes_it() {
    let mut dal = sample();
    let job = dal.get_job(v1(), "w", 150).unwrap();
    dal.insert_prover_jobs(
        L1BatchNumber(5),
        vec![(2, "other".to_string()), (1, "other".to_string())],
        AggregationRound::BasicCircuits,
        0,
        v2(),
        300,
    );
    assert_eq!(dal.jobs().len(), 6);
    let row = dal.jobs().iter().find(|row| row.id == job.id).unwrap();
    assert_eq!(row.status, ProverJobStatus::InProgress);
    assert_eq!(row.updated_at, 300);
    assert_eq!(row.created_at, 100);
    assert_eq!(row.circuit_blob_url, "blob-a");
    assert_eq!(row.protocol_version, v1());
    // A new depth is a new job with the next id.
    dal.insert_prover_job(
        L1BatchNumber(5),
        1,
        1,
        1,
        AggregationRound::BasicCircuits,
        "deeper",
        true,
        v1(),
        300,
    );
    assert_eq!(dal.jobs().len(), 7);
    assert_eq!(dal.jobs()[6].id, 7);
    assert!(dal.jobs()[6].is_node_final_proof);
}

#[test]
fn failure_after_success_changes_nothing() {
    let mut dal = sample();
    let job = dal.get_job(v1(), "w", 150).unwrap();
    let meta = dal.save_proof(job.id, 42, "proof-url", 160);
    assert_eq!(meta, job);
    dal.save_proof_error(job.id, "late failure".to_string(), 170);
    let row = dal.jobs().iter().find(|row| row.id == job.id).unwrap();
    assert_eq!(row.status, ProverJobStatus::Successful);
    assert_eq!(row.error, None);
    assert_eq!(row.updated_at, 160);
    assert_eq!(row.time_taken, Some(42));
    assert_eq!(row.proof_blob_url, Some("proof-url".to_string()));
    // A second proof for the same job changes nothing either.
    dal.save_proof(job.id, 1, "other-url", 180);
    let row = dal.jobs().iter().find(|row| row.id == job.id).unwrap();
    assert_eq!(row.proof_blob_url, Some("proof-url".to_string()));
    assert_eq!(row.updated_at, 160);
    dal.update_status(job.id, ProverJobStatus::Queued, 190);
    assert_eq!(status_of(&dal, job.id), ProverJobStatus::Successful);
}

#[test]
fn failure_is_recorded_with_its_error() {
    let mut dal = sample();
    let job = dal.get_job(v1(), "w", 150).unwrap();
    dal.save_proof_error(job.id, "out of memory".to_string(), 170);
    let row = dal.jobs().iter().find(|row| row.id == job.id).unwrap();
    assert_eq!(row.status, ProverJobStatus::Failed);
    assert_eq!(row.error, Some("out of memory".to_string()));
    assert_eq!(row.updated_at, 170);
    assert_eq!(dal.get_prover_job_attempts(job.id), Some(1));
    assert_eq!(dal.get_prover_job_attempts(99), None);
    dal.save_proof_error(99, "nobody".to_string(), 171);
    assert_eq!(dal.jobs().len(), 6);
    dal.update_status(job.id, ProverJobStatus::InGpuProof, 180);
    assert_eq!(status_of(&dal, job.id), ProverJobStatus::InGpuProof);
}

#[test]
fn sweep_requeues_exactly_the_stuck_jobs() {
    let mut dal = sample();
    let old = dal.get_job(v1(), "slow", 100).unwrap();
    let failed = dal.get_job(v1(), "broken", 100).unwrap();
    let recent = dal.get_job(v1(), "busy", 950).unwrap();
    let gpu = dal.get_job(v1(), "gpu", 400).unwrap();
    dal.save_proof_error(failed.id, "boom".to_string(), 120);
    dal.update_status(gpu.id, ProverJobStatus::InGpuProof, 410);

    let stuck = dal.requeue_stuck_jobs(500, 3, 1000);
    let ids: Vec<u64> = stuck.iter().map(|job| job.id).collect();
    // In the order of the table: ids 2, 1 and 4 were claimed first, second and fourth.
    let mut expected = vec![old.id as u64, failed.id as u64, gpu.id as u64];
    expected.sort();
    assert_eq!(ids, expected);
    let report = stuck.iter().find(|job| job.id == failed.id as u64).unwrap();
    assert_eq!(report.status, ProverJobStatus::Failed);
    assert_eq!(report.attempts, 1);
    assert_eq!(report.circuit_id, Some(failed.circuit_id as u32));
    assert_eq!(report.error, Some("boom".to_string()));
    assert_eq!(report.picked_by, Some("broken".to_string()));
    let report = stuck.iter().find(|job| job.id == gpu.id as u64).unwrap();
    assert_eq!(report.status, ProverJobStatus::InGpuProof);

    for id in [old.id, failed.id, gpu.id] {
        let row = dal.jobs().iter().find(|row| row.id == id).unwrap();
        assert_eq!(row.status, ProverJobStatus::Queued);
        assert_eq!(row.processing_started_at, Some(1000));
        assert_eq!(row.updated_at, 1000);
        assert_eq!(row.attempts, 1);
    }
    assert_eq!(status_of(&dal, recent.id), ProverJobStatus::InProgress);
}

#[test]
fn sweep_takes_a_job_held_exactly_as_long_as_the_timeout() {
    let mut dal = sample();
    let job = dal.get_job(v1(), "w", 500).unwrap();
    assert!(dal.requeue_stuck_jobs(501, 3, 1000).is_empty());
    let stuck = dal.requeue_stuck_jobs(500, 3, 1000);
    assert_eq!(stuck.len(), 1);
    assert_eq!(stuck[0].id, job.id as u64);
    // A timeout longer than the clock has run finds nothing.
    let again = dal.get_job(v1(), "w", 1000).unwrap();
    assert_eq!(again.id, job.id);
    assert!(dal.requeue_stuck_jobs(u64::MAX, 3, 2000).is_empty());
}

#[test]
fn sweep_leaves_exhausted_jobs_alone() {
    let mut dal = sample();
    let job = dal.get_job(v1(), "w", 100).unwrap();
    dal.save_proof_error(job.id, "boom".to_string(), 110);
    assert!(dal.requeue_stuck_jobs(10, 1, 1000).is_empty());
    let row = dal.jobs().iter().find(|row| row.id == job.id).unwrap();
    assert_eq!(row.status, ProverJobStatus::Failed);
    assert_eq!(row.updated_at, 110);
    assert_eq!(dal.requeue_stuck_jobs(10, 2, 1000).len(), 1);
}

#[test]
fn manual_requeue_resets_exhausted_jobs_of_one_batch() {
    let mut dal = sample();
    dal.insert_prover_job(
        L1BatchNumber(6),
        1,
        0,
        0,
        AggregationRound::BasicCircuits,
        "z",
        false,
        v1(),
        100,
    );
    let first = dal.get_job(v1(), "w", 100).unwrap();
    let second = dal.get_job(v1(), "w", 100).unwrap();
    dal.save_proof_error(second.id, "boom".to_string(), 110);
    // Attempts are 1 each: nothing has used up two attempts.
    assert!(dal.requeue_stuck_jobs_for_batch(L1BatchNumber(5), 2, 500).is_empty());
    let stuck = dal.requeue_stuck_jobs_for_batch(L1BatchNumber(5), 1, 500);
    assert_eq!(stuck.len(), 2);
    for report in &stuck {
        assert_eq!(report.status, ProverJobStatus::Queued);
        assert_eq!(report.attempts, 2);
        assert_eq!(report.error, Some("Manually requeued".to_string()));
        assert_eq!(report.picked_by, Some("w".to_string()));
    }
    for id in [first.id, second.id] {
        let row = dal.jobs().iter().find(|row| row.id == id).unwrap();
        assert_eq!(row.status, ProverJobStatus::Queued);
        assert_eq!(row.attempts, 2);
        assert_eq!(row.error, Some("Manually requeued".to_string()));
        assert_eq!(row.processing_started_at, Some(500));
    }
    assert!(dal.requeue_stuck_jobs_for_batch(L1BatchNumber(6), 0, 500).is_empty());
}

#[test]
fn archive_moves_only_consumed_old_successes() {
    let mut dal = sample();
    dal.insert_prover_job(
        L1BatchNumber(6),
        1,
        0,
        0,
        AggregationRound::BasicCircuits,
        "z",
        false,
        v1(),
        100,
    );
    let a = dal.get_job(v1(), "w", 100).unwrap();
    let b = dal.get_job(v1(), "w", 100).unwrap();
    let c = dal.get_job(v1(), "w", 100).unwrap();
    dal.save_proof(a.id, 1, "pa", 200);
    dal.save_proof(b.id, 1, "pb", 900);
    dal.save_proof_error(c.id, "boom".to_string(), 200);
    dal.save_proof(7, 1, "pz", 200);

    // Batch 6 is old and successful, but nobody has consumed it.
    let moved = dal.archive_old_jobs(500, 1000, &[L1BatchNumber(5)]);
    assert_eq!(moved, 1);
    assert_eq!(dal.archived_jobs().len(), 1);
    assert_eq!(dal.archived_jobs()[0].id, a.id);
    assert_eq!(dal.jobs().len(), 6);
    assert!(dal.jobs().iter().all(|row| row.id != a.id));
    assert!(dal.jobs().iter().any(|row| row.id == 7));
    assert!(dal.jobs().iter().any(|row| row.id == b.id));
    assert!(dal.jobs().iter().any(|row| row.id == c.id));
    // Nothing consumed: nothing moves, however old.
    assert_eq!(dal.archive_old_jobs(0, u64::MAX, &[]), 0);
    // A job changed exactly `interval` ago is not yet old enough.
    assert_eq!(dal.archive_old_jobs(100, 1000, &[L1BatchNumber(5)]), 0);
    assert_eq!(dal.archive_old_jobs(99, 1000, &[L1BatchNumber(5), L1BatchNumber(6)]), 2);
    assert_eq!(dal.archived_jobs().len(), 3);
}

#[test]
fn statistics_count_the_backlog_by_kind_and_version() {
    let mut dal = sample();
    dal.insert_prover_job(
        L1BatchNumber(6),
        1,
        0,
        0,
        AggregationRound::BasicCircuits,
        "z",
        false,
        v2(),
        100,
    );
    let job = dal.get_job(v1(), "w", 100).unwrap();
    assert_eq!((job.circuit_id, job.aggregation_round), (1, AggregationRound::BasicCircuits));
    let done = dal.get_job(v1(), "w", 100).unwrap();
    dal.save_proof(done.id, 1, "p", 110);

    let stats = dal.get_prover_jobs_stats();
    assert_eq!(stats.len(), 6);
    let entry = stats
        .iter()
        .find(|e| e.circuit == kind(1, 0) && e.protocol_semantic_version == v1())
        .unwrap();
    assert_eq!((entry.stats.queued, entry.stats.in_progress), (0, 1));
    let entry = stats
        .iter()
        .find(|e| e.circuit == kind(1, 0) && e.protocol_semantic_version == v2())
        .unwrap();
    assert_eq!((entry.stats.queued, entry.stats.in_progress), (1, 0));
    assert!(stats.iter().all(|e| e.circuit != kind(2, 0)));

    let mut by_version = dal.get_generic_prover_jobs_stats();
    by_version.sort_by_key(|(version, _)| version.minor);
    assert_eq!(by_version.len(), 2);
    assert_eq!(by_version[0].0, v1());
    assert_eq!((by_version[0].1.queued, by_version[0].1.in_progress), (4, 1));
    assert_eq!((by_version[1].1.queued, by_version[1].1.in_progress), (1, 0));
}

#[test]
fn earliest_unproved_batch_per_kind() {
    let mut dal = sample();
    dal.insert_prover_job(
        L1BatchNumber(3),
        1,
        0,
        0,
        AggregationRound::BasicCircuits,
        "z",
        false,
        v1(),
        100,
    );
    dal.insert_prover_job(
        L1BatchNumber(2),
        1,
        0,
        0,
        AggregationRound::BasicCircuits,
        "z",
        false,
        v1(),
        100,
    );
    let job = dal.get_job(v1(), "w", 100).unwrap();
    assert_eq!(job.block_number, L1BatchNumber(2));
    dal.save_proof(job.id, 1, "p", 110);
    let mins = dal.min_unproved_l1_batch_number();
    assert_eq!(mins.len(), 6);
    let find = |key: (u8, u8)| mins.iter().find(|(k, _)| *k == key).unwrap().1;
    assert_eq!(find((1, 0)), L1BatchNumber(3));
    assert_eq!(find((2, 0)), L1BatchNumber(5));
    assert_eq!(find((1, 2)), L1BatchNumber(5));
}

#[test]
fn proof_ids_of_the_upper_rounds() {
    let mut dal = FriProverDal::new();
    dal.insert_prover_job(
        L1BatchNumber(1),
        1,
        0,
        0,
        AggregationRound::Scheduler,
        "s",
        false,
        v1(),
        1,
    );
    dal.insert_prover_job(
        L1BatchNumber(1),
        255,
        0,
        0,
        AggregationRound::RecursionTip,
        "t",
        false,
        v1(),
        1,
    );
    assert_eq!(dal.get_scheduler_proof_job_id(L1BatchNumber(1)), None);
    dal.save_proof(1, 5, "ps", 2);
    assert_eq!(dal.get_scheduler_proof_job_id(L1BatchNumber(1)), Some(1));
    assert_eq!(dal.get_scheduler_proof_job_id(L1BatchNumber(2)), None);
    assert_eq!(dal.get_recursion_tip_proof_job_id(L1BatchNumber(1)), None);
    dal.save_proof(2, 5, "pt", 2);
    assert_eq!(dal.get_recursion_tip_proof_job_id(L1BatchNumber(1)), Some(2));
}

#[test]
fn final_node_proofs_come_by_rising_circuit() {
    let mut dal = FriProverDal::new();
    for (seq, circuit) in [9u8, 3, 255, 3, 0].into_iter().enumerate() {
        dal.insert_prover_job(
            L1BatchNumber(1),
            circuit,
            0,
            seq,
            AggregationRound::NodeAggregation,
            "n",
            circuit != 9,
            v1(),
            1,
        );
    }
    for id in 1..=5 {
        dal.save_proof(id, 1, "p", 2);
    }
    dal.insert_prover_job(
        L1BatchNumber(1),
        1,
        0,
        9,
        AggregationRound::NodeAggregation,
        "n",
        true,
        v1(),
        1,
    );
    assert_eq!(
        dal.get_final_node_proof_job_ids_for(L1BatchNumber(1)),
        vec![(0, 5), (3, 2), (3, 4), (255, 3)]
    );
    assert!(dal.get_final_node_proof_job_ids_for(L1BatchNumber(2)).is_empty());
}

#[test]
fn jobs_of_a_batch_and_round_and_deletes() {
    let mut dal = sample();
    dal.insert_prover_job(
        L1BatchNumber(6),
        1,
        0,
        0,
        AggregationRound::BasicCircuits,
        "z",
        false,
        v1(),
        100,
    );
    let jobs = dal.get_prover_jobs_stats_for_batch(L1BatchNumber(5), AggregationRound::BasicCircuits);
    let ids: Vec<u32> = jobs.iter().map(|row| row.id).collect();
    assert_eq!(ids, vec![3, 4]);
    assert_eq!(jobs[0].circuit_blob_url, "blob-b");
    assert_eq!(dal.delete_batch_data(L1BatchNumber(5)), 6);
    assert_eq!(dal.jobs().len(), 1);
    assert_eq!(dal.jobs()[0].id, 7);
    assert_eq!(dal.delete_prover_jobs_fri_batch_data(L1BatchNumber(5)), 0);
    assert_eq!(dal.delete(), 1);
    assert!(dal.jobs().is_empty());
    assert_eq!(dal.delete_prover_jobs_fri(), 0);
    // Ids are not given out again.
    dal.insert_prover_job(
        L1BatchNumber(6),
        1,
        0,
        0,
        AggregationRound::BasicCircuits,
        "z",
        false,
        v1(),
        100,
    );
    assert_eq!(dal.jobs()[0].id, 8);
}

#[test]
fn aggregation_rounds_have_numbers() {
    assert_eq!(AggregationRound::BasicCircuits.as_u8(), 0);
    assert_eq!(AggregationRound::Scheduler.as_u8(), 4);
    assert_eq!(AggregationRound::from_i32(3), Some(AggregationRound::RecursionTip));
    assert_eq!(AggregationRound::from_i32(5), None);
    assert_eq!(AggregationRound::from_i32(-1), None);
}

#[test]
fn table_tells_its_next_id_and_room_for_attempts() {
    let mut dal = FriProverDal::new();
    assert_eq!(dal.next_id(), 1);
    assert!(dal.attempts_have_room());
    dal.insert_prover_jobs(
        L1BatchNumber(1),
        vec![(1, "a".to_string()), (1, "b".to_string())],
        AggregationRound::BasicCircuits,
        0,
        v1(),
        1,
    );
    assert_eq!(dal.next_id(), 3);
    // The same two jobs again: no id is given out.
    dal.insert_prover_jobs(
        L1BatchNumber(1),
        vec![(1, "a".to_string()), (1, "b".to_string())],
        AggregationRound::BasicCircuits,
        0,
        v1(),
        2,
    );
    assert_eq!(dal.next_id(), 3);
    dal.get_job(v1(), "w", 3);
    assert!(dal.attempts_have_room());
    assert!(dal.archived_jobs().is_empty());
}
