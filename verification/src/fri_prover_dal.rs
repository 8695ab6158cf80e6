//! The job queue: the table of proof jobs and the operations on it. Each
//! operation is one atomic step, so concurrent callers see them in some order.

use vstd::prelude::*;
use crate::basic_types::{
    AggregationRound, CircuitIdRoundTuple, CircuitProverStatsEntry, FriProverJobMetadata,
    JobCountStatistics, L1BatchNumber, ProtocolSemanticVersion, ProverJobStatus,
};
use crate::job_row::{
    copy_text, metadata_of, report_of, rows_of, JobRow, ProverJobFriInfo, StuckJobReport,
    StuckJobs,
};
use crate::queue_model::{
    archivable_rows, circuit_and_id, claimed, completed, exhausted_rows, failed,
    final_node_proofs_below, final_node_rows, fresh_row, index_of_id, index_of_key,
    is_exhausted_in, is_stuck, lasting_rows, lemma_index_of_id, lemma_index_of_key,
    lemma_insert_all_wf, lemma_insert_wf, proved_rows, requeued, requeued_by_hand, rows_of_round,
    rows_outside, same_key, stuck_rows, with_status, QueueState, ATTEMPTS_AFTER_MANUAL_REQUEUE,
};
use crate::queue_stats::{
    backlog_by_kind, backlog_by_version, earliest_unproved, is_backlog_by_kind,
    is_backlog_by_version, is_earliest_unproved,
};
use crate::selection::{find_first, find_first_of_kinds, JobFilter, JobOrder};
use crate::seq_steps::{
    lemma_filter_ends, lemma_filter_first, lemma_filter_map_step, lemma_filter_none,
    lemma_filter_step,
};

verus! {

/// The circuit ids and the characters of the urls in a list of new jobs.
pub open spec fn entries_of(entries: Seq<(u8, String)>) -> Seq<(u8, Seq<char>)> {
    Seq::new(entries.len(), |i: int| (entries[i].0, entries[i].1@))
}

/// The values that a list of reports stands for.
pub open spec fn reports_of(reports: Seq<StuckJobs>) -> Seq<StuckJobReport> {
    Seq::new(reports.len(), |i: int| reports[i]@)
}

/// The numbers of a list of batches.
pub open spec fn batch_numbers(batches: Seq<L1BatchNumber>) -> Seq<u32> {
    Seq::new(batches.len(), |i: int| batches[i].0)
}

/// Decides whether the batch is in the list.
pub fn lists_batch(batches: &[L1BatchNumber], batch: u32) -> (listed: bool)
    ensures
        listed == batch_numbers(batches@).contains(batch),
{
    let mut i: usize = 0;
    while i < batches.len()
        invariant
            0 <= i <= batches.len(),
            forall|j: int| 0 <= j < i ==> batch_numbers(batches@)[j] != batch,
        decreases batches.len() - i,
    {
        if batches[i].0 == batch {
            assert(batch_numbers(batches@)[i as int] == batch);
            return true;
        }
        i += 1;
    }
    false
}

/// The table of proof jobs. Rows are kept in the order in which they were
/// first inserted.
pub struct FriProverDal {
    rows: Vec<ProverJobFriInfo>,
    archive: Vec<ProverJobFriInfo>,
    next_id: u32,
}

impl View for FriProverDal {
    type V = QueueState;

    closed spec fn view(&self) -> QueueState {
        QueueState {
            rows: rows_of(self.rows@),
            archive: rows_of(self.archive@),
            next_id: self.next_id as nat,
        }
    }
}

impl FriProverDal {
    /// The table holds what a sequence of operations can have put there.
    pub open spec fn wf(&self) -> bool {
        &&& self@.wf()
        &&& self@.next_id <= u32::MAX
    }

    /// An empty table. The first row will get the id 1.
    pub fn new() -> (dal: FriProverDal)
        ensures
            dal.wf(),
            dal@ == (QueueState { rows: Seq::empty(), archive: Seq::empty(), next_id: 1 }),
    {
        let dal = FriProverDal { rows: Vec::new(), archive: Vec::new(), next_id: 1 };
        assert(dal@.rows =~= Seq::empty());
        assert(dal@.archive =~= Seq::empty());
        dal
    }

    /// The id that the next new row gets.
    pub fn next_id(&self) -> (id: u32)
        requires
            self.wf(),
        ensures
            id == self@.next_id,
    {
        self.next_id
    }

    /// Every job can be claimed once more without its count of attempts
    /// running over.
    pub fn attempts_have_room(&self) -> (room: bool)
        ensures
            room == forall|i: int|
                0 <= i < self@.rows.len() ==> (#[trigger] self@.rows[i]).attempts < u32::MAX,
    {
        let mut i: usize = 0;
        while i < self.rows.len()
            invariant
                0 <= i <= self.rows.len(),
                forall|j: int| 0 <= j < i ==> (#[trigger] self@.rows[j]).attempts < u32::MAX,
            decreases self.rows.len() - i,
        {
            if self.rows[i].attempts == u32::MAX {
                assert(self@.rows[i as int].attempts == u32::MAX);
                return false;
            }
            i += 1;
        }
        true
    }

    /// The rows of the table, in its order.
    pub fn jobs(&self) -> (rows: &Vec<ProverJobFriInfo>)
        ensures
            rows_of(rows@) == self@.rows,
    {
        &self.rows
    }

    /// The rows in cold storage, in the order in which they were moved.
    pub fn archived_jobs(&self) -> (rows: &Vec<ProverJobFriInfo>)
        ensures
            rows_of(rows@) == self@.archive,
    {
        &self.archive
    }

    /// Hands the worker the waiting job of the protocol version that comes
    /// first: earliest batch, then lowest level of the proof tree, then
    /// lowest circuit id, then lowest id. The job is then in progress, with
    /// one more attempt counted. `None` when no such job waits.
    pub fn get_job(
        &mut self,
        protocol_version: ProtocolSemanticVersion,
        picked_by: &str,
        now: u64,
    ) -> (job: Option<FriProverJobMetadata>)
        requires
            old(self).wf(),
            old(self)@.next_job(protocol_version) matches Some(i) ==> old(self)@.rows[i].attempts
                < u32::MAX,
        ensures
            final(self).wf(),
            final(self)@ == old(self)@.claim_at(
                old(self)@.next_job(protocol_version),
                picked_by@,
                now,
            ),
            job == match old(self)@.next_job(protocol_version) {
                Some(i) => Some(metadata_of(old(self)@.rows[i])),
                None => None,
            },
    {
        let filter = JobFilter { version: protocol_version, kind: None };
        let target = find_first(&self.rows, JobOrder::BatchRoundCircuit, filter);
        self.claim_row(target, picked_by, now)
    }

    /// The older claim, kept for workers that still use it: it ranks the
    /// level of the proof tree above the batch. Hands out the waiting job of
    /// the protocol version with the highest level, then the earliest batch,
    /// then the lowest id.
    pub fn get_next_job(
        &mut self,
        protocol_version: ProtocolSemanticVersion,
        picked_by: &str,
        now: u64,
    ) -> (job: Option<FriProverJobMetadata>)
        requires
            old(self).wf(),
            old(self)@.next_job_by_round(protocol_version) matches Some(i) ==> old(
                self,
            )@.rows[i].attempts < u32::MAX,
        ensures
            final(self).wf(),
            final(self)@ == old(self)@.claim_at(
                old(self)@.next_job_by_round(protocol_version),
                picked_by@,
                now,
            ),
            job == match old(self)@.next_job_by_round(protocol_version) {
                Some(i) => Some(metadata_of(old(self)@.rows[i])),
                None => None,
            },
    {
        let filter = JobFilter { version: protocol_version, kind: None };
        let target = find_first(&self.rows, JobOrder::RoundDescBatch, filter);
        self.claim_row(target, picked_by, now)
    }

    /// Hands the worker a waiting job of one of the given kinds. For each
    /// kind the waiting job with the earliest batch is a candidate; of the
    /// candidates the one with the earliest batch wins, then the level
    /// closest to the root of the proof tree, then the lowest id.
    pub fn get_next_job_for_circuit_id_round(
        &mut self,
        circuits_to_pick: &[CircuitIdRoundTuple],
        protocol_version: ProtocolSemanticVersion,
        picked_by: &str,
        now: u64,
    ) -> (job: Option<FriProverJobMetadata>)
        requires
            old(self).wf(),
            old(self)@.next_job_of_kinds(protocol_version, circuits_to_pick@) matches Some(i)
                ==> old(self)@.rows[i].attempts < u32::MAX,
        ensures
            final(self).wf(),
            final(self)@ == old(self)@.claim_at(
                old(self)@.next_job_of_kinds(protocol_version, circuits_to_pick@),
                picked_by@,
                now,
            ),
            job == match old(self)@.next_job_of_kinds(protocol_version, circuits_to_pick@) {
                Some(i) => Some(metadata_of(old(self)@.rows[i])),
                None => None,
            },
    {
        let target = find_first_of_kinds(&self.rows, protocol_version, circuits_to_pick);
        self.claim_row(target, picked_by, now)
    }

    /// The place of the row for the same piece of work.
    fn position_of_key(
        &self,
        l1_batch_number: L1BatchNumber,
        circuit_id: u8,
        depth: u16,
        sequence_number: usize,
        aggregation_round: AggregationRound,
        Ghost(key): Ghost<JobRow>,
    ) -> (found: Option<usize>)
        requires
            self.wf(),
            key.batch == l1_batch_number.0,
            key.circuit_id == circuit_id,
            key.depth == depth,
            key.sequence_number == sequence_number,
            key.round == aggregation_round,
        ensures
            index_of_key(self@.rows, key) == match found {
                Some(i) => Some(i as int),
                None => None,
            },
            found matches Some(i) ==> i < self.rows.len(),
    {
        let mut i: usize = 0;
        while i < self.rows.len()
            invariant
                self.wf(),
                0 <= i <= self.rows.len(),
                key.batch == l1_batch_number.0,
                key.circuit_id == circuit_id,
                key.depth == depth,
                key.sequence_number == sequence_number,
                key.round == aggregation_round,
                forall|j: int| 0 <= j < i ==> !same_key(#[trigger] self@.rows[j], key),
            decreases self.rows.len() - i,
        {
            let row = &self.rows[i];
            if row.l1_batch_number.0 == l1_batch_number.0 && row.aggregation_round.as_u8()
                == aggregation_round.as_u8() && row.circuit_id == circuit_id && row.depth == depth
                && row.sequence_number == sequence_number {
                proof {
                    assert(row@ == self@.rows[i as int]);
                    assert(same_key(self@.rows[i as int], key));
                    lemma_index_of_key(self@.rows, key, i as int);
                }
                return Some(i);
            }
            i += 1;
        }
        None
    }

    /// Puts one job into the table, waiting. If the table already has a row
    /// for the same batch, level, circuit, depth and sequence number, only
    /// that row's time of last change is set.
    pub fn insert_prover_job(
        &mut self,
        l1_batch_number: L1BatchNumber,
        circuit_id: u8,
        depth: u16,
        sequence_number: usize,
        aggregation_round: AggregationRound,
        circuit_blob_url: &str,
        is_node_final_proof: bool,
        protocol_version: ProtocolSemanticVersion,
        now: u64,
    )
        requires
            old(self).wf(),
            old(self)@.insert(
                fresh_row(
                    0,
                    l1_batch_number.0,
                    circuit_id,
                    depth,
                    sequence_number,
                    aggregation_round,
                    circuit_blob_url@,
                    is_node_final_proof,
                    protocol_version,
                    now,
                ),
            ).next_id <= u32::MAX,
        ensures
            final(self).wf(),
            final(self)@ == old(self)@.insert(
                fresh_row(
                    0,
                    l1_batch_number.0,
                    circuit_id,
                    depth,
                    sequence_number,
                    aggregation_round,
                    circuit_blob_url@,
                    is_node_final_proof,
                    protocol_version,
                    now,
                ),
            ),
    {
        let ghost before = self@;
        let ghost row = fresh_row(
            0,
            l1_batch_number.0,
            circuit_id,
            depth,
            sequence_number,
            aggregation_round,
            circuit_blob_url@,
            is_node_final_proof,
            protocol_version,
            now,
        );
        proof {
            lemma_insert_wf(before, row);
        }
        match self.position_of_key(
            l1_batch_number,
            circuit_id,
            depth,
            sequence_number,
            aggregation_round,
            Ghost(row),
        ) {
            Some(i) => {
                self.rows[i].updated_at = now;
                proof {
                    assert(self@.rows =~= before.rows.update(
                        i as int,
                        JobRow { updated_at: now, ..before.rows[i as int] },
                    ));
                }
            },
            None => {
                let added = ProverJobFriInfo {
                    id: self.next_id,
                    l1_batch_number,
                    circuit_id,
                    circuit_blob_url: circuit_blob_url.to_owned(),
                    aggregation_round,
                    sequence_number,
                    status: ProverJobStatus::Queued,
                    error: None,
                    attempts: 0,
                    processing_started_at: None,
                    created_at: now,
                    updated_at: now,
                    time_taken: None,
                    depth,
                    is_node_final_proof,
                    proof_blob_url: None,
                    protocol_version,
                    picked_by: None,
                };
                assert(added@ == JobRow { id: before.next_id, ..row });
                self.rows.push(added);
                self.next_id = self.next_id + 1;
                proof {
                    assert(self@.rows =~= before.rows.push(JobRow { id: before.next_id, ..row }));
                }
            },
        }
    }

    /// Puts the jobs of one batch and level into the table, one per entry
    /// of the list, numbered by their place in it.
    pub fn insert_prover_jobs(
        &mut self,
        l1_batch_number: L1BatchNumber,
        circuit_ids_and_urls: Vec<(u8, String)>,
        aggregation_round: AggregationRound,
        depth: u16,
        protocol_version_id: ProtocolSemanticVersion,
        now: u64,
    )
        requires
            old(self).wf(),
            old(self)@.insert_all(
                l1_batch_number.0,
                entries_of(circuit_ids_and_urls@),
                aggregation_round,
                depth,
                protocol_version_id,
                now,
            ).next_id <= u32::MAX,
        ensures
            final(self).wf(),
            final(self)@ == old(self)@.insert_all(
                l1_batch_number.0,
                entries_of(circuit_ids_and_urls@),
                aggregation_round,
                depth,
                protocol_version_id,
                now,
            ),
    {
        let ghost before = self@;
        let ghost entries = entries_of(circuit_ids_and_urls@);
        let mut i: usize = 0;
        assert(entries.take(0) =~= Seq::empty());
        while i < circuit_ids_and_urls.len()
            invariant
                0 <= i <= circuit_ids_and_urls.len(),
                before.wf(),
                self.wf(),
                entries == entries_of(circuit_ids_and_urls@),
                self@ == before.insert_all(
                    l1_batch_number.0,
                    entries.take(i as int),
                    aggregation_round,
                    depth,
                    protocol_version_id,
                    now,
                ),
                before.insert_all(
                    l1_batch_number.0,
                    entries,
                    aggregation_round,
                    depth,
                    protocol_version_id,
                    now,
                ).next_id <= u32::MAX,
            decreases circuit_ids_and_urls.len() - i,
        {
            proof {
                lemma_insert_all_wf(
                    before,
                    l1_batch_number.0,
                    entries,
                    aggregation_round,
                    depth,
                    protocol_version_id,
                    now,
                    i as int + 1,
                );
                assert(entries.take(i as int + 1).drop_last() =~= entries.take(i as int));
            }
            self.insert_prover_job(
                l1_batch_number,
                circuit_ids_and_urls[i].0,
                depth,
                i,
                aggregation_round,
                circuit_ids_and_urls[i].1.as_str(),
                false,
                protocol_version_id,
                now,
            );
            i += 1;
        }
        proof {
            assert(entries.take(i as int) =~= entries);
        }
    }

    /// The place of the row with the id.
    fn position_of(&self, id: u32) -> (found: Option<usize>)
        requires
            self.wf(),
        ensures
            index_of_id(self@.rows, id as nat) == match found {
                Some(i) => Some(i as int),
                None => None,
            },
            found matches Some(i) ==> i < self.rows.len() && self.rows[i as int].id == id,
    {
        let mut i: usize = 0;
        while i < self.rows.len()
            invariant
                self.wf(),
                0 <= i <= self.rows.len(),
                forall|j: int| 0 <= j < i ==> (#[trigger] self@.rows[j]).id != id,
            decreases self.rows.len() - i,
        {
            if self.rows[i].id == id {
                proof {
                    lemma_index_of_id(self@.rows, id as nat, i as int);
                }
                return Some(i);
            }
            i += 1;
        }
        None
    }

    /// Records that the job failed, with the error. A job that has
    /// succeeded stays successful, and an unknown id changes nothing.
    pub fn save_proof_error(&mut self, id: u32, error: String, now: u64)
        requires
            old(self).wf(),
        ensures
            final(self).wf(),
            final(self)@ == old(self)@.fail(id as nat, error@, now),
    {
        let ghost before = self@;
        match self.position_of(id) {
            None => {},
            Some(i) => {
                if self.rows[i].status != ProverJobStatus::Successful {
                    self.rows[i].status = ProverJobStatus::Failed;
                    self.rows[i].error = Some(error);
                    self.rows[i].updated_at = now;
                }
                proof {
                    assert(self@.rows =~= before.rows.update(
                        i as int,
                        failed(before.rows[i as int], error@, now),
                    ));
                }
            },
        }
    }

    /// How often the job was handed out, if there is a job with the id.
    pub fn get_prover_job_attempts(&self, id: u32) -> (attempts: Option<u32>)
        requires
            self.wf(),
        ensures
            match index_of_id(self@.rows, id as nat) {
                Some(i) => attempts matches Some(n) && n == self@.rows[i].attempts,
                None => attempts is None,
            },
    {
        match self.position_of(id) {
            None => None,
            Some(i) => Some(self.rows[i].attempts),
        }
    }

    /// Stores the proof of the job and marks it successful. A job that has
    /// succeeded already stays as it is. Returns what a worker is told of
    /// the job.
    pub fn save_proof(&mut self, id: u32, time_taken: u64, blob_url: &str, now: u64) -> (job:
        FriProverJobMetadata)
        requires
            old(self).wf(),
            index_of_id(old(self)@.rows, id as nat) is Some,
        ensures
            final(self).wf(),
            final(self)@ == old(self)@.complete(id as nat, blob_url@, time_taken, now),
            index_of_id(old(self)@.rows, id as nat) matches Some(i) && job == metadata_of(
                old(self)@.rows[i],
            ),
    {
        let ghost before = self@;
        let i = self.position_of(id).unwrap();
        if self.rows[i].status != ProverJobStatus::Successful {
            self.rows[i].status = ProverJobStatus::Successful;
            self.rows[i].updated_at = now;
            self.rows[i].time_taken = Some(time_taken);
            self.rows[i].proof_blob_url = Some(blob_url.to_owned());
        }
        proof {
            assert(self@.rows =~= before.rows.update(
                i as int,
                completed(before.rows[i as int], blob_url@, time_taken, now),
            ));
        }
        self.rows[i].metadata()
    }

    /// Sets the job's status by hand. A job that has succeeded stays
    /// successful, and an unknown id changes nothing.
    pub fn update_status(&mut self, id: u32, status: ProverJobStatus, now: u64)
        requires
            old(self).wf(),
        ensures
            final(self).wf(),
            final(self)@ == old(self)@.set_status(id as nat, status, now),
    {
        let ghost before = self@;
        match self.position_of(id) {
            None => {},
            Some(i) => {
                if self.rows[i].status != ProverJobStatus::Successful {
                    self.rows[i].status = status;
                    self.rows[i].updated_at = now;
                }
                proof {
                    assert(self@.rows =~= before.rows.update(
                        i as int,
                        with_status(before.rows[i as int], status, now),
                    ));
                }
            },
        }
    }

    /// Puts back into the queue every job that a worker has held since
    /// `processing_timeout` or longer and every failed job, as long as the
    /// job has had fewer than `max_attempts` attempts. Jobs that used up
    /// their attempts stay as they are. Returns a report of each job put
    /// back, with the status it had before.
    pub fn requeue_stuck_jobs(&mut self, processing_timeout: u64, max_attempts: u32, now: u64) -> (stuck:
        Vec<StuckJobs>)
        requires
            old(self).wf(),
        ensures
            final(self).wf(),
            final(self)@ == old(self)@.requeue_stuck(processing_timeout, max_attempts, now),
            reports_of(stuck@) == old(self)@.stuck_jobs(processing_timeout, max_attempts, now),
    {
        let ghost before = self@;
        let ghost pred = stuck_rows(processing_timeout, max_attempts, now);
        let ghost report = |row: JobRow| report_of(row);
        let mut stuck: Vec<StuckJobs> = Vec::new();
        let mut i: usize = 0;
        proof {
            lemma_filter_ends(before.rows, pred);
            assert(reports_of(stuck@) =~= before.rows.take(0).filter(pred).map_values(report));
        }
        while i < self.rows.len()
            invariant
                0 <= i <= self.rows.len(),
                self.rows.len() == before.rows.len(),
                self@.archive == before.archive,
                self@.next_id == before.next_id,
                pred == stuck_rows(processing_timeout, max_attempts, now),
                report == |row: JobRow| report_of(row),
                forall|j: int|
                    0 <= j < i ==> self@.rows[j] == if is_stuck(
                        #[trigger] before.rows[j],
                        processing_timeout,
                        max_attempts,
                        now,
                    ) {
                        requeued(before.rows[j], now)
                    } else {
                        before.rows[j]
                    },
                forall|j: int| i <= j < self.rows.len() ==> self@.rows[j] == #[trigger] before.rows[j],
                reports_of(stuck@) == before.rows.take(i as int).filter(pred).map_values(report),
            decreases self.rows.len() - i,
        {
            let row = &self.rows[i];
            let held = row.status == ProverJobStatus::InProgress || row.status
                == ProverJobStatus::InGpuProof;
            let timed_out = match row.processing_started_at {
                Some(started) => processing_timeout <= now && started <= now - processing_timeout,
                None => false,
            };
            let retry = row.attempts < max_attempts && ((held && timed_out) || row.status
                == ProverJobStatus::Failed);
            proof {
                assert(row@ == self@.rows[i as int]);
                assert(row@ == before.rows[i as int]);
                assert(retry == pred(before.rows[i as int]));
                lemma_filter_map_step(before.rows, pred, report, i as int);
            }
            if retry {
                let entry = row.report();
                stuck.push(entry);
                self.rows[i].status = ProverJobStatus::Queued;
                self.rows[i].updated_at = now;
                self.rows[i].processing_started_at = Some(now);
                proof {
                    assert(reports_of(stuck@) =~= before.rows.take(i as int).filter(
                        pred,
                    ).map_values(report).push(report(before.rows[i as int])));
                }
            }
            i += 1;
        }
        proof {
            lemma_filter_ends(before.rows, pred);
            assert(self@.rows =~= before.requeue_stuck(processing_timeout, max_attempts, now).rows);
        }
        stuck
    }

    /// Puts back into the queue, by hand, the jobs of one batch that are in
    /// progress or have failed and have used up `max_attempts` attempts,
    /// however long ago they were started. Each starts again with two
    /// attempts counted and a note in place of its error. Returns a report
    /// of each job put back, as it stands now.
    pub fn requeue_stuck_jobs_for_batch(
        &mut self,
        block_number: L1BatchNumber,
        max_attempts: u32,
        now: u64,
    ) -> (stuck: Vec<StuckJobs>)
        requires
            old(self).wf(),
        ensures
            final(self).wf(),
            final(self)@ == old(self)@.requeue_batch(block_number.0, max_attempts, now),
            reports_of(stuck@) == old(self)@.requeued_in_batch(block_number.0, max_attempts, now),
    {
        let ghost before = self@;
        let ghost pred = exhausted_rows(block_number.0, max_attempts);
        let ghost report = |row: JobRow| report_of(requeued_by_hand(row, now));
        let mut stuck: Vec<StuckJobs> = Vec::new();
        let mut i: usize = 0;
        proof {
            lemma_filter_ends(before.rows, pred);
            assert(reports_of(stuck@) =~= before.rows.take(0).filter(pred).map_values(report));
        }
        while i < self.rows.len()
            invariant
                0 <= i <= self.rows.len(),
                self.rows.len() == before.rows.len(),
                self@.archive == before.archive,
                self@.next_id == before.next_id,
                pred == exhausted_rows(block_number.0, max_attempts),
                report == |row: JobRow| report_of(requeued_by_hand(row, now)),
                forall|j: int|
                    0 <= j < i ==> self@.rows[j] == if is_exhausted_in(
                        #[trigger] before.rows[j],
                        block_number.0,
                        max_attempts,
                    ) {
                        requeued_by_hand(before.rows[j], now)
                    } else {
                        before.rows[j]
                    },
                forall|j: int| i <= j < self.rows.len() ==> self@.rows[j] == #[trigger] before.rows[j],
                reports_of(stuck@) == before.rows.take(i as int).filter(pred).map_values(report),
            decreases self.rows.len() - i,
        {
            let row = &self.rows[i];
            let retry = row.l1_batch_number.0 == block_number.0 && row.attempts >= max_attempts && (
            row.status == ProverJobStatus::InProgress || row.status == ProverJobStatus::Failed);
            proof {
                assert(row@ == self@.rows[i as int]);
                assert(row@ == before.rows[i as int]);
                assert(retry == pred(before.rows[i as int]));
                lemma_filter_map_step(before.rows, pred, report, i as int);
            }
            if retry {
                self.rows[i].status = ProverJobStatus::Queued;
                self.rows[i].error = Some("Manually requeued".to_owned());
                self.rows[i].attempts = ATTEMPTS_AFTER_MANUAL_REQUEUE;
                self.rows[i].updated_at = now;
                self.rows[i].processing_started_at = Some(now);
                let entry = self.rows[i].report();
                stuck.push(entry);
                proof {
                    assert(self@.rows[i as int] == requeued_by_hand(before.rows[i as int], now));
                    assert(reports_of(stuck@) =~= before.rows.take(i as int).filter(
                        pred,
                    ).map_values(report).push(report(before.rows[i as int])));
                }
            }
            i += 1;
        }
        proof {
            lemma_filter_ends(before.rows, pred);
            assert(self@.rows =~= before.requeue_batch(block_number.0, max_attempts, now).rows);
        }
        stuck
    }

    /// Moves into cold storage the successful jobs that were last changed
    /// longer ago than `archiving_interval` and whose batch is listed in
    /// `sent_to_server`, the batches that the next stage has taken over.
    /// No other row leaves the table. Returns how many rows were moved.
    pub fn archive_old_jobs(
        &mut self,
        archiving_interval: u64,
        now: u64,
        sent_to_server: &[L1BatchNumber],
    ) -> (moved: usize)
        requires
            old(self).wf(),
        ensures
            final(self).wf(),
            final(self)@ == old(self)@.archive_old(
                archiving_interval,
                now,
                batch_numbers(sent_to_server@),
            ),
            moved == final(self)@.archive.len() - old(self)@.archive.len(),
            moved == old(self)@.rows.len() - final(self)@.rows.len(),
            forall|i: int|
                0 <= i < old(self)@.rows.len() && !batch_numbers(sent_to_server@).contains(
                    (#[trigger] old(self)@.rows[i]).batch,
                ) ==> final(self)@.rows.contains(old(self)@.rows[i]),
    {
        let ghost before = self@;
        let ghost consumed = batch_numbers(sent_to_server@);
        let ghost leaves = archivable_rows(archiving_interval, now, consumed);
        let ghost stays = lasting_rows(archiving_interval, now, consumed);
        let ghost mut origin: Seq<int> = Seq::empty();
        let mut kept: Vec<ProverJobFriInfo> = Vec::new();
        let mut moved: usize = 0;
        let mut i: usize = 0;
        proof {
            lemma_filter_ends(before.rows, leaves);
            lemma_filter_ends(before.rows, stays);
            assert(rows_of(kept@) =~= before.rows.take(0).filter(stays));
            assert(self@.archive =~= before.archive + before.rows.take(0).filter(leaves));
        }
        while i < self.rows.len()
            invariant
                0 <= i <= self.rows.len(),
                before.wf(),
                self@.rows == before.rows,
                self@.next_id == before.next_id,
                consumed == batch_numbers(sent_to_server@),
                leaves == archivable_rows(archiving_interval, now, consumed),
                stays == lasting_rows(archiving_interval, now, consumed),
                rows_of(kept@) == before.rows.take(i as int).filter(stays),
                self@.archive == before.archive + before.rows.take(i as int).filter(leaves),
                moved + kept.len() == i,
                self@.archive.len() == before.archive.len() + moved,
                origin.len() == kept.len(),
                forall|k: int|
                    0 <= k < origin.len() ==> 0 <= #[trigger] origin[k] < i && rows_of(kept@)[k]
                        == before.rows[origin[k]],
                forall|a: int, b: int|
                    0 <= a < b < origin.len() ==> #[trigger] origin[a] < #[trigger] origin[b],
                forall|j: int|
                    0 <= j < i && !consumed.contains((#[trigger] before.rows[j]).batch)
                        ==> rows_of(kept@).contains(before.rows[j]),
            decreases self.rows.len() - i,
        {
            let row = &self.rows[i];
            let aged = archiving_interval < now && row.updated_at < now - archiving_interval;
            let goes = row.status == ProverJobStatus::Successful && aged && lists_batch(
                sent_to_server,
                row.l1_batch_number.0,
            );
            proof {
                assert(row@ == before.rows[i as int]);
                assert(goes == leaves(before.rows[i as int]));
                assert(goes == !stays(before.rows[i as int]));
                lemma_filter_step(before.rows, leaves, i as int);
                lemma_filter_step(before.rows, stays, i as int);
            }
            let copy = row.duplicate();
            let ghost kept_before = rows_of(kept@);
            let ghost archive_before = self@.archive;
            if goes {
                self.archive.push(copy);
                moved += 1;
                proof {
                    assert(self@.archive =~= archive_before.push(before.rows[i as int]));
                    assert(self@.archive =~= before.archive + before.rows.take(i as int).filter(
                        leaves,
                    ).push(before.rows[i as int]));
                }
            } else {
                kept.push(copy);
                proof {
                    origin = origin.push(i as int);
                    assert(rows_of(kept@) =~= kept_before.push(before.rows[i as int]));
                    assert(rows_of(kept@)[kept.len() - 1] == before.rows[i as int]);
                    assert forall|j: int|
                        0 <= j < i + 1 && !consumed.contains(
                            (#[trigger] before.rows[j]).batch,
                        ) implies rows_of(kept@).contains(before.rows[j]) by {
                        if j < i {
                            let k = choose|k: int|
                                0 <= k < kept_before.len() && kept_before[k] == before.rows[j];
                            assert(rows_of(kept@)[k] == before.rows[j]);
                        }
                    }
                }
            }
            i += 1;
        }
        proof {
            lemma_filter_ends(before.rows, leaves);
            lemma_filter_ends(before.rows, stays);
            let lasting = rows_of(kept@);
            assert forall|a: int, b: int|
                0 <= a < lasting.len() && 0 <= b < lasting.len() && a != b implies (
            #[trigger] lasting[a]).id != (#[trigger] lasting[b]).id && !same_key(
                lasting[a],
                lasting[b],
            ) by {
                assert(lasting[a] == before.rows[origin[a]]);
                assert(lasting[b] == before.rows[origin[b]]);
                if a < b {
                    assert(origin[a] < origin[b]);
                } else {
                    assert(origin[b] < origin[a]);
                }
            }
            assert forall|a: int| 0 <= a < lasting.len() implies (#[trigger] lasting[a]).id
                < before.next_id by {
                assert(lasting[a] == before.rows[origin[a]]);
            }
        }
        self.rows = kept;
        moved
    }

    /// The id of the first successful job of the batch at the level.
    fn proof_job_id(&self, l1_batch_number: L1BatchNumber, round: AggregationRound) -> (id: Option<
        u32,
    >)
        requires
            self.wf(),
        ensures
            id == self@.proof_job_id(l1_batch_number.0, round),
    {
        let ghost pred = proved_rows(l1_batch_number.0, round);
        let mut i: usize = 0;
        while i < self.rows.len()
            invariant
                0 <= i <= self.rows.len(),
                pred == proved_rows(l1_batch_number.0, round),
                forall|j: int| 0 <= j < i ==> !pred(#[trigger] self@.rows[j]),
            decreases self.rows.len() - i,
        {
            let row = &self.rows[i];
            if row.l1_batch_number.0 == l1_batch_number.0 && row.status
                == ProverJobStatus::Successful && row.aggregation_round.as_u8() == round.as_u8() {
                proof {
                    assert(row@ == self@.rows[i as int]);
                    assert(pred(self@.rows[i as int]));
                    lemma_filter_first(self@.rows, pred, i as int);
                }
                return Some(row.id);
            }
            assert(!pred(self@.rows[i as int])) by {
                assert(row@ == self@.rows[i as int]);
            }
            i += 1;
        }
        proof {
            lemma_filter_none(self@.rows, pred);
        }
        None
    }

    /// The id of the batch's scheduler proof, once that job has succeeded.
    pub fn get_scheduler_proof_job_id(&self, l1_batch_number: L1BatchNumber) -> (id: Option<u32>)
        requires
            self.wf(),
        ensures
            id == self@.proof_job_id(l1_batch_number.0, AggregationRound::Scheduler),
    {
        self.proof_job_id(l1_batch_number, AggregationRound::Scheduler)
    }

    /// The id of the batch's recursion tip proof, once that job has succeeded.
    pub fn get_recursion_tip_proof_job_id(&self, l1_batch_number: L1BatchNumber) -> (id: Option<
        u32,
    >)
        requires
            self.wf(),
        ensures
            id == self@.proof_job_id(l1_batch_number.0, AggregationRound::RecursionTip),
    {
        self.proof_job_id(l1_batch_number, AggregationRound::RecursionTip)
    }

    /// Circuit id and job id of each successful job of the batch that
    /// closes a node's proof, by rising circuit id; jobs of one circuit
    /// come in the order of the table.
    pub fn get_final_node_proof_job_ids_for(&self, l1_batch_number: L1BatchNumber) -> (ids: Vec<
        (u8, u32),
    >)
        requires
            self.wf(),
        ensures
            ids@ == self@.final_node_proofs(l1_batch_number.0),
    {
        let ghost rows = self@.rows;
        let ghost pair = |row: JobRow| circuit_and_id(row);
        let mut ids: Vec<(u8, u32)> = Vec::new();
        let mut circuit: u16 = 0;
        assert(ids@ =~= final_node_proofs_below(rows, l1_batch_number.0, 0));
        while circuit < 256
            invariant
                0 <= circuit <= 256,
                rows == self@.rows,
                pair == |row: JobRow| circuit_and_id(row),
                ids@ == final_node_proofs_below(rows, l1_batch_number.0, circuit as int),
            decreases 256 - circuit,
        {
            let ghost pred = final_node_rows(l1_batch_number.0, circuit as u8);
            let ghost done = ids@;
            let mut i: usize = 0;
            proof {
                lemma_filter_ends(rows, pred);
                assert(ids@ =~= done + rows.take(0).filter(pred).map_values(pair));
            }
            while i < self.rows.len()
                invariant
                    0 <= i <= self.rows.len(),
                    0 <= circuit < 256,
                    rows == self@.rows,
                    pair == |row: JobRow| circuit_and_id(row),
                    pred == final_node_rows(l1_batch_number.0, circuit as u8),
                    ids@ == done + rows.take(i as int).filter(pred).map_values(pair),
                decreases self.rows.len() - i,
            {
                let row = &self.rows[i];
                proof {
                    assert(row@ == rows[i as int]);
                    lemma_filter_map_step(rows, pred, pair, i as int);
                }
                if row.l1_batch_number.0 == l1_batch_number.0 && row.is_node_final_proof
                    && row.status == ProverJobStatus::Successful && row.circuit_id as u16
                    == circuit {
                    ids.push((row.circuit_id, row.id));
                    proof {
                        assert(ids@ =~= done + rows.take(i as int).filter(pred).map_values(
                            pair,
                        ).push(pair(rows[i as int])));
                    }
                }
                i += 1;
            }
            proof {
                lemma_filter_ends(rows, pred);
            }
            circuit += 1;
        }
        ids
    }

    /// Every job of the batch at the level, in the order of the table.
    pub fn get_prover_jobs_stats_for_batch(
        &self,
        l1_batch_number: L1BatchNumber,
        aggregation_round: AggregationRound,
    ) -> (jobs: Vec<ProverJobFriInfo>)
        requires
            self.wf(),
        ensures
            rows_of(jobs@) == self@.rows.filter(
                rows_of_round(l1_batch_number.0, aggregation_round),
            ),
    {
        let ghost rows = self@.rows;
        let ghost pred = rows_of_round(l1_batch_number.0, aggregation_round);
        let mut jobs: Vec<ProverJobFriInfo> = Vec::new();
        let mut i: usize = 0;
        proof {
            lemma_filter_ends(rows, pred);
            assert(rows_of(jobs@) =~= rows.take(0).filter(pred));
        }
        while i < self.rows.len()
            invariant
                0 <= i <= self.rows.len(),
                rows == self@.rows,
                pred == rows_of_round(l1_batch_number.0, aggregation_round),
                rows_of(jobs@) == rows.take(i as int).filter(pred),
            decreases self.rows.len() - i,
        {
            let row = &self.rows[i];
            proof {
                assert(row@ == rows[i as int]);
                lemma_filter_step(rows, pred, i as int);
            }
            if row.l1_batch_number.0 == l1_batch_number.0 && row.aggregation_round.as_u8()
                == aggregation_round.as_u8() {
                let ghost listed = rows_of(jobs@);
                jobs.push(row.duplicate());
                proof {
                    assert(rows_of(jobs@) =~= listed.push(rows[i as int]));
                }
            }
            i += 1;
        }
        proof {
            lemma_filter_ends(rows, pred);
        }
        jobs
    }

    /// Removes every job of the batch. Returns how many rows were removed.
    pub fn delete_prover_jobs_fri_batch_data(&mut self, l1_batch_number: L1BatchNumber) -> (removed:
        u64)
        requires
            old(self).wf(),
        ensures
            final(self).wf(),
            final(self)@ == old(self)@.without_batch(l1_batch_number.0),
            removed == old(self)@.rows.len() - final(self)@.rows.len(),
    {
        let ghost before = self@;
        let ghost stays = rows_outside(l1_batch_number.0);
        let ghost mut origin: Seq<int> = Seq::empty();
        let mut kept: Vec<ProverJobFriInfo> = Vec::new();
        let mut removed: u64 = 0;
        let mut i: usize = 0;
        proof {
            lemma_filter_ends(before.rows, stays);
            assert(rows_of(kept@) =~= before.rows.take(0).filter(stays));
        }
        while i < self.rows.len()
            invariant
                0 <= i <= self.rows.len(),
                before.wf(),
                self@ == before,
                stays == rows_outside(l1_batch_number.0),
                rows_of(kept@) == before.rows.take(i as int).filter(stays),
                removed + kept.len() == i,
                origin.len() == kept.len(),
                forall|k: int|
                    0 <= k < origin.len() ==> 0 <= #[trigger] origin[k] < i && rows_of(kept@)[k]
                        == before.rows[origin[k]],
                forall|a: int, b: int|
                    0 <= a < b < origin.len() ==> #[trigger] origin[a] < #[trigger] origin[b],
            decreases self.rows.len() - i,
        {
            let row = &self.rows[i];
            proof {
                assert(row@ == before.rows[i as int]);
                lemma_filter_step(before.rows, stays, i as int);
            }
            if row.l1_batch_number.0 != l1_batch_number.0 {
                let ghost kept_before = rows_of(kept@);
                kept.push(row.duplicate());
                proof {
                    origin = origin.push(i as int);
                    assert(rows_of(kept@) =~= kept_before.push(before.rows[i as int]));
                }
            } else {
                removed += 1;
            }
            i += 1;
        }
        proof {
            lemma_filter_ends(before.rows, stays);
            let lasting = rows_of(kept@);
            assert forall|a: int, b: int|
                0 <= a < lasting.len() && 0 <= b < lasting.len() && a != b implies (
            #[trigger] lasting[a]).id != (#[trigger] lasting[b]).id && !same_key(
                lasting[a],
                lasting[b],
            ) by {
                assert(lasting[a] == before.rows[origin[a]]);
                assert(lasting[b] == before.rows[origin[b]]);
                if a < b {
                    assert(origin[a] < origin[b]);
                } else {
                    assert(origin[b] < origin[a]);
                }
            }
            assert forall|a: int| 0 <= a < lasting.len() implies (#[trigger] lasting[a]).id
                < before.next_id by {
                assert(lasting[a] == before.rows[origin[a]]);
            }
        }
        self.rows = kept;
        removed
    }

    /// Removes every job of the batch. Returns how many rows were removed.
    pub fn delete_batch_data(&mut self, l1_batch_number: L1BatchNumber) -> (removed: u64)
        requires
            old(self).wf(),
        ensures
            final(self).wf(),
            final(self)@ == old(self)@.without_batch(l1_batch_number.0),
            removed == old(self)@.rows.len() - final(self)@.rows.len(),
    {
        self.delete_prover_jobs_fri_batch_data(l1_batch_number)
    }

    /// Removes every job. Returns how many rows were removed.
    pub fn delete_prover_jobs_fri(&mut self) -> (removed: u64)
        requires
            old(self).wf(),
        ensures
            final(self).wf(),
            final(self)@ == old(self)@.without_jobs(),
            removed == old(self)@.rows.len(),
    {
        let removed = self.rows.len() as u64;
        self.rows.clear();
        proof {
            assert(self@.rows =~= Seq::empty());
        }
        removed
    }

    /// Removes every job. Returns how many rows were removed.
    pub fn delete(&mut self) -> (removed: u64)
        requires
            old(self).wf(),
        ensures
            final(self).wf(),
            final(self)@ == old(self)@.without_jobs(),
            removed == old(self)@.rows.len(),
    {
        self.delete_prover_jobs_fri()
    }

    /// The backlog by kind of job and protocol version: for each circuit,
    /// level and version with waiting jobs or jobs in progress, how many
    /// there are of each. Groups come in no particular order.
    pub fn get_prover_jobs_stats(&self) -> (stats: Vec<CircuitProverStatsEntry>)
        requires
            self.wf(),
        ensures
            is_backlog_by_kind(self@.rows, stats@),
    {
        backlog_by_kind(&self.rows)
    }

    /// The backlog by protocol version: for each version with waiting jobs
    /// or jobs in progress, how many there are of each. Versions come in no
    /// particular order.
    pub fn get_generic_prover_jobs_stats(&self) -> (stats: Vec<
        (ProtocolSemanticVersion, JobCountStatistics),
    >)
        requires
            self.wf(),
        ensures
            is_backlog_by_version(self@.rows, stats@),
    {
        backlog_by_version(&self.rows)
    }

    /// For each circuit and level with a job that has not succeeded, the
    /// earliest batch of such a job. Kinds come in no particular order.
    pub fn min_unproved_l1_batch_number(&self) -> (batches: Vec<((u8, u8), L1BatchNumber)>)
        requires
            self.wf(),
        ensures
            is_earliest_unproved(self@.rows, batches@),
    {
        earliest_unproved(&self.rows)
    }

    /// Marks the row at `target` as claimed by the worker and returns what
    /// the worker is told of it.
    fn claim_row(&mut self, target: Option<usize>, picked_by: &str, now: u64) -> (job: Option<
        FriProverJobMetadata,
    >)
        requires
            old(self).wf(),
            target matches Some(i) ==> i < old(self)@.rows.len() && old(self)@.rows[i as int].attempts
                < u32::MAX,
        ensures
            final(self).wf(),
            final(self)@ == old(self)@.claim_at(
                match target {
                    Some(i) => Some(i as int),
                    None => None,
                },
                picked_by@,
                now,
            ),
            job == match target {
                Some(i) => Some(metadata_of(old(self)@.rows[i as int])),
                None => None,
            },
    {
        match target {
            None => None,
            Some(i) => {
                let ghost before = self@;
                let meta = self.rows[i].metadata();
                let row = &self.rows[i];
                let taken = ProverJobFriInfo {
                    id: row.id,
                    l1_batch_number: row.l1_batch_number,
                    circuit_id: row.circuit_id,
                    circuit_blob_url: row.circuit_blob_url.clone(),
                    aggregation_round: row.aggregation_round,
                    sequence_number: row.sequence_number,
                    status: ProverJobStatus::InProgress,
                    error: copy_text(&row.error),
                    attempts: row.attempts + 1,
                    processing_started_at: Some(now),
                    created_at: row.created_at,
                    updated_at: now,
                    time_taken: row.time_taken,
                    depth: row.depth,
                    is_node_final_proof: row.is_node_final_proof,
                    proof_blob_url: copy_text(&row.proof_blob_url),
                    protocol_version: row.protocol_version,
                    picked_by: Some(picked_by.to_owned()),
                };
                assert(taken@ == claimed(before.rows[i as int], picked_by@, now));
                self.rows.set(i, taken);
                proof {
                    assert(self@.rows =~= before.rows.update(
                        i as int,
                        claimed(before.rows[i as int], picked_by@, now),
                    ));
                }
                Some(meta)
            },
        }
    }
}

} // verus!
