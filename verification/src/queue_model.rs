//! The job table as a mathematical value, and what each operation makes of it.

use vstd::prelude::*;
use crate::basic_types::{
    AggregationRound, CircuitIdRoundTuple, ProtocolSemanticVersion, ProverJobStatus,
};
use crate::job_row::{report_of, JobRow, StuckJobReport};
use crate::selection::{any_kind, distinct_ids, first_of, first_of_kinds, JobOrder};

verus! {

/// The job table, the cold storage that archived rows move to, and the id
/// that the next new row gets.
pub struct QueueState {
    pub rows: Seq<JobRow>,
    pub archive: Seq<JobRow>,
    pub next_id: nat,
}

/// Two rows describe the same piece of work.
pub open spec fn same_key(a: JobRow, b: JobRow) -> bool {
    &&& a.batch == b.batch
    &&& a.round == b.round
    &&& a.circuit_id == b.circuit_id
    &&& a.depth == b.depth
    &&& a.sequence_number == b.sequence_number
}

/// No two rows describe the same piece of work.
pub open spec fn distinct_keys(rows: Seq<JobRow>) -> bool {
    forall|i: int, j: int|
        0 <= i < rows.len() && 0 <= j < rows.len() && i != j ==> !same_key(
            #[trigger] rows[i],
            #[trigger] rows[j],
        )
}

/// The row as a claim leaves it: held by the worker, one more attempt made.
pub open spec fn claimed(row: JobRow, worker: Seq<char>, now: u64) -> JobRow {
    JobRow {
        status: ProverJobStatus::InProgress,
        attempts: row.attempts + 1,
        updated_at: now,
        processing_started_at: Some(now),
        picked_by: Some(worker),
        ..row
    }
}

/// The row as a failure report leaves it; a successful row stays as it is.
pub open spec fn failed(row: JobRow, error: Seq<char>, now: u64) -> JobRow {
    if row.status == ProverJobStatus::Successful {
        row
    } else {
        JobRow { status: ProverJobStatus::Failed, error: Some(error), updated_at: now, ..row }
    }
}

/// The row as a stored proof leaves it; a successful row stays as it is.
pub open spec fn completed(row: JobRow, blob_url: Seq<char>, time_taken: u64, now: u64) -> JobRow {
    if row.status == ProverJobStatus::Successful {
        row
    } else {
        JobRow {
            status: ProverJobStatus::Successful,
            updated_at: now,
            time_taken: Some(time_taken),
            proof_blob_url: Some(blob_url),
            ..row
        }
    }
}

/// The row with its status set by hand; a successful row stays as it is.
pub open spec fn with_status(row: JobRow, status: ProverJobStatus, now: u64) -> JobRow {
    if row.status == ProverJobStatus::Successful {
        row
    } else {
        JobRow { status, updated_at: now, ..row }
    }
}

/// A row as it is first inserted: waiting, never attempted.
pub open spec fn fresh_row(
    id: nat,
    batch: u32,
    circuit_id: u8,
    depth: u16,
    sequence_number: usize,
    round: AggregationRound,
    circuit_blob_url: Seq<char>,
    is_node_final_proof: bool,
    protocol_version: ProtocolSemanticVersion,
    now: u64,
) -> JobRow {
    JobRow {
        id,
        batch,
        circuit_id,
        circuit_blob_url,
        round,
        sequence_number,
        status: ProverJobStatus::Queued,
        error: None,
        attempts: 0,
        processing_started_at: None,
        created_at: now,
        updated_at: now,
        time_taken: None,
        depth,
        is_node_final_proof,
        proof_blob_url: None,
        protocol_version,
        picked_by: None,
    }
}

/// The index of the row with the given id, if there is one.
pub open spec fn index_of_id(rows: Seq<JobRow>, id: nat) -> Option<int> {
    if exists|i: int| 0 <= i < rows.len() && (#[trigger] rows[i]).id == id {
        Some(choose|i: int| 0 <= i < rows.len() && (#[trigger] rows[i]).id == id)
    } else {
        None
    }
}

/// The index of the row for the same piece of work, if there is one.
pub open spec fn index_of_key(rows: Seq<JobRow>, key: JobRow) -> Option<int> {
    if exists|i: int| 0 <= i < rows.len() && same_key(#[trigger] rows[i], key) {
        Some(choose|i: int| 0 <= i < rows.len() && same_key(#[trigger] rows[i], key))
    } else {
        None
    }
}

/// With unique ids, a row with the id is the one `index_of_id` names.
pub proof fn lemma_index_of_id(rows: Seq<JobRow>, id: nat, i: int)
    requires
        distinct_ids(rows),
        0 <= i < rows.len(),
        rows[i].id == id,
    ensures
        index_of_id(rows, id) == Some(i),
{
}

/// With unique keys, a row for the piece of work is the one `index_of_key` names.
pub proof fn lemma_index_of_key(rows: Seq<JobRow>, key: JobRow, i: int)
    requires
        distinct_keys(rows),
        0 <= i < rows.len(),
        same_key(rows[i], key),
    ensures
        index_of_key(rows, key) == Some(i),
{
    let chosen = choose|k: int| 0 <= k < rows.len() && same_key(#[trigger] rows[k], key);
    if chosen != i {
        assert(same_key(rows[chosen], rows[i]));
    }
}

/// The job was abandoned or has failed, and may still be tried again: a
/// worker has held it since `timeout` or longer, or it has failed, and in
/// both cases fewer than `max_attempts` attempts were made.
pub open spec fn is_stuck(row: JobRow, timeout: u64, max_attempts: u32, now: u64) -> bool {
    ||| {
        &&& row.status.is_held()
        &&& row.processing_started_at matches Some(started) && started + timeout <= now
        &&& row.attempts < max_attempts
    }
    ||| row.status == ProverJobStatus::Failed && row.attempts < max_attempts
}

/// `is_stuck` as a predicate on rows.
pub open spec fn stuck_rows(timeout: u64, max_attempts: u32, now: u64) -> spec_fn(JobRow) -> bool {
    |row: JobRow| is_stuck(row, timeout, max_attempts, now)
}

/// The row put back into the queue.
pub open spec fn requeued(row: JobRow, now: u64) -> JobRow {
    JobRow {
        status: ProverJobStatus::Queued,
        updated_at: now,
        processing_started_at: Some(now),
        ..row
    }
}

/// The job belongs to the batch, is in progress or has failed, and has
/// used up its attempts.
pub open spec fn is_exhausted_in(row: JobRow, batch: u32, max_attempts: u32) -> bool {
    &&& row.batch == batch
    &&& row.attempts >= max_attempts
    &&& (row.status == ProverJobStatus::InProgress || row.status == ProverJobStatus::Failed)
}

/// `is_exhausted_in` as a predicate on rows.
pub open spec fn exhausted_rows(batch: u32, max_attempts: u32) -> spec_fn(JobRow) -> bool {
    |row: JobRow| is_exhausted_in(row, batch, max_attempts)
}

/// The attempts that a job put back by hand starts with.
pub const ATTEMPTS_AFTER_MANUAL_REQUEUE: u32 = 2;

/// The text that a job put back by hand carries as its error.
pub open spec fn manual_requeue_note() -> Seq<char> {
    "Manually requeued"@
}

/// The row put back into the queue by hand.
pub open spec fn requeued_by_hand(row: JobRow, now: u64) -> JobRow {
    JobRow {
        status: ProverJobStatus::Queued,
        error: Some(manual_requeue_note()),
        attempts: ATTEMPTS_AFTER_MANUAL_REQUEUE as nat,
        updated_at: now,
        processing_started_at: Some(now),
        ..row
    }
}

/// The job is done, was last changed longer ago than `interval`, and the
/// stage that consumes its batch has recorded that it did so.
pub open spec fn is_archivable(row: JobRow, interval: u64, now: u64, consumed: Seq<u32>) -> bool {
    &&& row.status == ProverJobStatus::Successful
    &&& row.updated_at + interval < now
    &&& consumed.contains(row.batch)
}

/// `is_archivable` as a predicate on rows.
pub open spec fn archivable_rows(interval: u64, now: u64, consumed: Seq<u32>) -> spec_fn(
    JobRow,
) -> bool {
    |row: JobRow| is_archivable(row, interval, now, consumed)
}

/// The rows that stay when the archivable ones leave.
pub open spec fn lasting_rows(interval: u64, now: u64, consumed: Seq<u32>) -> spec_fn(
    JobRow,
) -> bool {
    |row: JobRow| !is_archivable(row, interval, now, consumed)
}

/// The successful jobs of a batch at one level of the proof tree.
pub open spec fn proved_rows(batch: u32, round: AggregationRound) -> spec_fn(JobRow) -> bool {
    |row: JobRow|
        row.batch == batch && row.status == ProverJobStatus::Successful && row.round == round
}

/// The successful jobs of a batch and circuit that close a node's proof.
pub open spec fn final_node_rows(batch: u32, circuit_id: u8) -> spec_fn(JobRow) -> bool {
    |row: JobRow|
        row.batch == batch && row.is_node_final_proof && row.status
            == ProverJobStatus::Successful && row.circuit_id == circuit_id
}

/// The jobs of a batch at one level of the proof tree.
pub open spec fn rows_of_round(batch: u32, round: AggregationRound) -> spec_fn(JobRow) -> bool {
    |row: JobRow| row.batch == batch && row.round == round
}

/// The jobs of all batches but one.
pub open spec fn rows_outside(batch: u32) -> spec_fn(JobRow) -> bool {
    |row: JobRow| row.batch != batch
}

/// The circuit and id of a row.
pub open spec fn circuit_and_id(row: JobRow) -> (u8, u32) {
    (row.circuit_id, row.id as u32)
}

/// The final node proofs of a batch for the circuits below `bound`:
/// circuit by circuit in rising order, each circuit's rows in the order
/// of the table.
pub open spec fn final_node_proofs_below(rows: Seq<JobRow>, batch: u32, bound: int) -> Seq<
    (u8, u32),
>
    decreases bound,
{
    if bound <= 0 {
        Seq::empty()
    } else {
        final_node_proofs_below(rows, batch, bound - 1) + rows.filter(
            final_node_rows(batch, (bound - 1) as u8),
        ).map_values(|row: JobRow| circuit_and_id(row))
    }
}

impl QueueState {
    /// Ids and keys are unique, and every id was given out by this table.
    pub open spec fn wf(self) -> bool {
        &&& distinct_ids(self.rows)
        &&& distinct_keys(self.rows)
        &&& forall|i: int| 0 <= i < self.rows.len() ==> (#[trigger] self.rows[i]).id < self.next_id
    }

    /// The table after the row at `target`, if any, was claimed by the worker.
    pub open spec fn claim_at(self, target: Option<int>, worker: Seq<char>, now: u64) -> QueueState {
        match target {
            Some(i) => QueueState {
                rows: self.rows.update(i, claimed(self.rows[i], worker, now)),
                ..self
            },
            None => self,
        }
    }

    /// The row that an unrestricted claim for the protocol version takes.
    pub open spec fn next_job(self, version: ProtocolSemanticVersion) -> Option<int> {
        first_of(self.rows, JobOrder::BatchRoundCircuit, any_kind(version))
    }

    /// The row that the older unrestricted claim takes: it ranks the level
    /// of the proof tree above the batch.
    pub open spec fn next_job_by_round(self, version: ProtocolSemanticVersion) -> Option<int> {
        first_of(self.rows, JobOrder::RoundDescBatch, any_kind(version))
    }

    /// The row that a claim restricted to the given kinds takes.
    pub open spec fn next_job_of_kinds(
        self,
        version: ProtocolSemanticVersion,
        kinds: Seq<CircuitIdRoundTuple>,
    ) -> Option<int> {
        first_of_kinds(self.rows, version, kinds)
    }

    /// The table after the sweep for stuck jobs: each of them waits again.
    pub open spec fn requeue_stuck(self, timeout: u64, max_attempts: u32, now: u64) -> QueueState {
        QueueState {
            rows: self.rows.map_values(
                |row: JobRow|
                    if is_stuck(row, timeout, max_attempts, now) {
                        requeued(row, now)
                    } else {
                        row
                    },
            ),
            ..self
        }
    }

    /// What the sweep reports: the stuck jobs as they were before it, in
    /// the order of the table.
    pub open spec fn stuck_jobs(self, timeout: u64, max_attempts: u32, now: u64) -> Seq<
        StuckJobReport,
    > {
        self.rows.filter(stuck_rows(timeout, max_attempts, now)).map_values(
            |row: JobRow| report_of(row),
        )
    }

    /// The table after the jobs of a batch that used up their attempts
    /// were put back by hand.
    pub open spec fn requeue_batch(self, batch: u32, max_attempts: u32, now: u64) -> QueueState {
        QueueState {
            rows: self.rows.map_values(
                |row: JobRow|
                    if is_exhausted_in(row, batch, max_attempts) {
                        requeued_by_hand(row, now)
                    } else {
                        row
                    },
            ),
            ..self
        }
    }

    /// What putting a batch back by hand reports: the rows it changed, as
    /// it left them, in the order of the table.
    pub open spec fn requeued_in_batch(self, batch: u32, max_attempts: u32, now: u64) -> Seq<
        StuckJobReport,
    > {
        self.rows.filter(exhausted_rows(batch, max_attempts)).map_values(
            |row: JobRow| report_of(requeued_by_hand(row, now)),
        )
    }

    /// The table after archiving: the archivable rows have moved to cold
    /// storage, behind what was there, and the others stay in their order.
    pub open spec fn archive_old(self, interval: u64, now: u64, consumed: Seq<u32>) -> QueueState {
        QueueState {
            rows: self.rows.filter(lasting_rows(interval, now, consumed)),
            archive: self.archive + self.rows.filter(archivable_rows(interval, now, consumed)),
            ..self
        }
    }

    /// The id of the first successful job of the batch at the level.
    pub open spec fn proof_job_id(self, batch: u32, round: AggregationRound) -> Option<u32> {
        let proved = self.rows.filter(proved_rows(batch, round));
        if proved.len() > 0 {
            Some(proved[0].id as u32)
        } else {
            None
        }
    }

    /// Circuit and id of each final node proof of the batch, by rising
    /// circuit id.
    pub open spec fn final_node_proofs(self, batch: u32) -> Seq<(u8, u32)> {
        final_node_proofs_below(self.rows, batch, 256)
    }

    /// The table without the jobs of the batch.
    pub open spec fn without_batch(self, batch: u32) -> QueueState {
        QueueState { rows: self.rows.filter(rows_outside(batch)), ..self }
    }

    /// The table without any job.
    pub open spec fn without_jobs(self) -> QueueState {
        QueueState { rows: Seq::empty(), ..self }
    }

    /// The table after the row with the id, if any, was changed by `change`.
    pub open spec fn change_by_id(self, id: nat, change: spec_fn(JobRow) -> JobRow) -> QueueState {
        match index_of_id(self.rows, id) {
            Some(i) => QueueState { rows: self.rows.update(i, change(self.rows[i])), ..self },
            None => self,
        }
    }

    /// The table after a failure was reported for the job.
    pub open spec fn fail(self, id: nat, error: Seq<char>, now: u64) -> QueueState {
        self.change_by_id(id, |row: JobRow| failed(row, error, now))
    }

    /// The table after a proof was stored for the job.
    pub open spec fn complete(
        self,
        id: nat,
        blob_url: Seq<char>,
        time_taken: u64,
        now: u64,
    ) -> QueueState {
        self.change_by_id(id, |row: JobRow| completed(row, blob_url, time_taken, now))
    }

    /// The table after the job's status was set by hand.
    pub open spec fn set_status(self, id: nat, status: ProverJobStatus, now: u64) -> QueueState {
        self.change_by_id(id, |row: JobRow| with_status(row, status, now))
    }

    /// The table after one job was inserted. If a row for the same piece of
    /// work exists, only its time of last change is set; else the new row
    /// is appended and takes the next id.
    pub open spec fn insert(self, row: JobRow) -> QueueState {
        match index_of_key(self.rows, row) {
            Some(i) => QueueState {
                rows: self.rows.update(i, JobRow { updated_at: row.updated_at, ..self.rows[i] }),
                ..self
            },
            None => QueueState {
                rows: self.rows.push(JobRow { id: self.next_id, ..row }),
                next_id: self.next_id + 1,
                ..self
            },
        }
    }

    /// The table after the jobs of one batch and level were inserted, one
    /// per entry, numbered by their place in the list.
    pub open spec fn insert_all(
        self,
        batch: u32,
        entries: Seq<(u8, Seq<char>)>,
        round: AggregationRound,
        depth: u16,
        protocol_version: ProtocolSemanticVersion,
        now: u64,
    ) -> QueueState
        decreases entries.len(),
    {
        if entries.len() == 0 {
            self
        } else {
            let last = entries.len() - 1;
            self.insert_all(
                batch,
                entries.drop_last(),
                round,
                depth,
                protocol_version,
                now,
            ).insert(
                fresh_row(
                    0,
                    batch,
                    entries[last].0,
                    depth,
                    last as usize,
                    round,
                    entries[last].1,
                    false,
                    protocol_version,
                    now,
                ),
            )
        }
    }
}

/// Inserting keeps the table well formed and never lowers the next id.
pub proof fn lemma_insert_wf(q: QueueState, row: JobRow)
    requires
        q.wf(),
    ensures
        q.insert(row).wf(),
        q.next_id <= q.insert(row).next_id <= q.next_id + 1,
{
    match index_of_key(q.rows, row) {
        Some(i) => {},
        None => {
            let added = JobRow { id: q.next_id, ..row };
            let after = q.rows.push(added);
            assert forall|i: int, j: int|
                0 <= i < after.len() && 0 <= j < after.len() && i != j implies !same_key(
                #[trigger] after[i],
                #[trigger] after[j],
            ) by {
                if i == q.rows.len() {
                    assert(same_key(q.rows[j], row) == same_key(after[j], after[i]));
                } else if j == q.rows.len() {
                    assert(same_key(q.rows[i], row) == same_key(after[i], after[j]));
                }
            }
        },
    }
}

/// Inserting a list of jobs keeps the table well formed, and the next id
/// only grows from a shorter list to a longer one.
pub proof fn lemma_insert_all_wf(
    q: QueueState,
    batch: u32,
    entries: Seq<(u8, Seq<char>)>,
    round: AggregationRound,
    depth: u16,
    protocol_version: ProtocolSemanticVersion,
    now: u64,
    n: int,
)
    requires
        q.wf(),
        0 <= n <= entries.len(),
    ensures
        q.insert_all(batch, entries.take(n), round, depth, protocol_version, now).wf(),
        q.insert_all(batch, entries.take(n), round, depth, protocol_version, now).next_id
            <= q.insert_all(batch, entries, round, depth, protocol_version, now).next_id,
        q.next_id <= q.insert_all(batch, entries.take(n), round, depth, protocol_version, now).next_id,
    decreases entries.len(), entries.len() - n,
{
    if n == entries.len() {
        assert(entries.take(n) =~= entries);
        if n > 0 {
            let shorter = entries.drop_last();
            assert(shorter.take(n - 1) =~= shorter);
            lemma_insert_all_wf(q, batch, shorter, round, depth, protocol_version, now, n - 1);
            lemma_insert_wf(
                q.insert_all(batch, shorter, round, depth, protocol_version, now),
                fresh_row(
                    0,
                    batch,
                    entries[n - 1].0,
                    depth,
                    (n - 1) as usize,
                    round,
                    entries[n - 1].1,
                    false,
                    protocol_version,
                    now,
                ),
            );
        }
    } else {
        let shorter = entries.drop_last();
        assert(shorter.take(n) =~= entries.take(n));
        lemma_insert_all_wf(q, batch, shorter, round, depth, protocol_version, now, n);
        lemma_insert_all_wf(
            q,
            batch,
            entries,
            round,
            depth,
            protocol_version,
            now,
            entries.len() as int,
        );
        assert(shorter.take(shorter.len() as int) =~= shorter);
        lemma_insert_all_wf(
            q,
            batch,
            shorter,
            round,
            depth,
            protocol_version,
            now,
            shorter.len() as int,
        );
        lemma_insert_wf(
            q.insert_all(batch, shorter, round, depth, protocol_version, now),
            fresh_row(
                0,
                batch,
                entries.last().0,
                depth,
                (entries.len() - 1) as usize,
                round,
                entries.last().1,
                false,
                protocol_version,
                now,
            ),
        );
    }
}

/// Inserting a list of jobs gives out at most one id for each entry.
pub proof fn lemma_insert_all_bound(
    q: QueueState,
    batch: u32,
    entries: Seq<(u8, Seq<char>)>,
    round: AggregationRound,
    depth: u16,
    protocol_version: ProtocolSemanticVersion,
    now: u64,
)
    requires
        q.wf(),
    ensures
        q.insert_all(batch, entries, round, depth, protocol_version, now).next_id <= q.next_id
            + entries.len(),
    decreases entries.len(),
{
    if entries.len() > 0 {
        let shorter = entries.drop_last();
        lemma_insert_all_bound(q, batch, shorter, round, depth, protocol_version, now);
        assert(shorter.take(shorter.len() as int) =~= shorter);
        lemma_insert_all_wf(
            q,
            batch,
            shorter,
            round,
            depth,
            protocol_version,
            now,
            shorter.len() as int,
        );
        lemma_insert_wf(
            q.insert_all(batch, shorter, round, depth, protocol_version, now),
            fresh_row(
                0,
                batch,
                entries.last().0,
                depth,
                (entries.len() - 1) as usize,
                round,
                entries.last().1,
                false,
                protocol_version,
                now,
            ),
        );
    }
}

} // verus!
