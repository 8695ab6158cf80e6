//! One row of the job table, and the mathematical value it stands for.

use vstd::prelude::*;
use crate::basic_types::{
    AggregationRound, FriProverJobMetadata, L1BatchNumber, ProtocolSemanticVersion,
    ProverJobStatus,
};

verus! {

/// A row of the job table as contracts see it: texts are sequences of
/// characters, and the two counters that only ever grow are unbounded.
pub struct JobRow {
    pub id: nat,
    pub batch: u32,
    pub circuit_id: u8,
    pub circuit_blob_url: Seq<char>,
    pub round: AggregationRound,
    pub sequence_number: usize,
    pub status: ProverJobStatus,
    pub error: Option<Seq<char>>,
    pub attempts: nat,
    pub processing_started_at: Option<u64>,
    pub created_at: u64,
    pub updated_at: u64,
    pub time_taken: Option<u64>,
    pub depth: u16,
    pub is_node_final_proof: bool,
    pub proof_blob_url: Option<Seq<char>>,
    pub protocol_version: ProtocolSemanticVersion,
    pub picked_by: Option<Seq<char>>,
}

/// The characters of an optional text.
pub open spec fn text_of(s: Option<String>) -> Option<Seq<char>> {
    match s {
        Some(t) => Some(t@),
        None => None,
    }
}

/// A copy of an optional text.
pub fn copy_text(s: &Option<String>) -> (copy: Option<String>)
    ensures
        copy == *s,
{
    match s {
        Some(t) => Some(t.clone()),
        None => None,
    }
}

/// A job as the table stores it. Instants and spans of time are counted in
/// one unit, whichever the caller keeps to.
#[derive(Debug)]
pub struct ProverJobFriInfo {
    pub id: u32,
    pub l1_batch_number: L1BatchNumber,
    pub circuit_id: u8,
    pub circuit_blob_url: String,
    pub aggregation_round: AggregationRound,
    pub sequence_number: usize,
    pub status: ProverJobStatus,
    pub error: Option<String>,
    pub attempts: u32,
    pub processing_started_at: Option<u64>,
    pub created_at: u64,
    pub updated_at: u64,
    pub time_taken: Option<u64>,
    pub depth: u16,
    pub is_node_final_proof: bool,
    pub proof_blob_url: Option<String>,
    pub protocol_version: ProtocolSemanticVersion,
    pub picked_by: Option<String>,
}

impl View for ProverJobFriInfo {
    type V = JobRow;

    open spec fn view(&self) -> JobRow {
        JobRow {
            id: self.id as nat,
            batch: self.l1_batch_number.0,
            circuit_id: self.circuit_id,
            circuit_blob_url: self.circuit_blob_url@,
            round: self.aggregation_round,
            sequence_number: self.sequence_number,
            status: self.status,
            error: text_of(self.error),
            attempts: self.attempts as nat,
            processing_started_at: self.processing_started_at,
            created_at: self.created_at,
            updated_at: self.updated_at,
            time_taken: self.time_taken,
            depth: self.depth,
            is_node_final_proof: self.is_node_final_proof,
            proof_blob_url: text_of(self.proof_blob_url),
            protocol_version: self.protocol_version,
            picked_by: text_of(self.picked_by),
        }
    }
}

impl ProverJobFriInfo {
    /// A copy of the row, field for field.
    pub fn duplicate(&self) -> (copy: ProverJobFriInfo)
        ensures
            copy == *self,
    {
        ProverJobFriInfo {
            id: self.id,
            l1_batch_number: self.l1_batch_number,
            circuit_id: self.circuit_id,
            circuit_blob_url: self.circuit_blob_url.clone(),
            aggregation_round: self.aggregation_round,
            sequence_number: self.sequence_number,
            status: self.status,
            error: copy_text(&self.error),
            attempts: self.attempts,
            processing_started_at: self.processing_started_at,
            created_at: self.created_at,
            updated_at: self.updated_at,
            time_taken: self.time_taken,
            depth: self.depth,
            is_node_final_proof: self.is_node_final_proof,
            proof_blob_url: copy_text(&self.proof_blob_url),
            protocol_version: self.protocol_version,
            picked_by: copy_text(&self.picked_by),
        }
    }

    /// What a worker is told of this job.
    pub fn metadata(&self) -> (meta: FriProverJobMetadata)
        ensures
            meta == metadata_of(self@),
    {
        FriProverJobMetadata {
            id: self.id,
            block_number: self.l1_batch_number,
            circuit_id: self.circuit_id,
            aggregation_round: self.aggregation_round,
            sequence_number: self.sequence_number,
            depth: self.depth,
            is_node_final_proof: self.is_node_final_proof,
        }
    }
}

/// What a worker is told of a job.
pub open spec fn metadata_of(row: JobRow) -> FriProverJobMetadata {
    FriProverJobMetadata {
        id: row.id as u32,
        block_number: L1BatchNumber(row.batch),
        circuit_id: row.circuit_id,
        aggregation_round: row.round,
        sequence_number: row.sequence_number,
        depth: row.depth,
        is_node_final_proof: row.is_node_final_proof,
    }
}

/// What is reported of a job that was put back into the queue.
#[derive(Debug)]
pub struct StuckJobs {
    pub id: u64,
    pub status: ProverJobStatus,
    pub attempts: u64,
    pub circuit_id: Option<u32>,
    pub error: Option<String>,
    pub picked_by: Option<String>,
}

/// A report of a requeued job as contracts see it.
pub struct StuckJobReport {
    pub id: nat,
    pub status: ProverJobStatus,
    pub attempts: nat,
    pub circuit_id: Option<u32>,
    pub error: Option<Seq<char>>,
    pub picked_by: Option<Seq<char>>,
}

impl View for StuckJobs {
    type V = StuckJobReport;

    open spec fn view(&self) -> StuckJobReport {
        StuckJobReport {
            id: self.id as nat,
            status: self.status,
            attempts: self.attempts as nat,
            circuit_id: self.circuit_id,
            error: text_of(self.error),
            picked_by: text_of(self.picked_by),
        }
    }
}

/// The report of a row: its id, status, attempts, circuit, error and worker.
pub open spec fn report_of(row: JobRow) -> StuckJobReport {
    StuckJobReport {
        id: row.id,
        status: row.status,
        attempts: row.attempts,
        circuit_id: Some(row.circuit_id as u32),
        error: row.error,
        picked_by: row.picked_by,
    }
}

impl ProverJobFriInfo {
    /// The report of this row.
    pub fn report(&self) -> (report: StuckJobs)
        ensures
            report@ == report_of(self@),
    {
        StuckJobs {
            id: self.id as u64,
            status: self.status,
            attempts: self.attempts as u64,
            circuit_id: Some(self.circuit_id as u32),
            error: copy_text(&self.error),
            picked_by: copy_text(&self.picked_by),
        }
    }
}

/// The values that a list of stored rows stands for.
pub open spec fn rows_of(rows: Seq<ProverJobFriInfo>) -> Seq<JobRow> {
    Seq::new(rows.len(), |i: int| rows[i]@)
}

} // verus!
