//! Plain values shared by the job queue and the fleet scaler.

use vstd::prelude::*;

verus! {

/// Number of an L1 batch.
#[derive(Clone, Copy, Debug, PartialEq, Eq, Structural, Hash)]
pub struct L1BatchNumber(pub u32);

/// Level of the proof tree, from the leaf circuits up to the scheduler.
#[derive(Clone, Copy, Debug, PartialEq, Eq, Structural, Hash)]
pub enum AggregationRound {
    BasicCircuits,
    LeafAggregation,
    NodeAggregation,
    RecursionTip,
    Scheduler,
}

impl AggregationRound {
    /// The round's number: 0 for the leaves, 4 for the scheduler.
    pub open spec fn level(self) -> int {
        match self {
            AggregationRound::BasicCircuits => 0,
            AggregationRound::LeafAggregation => 1,
            AggregationRound::NodeAggregation => 2,
            AggregationRound::RecursionTip => 3,
            AggregationRound::Scheduler => 4,
        }
    }

    /// The round with the given number, if there is one.
    pub open spec fn of_level(n: int) -> Option<AggregationRound> {
        if n == 0 {
            Some(AggregationRound::BasicCircuits)
        } else if n == 1 {
            Some(AggregationRound::LeafAggregation)
        } else if n == 2 {
            Some(AggregationRound::NodeAggregation)
        } else if n == 3 {
            Some(AggregationRound::RecursionTip)
        } else if n == 4 {
            Some(AggregationRound::Scheduler)
        } else {
            None
        }
    }

    pub fn as_u8(self) -> (n: u8)
        ensures
            n == self.level(),
    {
        match self {
            AggregationRound::BasicCircuits => 0,
            AggregationRound::LeafAggregation => 1,
            AggregationRound::NodeAggregation => 2,
            AggregationRound::RecursionTip => 3,
            AggregationRound::Scheduler => 4,
        }
    }

    pub fn from_i32(n: i32) -> (round: Option<AggregationRound>)
        ensures
            round == Self::of_level(n as int),
    {
        match n {
            0 => Some(AggregationRound::BasicCircuits),
            1 => Some(AggregationRound::LeafAggregation),
            2 => Some(AggregationRound::NodeAggregation),
            3 => Some(AggregationRound::RecursionTip),
            4 => Some(AggregationRound::Scheduler),
            _ => None,
        }
    }
}

/// Minor version and patch of the protocol a job was created for.
#[derive(Clone, Copy, Debug, PartialEq, Eq, Structural, Hash)]
pub struct ProtocolSemanticVersion {
    pub minor: u16,
    pub patch: u32,
}

/// A kind of job: one circuit at one level of the proof tree.
#[derive(Clone, Copy, Debug, PartialEq, Eq, Structural, Hash)]
pub struct CircuitIdRoundTuple {
    pub circuit_id: u8,
    pub aggregation_round: u8,
}

/// Where a job stands.
#[derive(Clone, Copy, Debug, PartialEq, Eq, Structural, Hash)]
pub enum ProverJobStatus {
    Queued,
    InProgress,
    InGpuProof,
    Successful,
    Failed,
}

impl ProverJobStatus {
    /// A worker holds the job.
    pub open spec fn is_held(self) -> bool {
        self == ProverJobStatus::InProgress || self == ProverJobStatus::InGpuProof
    }

    /// The job counts towards the backlog.
    pub open spec fn is_backlog(self) -> bool {
        self == ProverJobStatus::Queued || self == ProverJobStatus::InProgress
    }
}

/// How many jobs wait and how many are being worked on.
#[derive(Clone, Copy, Debug, PartialEq, Eq, Structural, Hash)]
pub struct JobCountStatistics {
    pub queued: usize,
    pub in_progress: usize,
}

/// What a worker is told of the job it has claimed.
#[derive(Clone, Copy, Debug, PartialEq, Eq, Structural, Hash)]
pub struct FriProverJobMetadata {
    pub id: u32,
    pub block_number: L1BatchNumber,
    pub circuit_id: u8,
    pub aggregation_round: AggregationRound,
    pub sequence_number: usize,
    pub depth: u16,
    pub is_node_final_proof: bool,
}

/// The backlog of one kind of job under one protocol version.
#[derive(Clone, Copy, Debug, PartialEq, Eq, Structural, Hash)]
pub struct CircuitProverStatsEntry {
    pub circuit: CircuitIdRoundTuple,
    pub protocol_semantic_version: ProtocolSemanticVersion,
    pub stats: JobCountStatistics,
}

} // verus!
