//! Counts over the job table: the backlog by kind and protocol version,
//! and the earliest batch that still lacks a proof.

use vstd::prelude::*;
use crate::basic_types::{
    CircuitIdRoundTuple, CircuitProverStatsEntry, JobCountStatistics, L1BatchNumber,
    ProtocolSemanticVersion, ProverJobStatus,
};
use crate::job_row::{rows_of, JobRow, ProverJobFriInfo};
use crate::seq_steps::{lemma_filter_none, lemma_filter_step};

verus! {

/// The kind of job that a row is: its circuit and its level.
pub open spec fn kind_of(row: JobRow) -> CircuitIdRoundTuple {
    CircuitIdRoundTuple { circuit_id: row.circuit_id, aggregation_round: row.round.level() as u8 }
}

/// The jobs of one kind, protocol version and status.
pub open spec fn rows_in_group(
    version: ProtocolSemanticVersion,
    kind: CircuitIdRoundTuple,
    status: ProverJobStatus,
) -> spec_fn(JobRow) -> bool {
    |row: JobRow| row.protocol_version == version && kind_of(row) == kind && row.status == status
}

/// How many jobs of the kind and protocol version have the status.
pub open spec fn group_count(
    rows: Seq<JobRow>,
    version: ProtocolSemanticVersion,
    kind: CircuitIdRoundTuple,
    status: ProverJobStatus,
) -> nat {
    rows.filter(rows_in_group(version, kind, status)).len()
}

/// The entries are the backlog of the rows by kind and protocol version:
/// each entry counts its group's waiting jobs and its jobs in progress, no
/// entry is empty, no group has two entries, and every job of the backlog
/// is in some entry's group.
pub open spec fn is_backlog_by_kind(rows: Seq<JobRow>, entries: Seq<CircuitProverStatsEntry>) -> bool {
    &&& forall|k: int|
        0 <= k < entries.len() ==> {
            let entry = #[trigger] entries[k];
            &&& entry.stats.queued == group_count(
                rows,
                entry.protocol_semantic_version,
                entry.circuit,
                ProverJobStatus::Queued,
            )
            &&& entry.stats.in_progress == group_count(
                rows,
                entry.protocol_semantic_version,
                entry.circuit,
                ProverJobStatus::InProgress,
            )
            &&& entry.stats.queued + entry.stats.in_progress > 0
        }
    &&& forall|a: int, b: int|
        0 <= a < entries.len() && 0 <= b < entries.len() && a != b ==> !({
            &&& (#[trigger] entries[a]).circuit == (#[trigger] entries[b]).circuit
            &&& entries[a].protocol_semantic_version == entries[b].protocol_semantic_version
        })
    &&& forall|i: int|
        0 <= i < rows.len() && (#[trigger] rows[i]).status.is_backlog() ==> exists|k: int|
            0 <= k < entries.len() && (#[trigger] entries[k]).circuit == kind_of(rows[i])
                && entries[k].protocol_semantic_version == rows[i].protocol_version
}

/// The jobs of one protocol version and status.
pub open spec fn rows_of_version(version: ProtocolSemanticVersion, status: ProverJobStatus) -> spec_fn(
    JobRow,
) -> bool {
    |row: JobRow| row.protocol_version == version && row.status == status
}

/// How many jobs of the protocol version have the status.
pub open spec fn version_count(
    rows: Seq<JobRow>,
    version: ProtocolSemanticVersion,
    status: ProverJobStatus,
) -> nat {
    rows.filter(rows_of_version(version, status)).len()
}

/// The entries are the backlog of the rows by protocol version: each
/// entry counts its version's waiting jobs and its jobs in progress, no
/// entry is empty, no version has two entries, and every job of the
/// backlog is of some entry's version.
pub open spec fn is_backlog_by_version(
    rows: Seq<JobRow>,
    entries: Seq<(ProtocolSemanticVersion, JobCountStatistics)>,
) -> bool {
    &&& forall|k: int|
        0 <= k < entries.len() ==> {
            let entry = #[trigger] entries[k];
            &&& entry.1.queued == version_count(rows, entry.0, ProverJobStatus::Queued)
            &&& entry.1.in_progress == version_count(rows, entry.0, ProverJobStatus::InProgress)
            &&& entry.1.queued + entry.1.in_progress > 0
        }
    &&& forall|a: int, b: int|
        0 <= a < entries.len() && 0 <= b < entries.len() && a != b ==> (#[trigger] entries[a]).0
            != (#[trigger] entries[b]).0
    &&& forall|i: int|
        0 <= i < rows.len() && (#[trigger] rows[i]).status.is_backlog() ==> exists|k: int|
            0 <= k < entries.len() && (#[trigger] entries[k]).0 == rows[i].protocol_version
}

/// The job still lacks a proof.
pub open spec fn is_unproved(row: JobRow) -> bool {
    row.status != ProverJobStatus::Successful
}

/// Circuit and level of a row as a pair of numbers.
pub open spec fn circuit_and_level(row: JobRow) -> (u8, u8) {
    (row.circuit_id, row.round.level() as u8)
}

/// `batch` is the earliest batch among the unproved jobs of the kind, and
/// there is such a job.
pub open spec fn is_earliest_batch_of(rows: Seq<JobRow>, kind: (u8, u8), batch: u32) -> bool {
    &&& exists|i: int|
        0 <= i < rows.len() && is_unproved(#[trigger] rows[i]) && circuit_and_level(rows[i]) == kind
            && rows[i].batch == batch
    &&& forall|i: int|
        0 <= i < rows.len() && is_unproved(#[trigger] rows[i]) && circuit_and_level(rows[i]) == kind
            ==> batch <= rows[i].batch
}

/// Some entry is for the kind.
pub open spec fn lists_kind(entries: Seq<((u8, u8), L1BatchNumber)>, kind: (u8, u8)) -> bool {
    exists|k: int| 0 <= k < entries.len() && (#[trigger] entries[k]).0 == kind
}

/// The entries give, for each circuit and level with an unproved job, the
/// earliest batch of such a job: each entry's batch is the earliest among
/// the unproved jobs of its kind, no kind has two entries, and every
/// unproved job is of some entry's kind.
pub open spec fn is_earliest_unproved(rows: Seq<JobRow>, entries: Seq<((u8, u8), L1BatchNumber)>) -> bool {
    &&& forall|k: int|
        0 <= k < entries.len() ==> is_earliest_batch_of(
            rows,
            (#[trigger] entries[k]).0,
            entries[k].1.0,
        )
    &&& forall|a: int, b: int|
        0 <= a < entries.len() && 0 <= b < entries.len() && a != b ==> (#[trigger] entries[a]).0
            != (#[trigger] entries[b]).0
    &&& forall|i: int|
        0 <= i < rows.len() && is_unproved(#[trigger] rows[i]) ==> lists_kind(
            entries,
            circuit_and_level(rows[i]),
        )
}

/// One row more, not an unproved job of the kind, leaves the kind's
/// earliest batch as it is.
pub proof fn lemma_earliest_kept(rows: Seq<JobRow>, i: int, kind: (u8, u8), batch: u32)
    requires
        0 <= i < rows.len(),
        is_earliest_batch_of(rows.take(i), kind, batch),
        !(is_unproved(rows[i]) && circuit_and_level(rows[i]) == kind) || batch <= rows[i].batch,
    ensures
        is_earliest_batch_of(rows.take(i + 1), kind, batch),
{
    let seen = rows.take(i);
    let next = rows.take(i + 1);
    let r = choose|r: int|
        0 <= r < seen.len() && is_unproved(#[trigger] seen[r]) && circuit_and_level(seen[r]) == kind
            && seen[r].batch == batch;
    assert(next[r] == seen[r]);
    assert forall|j: int|
        0 <= j < next.len() && is_unproved(#[trigger] next[j]) && circuit_and_level(next[j])
            == kind implies batch <= next[j].batch by {
        if j < i {
            assert(next[j] == seen[j]);
        }
    }
}

/// One row more, an unproved job, makes its batch its kind's earliest if
/// no earlier one was seen.
pub proof fn lemma_earliest_taken(rows: Seq<JobRow>, i: int, earlier: Option<u32>)
    requires
        0 <= i < rows.len(),
        is_unproved(rows[i]),
        match earlier {
            Some(batch) => is_earliest_batch_of(rows.take(i), circuit_and_level(rows[i]), batch)
                && rows[i].batch < batch,
            None => forall|j: int|
                0 <= j < i ==> !(is_unproved(#[trigger] rows[j]) && circuit_and_level(rows[j])
                    == circuit_and_level(rows[i])),
        },
    ensures
        is_earliest_batch_of(rows.take(i + 1), circuit_and_level(rows[i]), rows[i].batch),
{
    let seen = rows.take(i);
    let next = rows.take(i + 1);
    assert(next[i] == rows[i]);
    assert forall|j: int|
        0 <= j < next.len() && is_unproved(#[trigger] next[j]) && circuit_and_level(next[j])
            == circuit_and_level(rows[i]) implies rows[i].batch <= next[j].batch by {
        if j < i {
            assert(next[j] == seen[j]);
            assert(seen[j] == rows[j]);
        }
    }
}

/// Counting over one row more adds one if the row is counted.
pub proof fn lemma_count_step(rows: Seq<JobRow>, pred: spec_fn(JobRow) -> bool, i: int)
    requires
        0 <= i < rows.len(),
    ensures
        rows.take(i + 1).filter(pred).len() == rows.take(i).filter(pred).len() + if pred(rows[i]) {
            1nat
        } else {
            0nat
        },
        rows.take(i).filter(pred).len() <= i,
{
    lemma_filter_step(rows, pred, i);
    rows.take(i).lemma_filter_len(pred);
}

/// The backlog by kind and protocol version.
pub fn backlog_by_kind(rows: &Vec<ProverJobFriInfo>) -> (entries: Vec<CircuitProverStatsEntry>)
    ensures
        is_backlog_by_kind(rows_of(rows@), entries@),
{
    let ghost view = rows_of(rows@);
    let mut entries: Vec<CircuitProverStatsEntry> = Vec::new();
    let mut i: usize = 0;
    while i < rows.len()
        invariant
            0 <= i <= rows.len(),
            view == rows_of(rows@),
            is_backlog_by_kind(view.take(i as int), entries@),
        decreases rows.len() - i,
    {
        let row = &rows[i];
        let ghost seen = view.take(i as int);
        let ghost next = view.take(i as int + 1);
        let ghost old_entries = entries@;
        let kind = CircuitIdRoundTuple {
            circuit_id: row.circuit_id,
            aggregation_round: row.aggregation_round.as_u8(),
        };
        let version = row.protocol_version;
        let waits = row.status == ProverJobStatus::Queued;
        let runs = row.status == ProverJobStatus::InProgress;
        proof {
            assert(row@ == view[i as int]);
            assert(next[i as int] == view[i as int]);
            assert forall|j: int| 0 <= j < i implies next[j] == seen[j] by {}
            assert forall|v: ProtocolSemanticVersion, c: CircuitIdRoundTuple, s: ProverJobStatus|
                #![trigger group_count(next, v, c, s)]
                group_count(next, v, c, s) == group_count(seen, v, c, s) + if rows_in_group(
                    v,
                    c,
                    s,
                )(view[i as int]) {
                    1nat
                } else {
                    0nat
                } && group_count(seen, v, c, s) <= i by {
                lemma_count_step(view, rows_in_group(v, c, s), i as int);
            }
        }
        if waits || runs {
            let mut k: usize = 0;
            let mut found: Option<usize> = None;
            while k < entries.len() && found.is_none()
                invariant
                    0 <= k <= entries.len(),
                    found matches Some(f) ==> f < entries.len() && entries@[f as int].circuit
                        == kind && entries@[f as int].protocol_semantic_version == version,
                    forall|j: int|
                        0 <= j < k ==> !((#[trigger] entries@[j]).circuit == kind
                            && entries@[j].protocol_semantic_version == version),
                decreases entries.len() - k + if found is None { 1int } else { 0int },
            {
                if entries[k].circuit == kind && entries[k].protocol_semantic_version == version {
                    found = Some(k);
                } else {
                    k += 1;
                }
            }
            match found {
                Some(k) => {
                    let entry = entries[k];
                    let stats = if waits {
                        JobCountStatistics {
                            queued: entry.stats.queued + 1,
                            in_progress: entry.stats.in_progress,
                        }
                    } else {
                        JobCountStatistics {
                            queued: entry.stats.queued,
                            in_progress: entry.stats.in_progress + 1,
                        }
                    };
                    entries.set(
                        k,
                        CircuitProverStatsEntry {
                            circuit: kind,
                            protocol_semantic_version: version,
                            stats,
                        },
                    );
                    proof {
                        assert forall|j: int| 0 <= j < entries.len() && j != k implies entries@[j]
                            == old_entries[j] by {}
                        assert forall|r: int|
                            0 <= r < next.len() && (
                            #[trigger] next[r]).status.is_backlog() implies exists|j: int|
                            0 <= j < entries.len() && (#[trigger] entries@[j]).circuit == kind_of(
                                next[r],
                            ) && entries@[j].protocol_semantic_version
                                == next[r].protocol_version by {
                            if r < i {
                                assert(seen[r].status.is_backlog());
                                let j = choose|j: int|
                                    0 <= j < old_entries.len() && (
                                    #[trigger] old_entries[j]).circuit == kind_of(seen[r])
                                        && old_entries[j].protocol_semantic_version
                                        == seen[r].protocol_version;
                                assert(entries@[j].circuit == old_entries[j].circuit);
                            } else {
                                assert(entries@[k as int].circuit == kind);
                            }
                        }
                    }
                },
                None => {
                    let stats = if waits {
                        JobCountStatistics { queued: 1, in_progress: 0 }
                    } else {
                        JobCountStatistics { queued: 0, in_progress: 1 }
                    };
                    proof {
                        // No job seen so far is in the new entry's group.
                        assert forall|s: ProverJobStatus|
                            s.is_backlog() implies #[trigger] group_count(seen, version, kind, s)
                            == 0 by {
                            let pred = rows_in_group(version, kind, s);
                            assert forall|r: int| 0 <= r < seen.len() implies !pred(
                                #[trigger] seen[r],
                            ) by {
                                if pred(seen[r]) {
                                    assert(seen[r].status.is_backlog());
                                    let j = choose|j: int|
                                        0 <= j < old_entries.len() && (
                                        #[trigger] old_entries[j]).circuit == kind_of(seen[r])
                                            && old_entries[j].protocol_semantic_version
                                            == seen[r].protocol_version;
                                    assert(old_entries[j].circuit == kind);
                                }
                            }
                            lemma_filter_none(seen, pred);
                        }
                        assert(ProverJobStatus::Queued.is_backlog());
                        assert(ProverJobStatus::InProgress.is_backlog());
                    }
                    entries.push(
                        CircuitProverStatsEntry {
                            circuit: kind,
                            protocol_semantic_version: version,
                            stats,
                        },
                    );
                    proof {
                        let added = entries.len() - 1;
                        assert forall|j: int| 0 <= j < added implies entries@[j]
                            == old_entries[j] by {}
                        assert forall|r: int|
                            0 <= r < next.len() && (
                            #[trigger] next[r]).status.is_backlog() implies exists|j: int|
                            0 <= j < entries.len() && (#[trigger] entries@[j]).circuit == kind_of(
                                next[r],
                            ) && entries@[j].protocol_semantic_version
                                == next[r].protocol_version by {
                            if r < i {
                                assert(seen[r].status.is_backlog());
                                let j = choose|j: int|
                                    0 <= j < old_entries.len() && (
                                    #[trigger] old_entries[j]).circuit == kind_of(seen[r])
                                        && old_entries[j].protocol_semantic_version
                                        == seen[r].protocol_version;
                                assert(entries@[j].circuit == old_entries[j].circuit);
                            } else {
                                assert(entries@[added].circuit == kind);
                            }
                        }
                    }
                },
            }
        } else {
            proof {
                assert forall|r: int|
                    0 <= r < next.len() && (
                    #[trigger] next[r]).status.is_backlog() implies exists|j: int|
                    0 <= j < entries.len() && (#[trigger] entries@[j]).circuit == kind_of(next[r])
                        && entries@[j].protocol_semantic_version == next[r].protocol_version by {
                    assert(seen[r].status.is_backlog());
                }
            }
        }
        i += 1;
    }
    proof {
        assert(view.take(i as int) =~= view);
    }
    entries
}

/// The backlog by protocol version.
pub fn backlog_by_version(rows: &Vec<ProverJobFriInfo>) -> (entries: Vec<
    (ProtocolSemanticVersion, JobCountStatistics),
>)
    ensures
        is_backlog_by_version(rows_of(rows@), entries@),
{
    let ghost view = rows_of(rows@);
    let mut entries: Vec<(ProtocolSemanticVersion, JobCountStatistics)> = Vec::new();
    let mut i: usize = 0;
    while i < rows.len()
        invariant
            0 <= i <= rows.len(),
            view == rows_of(rows@),
            is_backlog_by_version(view.take(i as int), entries@),
        decreases rows.len() - i,
    {
        let row = &rows[i];
        let ghost seen = view.take(i as int);
        let ghost next = view.take(i as int + 1);
        let ghost old_entries = entries@;
        let version = row.protocol_version;
        let waits = row.status == ProverJobStatus::Queued;
        let runs = row.status == ProverJobStatus::InProgress;
        proof {
            assert(row@ == view[i as int]);
            assert(next[i as int] == view[i as int]);
            assert forall|j: int| 0 <= j < i implies next[j] == seen[j] by {}
            assert forall|v: ProtocolSemanticVersion, s: ProverJobStatus|
                #![trigger version_count(next, v, s)]
                version_count(next, v, s) == version_count(seen, v, s) + if rows_of_version(v, s)(
                    view[i as int],
                ) {
                    1nat
                } else {
                    0nat
                } && version_count(seen, v, s) <= i by {
                lemma_count_step(view, rows_of_version(v, s), i as int);
            }
        }
        if waits || runs {
            let mut k: usize = 0;
            let mut found: Option<usize> = None;
            while k < entries.len() && found.is_none()
                invariant
                    0 <= k <= entries.len(),
                    found matches Some(f) ==> f < entries.len() && entries@[f as int].0 == version,
                    forall|j: int| 0 <= j < k ==> (#[trigger] entries@[j]).0 != version,
                decreases entries.len() - k + if found is None { 1int } else { 0int },
            {
                if entries[k].0 == version {
                    found = Some(k);
                } else {
                    k += 1;
                }
            }
            match found {
                Some(k) => {
                    let counted = entries[k].1;
                    let stats = if waits {
                        JobCountStatistics {
                            queued: counted.queued + 1,
                            in_progress: counted.in_progress,
                        }
                    } else {
                        JobCountStatistics {
                            queued: counted.queued,
                            in_progress: counted.in_progress + 1,
                        }
                    };
                    entries.set(k, (version, stats));
                    proof {
                        assert forall|j: int| 0 <= j < entries.len() && j != k implies entries@[j]
                            == old_entries[j] by {}
                        assert forall|r: int|
                            0 <= r < next.len() && (
                            #[trigger] next[r]).status.is_backlog() implies exists|j: int|
                            0 <= j < entries.len() && (#[trigger] entries@[j]).0
                                == next[r].protocol_version by {
                            if r < i {
                                assert(seen[r].status.is_backlog());
                                let j = choose|j: int|
                                    0 <= j < old_entries.len() && (#[trigger] old_entries[j]).0
                                        == seen[r].protocol_version;
                                assert(entries@[j].0 == old_entries[j].0);
                            } else {
                                assert(entries@[k as int].0 == version);
                            }
                        }
                    }
                },
                None => {
                    let stats = if waits {
                        JobCountStatistics { queued: 1, in_progress: 0 }
                    } else {
                        JobCountStatistics { queued: 0, in_progress: 1 }
                    };
                    proof {
                        assert forall|s: ProverJobStatus|
                            s.is_backlog() implies #[trigger] version_count(seen, version, s)
                            == 0 by {
                            let pred = rows_of_version(version, s);
                            assert forall|r: int| 0 <= r < seen.len() implies !pred(
                                #[trigger] seen[r],
                            ) by {
                                if pred(seen[r]) {
                                    assert(seen[r].status.is_backlog());
                                    let j = choose|j: int|
                                        0 <= j < old_entries.len() && (
                                        #[trigger] old_entries[j]).0 == seen[r].protocol_version;
                                    assert(old_entries[j].0 == version);
                                }
                            }
                            lemma_filter_none(seen, pred);
                        }
                        assert(ProverJobStatus::Queued.is_backlog());
                        assert(ProverJobStatus::InProgress.is_backlog());
                    }
                    entries.push((version, stats));
                    proof {
                        let added = entries.len() - 1;
                        assert forall|j: int| 0 <= j < added implies entries@[j]
                            == old_entries[j] by {}
                        assert forall|r: int|
                            0 <= r < next.len() && (
                            #[trigger] next[r]).status.is_backlog() implies exists|j: int|
                            0 <= j < entries.len() && (#[trigger] entries@[j]).0
                                == next[r].protocol_version by {
                            if r < i {
                                assert(seen[r].status.is_backlog());
                                let j = choose|j: int|
                                    0 <= j < old_entries.len() && (#[trigger] old_entries[j]).0
                                        == seen[r].protocol_version;
                                assert(entries@[j].0 == old_entries[j].0);
                            } else {
                                assert(entries@[added].0 == version);
                            }
                        }
                    }
                },
            }
        } else {
            proof {
                assert forall|r: int|
                    0 <= r < next.len() && (
                    #[trigger] next[r]).status.is_backlog() implies exists|j: int|
                    0 <= j < entries.len() && (#[trigger] entries@[j]).0
                        == next[r].protocol_version by {
                    assert(seen[r].status.is_backlog());
                }
            }
        }
        i += 1;
    }
    proof {
        assert(view.take(i as int) =~= view);
    }
    entries
}

/// For each circuit and level with an unproved job, the earliest batch of
/// such a job.
pub fn earliest_unproved(rows: &Vec<ProverJobFriInfo>) -> (entries: Vec<((u8, u8), L1BatchNumber)>)
    ensures
        is_earliest_unproved(rows_of(rows@), entries@),
{
    let ghost view = rows_of(rows@);
    let mut entries: Vec<((u8, u8), L1BatchNumber)> = Vec::new();
    let mut i: usize = 0;
    while i < rows.len()
        invariant
            0 <= i <= rows.len(),
            view == rows_of(rows@),
            is_earliest_unproved(view.take(i as int), entries@),
        decreases rows.len() - i,
    {
        let row = &rows[i];
        let ghost seen = view.take(i as int);
        let ghost next = view.take(i as int + 1);
        let ghost old_entries = entries@;
        let kind: (u8, u8) = (row.circuit_id, row.aggregation_round.as_u8());
        let batch = row.l1_batch_number;
        let unproved = row.status != ProverJobStatus::Successful;
        let mut found: Option<usize> = None;
        proof {
            assert(row@ == view[i as int]);
            assert(kind == circuit_and_level(view[i as int]));
        }
        if unproved {
            let mut k: usize = 0;
            while k < entries.len() && found.is_none()
                invariant
                    0 <= k <= entries.len(),
                    found matches Some(f) ==> f < entries.len() && entries@[f as int].0 == kind,
                    forall|j: int| 0 <= j < k ==> (#[trigger] entries@[j]).0 != kind,
                decreases entries.len() - k + if found is None { 1int } else { 0int },
            {
                if entries[k].0.0 == kind.0 && entries[k].0.1 == kind.1 {
                    found = Some(k);
                } else {
                    k += 1;
                }
            }
            match found {
                Some(k) => {
                    if batch.0 < entries[k].1.0 {
                        proof {
                            lemma_earliest_taken(view, i as int, Some(old_entries[k as int].1.0));
                        }
                        entries.set(k, (kind, batch));
                    } else {
                        proof {
                            lemma_earliest_kept(view, i as int, kind, old_entries[k as int].1.0);
                        }
                    }
                },
                None => {
                    proof {
                        assert forall|j: int| 0 <= j < i implies !(is_unproved(
                            #[trigger] view[j],
                        ) && circuit_and_level(view[j]) == kind) by {
                            assert(seen[j] == view[j]);
                            if is_unproved(seen[j]) && circuit_and_level(seen[j]) == kind {
                                assert(lists_kind(old_entries, kind));
                            }
                        }
                        lemma_earliest_taken(view, i as int, None);
                    }
                    entries.push((kind, batch));
                },
            }
        }
        proof {
            let at = match found {
                Some(k) => k as int,
                None => old_entries.len() as int,
            };
            assert forall|j: int| 0 <= j < old_entries.len() implies (#[trigger] entries@[j]).0
                == old_entries[j].0 by {}
            assert forall|j: int| 0 <= j < entries.len() implies is_earliest_batch_of(
                next,
                (#[trigger] entries@[j]).0,
                entries@[j].1.0,
            ) by {
                if !unproved || j != at {
                    assert(entries@[j] == old_entries[j]);
                    lemma_earliest_kept(view, i as int, old_entries[j].0, old_entries[j].1.0);
                }
            }
            assert forall|r: int| 0 <= r < next.len() && is_unproved(#[trigger] next[r]) implies lists_kind(
                entries@,
                circuit_and_level(next[r]),
            ) by {
                if r < i {
                    assert(next[r] == seen[r]);
                    assert(lists_kind(old_entries, circuit_and_level(seen[r])));
                    let j = choose|j: int|
                        0 <= j < old_entries.len() && (#[trigger] old_entries[j]).0
                            == circuit_and_level(seen[r]);
                    assert(entries@[j].0 == old_entries[j].0);
                } else {
                    assert(next[r] == view[i as int]);
                    assert(entries@[at].0 == kind);
                }
            }
        }
        i += 1;
    }
    proof {
        assert(view.take(i as int) =~= view);
    }
    entries
}

} // verus!
