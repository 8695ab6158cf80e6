//! What holds of the job queue whatever the callers do.

use vstd::prelude::*;
use crate::basic_types::{ProtocolSemanticVersion, ProverJobStatus};
use crate::job_row::{report_of, JobRow};
use crate::basic_types::CircuitIdRoundTuple;
use crate::queue_model::{
    claimed, index_of_id, index_of_key, is_stuck, lasting_rows, lemma_index_of_id,
    lemma_index_of_key, lemma_insert_wf, same_key, stuck_rows, QueueState,
};
use crate::queue_stats::kind_of;
use crate::selection::{
    any_kind, comes_before, distinct_ids, first_of, is_first, is_first_of_kinds, is_kind_winner,
    lemma_first_of_is, lemma_first_of_kinds_is, lemma_first_of_some, lemma_kind_winner_grows,
    lemma_kind_winner_step, lemma_order_total, lemma_order_transitive, of_kind, JobOrder,
};
use crate::seq_steps::{lemma_filter_ends, lemma_filter_step};

verus! {

/// The jobs that wait for a worker of the protocol version.
pub open spec fn waiting_rows(version: ProtocolSemanticVersion) -> spec_fn(JobRow) -> bool {
    |row: JobRow| any_kind(version).admits(row)
}

/// How many jobs wait for a worker of the protocol version.
pub open spec fn waiting_count(rows: Seq<JobRow>, version: ProtocolSemanticVersion) -> nat {
    rows.filter(waiting_rows(version)).len()
}

/// The table after the claims were made one after the other, each by its
/// worker at its time.
pub open spec fn after_claims(
    q: QueueState,
    version: ProtocolSemanticVersion,
    claims: Seq<(Seq<char>, u64)>,
) -> QueueState
    decreases claims.len(),
{
    if claims.len() == 0 {
        q
    } else {
        let before = after_claims(q, version, claims.drop_last());
        before.claim_at(before.next_job(version), claims.last().0, claims.last().1)
    }
}

/// The row that each of the claims was given, in the order of the claims.
pub open spec fn rows_given(
    q: QueueState,
    version: ProtocolSemanticVersion,
    claims: Seq<(Seq<char>, u64)>,
) -> Seq<Option<int>>
    decreases claims.len(),
{
    if claims.len() == 0 {
        Seq::empty()
    } else {
        rows_given(q, version, claims.drop_last()).push(
            after_claims(q, version, claims.drop_last()).next_job(version),
        )
    }
}

/// Replacing one row changes a count by what the old row and the new one
/// contribute.
pub proof fn lemma_count_after_update(
    rows: Seq<JobRow>,
    pred: spec_fn(JobRow) -> bool,
    i: int,
    row: JobRow,
)
    requires
        0 <= i < rows.len(),
    ensures
        rows.update(i, row).filter(pred).len() + (if pred(rows[i]) {
            1nat
        } else {
            0nat
        }) == rows.filter(pred).len() + (if pred(row) {
            1nat
        } else {
            0nat
        }),
{
    let head = rows.take(i);
    let tail = rows.skip(i + 1);
    let old_mid = seq![rows[i]];
    let new_mid = seq![row];
    assert(rows =~= head + old_mid + tail);
    assert(rows.update(i, row) =~= head + new_mid + tail);
    Seq::filter_distributes_over_add(head + old_mid, tail, pred);
    Seq::filter_distributes_over_add(head, old_mid, pred);
    Seq::filter_distributes_over_add(head + new_mid, tail, pred);
    Seq::filter_distributes_over_add(head, new_mid, pred);
    lemma_filter_step(old_mid, pred, 0);
    lemma_filter_ends(old_mid, pred);
    lemma_filter_step(new_mid, pred, 0);
    lemma_filter_ends(new_mid, pred);
}

/// A count is positive exactly when some row is counted.
pub proof fn lemma_count_positive(rows: Seq<JobRow>, pred: spec_fn(JobRow) -> bool)
    ensures
        rows.filter(pred).len() > 0 <==> exists|i: int| 0 <= i < rows.len() && pred(#[trigger] rows[i]),
    decreases rows.len(),
{
    reveal(Seq::filter);
    if rows.len() > 0 {
        let shorter = rows.drop_last();
        lemma_count_positive(shorter, pred);
        if exists|i: int| 0 <= i < shorter.len() && pred(#[trigger] shorter[i]) {
            let i = choose|i: int| 0 <= i < shorter.len() && pred(#[trigger] shorter[i]);
            assert(pred(rows[i]));
        }
        if exists|i: int| 0 <= i < rows.len() && pred(#[trigger] rows[i]) {
            let i = choose|i: int| 0 <= i < rows.len() && pred(#[trigger] rows[i]);
            if i < shorter.len() {
                assert(pred(shorter[i]));
            }
        }
    }
}

/// An unrestricted claim takes the waiting job of the protocol version
/// whose batch, level, circuit id and id are the smallest in that order,
/// and takes none only when no such job waits.
pub proof fn law_claim_takes_smallest(q: QueueState, version: ProtocolSemanticVersion)
    requires
        q.wf(),
    ensures
        match q.next_job(version) {
            Some(i) => {
                &&& 0 <= i < q.rows.len()
                &&& q.rows[i].status == ProverJobStatus::Queued
                &&& q.rows[i].protocol_version == version
                &&& forall|j: int|
                    0 <= j < q.rows.len() && j != i && (#[trigger] q.rows[j]).status
                        == ProverJobStatus::Queued && q.rows[j].protocol_version == version ==> {
                        let a = q.rows[i];
                        let b = q.rows[j];
                        ||| a.batch < b.batch
                        ||| a.batch == b.batch && a.round.level() < b.round.level()
                        ||| a.batch == b.batch && a.round == b.round && a.circuit_id < b.circuit_id
                        ||| a.batch == b.batch && a.round == b.round && a.circuit_id == b.circuit_id
                            && a.id < b.id
                    }
            },
            None => forall|j: int|
                0 <= j < q.rows.len() ==> !((#[trigger] q.rows[j]).status == ProverJobStatus::Queued
                    && q.rows[j].protocol_version == version),
        },
{
    let filter = any_kind(version);
    lemma_first_of_some(q.rows, JobOrder::BatchRoundCircuit, filter);
    match q.next_job(version) {
        Some(i) => {
            assert forall|j: int|
                0 <= j < q.rows.len() && j != i && (#[trigger] q.rows[j]).status
                    == ProverJobStatus::Queued && q.rows[j].protocol_version == version implies {
                let a = q.rows[i];
                let b = q.rows[j];
                ||| a.batch < b.batch
                ||| a.batch == b.batch && a.round.level() < b.round.level()
                ||| a.batch == b.batch && a.round == b.round && a.circuit_id < b.circuit_id
                ||| a.batch == b.batch && a.round == b.round && a.circuit_id == b.circuit_id && a.id
                    < b.id
            } by {
                assert(filter.admits(q.rows[j]));
            }
        },
        None => {
            assert forall|j: int| 0 <= j < q.rows.len() implies !((#[trigger] q.rows[j]).status
                == ProverJobStatus::Queued && q.rows[j].protocol_version == version) by {
                if q.rows[j].status == ProverJobStatus::Queued && q.rows[j].protocol_version
                    == version {
                    assert(filter.admits(q.rows[j]));
                }
            }
        },
    }
}

/// With `n` jobs waiting, claims made one after the other hand out
/// distinct jobs to the first `n` claimers and nothing to the rest: each
/// job handed out is then in progress under its claimer's name, no job is
/// handed out twice, and no other row changes.
pub proof fn law_claims_are_exclusive(
    q: QueueState,
    version: ProtocolSemanticVersion,
    claims: Seq<(Seq<char>, u64)>,
)
    requires
        q.wf(),
    ensures
        ({
            let given = rows_given(q, version, claims);
            let after = after_claims(q, version, claims);
            let n = waiting_count(q.rows, version);
            &&& after.wf()
            &&& given.len() == claims.len()
            &&& after.rows.len() == q.rows.len()
            &&& forall|k: int| 0 <= k < claims.len() ==> ((#[trigger] given[k]) is Some <==> k < n)
            &&& forall|k: int|
                0 <= k < claims.len() ==> (#[trigger] given[k] matches Some(i) ==> {
                    &&& 0 <= i < q.rows.len()
                    &&& any_kind(version).admits(q.rows[i])
                    &&& after.rows[i] == claimed(q.rows[i], claims[k].0, claims[k].1)
                })
            &&& forall|k: int, l: int|
                0 <= k < claims.len() && 0 <= l < claims.len() && k != l && (
                #[trigger] given[k]) is Some ==> given[k] != #[trigger] given[l]
            &&& forall|i: int|
                0 <= i < q.rows.len() && !given.contains(Some(i)) ==> #[trigger] after.rows[i]
                    == q.rows[i]
            &&& waiting_count(after.rows, version) == if claims.len() <= n {
                n - claims.len()
            } else {
                0
            }
        }),
    decreases claims.len(),
{
    let n = waiting_count(q.rows, version);
    if claims.len() > 0 {
        let m = claims.len() - 1;
        let earlier = claims.drop_last();
        law_claims_are_exclusive(q, version, earlier);
        let before = after_claims(q, version, earlier);
        let given_before = rows_given(q, version, earlier);
        let target = before.next_job(version);
        let given = rows_given(q, version, claims);
        let after = after_claims(q, version, claims);
        assert(given == given_before.push(target));
        lemma_first_of_some(before.rows, JobOrder::BatchRoundCircuit, any_kind(version));
        lemma_count_positive(before.rows, waiting_rows(version));
        assert forall|k: int| 0 <= k < m implies given[k] == given_before[k] by {}
        match target {
            Some(i) => {
                let taken = claimed(before.rows[i], claims[m].0, claims[m].1);
                lemma_count_after_update(before.rows, waiting_rows(version), i, taken);
                assert(after.rows == before.rows.update(i, taken));
                // The row was not handed out before: it still waited.
                assert forall|k: int| 0 <= k < m implies given[k] != Some(i) by {
                    if given_before[k] == Some(i) {
                        assert(before.rows[i] == claimed(q.rows[i], earlier[k].0, earlier[k].1));
                    }
                }
                assert(!given_before.contains(Some(i)));
                assert(before.rows[i] == q.rows[i]);
                assert forall|k: int|
                    0 <= k < claims.len() implies (#[trigger] given[k] matches Some(j) ==> {
                    &&& 0 <= j < q.rows.len()
                    &&& any_kind(version).admits(q.rows[j])
                    &&& after.rows[j] == claimed(q.rows[j], claims[k].0, claims[k].1)
                }) by {
                    if k < m {
                        assert(given[k] == given_before[k]);
                        assert(earlier[k] == claims[k]);
                    }
                }
                assert forall|j: int|
                    0 <= j < q.rows.len() && !given.contains(Some(j)) implies #[trigger] after.rows[j]
                    == q.rows[j] by {
                    assert(given[m] == Some(i));
                    if given_before.contains(Some(j)) {
                        let k = choose|k: int|
                            0 <= k < given_before.len() && given_before[k] == Some(j);
                        assert(given[k] == Some(j));
                    }
                }
            },
            None => {
                assert(after == before);
                assert forall|k: int|
                    0 <= k < claims.len() implies (#[trigger] given[k] matches Some(j) ==> {
                    &&& 0 <= j < q.rows.len()
                    &&& any_kind(version).admits(q.rows[j])
                    &&& after.rows[j] == claimed(q.rows[j], claims[k].0, claims[k].1)
                }) by {
                    if k < m {
                        assert(given[k] == given_before[k]);
                        assert(earlier[k] == claims[k]);
                    }
                }
                assert forall|j: int|
                    0 <= j < q.rows.len() && !given.contains(Some(j)) implies #[trigger] after.rows[j]
                    == q.rows[j] by {
                    if given_before.contains(Some(j)) {
                        let k = choose|k: int|
                            0 <= k < given_before.len() && given_before[k] == Some(j);
                        assert(given[k] == Some(j));
                    }
                }
            },
        }
    }
}

/// Once a proof is stored for a job, a failure reported for it afterwards
/// changes nothing: the job stays successful.
pub proof fn law_success_outlasts_failure(
    q: QueueState,
    id: nat,
    blob_url: Seq<char>,
    time_taken: u64,
    completed_at: u64,
    error: Seq<char>,
    failed_at: u64,
)
    requires
        q.wf(),
    ensures
        q.complete(id, blob_url, time_taken, completed_at).fail(id, error, failed_at) == q.complete(
            id,
            blob_url,
            time_taken,
            completed_at,
        ),
        index_of_id(q.rows, id) matches Some(i) ==> q.complete(
            id,
            blob_url,
            time_taken,
            completed_at,
        ).fail(id, error, failed_at).rows[i].status == ProverJobStatus::Successful,
{
    let done = q.complete(id, blob_url, time_taken, completed_at);
    match index_of_id(q.rows, id) {
        Some(i) => {
            assert(done.rows[i].id == id);
            assert(distinct_ids(done.rows));
            lemma_index_of_id(done.rows, id, i);
            assert(done.fail(id, error, failed_at).rows =~= done.rows);
        },
        None => {
            assert(done == q);
        },
    }
}

/// A successful job stays successful, and unchanged, under claims,
/// failure reports, stored proofs, statuses set by hand and both kinds
/// of requeue.
pub proof fn law_success_is_final(q: QueueState, i: int)
    requires
        q.wf(),
        0 <= i < q.rows.len(),
        q.rows[i].status == ProverJobStatus::Successful,
    ensures
        forall|target: Option<int>, worker: Seq<char>, now: u64|
            (target matches Some(t) ==> 0 <= t < q.rows.len() && q.rows[t].status
                == ProverJobStatus::Queued) ==> (#[trigger] q.claim_at(target, worker, now)).rows[i]
                == q.rows[i],
        forall|id: nat, error: Seq<char>, now: u64| (#[trigger] q.fail(id, error, now)).rows[i] == q.rows[i],
        forall|id: nat, blob_url: Seq<char>, time_taken: u64, now: u64|
            (#[trigger] q.complete(id, blob_url, time_taken, now)).rows[i] == q.rows[i],
        forall|id: nat, status: ProverJobStatus, now: u64|
            (#[trigger] q.set_status(id, status, now)).rows[i] == q.rows[i],
        forall|timeout: u64, max_attempts: u32, now: u64|
            (#[trigger] q.requeue_stuck(timeout, max_attempts, now)).rows[i] == q.rows[i],
        forall|batch: u32, max_attempts: u32, now: u64|
            (#[trigger] q.requeue_batch(batch, max_attempts, now)).rows[i] == q.rows[i],
{
}

/// The sweep for stuck jobs leaves alone every job that has used up its
/// attempts, and reports none of them.
pub proof fn law_requeue_spares_exhausted(
    q: QueueState,
    timeout: u64,
    max_attempts: u32,
    now: u64,
    i: int,
)
    requires
        q.wf(),
        0 <= i < q.rows.len(),
        q.rows[i].attempts >= max_attempts,
    ensures
        q.requeue_stuck(timeout, max_attempts, now).rows[i] == q.rows[i],
        !q.stuck_jobs(timeout, max_attempts, now).contains(report_of(q.rows[i])),
{
    let pred = stuck_rows(timeout, max_attempts, now);
    let reports = q.stuck_jobs(timeout, max_attempts, now);
    let stuck = q.rows.filter(pred);
    if reports.contains(report_of(q.rows[i])) {
        let k = choose|k: int| 0 <= k < reports.len() && reports[k] == report_of(q.rows[i]);
        q.rows.lemma_filter_pred(pred, k);
        assert(reports[k] == report_of(stuck[k]));
        assert(stuck[k].attempts < max_attempts);
    }
}

/// The sweep for stuck jobs reports a job exactly when it is stuck, and
/// changes no other row.
pub proof fn law_requeue_reports_the_stuck(
    q: QueueState,
    timeout: u64,
    max_attempts: u32,
    now: u64,
    i: int,
)
    requires
        q.wf(),
        0 <= i < q.rows.len(),
    ensures
        is_stuck(q.rows[i], timeout, max_attempts, now) <==> q.stuck_jobs(
            timeout,
            max_attempts,
            now,
        ).contains(report_of(q.rows[i])),
        !is_stuck(q.rows[i], timeout, max_attempts, now) ==> q.requeue_stuck(
            timeout,
            max_attempts,
            now,
        ).rows[i] == q.rows[i],
{
    let pred = stuck_rows(timeout, max_attempts, now);
    let reports = q.stuck_jobs(timeout, max_attempts, now);
    let stuck = q.rows.filter(pred);
    if is_stuck(q.rows[i], timeout, max_attempts, now) {
        q.rows.lemma_filter_contains(pred, i);
        let k = choose|k: int| 0 <= k < stuck.len() && stuck[k] == q.rows[i];
        assert(reports[k] == report_of(q.rows[i]));
    }
    if reports.contains(report_of(q.rows[i])) {
        let k = choose|k: int| 0 <= k < reports.len() && reports[k] == report_of(q.rows[i]);
        q.rows.lemma_filter_pred(pred, k);
        assert(reports[k] == report_of(stuck[k]));
        q.rows.lemma_filter_contains_rev(pred, stuck[k]);
        assert(stuck.contains(stuck[k]));
        assert(q.rows.contains(stuck[k]));
        let j = choose|j: int| 0 <= j < q.rows.len() && q.rows[j] == stuck[k];
        assert(q.rows[j].id == q.rows[i].id);
    }
}

/// Archiving never removes a job whose batch the next stage has not yet
/// taken over, however old the job is.
pub proof fn law_archive_keeps_unconsumed(
    q: QueueState,
    interval: u64,
    now: u64,
    consumed: Seq<u32>,
    i: int,
)
    requires
        0 <= i < q.rows.len(),
        !consumed.contains(q.rows[i].batch),
    ensures
        q.archive_old(interval, now, consumed).rows.contains(q.rows[i]),
{
    let stays = lasting_rows(interval, now, consumed);
    assert(stays(q.rows[i]));
    q.rows.lemma_filter_contains(stays, i);
}

/// Among the winners of the first `n` kinds one comes before all the
/// others, unless there is none.
pub proof fn lemma_best_of_kinds(
    rows: Seq<JobRow>,
    version: ProtocolSemanticVersion,
    kinds: Seq<CircuitIdRoundTuple>,
    n: int,
) -> (best: Option<int>)
    requires
        distinct_ids(rows),
        0 <= n <= kinds.len(),
    ensures
        match best {
            Some(b) => {
                &&& 0 <= b < rows.len()
                &&& is_kind_winner(rows, version, kinds.take(n), b)
                &&& forall|j: int|
                    j != b && #[trigger] is_kind_winner(rows, version, kinds.take(n), j)
                        ==> comes_before(JobOrder::BatchRoundDesc, rows[b], rows[j])
            },
            None => forall|j: int| !is_kind_winner(rows, version, kinds.take(n), j),
        },
    decreases n,
{
    if n == 0 {
        None
    } else {
        let k = n - 1;
        let before = lemma_best_of_kinds(rows, version, kinds, k);
        let filter = of_kind(version, kinds[k]);
        let winner = first_of(rows, JobOrder::BatchOnly, filter);
        lemma_first_of_some(rows, JobOrder::BatchOnly, filter);
        let shorter = kinds.take(k);
        let longer = kinds.take(k + 1);
        assert forall|j: int| #[trigger] is_kind_winner(rows, version, longer, j) implies {
            ||| is_kind_winner(rows, version, shorter, j)
            ||| winner == Some(j)
        } by {
            lemma_kind_winner_step(rows, version, kinds, k, j);
            if is_first(rows, JobOrder::BatchOnly, filter, j) {
                lemma_first_of_is(rows, JobOrder::BatchOnly, filter, j);
            }
        }
        assert forall|j: int| is_kind_winner(rows, version, shorter, j) implies is_kind_winner(
            rows,
            version,
            longer,
            j,
        ) by {
            lemma_kind_winner_grows(rows, version, kinds, k, j);
        }
        let best = match (before, winner) {
            (None, _) => winner,
            (Some(b), None) => before,
            (Some(b), Some(w)) => if comes_before(JobOrder::BatchRoundDesc, rows[w], rows[b]) {
                winner
            } else {
                before
            },
        };
        if let Some(w) = winner {
            lemma_kind_winner_grows(rows, version, kinds, k, w);
        }
        if let Some(top) = best {
            assert forall|j: int|
                j != top && #[trigger] is_kind_winner(
                    rows,
                    version,
                    longer,
                    j,
                ) implies comes_before(JobOrder::BatchRoundDesc, rows[top], rows[j]) by {
                lemma_order_total(JobOrder::BatchRoundDesc, rows[top], rows[j]);
                if let Some(b) = before {
                    if b != j && top != b {
                        lemma_order_transitive(
                            JobOrder::BatchRoundDesc,
                            rows[top],
                            rows[b],
                            rows[j],
                        );
                    }
                }
            }
        }
        best
    }
}

/// A claim restricted to kinds takes a waiting job of the protocol
/// version and of one of the kinds: the one with the earliest batch
/// among its kind, and among such winners of all the kinds the one with
/// the earliest batch, then the highest level, then the lowest id. It
/// takes none only when no job of the version and the kinds waits.
pub proof fn law_restricted_claim_takes_best(
    q: QueueState,
    version: ProtocolSemanticVersion,
    kinds: Seq<CircuitIdRoundTuple>,
)
    requires
        q.wf(),
    ensures
        match q.next_job_of_kinds(version, kinds) {
            Some(i) => {
                &&& 0 <= i < q.rows.len()
                &&& q.rows[i].status == ProverJobStatus::Queued
                &&& q.rows[i].protocol_version == version
                &&& kinds.contains(kind_of(q.rows[i]))
                &&& forall|j: int|
                    0 <= j < q.rows.len() && j != i && (#[trigger] q.rows[j]).status
                        == ProverJobStatus::Queued && q.rows[j].protocol_version == version
                        && kind_of(q.rows[j]) == kind_of(q.rows[i]) ==> {
                        ||| q.rows[i].batch < q.rows[j].batch
                        ||| q.rows[i].batch == q.rows[j].batch && q.rows[i].id < q.rows[j].id
                    }
                &&& forall|j: int|
                    j != i && #[trigger] is_kind_winner(q.rows, version, kinds, j) ==> {
                        let a = q.rows[i];
                        let b = q.rows[j];
                        ||| a.batch < b.batch
                        ||| a.batch == b.batch && a.round.level() > b.round.level()
                        ||| a.batch == b.batch && a.round == b.round && a.id < b.id
                    }
            },
            None => forall|j: int|
                0 <= j < q.rows.len() ==> !((#[trigger] q.rows[j]).status == ProverJobStatus::Queued
                    && q.rows[j].protocol_version == version && kinds.contains(kind_of(q.rows[j]))),
        },
{
    let best = lemma_best_of_kinds(q.rows, version, kinds, kinds.len() as int);
    assert(kinds.take(kinds.len() as int) =~= kinds);
    match best {
        Some(b) => {
            assert(is_first_of_kinds(q.rows, version, kinds, b));
            lemma_first_of_kinds_is(q.rows, version, kinds, b);
            let k = choose|k: int|
                0 <= k < kinds.len() && is_first(
                    q.rows,
                    JobOrder::BatchOnly,
                    of_kind(version, #[trigger] kinds[k]),
                    b,
                );
            let filter = of_kind(version, kinds[k]);
            assert(kinds[k] == kind_of(q.rows[b]));
            assert forall|j: int|
                0 <= j < q.rows.len() && j != b && (#[trigger] q.rows[j]).status
                    == ProverJobStatus::Queued && q.rows[j].protocol_version == version && kind_of(
                    q.rows[j],
                ) == kind_of(q.rows[b]) implies {
                ||| q.rows[b].batch < q.rows[j].batch
                ||| q.rows[b].batch == q.rows[j].batch && q.rows[b].id < q.rows[j].id
            } by {
                assert(filter.admits(q.rows[j]));
            }
        },
        None => {
            assert forall|j: int| !is_first_of_kinds(q.rows, version, kinds, j) by {}
            assert forall|j: int| 0 <= j < q.rows.len() implies !((#[trigger] q.rows[j]).status
                == ProverJobStatus::Queued && q.rows[j].protocol_version == version
                && kinds.contains(kind_of(q.rows[j]))) by {
                if q.rows[j].status == ProverJobStatus::Queued && q.rows[j].protocol_version
                    == version && kinds.contains(kind_of(q.rows[j])) {
                    let k = choose|k: int| 0 <= k < kinds.len() && kinds[k] == kind_of(q.rows[j]);
                    let filter = of_kind(version, kinds[k]);
                    assert(filter.admits(q.rows[j]));
                    lemma_first_of_some(q.rows, JobOrder::BatchOnly, filter);
                    let w = first_of(q.rows, JobOrder::BatchOnly, filter)->Some_0;
                    assert(is_kind_winner(q.rows, version, kinds, w));
                }
            }
        },
    }
}

/// Inserting a job that the table already holds adds no row and gives
/// out no id: it sets that row's time of last change and nothing else.
pub proof fn law_insert_is_idempotent(q: QueueState, row: JobRow, again: JobRow)
    requires
        q.wf(),
        same_key(row, again),
    ensures
        ({
            let once = q.insert(row);
            let twice = once.insert(again);
            &&& twice.wf()
            &&& twice.next_id == once.next_id
            &&& twice.archive == once.archive
            &&& twice.rows.len() == once.rows.len()
            &&& forall|i: int|
                0 <= i < once.rows.len() ==> #[trigger] twice.rows[i] == if same_key(
                    once.rows[i],
                    row,
                ) {
                    JobRow { updated_at: again.updated_at, ..once.rows[i] }
                } else {
                    once.rows[i]
                }
        }),
{
    let once = q.insert(row);
    lemma_insert_wf(q, row);
    lemma_insert_wf(once, again);
    let at = match index_of_key(q.rows, row) {
        Some(i) => i,
        None => q.rows.len() as int,
    };
    assert(same_key(once.rows[at], again));
    lemma_index_of_key(once.rows, again, at);
    assert forall|i: int| 0 <= i < once.rows.len() && i != at implies !same_key(
        #[trigger] once.rows[i],
        row,
    ) by {
        assert(same_key(once.rows[at], row));
        if same_key(once.rows[i], row) {
            assert(same_key(once.rows[i], once.rows[at]));
        }
    }
}

/// No job is lost and no count of attempts falls: claims, failure
/// reports, stored proofs, statuses set by hand and the sweep for stuck
/// jobs keep every row in its place under its id, with as many attempts
/// as before or more.
pub proof fn law_jobs_are_kept(q: QueueState, i: int)
    requires
        q.wf(),
        0 <= i < q.rows.len(),
    ensures
        forall|target: Option<int>, worker: Seq<char>, now: u64|
            (target matches Some(t) ==> 0 <= t < q.rows.len()) ==> {
                let after = #[trigger] q.claim_at(target, worker, now);
                after.rows.len() == q.rows.len() && after.rows[i].id == q.rows[i].id
                    && after.rows[i].attempts >= q.rows[i].attempts
            },
        forall|id: nat, error: Seq<char>, now: u64|
            {
                let after = #[trigger] q.fail(id, error, now);
                after.rows.len() == q.rows.len() && after.rows[i].id == q.rows[i].id
                    && after.rows[i].attempts == q.rows[i].attempts
            },
        forall|id: nat, blob_url: Seq<char>, time_taken: u64, now: u64|
            {
                let after = #[trigger] q.complete(id, blob_url, time_taken, now);
                after.rows.len() == q.rows.len() && after.rows[i].id == q.rows[i].id
                    && after.rows[i].attempts == q.rows[i].attempts
            },
        forall|id: nat, status: ProverJobStatus, now: u64|
            {
                let after = #[trigger] q.set_status(id, status, now);
                after.rows.len() == q.rows.len() && after.rows[i].id == q.rows[i].id
                    && after.rows[i].attempts == q.rows[i].attempts
            },
        forall|timeout: u64, max_attempts: u32, now: u64|
            {
                let after = #[trigger] q.requeue_stuck(timeout, max_attempts, now);
                after.rows.len() == q.rows.len() && after.rows[i].id == q.rows[i].id
                    && after.rows[i].attempts == q.rows[i].attempts
            },
{
}

} // verus!
