//! Ranking of waiting jobs and choice of the one to hand out next.

use vstd::prelude::*;
use crate::basic_types::{CircuitIdRoundTuple, ProtocolSemanticVersion, ProverJobStatus};
use crate::job_row::{rows_of, JobRow, ProverJobFriInfo};

verus! {

/// A rule by which waiting jobs are ranked. Every rule ends on the row id,
/// so two rows with different ids never rank equal.
#[derive(Clone, Copy, Debug, PartialEq, Eq, Structural)]
pub enum JobOrder {
    /// Earliest batch, then lowest level of the proof tree, then lowest
    /// circuit id, then lowest row id.
    BatchRoundCircuit,
    /// Highest level of the proof tree, then earliest batch, then lowest row id.
    RoundDescBatch,
    /// Earliest batch, then lowest row id.
    BatchOnly,
    /// Earliest batch, then highest level of the proof tree, then lowest row id.
    BatchRoundDesc,
}

/// The tuple by which a rule ranks a row; smaller comes first.
pub open spec fn rank(order: JobOrder, row: JobRow) -> (int, int, int, int) {
    match order {
        JobOrder::BatchRoundCircuit => (
            row.batch as int,
            row.round.level(),
            row.circuit_id as int,
            row.id as int,
        ),
        JobOrder::RoundDescBatch => (-row.round.level(), row.batch as int, row.id as int, 0),
        JobOrder::BatchOnly => (row.batch as int, row.id as int, 0, 0),
        JobOrder::BatchRoundDesc => (row.batch as int, -row.round.level(), row.id as int, 0),
    }
}

/// Lexicographic order on ranks.
pub open spec fn rank_lt(a: (int, int, int, int), b: (int, int, int, int)) -> bool {
    ||| a.0 < b.0
    ||| (a.0 == b.0 && a.1 < b.1)
    ||| (a.0 == b.0 && a.1 == b.1 && a.2 < b.2)
    ||| (a.0 == b.0 && a.1 == b.1 && a.2 == b.2 && a.3 < b.3)
}

/// Row `a` is handed out before row `b` under the rule.
pub open spec fn comes_before(order: JobOrder, a: JobRow, b: JobRow) -> bool {
    rank_lt(rank(order, a), rank(order, b))
}

/// Decides whether row `a` is handed out before row `b` under the rule.
pub fn precedes(order: JobOrder, a: &ProverJobFriInfo, b: &ProverJobFriInfo) -> (before: bool)
    ensures
        before == comes_before(order, a@, b@),
{
    let batch_a: u32 = a.l1_batch_number.0;
    let batch_b: u32 = b.l1_batch_number.0;
    let level_a: u8 = a.aggregation_round.as_u8();
    let level_b: u8 = b.aggregation_round.as_u8();
    match order {
        JobOrder::BatchRoundCircuit => {
            if batch_a != batch_b {
                batch_a < batch_b
            } else if level_a != level_b {
                level_a < level_b
            } else if a.circuit_id != b.circuit_id {
                a.circuit_id < b.circuit_id
            } else {
                a.id < b.id
            }
        },
        JobOrder::RoundDescBatch => {
            if level_a != level_b {
                level_a > level_b
            } else if batch_a != batch_b {
                batch_a < batch_b
            } else {
                a.id < b.id
            }
        },
        JobOrder::BatchOnly => {
            if batch_a != batch_b {
                batch_a < batch_b
            } else {
                a.id < b.id
            }
        },
        JobOrder::BatchRoundDesc => {
            if batch_a != batch_b {
                batch_a < batch_b
            } else if level_a != level_b {
                level_a > level_b
            } else {
                a.id < b.id
            }
        },
    }
}

/// Which waiting jobs a claim may take: those of one protocol version and,
/// if a kind is given, of that circuit and level only.
#[derive(Clone, Copy, Debug, PartialEq, Eq, Structural)]
pub struct JobFilter {
    pub version: ProtocolSemanticVersion,
    pub kind: Option<CircuitIdRoundTuple>,
}

impl JobFilter {
    /// The row waits, is of the filter's protocol version and of its kind.
    pub open spec fn admits(self, row: JobRow) -> bool {
        &&& row.status == ProverJobStatus::Queued
        &&& row.protocol_version == self.version
        &&& match self.kind {
            Some(kind) => row.circuit_id == kind.circuit_id && row.round.level()
                == kind.aggregation_round,
            None => true,
        }
    }

    /// Decides whether the filter admits the row.
    pub fn accepts(&self, row: &ProverJobFriInfo) -> (yes: bool)
        ensures
            yes == self.admits(row@),
    {
        let kind_fits = match self.kind {
            Some(kind) => row.circuit_id == kind.circuit_id && row.aggregation_round.as_u8()
                == kind.aggregation_round,
            None => true,
        };
        row.status == ProverJobStatus::Queued && row.protocol_version.minor == self.version.minor
            && row.protocol_version.patch == self.version.patch && kind_fits
    }
}

/// Row `i` is admitted by the filter and comes before every other admitted row.
pub open spec fn is_first(rows: Seq<JobRow>, order: JobOrder, filter: JobFilter, i: int) -> bool {
    &&& 0 <= i < rows.len()
    &&& filter.admits(rows[i])
    &&& forall|j: int|
        0 <= j < rows.len() && j != i && filter.admits(#[trigger] rows[j]) ==> comes_before(
            order,
            rows[i],
            rows[j],
        )
}

/// The index of the admitted row that comes first, if any row is admitted.
pub open spec fn first_of(rows: Seq<JobRow>, order: JobOrder, filter: JobFilter) -> Option<int> {
    if exists|i: int| is_first(rows, order, filter, i) {
        Some(choose|i: int| is_first(rows, order, filter, i))
    } else {
        None
    }
}

/// No two rows carry the same id.
pub open spec fn distinct_ids(rows: Seq<JobRow>) -> bool {
    forall|i: int, j: int|
        0 <= i < rows.len() && 0 <= j < rows.len() && i != j ==> (#[trigger] rows[i]).id
            != (#[trigger] rows[j]).id
}

/// Of two rows with different ids one comes before the other, never both.
pub proof fn lemma_order_total(order: JobOrder, a: JobRow, b: JobRow)
    ensures
        !(comes_before(order, a, b) && comes_before(order, b, a)),
        a.id != b.id ==> comes_before(order, a, b) || comes_before(order, b, a),
        !comes_before(order, a, a),
{
}

/// The ranking is transitive.
pub proof fn lemma_order_transitive(order: JobOrder, a: JobRow, b: JobRow, c: JobRow)
    requires
        comes_before(order, a, b),
        comes_before(order, b, c),
    ensures
        comes_before(order, a, c),
{
}

/// At most one row comes first.
pub proof fn lemma_first_unique(
    rows: Seq<JobRow>,
    order: JobOrder,
    filter: JobFilter,
    i: int,
    j: int,
)
    requires
        is_first(rows, order, filter, i),
        is_first(rows, order, filter, j),
    ensures
        i == j,
{
    if i != j {
        lemma_order_total(order, rows[i], rows[j]);
    }
}

/// A row that comes first is the one `first_of` names.
pub proof fn lemma_first_of_is(rows: Seq<JobRow>, order: JobOrder, filter: JobFilter, i: int)
    requires
        is_first(rows, order, filter, i),
    ensures
        first_of(rows, order, filter) == Some(i),
{
    let chosen = choose|k: int| is_first(rows, order, filter, k);
    lemma_first_unique(rows, order, filter, i, chosen);
}

/// `first_of` names a row exactly when some row is admitted, and that row comes first.
pub proof fn lemma_first_of_some(rows: Seq<JobRow>, order: JobOrder, filter: JobFilter)
    requires
        distinct_ids(rows),
    ensures
        first_of(rows, order, filter) is Some <==> exists|i: int|
            0 <= i < rows.len() && filter.admits(#[trigger] rows[i]),
        first_of(rows, order, filter) matches Some(i) ==> is_first(rows, order, filter, i),
    decreases rows.len(),
{
    if exists|i: int| 0 <= i < rows.len() && filter.admits(#[trigger] rows[i]) {
        let best = lemma_least_exists(rows, order, filter, rows.len() as int);
        lemma_first_of_is(rows, order, filter, best);
    } else {
        if first_of(rows, order, filter) is Some {
            let i = choose|i: int| is_first(rows, order, filter, i);
            assert(filter.admits(rows[i]));
        }
    }
}

/// Among the first `n` rows, if one is admitted, one admitted row comes
/// before all the others of them.
pub proof fn lemma_least_exists(
    rows: Seq<JobRow>,
    order: JobOrder,
    filter: JobFilter,
    n: int,
) -> (best: int)
    requires
        distinct_ids(rows),
        0 <= n <= rows.len(),
        exists|i: int| 0 <= i < n && filter.admits(#[trigger] rows[i]),
    ensures
        0 <= best < n,
        filter.admits(rows[best]),
        forall|j: int|
            0 <= j < n && j != best && filter.admits(#[trigger] rows[j]) ==> comes_before(
                order,
                rows[best],
                rows[j],
            ),
    decreases n,
{
    let last = n - 1;
    if exists|i: int| 0 <= i < last && filter.admits(#[trigger] rows[i]) {
        let prev = lemma_least_exists(rows, order, filter, last);
        if filter.admits(rows[last]) && comes_before(order, rows[last], rows[prev]) {
            assert forall|j: int|
                0 <= j < n && j != last && filter.admits(#[trigger] rows[j]) implies comes_before(
                order,
                rows[last],
                rows[j],
            ) by {
                if j != prev {
                    lemma_order_transitive(order, rows[last], rows[prev], rows[j]);
                }
            }
            last
        } else {
            if filter.admits(rows[last]) {
                lemma_order_total(order, rows[last], rows[prev]);
            }
            prev
        }
    } else {
        assert(filter.admits(rows[last]));
        last
    }
}

/// The filter of a claim that takes any circuit at any level.
pub open spec fn any_kind(version: ProtocolSemanticVersion) -> JobFilter {
    JobFilter { version, kind: None }
}

/// The filter of a claim that takes one circuit at one level.
pub open spec fn of_kind(version: ProtocolSemanticVersion, kind: CircuitIdRoundTuple) -> JobFilter {
    JobFilter { version, kind: Some(kind) }
}

/// Row `i` is, for one of the wanted kinds, the waiting job of that kind
/// with the earliest batch.
pub open spec fn is_kind_winner(
    rows: Seq<JobRow>,
    version: ProtocolSemanticVersion,
    kinds: Seq<CircuitIdRoundTuple>,
    i: int,
) -> bool {
    exists|k: int|
        0 <= k < kinds.len() && is_first(
            rows,
            JobOrder::BatchOnly,
            of_kind(version, #[trigger] kinds[k]),
            i,
        )
}

/// Row `i` is a kind's winner and comes before the winners of the other
/// kinds: earliest batch, then the level closest to the root of the proof tree.
pub open spec fn is_first_of_kinds(
    rows: Seq<JobRow>,
    version: ProtocolSemanticVersion,
    kinds: Seq<CircuitIdRoundTuple>,
    i: int,
) -> bool {
    &&& is_kind_winner(rows, version, kinds, i)
    &&& forall|j: int|
        j != i && #[trigger] is_kind_winner(rows, version, kinds, j) ==> comes_before(
            JobOrder::BatchRoundDesc,
            rows[i],
            rows[j],
        )
}

/// The index of the row that a claim restricted to the given kinds takes.
pub open spec fn first_of_kinds(
    rows: Seq<JobRow>,
    version: ProtocolSemanticVersion,
    kinds: Seq<CircuitIdRoundTuple>,
) -> Option<int> {
    if exists|i: int| is_first_of_kinds(rows, version, kinds, i) {
        Some(choose|i: int| is_first_of_kinds(rows, version, kinds, i))
    } else {
        None
    }
}

/// At most one row is the first of the kinds' winners.
pub proof fn lemma_first_of_kinds_is(
    rows: Seq<JobRow>,
    version: ProtocolSemanticVersion,
    kinds: Seq<CircuitIdRoundTuple>,
    i: int,
)
    requires
        is_first_of_kinds(rows, version, kinds, i),
    ensures
        first_of_kinds(rows, version, kinds) == Some(i),
{
    let chosen = choose|j: int| is_first_of_kinds(rows, version, kinds, j);
    if chosen != i {
        lemma_order_total(JobOrder::BatchRoundDesc, rows[i], rows[chosen]);
    }
}

/// A winner among the first `k + 1` kinds is a winner among the first `k`
/// or the winner of kind `k`.
pub proof fn lemma_kind_winner_step(
    rows: Seq<JobRow>,
    version: ProtocolSemanticVersion,
    kinds: Seq<CircuitIdRoundTuple>,
    k: int,
    i: int,
)
    requires
        0 <= k < kinds.len(),
        is_kind_winner(rows, version, kinds.take(k + 1), i),
    ensures
        is_kind_winner(rows, version, kinds.take(k), i) || is_first(
            rows,
            JobOrder::BatchOnly,
            of_kind(version, kinds[k]),
            i,
        ),
{
    let longer = kinds.take(k + 1);
    let w = choose|w: int|
        0 <= w < longer.len() && is_first(
            rows,
            JobOrder::BatchOnly,
            of_kind(version, #[trigger] longer[w]),
            i,
        );
    if w < k {
        assert(kinds.take(k)[w] == longer[w]);
    }
}

/// A winner among the first `k` kinds, or of kind `k`, is a winner among
/// the first `k + 1`.
pub proof fn lemma_kind_winner_grows(
    rows: Seq<JobRow>,
    version: ProtocolSemanticVersion,
    kinds: Seq<CircuitIdRoundTuple>,
    k: int,
    i: int,
)
    requires
        0 <= k < kinds.len(),
        is_kind_winner(rows, version, kinds.take(k), i) || is_first(
            rows,
            JobOrder::BatchOnly,
            of_kind(version, kinds[k]),
            i,
        ),
    ensures
        is_kind_winner(rows, version, kinds.take(k + 1), i),
{
    let shorter = kinds.take(k);
    let longer = kinds.take(k + 1);
    if is_kind_winner(rows, version, shorter, i) {
        let w = choose|w: int|
            0 <= w < shorter.len() && is_first(
                rows,
                JobOrder::BatchOnly,
                of_kind(version, #[trigger] shorter[w]),
                i,
            );
        assert(longer[w] == shorter[w]);
    } else {
        assert(longer[k] == kinds[k]);
    }
}

/// Finds the admitted row that comes first under the rule.
pub fn find_first(rows: &Vec<ProverJobFriInfo>, order: JobOrder, filter: JobFilter) -> (found:
    Option<usize>)
    requires
        distinct_ids(rows_of(rows@)),
    ensures
        found matches Some(i) ==> is_first(rows_of(rows@), order, filter, i as int),
        found matches Some(i) ==> first_of(rows_of(rows@), order, filter) == Some(i as int),
        found is None ==> first_of(rows_of(rows@), order, filter) is None,
        found is None ==> forall|i: int|
            0 <= i < rows.len() ==> !filter.admits(#[trigger] rows_of(rows@)[i]),
{
    let ghost view = rows_of(rows@);
    let mut best: Option<usize> = None;
    let mut i: usize = 0;
    while i < rows.len()
        invariant
            0 <= i <= rows.len(),
            view == rows_of(rows@),
            distinct_ids(view),
            best is None ==> forall|j: int| 0 <= j < i ==> !filter.admits(#[trigger] view[j]),
            best matches Some(b) ==> {
                &&& b < i
                &&& filter.admits(view[b as int])
                &&& forall|j: int|
                    0 <= j < i && j != b && filter.admits(#[trigger] view[j]) ==> comes_before(
                        order,
                        view[b as int],
                        view[j],
                    )
            },
        decreases rows.len() - i,
    {
        if filter.accepts(&rows[i]) {
            match best {
                None => {
                    best = Some(i);
                },
                Some(b) => {
                    if precedes(order, &rows[i], &rows[b]) {
                        proof {
                            assert forall|j: int|
                                0 <= j < i + 1 && j != i && filter.admits(
                                    #[trigger] view[j],
                                ) implies comes_before(order, view[i as int], view[j]) by {
                                if j != b {
                                    lemma_order_transitive(
                                        order,
                                        view[i as int],
                                        view[b as int],
                                        view[j],
                                    );
                                }
                            }
                        }
                        best = Some(i);
                    } else {
                        proof {
                            lemma_order_total(order, view[i as int], view[b as int]);
                        }
                    }
                },
            }
        }
        i += 1;
    }
    proof {
        match best {
            Some(b) => {
                lemma_first_of_is(view, order, filter, b as int);
            },
            None => {
                if first_of(view, order, filter) is Some {
                    let k = choose|k: int| is_first(view, order, filter, k);
                    assert(filter.admits(view[k]));
                }
            },
        }
    }
    best
}

/// Finds the row that a claim restricted to the given kinds takes.
pub fn find_first_of_kinds(
    rows: &Vec<ProverJobFriInfo>,
    version: ProtocolSemanticVersion,
    kinds: &[CircuitIdRoundTuple],
) -> (found: Option<usize>)
    requires
        distinct_ids(rows_of(rows@)),
    ensures
        found matches Some(i) ==> i < rows.len() && first_of_kinds(rows_of(rows@), version, kinds@)
            == Some(i as int),
        found is None ==> first_of_kinds(rows_of(rows@), version, kinds@) is None,
{
    let ghost view = rows_of(rows@);
    let mut best: Option<usize> = None;
    let mut k: usize = 0;
    while k < kinds.len()
        invariant
            0 <= k <= kinds.len(),
            view == rows_of(rows@),
            distinct_ids(view),
            best is None ==> forall|j: int| !is_kind_winner(view, version, kinds@.take(k as int), j),
            best matches Some(b) ==> {
                &&& b < rows.len()
                &&& is_kind_winner(view, version, kinds@.take(k as int), b as int)
                &&& forall|j: int|
                    j != b && #[trigger] is_kind_winner(view, version, kinds@.take(k as int), j)
                        ==> comes_before(JobOrder::BatchRoundDesc, view[b as int], view[j])
            },
        decreases kinds.len() - k,
    {
        let filter = JobFilter { version, kind: Some(kinds[k]) };
        let winner = find_first(rows, JobOrder::BatchOnly, filter);
        let ghost before = best;
        match winner {
            None => {},
            Some(w) => {
                match best {
                    None => {
                        best = Some(w);
                    },
                    Some(b) => {
                        if precedes(JobOrder::BatchRoundDesc, &rows[w], &rows[b]) {
                            best = Some(w);
                        }
                    },
                }
            },
        }
        proof {
            let shorter = kinds@.take(k as int);
            let longer = kinds@.take(k as int + 1);
            assert(filter == of_kind(version, kinds@[k as int]));
            assert forall|j: int| #[trigger] is_kind_winner(view, version, longer, j) implies {
                ||| is_kind_winner(view, version, shorter, j)
                ||| winner == Some(j as usize) && 0 <= j < rows.len()
            } by {
                lemma_kind_winner_step(view, version, kinds@, k as int, j);
                if is_first(view, JobOrder::BatchOnly, filter, j) {
                    lemma_first_of_is(view, JobOrder::BatchOnly, filter, j);
                }
            }
            assert forall|j: int| is_kind_winner(view, version, shorter, j) implies is_kind_winner(
                view,
                version,
                longer,
                j,
            ) by {
                lemma_kind_winner_grows(view, version, kinds@, k as int, j);
            }
            if let Some(w) = winner {
                lemma_kind_winner_grows(view, version, kinds@, k as int, w as int);
            }
            if let Some(n) = best {
                assert forall|j: int|
                    j != n && #[trigger] is_kind_winner(
                        view,
                        version,
                        longer,
                        j,
                    ) implies comes_before(JobOrder::BatchRoundDesc, view[n as int], view[j]) by {
                    lemma_order_total(JobOrder::BatchRoundDesc, view[n as int], view[j]);
                    if let Some(b) = before {
                        if b != j && n != b {
                            lemma_order_transitive(
                                JobOrder::BatchRoundDesc,
                                view[n as int],
                                view[b as int],
                                view[j],
                            );
                        }
                    }
                }
            }
        }
        k += 1;
    }
    proof {
        assert(kinds@.take(k as int) =~= kinds@);
        match best {
            Some(b) => {
                lemma_first_of_kinds_is(view, version, kinds@, b as int);
            },
            None => {
                if first_of_kinds(view, version, kinds@) is Some {
                    let j = choose|j: int| is_first_of_kinds(view, version, kinds@, j);
                    assert(is_kind_winner(view, version, kinds@, j));
                }
            },
        }
    }
    best
}

} // verus!
