//! How filtering and mapping a sequence go on by one element.

use vstd::prelude::*;

verus! {

/// Filtering one element more keeps or drops that element.
pub proof fn lemma_filter_step<A>(s: Seq<A>, pred: spec_fn(A) -> bool, i: int)
    requires
        0 <= i < s.len(),
    ensures
        s.take(i + 1).filter(pred) == if pred(s[i]) {
            s.take(i).filter(pred).push(s[i])
        } else {
            s.take(i).filter(pred)
        },
{
    s.lemma_take_succ_push(i);
    assert(s.take(i + 1) == s.take(i).push(s[i]));
    s.take(i).lemma_filter_push(s[i], pred);
}

/// Filtering then mapping one element more appends that element's image
/// or nothing.
pub proof fn lemma_filter_map_step<A, B>(
    s: Seq<A>,
    pred: spec_fn(A) -> bool,
    f: spec_fn(A) -> B,
    i: int,
)
    requires
        0 <= i < s.len(),
    ensures
        s.take(i + 1).filter(pred).map_values(f) == if pred(s[i]) {
            s.take(i).filter(pred).map_values(f).push(f(s[i]))
        } else {
            s.take(i).filter(pred).map_values(f)
        },
{
    lemma_filter_step(s, pred, i);
    if pred(s[i]) {
        s.take(i).filter(pred).lemma_push_map_commute(f, s[i]);
    }
}

/// Filtering nothing gives nothing, and filtering all of it is filtering it.
pub proof fn lemma_filter_ends<A>(s: Seq<A>, pred: spec_fn(A) -> bool)
    ensures
        s.take(0).filter(pred) == Seq::<A>::empty(),
        s.take(s.len() as int) == s,
{
    reveal(Seq::filter);
    assert(s.take(0) =~= Seq::<A>::empty());
    assert(s.take(s.len() as int) =~= s);
}

/// The first element that a filter keeps is the first one that satisfies
/// the predicate.
pub proof fn lemma_filter_first<A>(s: Seq<A>, pred: spec_fn(A) -> bool, i: int)
    requires
        0 <= i < s.len(),
        pred(s[i]),
        forall|j: int| 0 <= j < i ==> !pred(#[trigger] s[j]),
    ensures
        s.filter(pred).len() > 0,
        s.filter(pred)[0] == s[i],
{
    let head = s.take(i);
    let rest = s.skip(i);
    assert(s =~= head + rest);
    Seq::filter_distributes_over_add(head, rest, pred);
    lemma_filter_none(head, pred);
    assert(head.filter(pred) =~= Seq::<A>::empty());
    assert(s.filter(pred) =~= rest.filter(pred));
    let one = rest.take(1);
    let tail = rest.skip(1);
    assert(rest =~= one + tail);
    Seq::filter_distributes_over_add(one, tail, pred);
    lemma_filter_step(rest, pred, 0);
    lemma_filter_ends(rest, pred);
    assert(one.filter(pred) =~= seq![s[i]]);
}

/// A filter that keeps nothing: no element satisfies the predicate.
pub proof fn lemma_filter_none<A>(s: Seq<A>, pred: spec_fn(A) -> bool)
    requires
        forall|j: int| 0 <= j < s.len() ==> !pred(#[trigger] s[j]),
    ensures
        s.filter(pred).len() == 0,
    decreases s.len(),
{
    reveal(Seq::filter);
    if s.len() > 0 {
        let shorter = s.drop_last();
        assert forall|j: int| 0 <= j < shorter.len() implies !pred(#[trigger] shorter[j]) by {
            assert(shorter[j] == s[j]);
        }
        lemma_filter_none(shorter, pred);
    }
}

} // verus!
