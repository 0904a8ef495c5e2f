//! Sequences of outcomes: the items a source yields, each either a value or
//! a failure, and what it means for such a sequence to stop at its first
//! failure.

use vstd::prelude::*;

verus! {

/// No outcome of the sequence is a failure.
pub open spec fn failure_free<T, E>(outcomes: Seq<Result<T, E>>) -> bool {
    forall|i: int| 0 <= i < outcomes.len() ==> (#[trigger] outcomes[i]) is Ok
}

/// The outcome at `at` is a failure and none before it is.
pub open spec fn first_failure_at<T, E>(outcomes: Seq<Result<T, E>>, at: int) -> bool {
    &&& 0 <= at < outcomes.len()
    &&& outcomes[at] is Err
    &&& failure_free(outcomes.take(at))
}

/// The values of a sequence of outcomes, position by position. It is meant
/// for sequences without failures.
pub open spec fn values<T, E>(outcomes: Seq<Result<T, E>>) -> Seq<T> {
    outcomes.map_values(|outcome: Result<T, E>| outcome->Ok_0)
}

/// Each value as an outcome.
pub open spec fn successes<T, E>(items: Seq<T>) -> Seq<Result<T, E>> {
    items.map_values(|item: T| Ok::<T, E>(item))
}

/// A failure ends the sequence: nothing follows it.
pub open spec fn stops_at_failure<T, E>(outcomes: Seq<Result<T, E>>) -> bool {
    forall|i: int| 0 <= i < outcomes.len() - 1 ==> (#[trigger] outcomes[i]) is Ok
}

/// A sequence either has no failure or has exactly one first failure.
pub proof fn lemma_failure_free_or_first_failure<T, E>(outcomes: Seq<Result<T, E>>)
    ensures
        failure_free(outcomes) || exists|at: int| first_failure_at(outcomes, at),
        forall|a: int, b: int|
            first_failure_at(outcomes, a) && first_failure_at(outcomes, b) ==> a == b,
        forall|at: int| first_failure_at(outcomes, at) ==> !failure_free(outcomes),
    decreases outcomes.len(),
{
    if !failure_free(outcomes) {
        let bad = choose|i: int| 0 <= i < outcomes.len() && !((#[trigger] outcomes[i]) is Ok);
        let before = outcomes.take(bad);
        lemma_failure_free_or_first_failure(before);
        if failure_free(before) {
            assert(first_failure_at(outcomes, bad));
        } else {
            let at = choose|at: int| first_failure_at(before, at);
            assert(before.take(at) =~= outcomes.take(at));
            assert(first_failure_at(outcomes, at));
        }
    }
    assert forall|a: int, b: int|
        first_failure_at(outcomes, a) && first_failure_at(outcomes, b) implies a == b by {
        if a < b {
            assert(outcomes.take(b)[a] == outcomes[a]);
        }
        if b < a {
            assert(outcomes.take(a)[b] == outcomes[b]);
        }
    }
}

/// The sequence as a consumer sees it who stops at the first failure: the
/// outcomes up to that failure, the failure being the last.
pub open spec fn until_failure<T, E>(outcomes: Seq<Result<T, E>>) -> Seq<Result<T, E>>
    decreases outcomes.len(),
{
    if outcomes.len() == 0 {
        outcomes
    } else {
        let before = until_failure(outcomes.drop_last());
        if failure_free(before) {
            before.push(outcomes.last())
        } else {
            before
        }
    }
}

/// What [`until_failure`] keeps: everything where nothing fails, and else
/// the outcomes up to the first failure. What it keeps stops at a failure.
pub proof fn lemma_until_failure<T, E>(outcomes: Seq<Result<T, E>>)
    ensures
        stops_at_failure(until_failure(outcomes)),
        failure_free(outcomes) ==> until_failure(outcomes) == outcomes,
        forall|at: int| #[trigger]
            first_failure_at(outcomes, at) ==> until_failure(outcomes) == outcomes.take(at + 1),
    decreases outcomes.len(),
{
    if outcomes.len() > 0 {
        let shorter = outcomes.drop_last();
        let kept = until_failure(shorter);
        lemma_until_failure(shorter);
        lemma_failure_free_or_first_failure(shorter);
        if failure_free(shorter) {
            assert(kept.push(outcomes.last()) =~= outcomes);
            assert forall|at: int| #[trigger]
                first_failure_at(outcomes, at) implies until_failure(outcomes) == outcomes.take(
                at + 1,
            ) by {
                if at < outcomes.len() - 1 {
                    assert(shorter[at] == outcomes[at]);
                }
                assert(outcomes.take(at + 1) =~= outcomes);
            }
        } else {
            let stop = choose|at: int| first_failure_at(shorter, at);
            assert(kept == shorter.take(stop + 1));
            assert(kept[stop] == shorter[stop]);
            assert(!failure_free(kept));
            assert(shorter[stop] == outcomes[stop]);
            assert forall|at: int| #[trigger]
                first_failure_at(outcomes, at) implies until_failure(outcomes) == outcomes.take(
                at + 1,
            ) by {
                if at == outcomes.len() - 1 {
                    assert(outcomes.take(at) =~= shorter);
                }
                assert(shorter.take(at) =~= outcomes.take(at));
                assert(first_failure_at(shorter, at));
                assert(shorter.take(at + 1) =~= outcomes.take(at + 1));
            }
        }
    }
}

/// Once a failure is kept, nothing that follows is.
pub proof fn lemma_until_failure_stays<T, E>(outcomes: Seq<Result<T, E>>, seen: int)
    requires
        0 <= seen <= outcomes.len(),
        !failure_free(until_failure(outcomes.take(seen))),
    ensures
        until_failure(outcomes) == until_failure(outcomes.take(seen)),
    decreases outcomes.len() - seen,
{
    if seen < outcomes.len() {
        let next = outcomes.take(seen + 1);
        assert(next.drop_last() =~= outcomes.take(seen));
        lemma_until_failure_stays(outcomes, seen + 1);
    } else {
        assert(outcomes.take(seen) =~= outcomes);
    }
}

/// A sequence that stops at a failure is seen whole.
pub proof fn lemma_until_failure_of_stopping<T, E>(outcomes: Seq<Result<T, E>>)
    requires
        stops_at_failure(outcomes),
    ensures
        until_failure(outcomes) == outcomes,
{
    lemma_until_failure(outcomes);
    if !failure_free(outcomes) {
        let last = outcomes.len() - 1;
        assert(first_failure_at(outcomes, last));
        assert(outcomes.take(last + 1) =~= outcomes);
    }
}

/// What follows a failure does not change what is seen: a sequence that
/// begins with a failing part is seen as that part is.
pub proof fn lemma_until_failure_prefix<T, E>(
    whole: Seq<Result<T, E>>,
    part: Seq<Result<T, E>>,
)
    requires
        part.len() <= whole.len(),
        whole.take(part.len() as int) == part,
        !failure_free(part),
    ensures
        until_failure(whole) == until_failure(part),
{
    lemma_until_failure(part);
    lemma_failure_free_or_first_failure(part);
    let at = choose|at: int| first_failure_at(part, at);
    assert(until_failure(part)[at] == part[at]);
    lemma_until_failure_stays(whole, part.len() as int);
}

/// Filtering and mapping the first `upto` items of a sequence gives the
/// beginning of what the whole sequence gives.
pub proof fn lemma_filter_map_prefix<A, B>(items: Seq<A>, f: spec_fn(A) -> Option<B>, upto: int)
    requires
        0 <= upto <= items.len(),
    ensures
        items.take(upto).filter_map(f).len() <= items.filter_map(f).len(),
        items.filter_map(f).take(items.take(upto).filter_map(f).len() as int)
            == items.take(upto).filter_map(f),
    decreases items.len() - upto,
{
    if upto == items.len() {
        assert(items.take(upto) =~= items);
        assert(items.filter_map(f).take(items.filter_map(f).len() as int) =~= items.filter_map(f));
    } else {
        lemma_filter_map_prefix(items, f, upto + 1);
        items.lemma_filter_map_take_succ(f, upto);
        let shorter = items.take(upto).filter_map(f);
        let longer = items.take(upto + 1).filter_map(f);
        assert(longer.take(shorter.len() as int) =~= shorter);
        assert(items.filter_map(f).take(shorter.len() as int) =~= items.filter_map(f).take(
            longer.len() as int,
        ).take(shorter.len() as int));
    }
}

/// Filtering and mapping keeps the image of every item that has one.
pub proof fn lemma_filter_map_keeps<A, B>(items: Seq<A>, f: spec_fn(A) -> Option<B>, at: int)
    requires
        0 <= at < items.len(),
        f(items[at]) is Some,
    ensures
        items.filter_map(f).contains(f(items[at])->0),
    decreases items.len(),
{
    let kept = items.filter_map(f);
    let shorter = items.drop_last();
    if at == items.len() - 1 {
        assert(kept[kept.len() - 1] == f(items[at])->0);
    } else {
        lemma_filter_map_keeps(shorter, f, at);
        let found = choose|k: int| 0 <= k < shorter.filter_map(f).len() && shorter.filter_map(f)[k]
            == f(items[at])->0;
        assert(kept[found] == f(items[at])->0);
    }
}

/// Mapping the first `upto` items of a sequence to sequences and laying
/// them end to end gives the beginning of what the whole sequence gives.
pub proof fn lemma_flat_map_prefix<A, B>(items: Seq<A>, f: spec_fn(A) -> Seq<B>, upto: int)
    requires
        0 <= upto <= items.len(),
    ensures
        items.take(upto).flat_map(f).len() <= items.flat_map(f).len(),
        items.flat_map(f).take(items.take(upto).flat_map(f).len() as int) == items.take(
            upto,
        ).flat_map(f),
    decreases items.len() - upto,
{
    if upto == items.len() {
        assert(items.take(upto) =~= items);
        assert(items.flat_map(f).take(items.flat_map(f).len() as int) =~= items.flat_map(f));
    } else {
        lemma_flat_map_prefix(items, f, upto + 1);
        items.lemma_flat_map_take_append(f, upto);
        let shorter = items.take(upto).flat_map(f);
        let longer = items.take(upto + 1).flat_map(f);
        assert(longer.take(shorter.len() as int) =~= shorter);
        assert(items.flat_map(f).take(shorter.len() as int) =~= items.flat_map(f).take(
            longer.len() as int,
        ).take(shorter.len() as int));
    }
}

/// The mathematical value of each outcome of a sequence.
pub open spec fn outcome_views<T: View, E: View>(outcomes: Seq<Result<T, E>>) -> Seq<
    Result<T::V, E::V>,
> {
    outcomes.map_values(
        |outcome: Result<T, E>|
            match outcome {
                Ok(value) => Ok(value@),
                Err(failure) => Err(failure@),
            },
    )
}

/// Cuts a sequence of outcomes behind its first failure, and says whether
/// there was one.
pub fn stop_at_failure<T, E>(outcomes: Vec<Result<T, E>>) -> (cut: (Vec<Result<T, E>>, bool))
    ensures
        cut.0@ == until_failure(outcomes@),
        cut.1 == !failure_free(outcomes@),
{
    let mut kept: Vec<Result<T, E>> = Vec::new();
    let ghost all = outcomes@;
    proof {
        assert(all.take(0) =~= kept@);
    }
    for outcome in it: outcomes
        invariant
            it.seq() == all,
            kept@ == all.take(it.index() as int),
            failure_free(kept@),
    {
        let ghost at = it.index() as int;
        let failed = outcome.is_err();
        kept.push(outcome);
        proof {
            assert(kept@ =~= all.take(at + 1));
        }
        if failed {
            proof {
                assert(kept@[at] is Err);
                assert(kept@.take(at) =~= all.take(at));
                lemma_until_failure_of_stopping(kept@);
                lemma_until_failure_prefix(all, kept@);
                assert(all[at] == kept@[at]);
            }
            return (kept, true);
        }
    }
    proof {
        assert(all.take(all.len() as int) =~= all);
        lemma_until_failure(all);
    }
    (kept, false)
}

/// Gathers the values of a sequence of outcomes, or gives its first failure.
pub fn collect<T, E>(outcomes: Vec<Result<T, E>>) -> (gathered: Result<Vec<T>, E>)
    ensures
        failure_free(outcomes@) ==> gathered is Ok && gathered->Ok_0@ == values(outcomes@),
        forall|at: int| #[trigger]
            first_failure_at(outcomes@, at) ==> gathered == Err::<Vec<T>, E>(outcomes@[at]->Err_0),
{
    let mut gathered: Vec<T> = Vec::new();
    let ghost all = outcomes@;
    for outcome in it: outcomes
        invariant
            it.seq() == all,
            failure_free(all.take(it.index() as int)),
            gathered@ == values(all.take(it.index() as int)),
    {
        let ghost at = it.index() as int;
        match outcome {
            Ok(value) => {
                proof {
                    assert(all.take(at + 1) =~= all.take(at).push(outcome));
                    assert(values(all.take(at + 1)) =~= values(all.take(at)).push(value));
                }
                gathered.push(value);
            },
            Err(failure) => {
                proof {
                    lemma_failure_free_or_first_failure(all);
                    assert(first_failure_at(all, at));
                }
                return Err(failure);
            },
        }
    }
    proof {
        assert(all.take(all.len() as int) =~= all);
        lemma_failure_free_or_first_failure(all);
    }
    Ok(gathered)
}

} // verus!
