//! The ingestion driver: source after source, batch after batch, until the
//! first failure.

use crate::batching::{
    batch_views, batched_until_failure, batches_until_failure, groups_of, lemma_groups_partition,
};
use crate::error::{in_context, Failure, FailureView};
use crate::model::Document;
use crate::sequence::{
    failure_free, lemma_flat_map_prefix, lemma_until_failure, lemma_until_failure_of_stopping,
    lemma_until_failure_prefix, stops_at_failure, successes, until_failure, values,
};
use vstd::seq_lib::lemma_flatten_concat;
use vstd::prelude::*;

verus! {

/// The number of documents that are indexed at once.
pub const BATCH_SIZE: usize = 10;

/// One source of a run and the sequence that it yielded.
#[derive(Debug, PartialEq, Eq)]
pub struct SourceRun {
    pub source_id: String,
    pub fetched: Vec<Result<Document, Failure>>,
}

/// The context that names the source whose sequence failed.
pub open spec fn fetch_context(source_id: Seq<char>) -> Seq<char> {
    "Error occurred while fetching documents from source "@ + source_id
}

/// What the driver does with one batch of a source: it indexes a batch of
/// documents, and aborts the run with a failure, seen from the source.
pub open spec fn step_of(source_id: Seq<char>, batch: Result<Seq<Document>, Failure>) -> Result<
    Seq<Document>,
    FailureView,
> {
    match batch {
        Ok(documents) => Ok(documents),
        Err(failure) => Err(in_context(failure@, fetch_context(source_id))),
    }
}

/// What the driver does for one source: one step for each batch of the
/// sequence that the source yielded.
pub open spec fn run_steps(source_id: Seq<char>, fetched: Seq<Result<Document, Failure>>) -> Seq<
    Result<Seq<Document>, FailureView>,
> {
    batches_until_failure(fetched, BATCH_SIZE as nat).map_values(
        |batch: Result<Seq<Document>, Failure>| step_of(source_id, batch),
    )
}

/// The mathematical value of each step of a list: the documents to index,
/// or the failure that aborts the run.
pub open spec fn step_views(steps: Seq<Result<Vec<Document>, Failure>>) -> Seq<
    Result<Seq<Document>, FailureView>,
> {
    steps.map_values(
        |step: Result<Vec<Document>, Failure>|
            match step {
                Ok(documents) => Ok(documents@),
                Err(failure) => Err(failure@),
            },
    )
}

/// Decides what to do with one batch of a source: a batch of documents is
/// to be indexed as it is; a failure aborts the run, and is reported from
/// the source that it came from.
pub fn on_batch(source_id: &str, batch: Result<Vec<Document>, Failure>) -> (step: Result<
    Vec<Document>,
    Failure,
>)
    ensures
        batch matches Ok(documents) ==> step == Ok::<Vec<Document>, Failure>(documents),
        batch matches Err(failure) ==> step is Err && step->Err_0@ == in_context(
            failure@,
            fetch_context(source_id@),
        ),
{
    match batch {
        Ok(documents) => Ok(documents),
        Err(failure) => {
            let mut context = String::from_str(
                "Error occurred while fetching documents from source ",
            );
            context.append(source_id);
            Err(failure.with_context(context))
        },
    }
}

/// The steps of the driver for one source.
pub fn steps_of(run: SourceRun) -> (steps: Vec<Result<Vec<Document>, Failure>>)
    ensures
        step_views(steps@) == run_steps(run.source_id@, run.fetched@),
        stops_at_failure(step_views(steps@)),
{
    let SourceRun { source_id, fetched } = run;
    let batches = batched_until_failure(fetched, BATCH_SIZE);
    let ghost all = batches@;
    let ghost wanted = run_steps(source_id@, fetched@);
    let mut steps: Vec<Result<Vec<Document>, Failure>> = Vec::new();
    proof {
        assert(step_views(steps@) =~= wanted.take(0));
    }
    for batch in it: batches
        invariant
            it.seq() == all,
            stops_at_failure(all),
            batch_views(all) == batches_until_failure(fetched@, BATCH_SIZE as nat),
            wanted == run_steps(source_id@, fetched@),
            step_views(steps@) == wanted.take(it.index() as int),
    {
        let ghost at = it.index() as int;
        let ghost before = steps@;
        let ghost taken = batch;
        let step = on_batch(source_id.as_str(), batch);
        steps.push(step);
        proof {
            assert(batch_views(all)[at] == match taken {
                Ok(group) => Ok::<Seq<Document>, Failure>(group@),
                Err(failure) => Err(failure),
            });
            assert(step_views(steps@) =~= step_views(before).push(wanted[at]));
            assert(step_views(steps@) =~= wanted.take(at + 1));
        }
    }
    proof {
        assert(wanted.take(all.len() as int) =~= wanted);
        assert forall|i: int| 0 <= i < wanted.len() - 1 implies (#[trigger] wanted[i]) is Ok by {
            assert(all[i] is Ok);
            assert(batch_views(all)[i] is Ok);
        }
    }
    steps
}

/// The steps of a whole run: the steps for each source, in the order of
/// the sources, up to the first failure, which aborts the run.
pub fn ingest(runs: Vec<SourceRun>) -> (steps: Vec<Result<Vec<Document>, Failure>>)
    ensures
        step_views(steps@) == until_failure(all_steps(runs@)),
        stops_at_failure(step_views(steps@)),
{
    let mut steps: Vec<Result<Vec<Document>, Failure>> = Vec::new();
    let ghost all = runs@;
    let ghost each = |run: SourceRun| run_steps(run.source_id@, run.fetched@);
    proof {
        assert(all.take(0) =~= Seq::empty());
        assert(all.take(0).flat_map(each) =~= Seq::empty());
        assert(step_views(steps@) =~= Seq::empty());
    }
    for run in it: runs
        invariant
            it.seq() == all,
            each == |run: SourceRun| run_steps(run.source_id@, run.fetched@),
            step_views(steps@) == all.take(it.index() as int).flat_map(each),
            failure_free(step_views(steps@)),
    {
        let ghost at = it.index() as int;
        let ghost before = steps@;
        let mut part = steps_of(run);
        let ghost added = part@;
        let failed = part.len() > 0 && part[part.len() - 1].is_err();
        steps.append(&mut part);
        proof {
            all.lemma_flat_map_take_append(each, at);
            assert(step_views(steps@) =~= step_views(before) + step_views(added));
            assert(step_views(steps@) =~= all.take(at + 1).flat_map(each));
            if added.len() > 0 {
                assert(step_views(added).last() is Err <==> added.last() is Err);
            }
        }
        if failed {
            proof {
                let seen = all.take(at + 1).flat_map(each);
                assert(seen.last() is Err);
                assert(stops_at_failure(seen));
                lemma_flat_map_prefix(all, each, at + 1);
                lemma_until_failure_prefix(all.flat_map(each), seen);
                lemma_until_failure_of_stopping(seen);
            }
            return steps;
        }
    }
    proof {
        assert(all.take(all.len() as int) =~= all);
        lemma_until_failure(all.flat_map(each));
    }
    steps
}

/// The steps of a whole run, before any failure cuts them short.
pub open spec fn all_steps(runs: Seq<SourceRun>) -> Seq<Result<Seq<Document>, FailureView>> {
    runs.flat_map(|run: SourceRun| run_steps(run.source_id@, run.fetched@))
}

/// The documents that the sources of a run yielded, source after source.
pub open spec fn all_documents(runs: Seq<SourceRun>) -> Seq<Document> {
    runs.flat_map(|run: SourceRun| values(run.fetched@))
}

/// A run in which no source fails indexes every document once, in the
/// order in which the sources yielded them, source after source: its steps
/// are all batches of documents, and the batches laid end to end are the
/// documents of the sources laid end to end.
pub proof fn lemma_ingest_keeps_order(runs: Seq<SourceRun>)
    requires
        forall|r: int| 0 <= r < runs.len() ==> failure_free((#[trigger] runs[r]).fetched@),
    ensures
        until_failure(all_steps(runs)) == all_steps(runs),
        failure_free(all_steps(runs)),
        values(all_steps(runs)).flatten() == all_documents(runs),
    decreases runs.len(),
{
    let each = |run: SourceRun| run_steps(run.source_id@, run.fetched@);
    let yielded = |run: SourceRun| values(run.fetched@);
    if runs.len() == 0 {
        assert(runs.map_values(each) =~= Seq::empty());
        assert(runs.map_values(yielded) =~= Seq::empty());
        assert(all_steps(runs) =~= Seq::empty());
        assert(values(all_steps(runs)) =~= Seq::empty());
        assert(all_documents(runs) =~= Seq::empty());
    } else {
        let earlier = runs.drop_last();
        let last = runs.last();
        assert(runs =~= earlier.push(last));
        assert forall|r: int| 0 <= r < earlier.len() implies failure_free(
            (#[trigger] earlier[r]).fetched@,
        ) by {
            assert(earlier[r] == runs[r]);
        }
        lemma_ingest_keeps_order(earlier);
        earlier.lemma_flat_map_push(each, last);
        earlier.lemma_flat_map_push(yielded, last);
        let documents = values(last.fetched@);
        let groups = groups_of(documents, BATCH_SIZE as nat);
        let steps = run_steps(last.source_id@, last.fetched@);
        lemma_groups_partition(documents, BATCH_SIZE as nat);
        assert(steps =~= successes::<Seq<Document>, FailureView>(groups));
        assert(values(steps) =~= groups);
        assert(all_steps(runs) == all_steps(earlier) + steps);
        assert(values(all_steps(runs)) =~= values(all_steps(earlier)) + groups);
        lemma_flatten_concat(values(all_steps(earlier)), groups);
        assert(failure_free(all_steps(runs)));
    }
    lemma_until_failure(all_steps(runs));
}

} // verus!
