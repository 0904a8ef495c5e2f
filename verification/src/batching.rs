//! Regrouping a sequence into batches of a fixed size.

use crate::sequence::{
    failure_free, first_failure_at, lemma_until_failure, stops_at_failure, successes,
    until_failure, values,
};
use vstd::prelude::*;

verus! {

/// The batches of `items`: consecutive runs of `size` items, taken from the
/// front, the last run holding what is left.
pub open spec fn groups_of<T>(items: Seq<T>, size: nat) -> Seq<Seq<T>>
    decreases items.len(),
{
    if size == 0 || items.len() == 0 {
        Seq::empty()
    } else if items.len() <= size {
        seq![items]
    } else {
        seq![items.take(size as int)] + groups_of(items.skip(size as int), size)
    }
}

/// The contents of each batch of a list of batches.
pub open spec fn group_views<T>(groups: Seq<Vec<T>>) -> Seq<Seq<T>> {
    groups.map_values(|group: Vec<T>| group@)
}

/// The full batches of `items`: as [`groups_of`], without a last batch that
/// holds fewer than `size` items.
pub open spec fn full_groups_of<T>(items: Seq<T>, size: nat) -> Seq<Seq<T>>
    decreases items.len(),
{
    if size == 0 || items.len() < size {
        Seq::empty()
    } else {
        seq![items.take(size as int)] + full_groups_of(items.skip(size as int), size)
    }
}

/// The contents of each batch of a list of batches that may end in a failure.
pub open spec fn batch_views<T, E>(batches: Seq<Result<Vec<T>, E>>) -> Seq<Result<Seq<T>, E>> {
    batches.map_values(
        |batch: Result<Vec<T>, E>|
            match batch {
                Ok(group) => Ok(group@),
                Err(failure) => Err(failure),
            },
    )
}

/// The batches of a sequence that may fail. Without a failure they are the
/// batches of its values. With one, they are the full batches of the
/// values before the first failure, and then that failure: the values that
/// filled no batch are dropped.
pub open spec fn batches_until_failure<T, E>(items: Seq<Result<T, E>>, size: nat) -> Seq<
    Result<Seq<T>, E>,
> {
    if failure_free(items) {
        successes(groups_of(values(items), size))
    } else {
        let seen = until_failure(items);
        successes::<Seq<T>, E>(full_groups_of(values(seen.drop_last()), size)).push(
            Err(seen.last()->Err_0),
        )
    }
}

/// A full first batch can be split off: the batches of what follows are
/// those of the rest.
pub proof fn lemma_groups_of_split<T>(first: Seq<T>, rest: Seq<T>, size: nat)
    requires
        size > 0,
        first.len() == size,
    ensures
        groups_of(first + rest, size) == seq![first] + groups_of(rest, size),
{
    let all = first + rest;
    if rest.len() == 0 {
        assert(all =~= first);
        assert(seq![first] + groups_of(rest, size) =~= seq![first]);
    } else {
        assert(all.take(size as int) =~= first);
        assert(all.skip(size as int) =~= rest);
    }
}

/// Batching loses nothing and keeps the order: the batches, laid end to
/// end, are the items. Every batch but the last holds exactly `size` items,
/// the last holds between one and `size`, and no items give no batch.
pub proof fn lemma_groups_partition<T>(items: Seq<T>, size: nat)
    requires
        size > 0,
    ensures
        groups_of(items, size).flatten() == items,
        forall|g: int|
            0 <= g < groups_of(items, size).len() - 1 ==> (#[trigger] groups_of(items, size)[g]).len()
                == size,
        groups_of(items, size).len() > 0 ==> 1 <= groups_of(items, size).last().len() <= size,
        items.len() == 0 <==> groups_of(items, size).len() == 0,
    decreases items.len(),
{
    let groups = groups_of(items, size);
    if items.len() == 0 {
        assert(groups.flatten() =~= items);
    } else if items.len() <= size {
        assert(groups.drop_first() =~= Seq::<Seq<T>>::empty());
        assert(groups.drop_first().flatten() =~= Seq::<T>::empty());
        assert(groups.flatten() =~= items);
    } else {
        let head = items.take(size as int);
        let tail = items.skip(size as int);
        lemma_groups_partition(tail, size);
        let later = groups_of(tail, size);
        assert(groups.first() == head);
        assert(groups.drop_first() =~= later);
        assert(groups.flatten() =~= items);
        assert forall|g: int| 0 <= g < groups.len() - 1 implies (#[trigger] groups[g]).len()
            == size by {
            if g > 0 {
                assert(groups[g] == later[g - 1]);
            }
        }
        assert(groups.last() == later.last());
    }
}

/// Batches are determined by their sizes: full batches followed by fewer
/// than `size` items are the batches of all those items laid end to end.
pub proof fn lemma_groups_from_parts<T>(full: Seq<Seq<T>>, rest: Seq<T>, size: nat)
    requires
        size > 0,
        forall|g: int| 0 <= g < full.len() ==> (#[trigger] full[g]).len() == size,
        rest.len() < size,
    ensures
        full_groups_of(full.flatten() + rest, size) == full,
        groups_of(full.flatten() + rest, size) == if rest.len() == 0 {
            full
        } else {
            full.push(rest)
        },
    decreases full.len(),
{
    if full.len() == 0 {
        assert(full.flatten() + rest =~= rest);
        assert(full.push(rest) =~= seq![rest]);
        assert(full =~= Seq::<Seq<T>>::empty());
    } else {
        let head = full.first();
        let later = full.drop_first();
        let tail = later.flatten() + rest;
        lemma_groups_from_parts(later, rest, size);
        assert(full.flatten() + rest =~= head + tail);
        lemma_groups_of_split(head, tail, size);
        assert((head + tail).take(size as int) =~= head);
        assert((head + tail).skip(size as int) =~= tail);
        assert(seq![head] + later =~= full);
        assert(seq![head] + later.push(rest) =~= full.push(rest));
    }
}

/// Collects items until a batch is full and hands each full batch out.
pub struct Batcher<T> {
    size: usize,
    pending: Vec<T>,
}

impl<T> Batcher<T> {
    /// The number of items in a full batch.
    pub closed spec fn size(&self) -> nat {
        self.size as nat
    }

    /// The items taken in since the last batch was handed out.
    pub closed spec fn pending(&self) -> Seq<T> {
        self.pending@
    }

    /// A batcher never holds a full batch: it hands it out at once.
    pub open spec fn wf(&self) -> bool {
        self.pending().len() < self.size()
    }

    /// A batcher for batches of `size` items, holding nothing yet.
    pub fn new(size: usize) -> (batcher: Self)
        requires
            size > 0,
        ensures
            batcher.wf(),
            batcher.size() == size,
            batcher.pending() == Seq::<T>::empty(),
    {
        Batcher { size, pending: Vec::new() }
    }

    /// Takes one more item. When it completes a batch, the batch is handed
    /// out and the batcher is empty again.
    pub fn push(&mut self, item: T) -> (full: Option<Vec<T>>)
        requires
            old(self).wf(),
        ensures
            final(self).wf(),
            final(self).size() == old(self).size(),
            old(self).pending().len() + 1 < old(self).size() ==> full is None
                && final(self).pending() == old(self).pending().push(item),
            old(self).pending().len() + 1 == old(self).size() ==> full is Some
                && full->0@ == old(self).pending().push(item)
                && final(self).pending() == Seq::<T>::empty(),
    {
        self.pending.push(item);
        if self.pending.len() >= self.size {
            let mut full: Vec<T> = Vec::new();
            std::mem::swap(&mut self.pending, &mut full);
            Some(full)
        } else {
            None
        }
    }

    /// Ends the sequence: hands out what is left, if anything is.
    pub fn flush(&mut self) -> (rest: Option<Vec<T>>)
        requires
            old(self).wf(),
        ensures
            final(self).wf(),
            final(self).size() == old(self).size(),
            final(self).pending() == Seq::<T>::empty(),
            old(self).pending().len() == 0 ==> rest is None,
            old(self).pending().len() > 0 ==> rest is Some && rest->0@ == old(self).pending(),
    {
        if self.pending.len() == 0 {
            None
        } else {
            let mut rest: Vec<T> = Vec::new();
            std::mem::swap(&mut self.pending, &mut rest);
            Some(rest)
        }
    }

    /// Answers one pull from the source. It returns what goes downstream, if
    /// anything does, and whether the sequence of batches is over.
    ///
    /// An item is taken in, and goes downstream with its batch once that is
    /// full. A failure goes downstream at once and ends the sequence; the
    /// items held back are dropped. The end of the source sends what is held
    /// back and ends the sequence.
    pub fn on_pulled<E>(&mut self, pulled: Option<Result<T, E>>) -> (step: (
        Option<Result<Vec<T>, E>>,
        bool,
    ))
        requires
            old(self).wf(),
        ensures
            final(self).wf(),
            final(self).size() == old(self).size(),
            match pulled {
                Some(Ok(item)) => {
                    &&& !step.1
                    &&& old(self).pending().len() + 1 < old(self).size() ==> step.0 is None
                        && final(self).pending() == old(self).pending().push(item)
                    &&& old(self).pending().len() + 1 == old(self).size() ==> step.0 is Some
                        && step.0->0 is Ok && step.0->0->Ok_0@ == old(self).pending().push(item)
                        && final(self).pending() == Seq::<T>::empty()
                },
                Some(Err(failure)) => {
                    &&& step.1
                    &&& step.0 == Some(Err::<Vec<T>, E>(failure))
                    &&& final(self).pending() == Seq::<T>::empty()
                },
                None => {
                    &&& step.1
                    &&& final(self).pending() == Seq::<T>::empty()
                    &&& old(self).pending().len() == 0 ==> step.0 is None
                    &&& old(self).pending().len() > 0 ==> step.0 is Some && step.0->0 is Ok
                        && step.0->0->Ok_0@ == old(self).pending()
                },
            },
    {
        match pulled {
            Some(Ok(item)) => {
                match self.push(item) {
                    Some(full) => (Some(Ok(full)), false),
                    None => (None, false),
                }
            },
            Some(Err(failure)) => {
                self.pending = Vec::new();
                (Some(Err(failure)), true)
            },
            None => {
                match self.flush() {
                    Some(rest) => (Some(Ok(rest)), true),
                    None => (None, true),
                }
            },
        }
    }
}

/// Regroups `items` into batches of `size`, in order: the batches, laid
/// end to end, are the items; every batch but the last holds `size` items,
/// and the last holds between one and `size`.
pub fn batched<T>(items: Vec<T>, size: usize) -> (groups: Vec<Vec<T>>)
    requires
        size > 0,
    ensures
        group_views(groups@) == groups_of(items@, size as nat),
        group_views(groups@).flatten() == items@,
        forall|g: int| 0 <= g < groups@.len() - 1 ==> (#[trigger] groups@[g])@.len() == size,
        groups@.len() > 0 ==> 1 <= groups@.last()@.len() <= size,
        items@.len() == 0 <==> groups@.len() == 0,
{
    let mut groups: Vec<Vec<T>> = Vec::new();
    let mut batcher: Batcher<T> = Batcher::new(size);
    let ghost all = items@;
    proof {
        assert(batcher.pending() + all.skip(0) =~= all);
        assert(group_views(groups@) + groups_of(all, size as nat) =~= groups_of(all, size as nat));
    }
    for item in it: items
        invariant
            it.seq() == all,
            batcher.wf(),
            batcher.size() == size,
            size > 0,
            group_views(groups@) + groups_of(
                batcher.pending() + all.skip(it.index() as int),
                size as nat,
            ) == groups_of(all, size as nat),
    {
        let ghost before = batcher.pending();
        let ghost done = group_views(groups@);
        let ghost later = all.skip(it.index() + 1);
        assert(before + all.skip(it.index() as int) =~= before.push(item) + later);
        match batcher.push(item) {
            Some(full) => {
                proof {
                    lemma_groups_of_split(full@, later, size as nat);
                    assert(batcher.pending() + later =~= later);
                    assert(group_views(groups@.push(full)) =~= done + seq![full@]);
                    assert(done + (seq![full@] + groups_of(later, size as nat)) =~= (done
                        + seq![full@]) + groups_of(later, size as nat));
                }
                groups.push(full);
            },
            None => {},
        }
    }
    let ghost left = batcher.pending();
    assert(left + all.skip(all.len() as int) =~= left);
    match batcher.flush() {
        Some(rest) => {
            proof {
                assert(group_views(groups@.push(rest)) =~= group_views(groups@) + seq![rest@]);
            }
            groups.push(rest);
        },
        None => {
            assert(group_views(groups@) + Seq::<Seq<T>>::empty() =~= group_views(groups@));
        },
    }
    proof {
        lemma_groups_partition(all, size as nat);
        assert forall|g: int| 0 <= g < groups@.len() implies (#[trigger] groups@[g])@
            == groups_of(all, size as nat)[g] by {
            assert(group_views(groups@)[g] == groups@[g]@);
        }
    }
    groups
}

/// Regroups a sequence that may fail into batches of `size`, in order.
///
/// Without a failure the result is that of [`batched`]. A failure ends the
/// result: it follows the full batches of the items before it, and the
/// items that filled no batch are dropped.
pub fn batched_until_failure<T, E>(items: Vec<Result<T, E>>, size: usize) -> (batches: Vec<
    Result<Vec<T>, E>,
>)
    requires
        size > 0,
    ensures
        batch_views(batches@) == batches_until_failure(items@, size as nat),
        stops_at_failure(batches@),
        failure_free(items@) ==> batch_views(batches@) == successes::<Seq<T>, E>(
            groups_of(values(items@), size as nat),
        ),
        forall|at: int| #[trigger]
            first_failure_at(items@, at) ==> batch_views(batches@) == successes::<Seq<T>, E>(
                full_groups_of(values(items@.take(at)), size as nat),
            ).push(Err(items@[at]->Err_0)),
{
    let mut batches: Vec<Result<Vec<T>, E>> = Vec::new();
    let mut batcher: Batcher<T> = Batcher::new(size);
    let ghost all = items@;
    let ghost mut done: Seq<Seq<T>> = Seq::empty();
    proof {
        assert(batch_views(batches@) =~= successes::<Seq<T>, E>(done));
        assert(done.flatten() + batcher.pending() =~= values(all.take(0)));
    }
    for item in it: items
        invariant
            it.seq() == all,
            size > 0,
            batcher.wf(),
            batcher.size() == size,
            batch_views(batches@) == successes::<Seq<T>, E>(done),
            forall|g: int| 0 <= g < done.len() ==> (#[trigger] done[g]).len() == size,
            done.flatten() + batcher.pending() == values(all.take(it.index() as int)),
            failure_free(all.take(it.index() as int)),
            failure_free(batches@),
    {
        let ghost at = it.index() as int;
        let ghost held = batcher.pending();
        let ghost sent = batches@;
        let ghost pulled = item;
        let (out, over) = batcher.on_pulled(Some(item));
        proof {
            if pulled is Ok {
                assert(all.take(at + 1) =~= all.take(at).push(pulled));
                assert(values(all.take(at + 1)) =~= values(all.take(at)).push(pulled->Ok_0));
                assert(failure_free(all.take(at + 1)));
            } else {
                crate::sequence::lemma_failure_free_or_first_failure(all);
                assert(first_failure_at(all, at));
                lemma_groups_from_parts(done, held, size as nat);
                lemma_until_failure(all);
                assert(all.take(at + 1).drop_last() =~= all.take(at));
            }
        }
        match out {
            Some(batch) => {
                proof {
                    if batch is Ok {
                        let full = batch->Ok_0@;
                        done.lemma_flatten_push(full);
                        assert(done.push(full).flatten() + batcher.pending() =~= done.flatten()
                            + full);
                        assert(batch_views(sent.push(batch)) =~= batch_views(sent).push(
                            Ok(full),
                        ));
                        assert(successes::<Seq<T>, E>(done.push(full)) =~= successes::<Seq<T>, E>(
                            done,
                        ).push(Ok(full)));
                        done = done.push(full);
                    } else {
                        assert(batch_views(sent.push(batch)) =~= batch_views(sent).push(
                            Err(batch->Err_0),
                        ));
                    }
                }
                batches.push(batch);
            },
            None => {},
        }
        if over {
            return batches;
        }
    }
    let ghost held = batcher.pending();
    let ghost sent = batches@;
    let (out, over) = batcher.on_pulled(None);
    proof {
        assert(all.take(all.len() as int) =~= all);
        crate::sequence::lemma_failure_free_or_first_failure(all);
        lemma_groups_from_parts(done, held, size as nat);
    }
    match out {
        Some(batch) => {
            proof {
                assert(batch_views(sent.push(batch)) =~= batch_views(sent).push(Ok(held)));
                assert(successes::<Seq<T>, E>(done.push(held)) =~= successes::<Seq<T>, E>(
                    done,
                ).push(Ok(held)));
            }
            batches.push(batch);
        },
        None => {},
    }
    batches
}

} // verus!
