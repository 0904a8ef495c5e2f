//! Failures as values: what went wrong, and where, carried through the
//! pipeline like any other item.

use vstd::prelude::*;

verus! {

/// The part of the pipeline in which a failure arose.
#[derive(Clone, Copy, Debug, PartialEq, Eq, Structural)]
pub enum FailureKind {
    /// A file or a directory could not be read.
    Io,
    /// A repository could not be cloned.
    CloneRepository,
    /// The list of repositories could not be had.
    Listing,
    /// A filter or a source is configured wrongly.
    Configuration,
    /// The index engine refused a write, a commit or a query.
    IndexEngine,
    /// A producer task was aborted or panicked.
    Task,
}

/// A failure: its kind, its message, and the contexts it passed through on
/// its way up, the innermost first.
#[derive(Debug, PartialEq, Eq)]
pub struct Failure {
    pub kind: FailureKind,
    pub message: String,
    pub context: Vec<String>,
}

/// The mathematical value of a [`Failure`].
pub ghost struct FailureView {
    pub kind: FailureKind,
    pub message: Seq<char>,
    pub context: Seq<Seq<char>>,
}

impl View for Failure {
    type V = FailureView;

    open spec fn view(&self) -> FailureView {
        FailureView {
            kind: self.kind,
            message: self.message@,
            context: self.context.deep_view(),
        }
    }
}

/// A failure that has passed through no context yet.
pub open spec fn failure_of(kind: FailureKind, message: Seq<char>) -> FailureView {
    FailureView { kind, message, context: Seq::empty() }
}

/// The failure after it has passed through one more context.
pub open spec fn in_context(failure: FailureView, context: Seq<char>) -> FailureView {
    FailureView { context: failure.context.push(context), ..failure }
}

/// The text of a failure: its contexts from the outermost to the innermost,
/// then its message, each followed by a colon and a space.
pub open spec fn description(failure: FailureView) -> Seq<char>
    decreases failure.context.len(),
{
    if failure.context.len() == 0 {
        failure.message
    } else {
        failure.context.last() + ": "@ + description(
            FailureView { context: failure.context.drop_last(), ..failure },
        )
    }
}

impl Failure {
    /// A failure of the given kind with the given message.
    pub fn new(kind: FailureKind, message: String) -> (failure: Failure)
        ensures
            failure@ == failure_of(kind, message@),
    {
        let failure = Failure { kind, message, context: Vec::new() };
        assert(failure.context.deep_view() =~= Seq::<Seq<char>>::empty());
        failure
    }

    /// The same failure, seen from one context further out.
    pub fn with_context(self, context: String) -> (failure: Failure)
        ensures
            failure@ == in_context(self@, context@),
    {
        let Failure { kind, message, context: mut contexts } = self;
        let ghost before = contexts.deep_view();
        contexts.push(context);
        assert(contexts.deep_view() =~= before.push(context@));
        Failure { kind, message, context: contexts }
    }

    /// The text of the failure, as [`description`] gives it.
    pub fn describe(&self) -> (text: String)
        ensures
            text@ == description(self@),
    {
        let mut text = String::new();
        let mut left: usize = self.context.len();
        let ghost whole = self@;
        proof {
            assert(whole.context.take(left as int) =~= whole.context);
            assert(text@ + description(whole) =~= description(whole));
        }
        while left > 0
            invariant
                left <= self.context.len(),
                whole == self@,
                text@ + description(
                    FailureView { context: whole.context.take(left as int), ..whole },
                ) == description(whole),
            decreases left,
        {
            left -= 1;
            proof {
                let shown = whole.context.take(left + 1);
                assert(shown.drop_last() =~= whole.context.take(left as int));
                assert(shown.last() == self.context[left as int]@);
            }
            let ghost before = text@;
            text.append(self.context[left].as_str());
            text.append(": ");
            proof {
                let inner = description(
                    FailureView { context: whole.context.take(left as int), ..whole },
                );
                assert(text@ + inner =~= before + (self.context[left as int]@ + ": "@ + inner));
            }
        }
        assert(whole.context.take(0) =~= Seq::<Seq<char>>::empty());
        text.append(self.message.as_str());
        text
    }
}

} // verus!
