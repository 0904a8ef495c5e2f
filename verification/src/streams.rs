//! The bridge between a producer task and the consumer of its items: what
//! the consumer sees of what the producer sent and of how the producer
//! ended.

use crate::error::{failure_of, Failure, FailureKind, FailureView};
use vstd::prelude::*;

verus! {

/// The number of items that a bridge holds between producer and consumer.
/// A producer that is further ahead waits.
pub const CHANNEL_CAPACITY: usize = 1;

/// How a producer task ended.
#[derive(Debug, PartialEq, Eq)]
pub enum ProducerOutcome {
    /// It ran to its end.
    Completed,
    /// It gave up with a failure of its own.
    Failed(Failure),
    /// It was aborted or it panicked; the text says how.
    Aborted(String),
}

/// The message of the failure that stands for an aborted producer.
pub open spec fn aborted_message(reason: Seq<char>) -> Seq<char> {
    "Stream panicked: "@ + reason
}

/// The failure that closes the sequence, if one does: none after a producer
/// that completed, the producer's own failure after one that failed, and a
/// task failure after one that was aborted.
pub open spec fn closing_failure(outcome: ProducerOutcome) -> Option<FailureView> {
    match outcome {
        ProducerOutcome::Completed => None,
        ProducerOutcome::Failed(failure) => Some(failure@),
        ProducerOutcome::Aborted(reason) => Some(
            failure_of(FailureKind::Task, aborted_message(reason@)),
        ),
    }
}

/// Decides what the bridge appends once the producer has ended.
pub fn closing_item(outcome: ProducerOutcome) -> (closing: Option<Failure>)
    ensures
        closing is Some <==> closing_failure(outcome) is Some,
        closing matches Some(failure) ==> closing_failure(outcome) == Some(failure@),
        outcome matches ProducerOutcome::Failed(failure) ==> closing == Some(failure),
{
    match outcome {
        ProducerOutcome::Completed => None,
        ProducerOutcome::Failed(failure) => Some(failure),
        ProducerOutcome::Aborted(reason) => {
            let mut message = String::from_str("Stream panicked: ");
            message.append(reason.as_str());
            Some(Failure::new(FailureKind::Task, message))
        },
    }
}

/// What the consumer of a bridged sequence sees: every item that the
/// producer sent, in the order of sending, and after them the closing
/// failure if the producer did not complete; nothing follows it.
pub fn bridged<T>(sent: Vec<Result<T, Failure>>, outcome: ProducerOutcome) -> (seen: Vec<
    Result<T, Failure>,
>)
    ensures
        seen@.take(sent@.len() as int) == sent@,
        closing_failure(outcome) is None ==> seen@.len() == sent@.len(),
        closing_failure(outcome) matches Some(failure) ==> seen@.len() == sent@.len() + 1
            && seen@.last() is Err && seen@.last()->Err_0@ == failure,
        outcome matches ProducerOutcome::Failed(failure) ==> seen@ == sent@.push(Err(failure)),
{
    let mut seen = sent;
    match closing_item(outcome) {
        Some(failure) => {
            seen.push(Err(failure));
            assert(seen@.take(sent@.len() as int) =~= sent@);
        },
        None => {
            assert(seen@.take(sent@.len() as int) =~= sent@);
        },
    }
    seen
}

} // verus!
