use doks::error::{Failure, FailureKind};
use doks::sequence::{collect, stop_at_failure};
use doks::streams::{bridged, closing_item, ProducerOutcome};

fn deliberate_failure() -> Failure {
    Failure::new(FailureKind::Task, "Deliberate failure!".to_string())
}

#[test]
fn test_stream_async_successful() {
    let sent: Vec<Result<i32, Failure>> = (1..10).map(Ok).collect();
    let stream = bridged(sent, ProducerOutcome::Completed);

    let collected = collect(stream).unwrap();

    assert_eq!(collected, (1..10).collect::<Vec<_>>());
}

#[test]
fn test_stream_async_failure() {
    let mut sent: Vec<Result<i32, Failure>> = Vec::new();
    let mut outcome = ProducerOutcome::Completed;
    for i in 1..10 {
        if i == 5 {
            outcome = ProducerOutcome::Failed(deliberate_failure());
            break;
        }
        sent.push(Ok(i));
    }
    let stream = bridged(sent, outcome);

    let mut collected = stream;
    let error = collected.split_off(4);

    assert_eq!(collect(collected).unwrap(), vec![1, 2, 3, 4]);

    assert!(matches!(error[0], Err(_)));
    assert_eq!(error.len(), 1);
    assert_eq!(error[0], Err(deliberate_failure()));
}

#[test]
fn closing_item_of_each_outcome() {
    assert_eq!(closing_item(ProducerOutcome::Completed), None);
    assert_eq!(
        closing_item(ProducerOutcome::Failed(deliberate_failure())),
        Some(deliberate_failure())
    );
    assert_eq!(
        closing_item(ProducerOutcome::Aborted("task 7 was cancelled".to_string())),
        Some(Failure {
            kind: FailureKind::Task,
            message: "Stream panicked: task 7 was cancelled".to_string(),
            context: vec![],
        })
    );
}

#[test]
fn bridged_aborted_producer_appends_one_task_failure() {
    let sent: Vec<Result<i32, Failure>> = vec![Ok(1), Ok(2)];
    let seen = bridged(sent, ProducerOutcome::Aborted("boom".to_string()));
    assert_eq!(seen.len(), 3);
    assert_eq!(seen[0], Ok(1));
    assert_eq!(seen[1], Ok(2));
    assert_eq!(
        seen[2],
        Err(Failure {
            kind: FailureKind::Task,
            message: "Stream panicked: boom".to_string(),
            context: vec![],
        })
    );
}

#[test]
fn bridged_nothing_sent() {
    let seen = bridged(Vec::<Result<i32, Failure>>::new(), ProducerOutcome::Completed);
    assert!(seen.is_empty());
    let seen = bridged(
        Vec::<Result<i32, Failure>>::new(),
        ProducerOutcome::Failed(deliberate_failure()),
    );
    assert_eq!(seen, vec![Err(deliberate_failure())]);
}

#[test]
fn collect_gives_the_first_failure() {
    let outcomes: Vec<Result<i32, String>> =
        vec![Ok(1), Err("one".to_string()), Ok(2), Err("two".to_string())];
    assert_eq!(collect(outcomes), Err("one".to_string()));
    assert_eq!(collect(Vec::<Result<i32, String>>::new()), Ok(vec![]));
}

#[test]
fn stop_at_failure_cuts_behind_the_first_failure() {
    let outcomes: Vec<Result<i32, String>> =
        vec![Ok(1), Err("one".to_string()), Ok(2), Err("two".to_string())];
    assert_eq!(
        stop_at_failure(outcomes),
        (vec![Ok(1), Err("one".to_string())], true)
    );
    let outcomes: Vec<Result<i32, String>> = vec![Ok(1), Ok(2)];
    assert_eq!(stop_at_failure(outcomes), (vec![Ok(1), Ok(2)], false));
}
