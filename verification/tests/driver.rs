use std::collections::HashMap;

use doks::driver::{ingest, on_batch, steps_of, SourceRun, BATCH_SIZE};
use doks::error::{Failure, FailureKind};
use doks::model::Document;

fn document(source: &str, id: usize) -> Document {
    Document {
        id: id.to_string(),
        source: source.to_string(),
        title: format!("title {}", id),
        link: format!("link {}", id),
        content: format!("content {}", id),
        metadata: HashMap::new(),
    }
}

fn documents(source: &str, ids: std::ops::Range<usize>) -> Vec<Document> {
    ids.map(|id| document(source, id)).collect()
}

fn run(source: &str, ids: std::ops::Range<usize>) -> SourceRun {
    SourceRun {
        source_id: source.to_string(),
        fetched: documents(source, ids).into_iter().map(Ok).collect(),
    }
}

#[test]
fn batch_size_is_ten() {
    assert_eq!(BATCH_SIZE, 10);
}

#[test]
fn on_batch_passes_documents_on() {
    assert_eq!(
        on_batch("s", Ok(documents("s", 0..3))),
        Ok(documents("s", 0..3))
    );
}

#[test]
fn on_batch_reports_a_failure_from_its_source() {
    let failure = Failure::new(FailureKind::Io, "Permission denied".to_string());
    assert_eq!(
        on_batch("notes", Err(failure)),
        Err(Failure {
            kind: FailureKind::Io,
            message: "Permission denied".to_string(),
            context: vec!["Error occurred while fetching documents from source notes".to_string()],
        })
    );
}

#[test]
fn steps_of_a_source_are_its_batches() {
    let steps = steps_of(run("a", 0..23));
    assert_eq!(
        steps,
        vec![
            Ok(documents("a", 0..10)),
            Ok(documents("a", 10..20)),
            Ok(documents("a", 20..23)),
        ]
    );
    assert_eq!(steps_of(run("a", 0..0)), vec![]);
}

#[test]
fn ingest_goes_through_the_sources_in_order() {
    let steps = ingest(vec![run("a", 0..12), run("b", 0..0), run("c", 5..8)]);
    assert_eq!(
        steps,
        vec![
            Ok(documents("a", 0..10)),
            Ok(documents("a", 10..12)),
            Ok(documents("c", 5..8)),
        ]
    );
}

#[test]
fn ingest_aborts_at_the_first_failure() {
    let mut failing = run("b", 0..15);
    failing.fetched.insert(
        13,
        Err(Failure::new(FailureKind::Io, "Input/output error".to_string())),
    );
    let steps = ingest(vec![run("a", 0..3), failing, run("c", 0..3)]);
    assert_eq!(
        steps,
        vec![
            Ok(documents("a", 0..3)),
            Ok(documents("b", 0..10)),
            Err(Failure {
                kind: FailureKind::Io,
                message: "Input/output error".to_string(),
                context: vec![
                    "Error occurred while fetching documents from source b".to_string()
                ],
            }),
        ]
    );
}
