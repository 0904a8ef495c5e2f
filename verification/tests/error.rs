use doks::error::{Failure, FailureKind};

#[test]
fn failure_new_has_no_context() {
    let failure = Failure::new(FailureKind::Io, "disk".to_string());
    assert_eq!(
        failure,
        Failure {
            kind: FailureKind::Io,
            message: "disk".to_string(),
            context: vec![],
        }
    );
    assert_eq!(failure.describe(), "disk");
}

#[test]
fn failure_describe_outermost_context_first() {
    let failure = Failure::new(FailureKind::CloneRepository, "no route".to_string())
        .with_context("cloning a/b".to_string())
        .with_context("fetching source gh".to_string());
    assert_eq!(failure.kind, FailureKind::CloneRepository);
    assert_eq!(
        failure.context,
        vec!["cloning a/b".to_string(), "fetching source gh".to_string()]
    );
    assert_eq!(
        failure.describe(),
        "fetching source gh: cloning a/b: no route"
    );
}
