use std::collections::HashMap;

use doks::error::{Failure, FailureKind};
use doks::model::Document;
use doks::sequence::collect;
use doks::sources::fs::{EntryAction, FileEntry, FileSystemDocumentSource, WalkedFile};
use doks::pattern::{filter_passes, match_each, path_accepted, Pattern};

fn file(path: &str, name: &str, content: &str) -> Result<WalkedFile, Failure> {
    Ok(WalkedFile {
        entry: FileEntry {
            path: path.to_string(),
            file_name: name.to_string(),
            is_dir: false,
        },
        content: Ok(content.to_string()),
    })
}

fn directory(path: &str, name: &str) -> Result<WalkedFile, Failure> {
    Ok(WalkedFile {
        entry: FileEntry {
            path: path.to_string(),
            file_name: name.to_string(),
            is_dir: true,
        },
        content: Err(Failure::new(
            FailureKind::Io,
            "Is a directory".to_string(),
        )),
    })
}

fn unreadable(path: &str, name: &str) -> Result<WalkedFile, Failure> {
    Ok(WalkedFile {
        entry: FileEntry {
            path: path.to_string(),
            file_name: name.to_string(),
            is_dir: false,
        },
        content: Err(Failure::new(
            FailureKind::Io,
            "stream did not contain valid UTF-8".to_string(),
        )),
    })
}

#[test]
fn first_test() {
    let root = "/tmp/doks-tests";

    let files = vec![
        (
            format!("{}/file1.txt", root),
            "content file1".to_string(),
        ),
        (
            format!("{}/file2.txt", root),
            "content file 2".to_string(),
        ),
        (
            format!("{}/nested/file3.txt", root),
            "content file 3".to_string(),
        ),
    ];

    let walked = vec![
        file(&files[1].0, "file2.txt", &files[1].1),
        directory(&format!("{}/nested", root), "nested"),
        file(&files[2].0, "file3.txt", &files[2].1),
        file(&files[0].0, "file1.txt", &files[0].1),
    ];

    let source = FileSystemDocumentSource {
        includes: vec![Pattern::new(".*.txt").unwrap()],
        excludes: vec![],
        paths: vec![root.to_string()],
        source_id: String::from("source1"),
    };

    let mut collected = collect(source.fetch_from(walked))
        .unwrap()
        .into_iter()
        .map(|file| (file.link, file.content))
        .collect::<Vec<_>>();

    collected.sort();

    assert_eq!(collected, files);
}

#[test]
fn fetch_from_makes_the_document_of_each_file() {
    let source = FileSystemDocumentSource {
        includes: vec![],
        excludes: vec![],
        paths: vec!["/docs".to_string()],
        source_id: "notes".to_string(),
    };
    let fetched = source.fetch_from(vec![file("/docs/a/readme.md", "readme.md", "# Hi\n")]);
    assert_eq!(
        fetched,
        vec![Ok(Document {
            id: "/docs/a/readme.md".to_string(),
            source: "notes".to_string(),
            title: "readme.md".to_string(),
            link: "/docs/a/readme.md".to_string(),
            content: "# Hi\n".to_string(),
            metadata: HashMap::new(),
        })]
    );
}

#[test]
fn fetch_from_wants_every_pattern_to_match_and_no_pattern_to_avoid() {
    let source = FileSystemDocumentSource {
        includes: vec![Pattern::new("\\.md$").unwrap(), Pattern::new("^/docs/").unwrap()],
        excludes: vec![Pattern::new("draft").unwrap(), Pattern::new("/private/").unwrap()],
        paths: vec!["/".to_string()],
        source_id: "s".to_string(),
    };
    let walked = vec![
        file("/docs/a.md", "a.md", "a"),
        file("/docs/a.txt", "a.txt", "no: one pattern does not match"),
        file("/other/b.md", "b.md", "no: the other pattern does not match"),
        file("/docs/draft-c.md", "draft-c.md", "no: to be avoided"),
        file("/docs/private/d.md", "d.md", "no: to be avoided"),
        file("/docs/sub/e.md", "e.md", "e"),
    ];
    let links: Vec<String> = collect(source.fetch_from(walked))
        .unwrap()
        .into_iter()
        .map(|document| document.link)
        .collect();
    assert_eq!(links, vec!["/docs/a.md".to_string(), "/docs/sub/e.md".to_string()]);
}

#[test]
fn fetch_from_empty_filter_takes_every_file_and_no_directory() {
    let source = FileSystemDocumentSource {
        includes: vec![],
        excludes: vec![],
        paths: vec!["/r".to_string()],
        source_id: "s".to_string(),
    };
    let walked = vec![
        directory("/r/d", "d"),
        file("/r/d/x", "x", "1"),
        file("/r/y", "y", "2"),
    ];
    let fetched = collect(source.fetch_from(walked)).unwrap();
    assert_eq!(fetched.len(), 2);
    assert_eq!(fetched[0].title, "x");
    assert_eq!(fetched[1].title, "y");
}

#[test]
fn fetch_from_stops_at_a_file_that_cannot_be_read() {
    let source = FileSystemDocumentSource {
        includes: vec![Pattern::new("txt$").unwrap()],
        excludes: vec![],
        paths: vec!["/r".to_string()],
        source_id: "s".to_string(),
    };
    let walked = vec![
        file("/r/a.txt", "a.txt", "a"),
        unreadable("/r/skipped.bin", "skipped.bin"),
        unreadable("/r/b.txt", "b.txt"),
        file("/r/c.txt", "c.txt", "c"),
    ];
    let fetched = source.fetch_from(walked);
    assert_eq!(fetched.len(), 2);
    assert_eq!(fetched[0].as_ref().unwrap().link, "/r/a.txt");
    assert_eq!(
        fetched[1],
        Err(Failure::new(
            FailureKind::Io,
            "stream did not contain valid UTF-8".to_string()
        ))
    );
}

#[test]
fn fetch_from_stops_at_a_failed_step_of_the_walk() {
    let source = FileSystemDocumentSource {
        includes: vec![],
        excludes: vec![],
        paths: vec!["/r".to_string()],
        source_id: "s".to_string(),
    };
    let broken = Failure::new(FailureKind::Io, "No such file or directory".to_string());
    let walked = vec![
        Err(Failure::new(FailureKind::Io, "No such file or directory".to_string())),
        file("/r/a", "a", "a"),
    ];
    assert_eq!(source.fetch_from(walked), vec![Err(broken)]);
}

#[test]
fn on_entry_reads_files_that_pass() {
    let source = FileSystemDocumentSource {
        includes: vec![Pattern::new("\\.rs$").unwrap()],
        excludes: vec![Pattern::new("target").unwrap()],
        paths: vec![],
        source_id: "s".to_string(),
    };
    let entry = |path: &str, is_dir: bool| FileEntry {
        path: path.to_string(),
        file_name: "n".to_string(),
        is_dir,
    };
    assert_eq!(source.on_entry(&entry("/p/src/lib.rs", false)), EntryAction::Read);
    assert_eq!(source.on_entry(&entry("/p/src/lib.rs", true)), EntryAction::Skip);
    assert_eq!(source.on_entry(&entry("/p/target/x.rs", false)), EntryAction::Skip);
    assert_eq!(source.on_entry(&entry("/p/src/lib.py", false)), EntryAction::Skip);
}

#[test]
fn on_walked_answers_each_step() {
    let source = FileSystemDocumentSource {
        includes: vec![Pattern::new("a").unwrap()],
        excludes: vec![],
        paths: vec![],
        source_id: "s".to_string(),
    };
    assert_eq!(source.on_walked(file("/b", "b", "text")), None);
    assert_eq!(source.on_walked(directory("/a", "a")), None);
    assert_eq!(
        source.on_walked(file("/a", "a", "text")),
        Some(Ok(Document {
            id: "/a".to_string(),
            source: "s".to_string(),
            title: "a".to_string(),
            link: "/a".to_string(),
            content: "text".to_string(),
            metadata: HashMap::new(),
        }))
    );
    assert!(matches!(source.on_walked(unreadable("/a", "a")), Some(Err(_))));
}

#[test]
fn pattern_keeps_its_text_and_matches_anywhere() {
    let pattern = Pattern::new("b+c").unwrap();
    assert_eq!(pattern.as_str(), "b+c");
    assert!(pattern.is_match("aabbbcd"));
    assert!(!pattern.is_match("b+c"));
    let copy = pattern.clone();
    assert_eq!(copy.as_str(), "b+c");
    assert!(copy.is_match("bc"));
}

#[test]
fn pattern_refuses_what_is_no_regular_expression() {
    assert_eq!(
        Pattern::new("a(b").unwrap_err(),
        regex::Regex::new("a(b").unwrap_err()
    );
}

#[test]
fn filter_passes_when_all_matched_and_none_avoided() {
    assert!(filter_passes(&vec![], &vec![]));
    assert!(filter_passes(&vec![true, true], &vec![false, false]));
    assert!(!filter_passes(&vec![true, false], &vec![false]));
    assert!(!filter_passes(&vec![true], &vec![false, true]));
    assert!(!filter_passes(&vec![false], &vec![true]));
}

#[test]
fn match_each_and_path_accepted() {
    let toward = vec![Pattern::new("^/a/").unwrap(), Pattern::new("\\.md$").unwrap()];
    let away = vec![Pattern::new("tmp").unwrap()];
    assert_eq!(match_each(&toward, "/a/x.md"), vec![true, true]);
    assert_eq!(match_each(&toward, "/b/x.md"), vec![false, true]);
    assert_eq!(match_each(&away, "/a/tmp/x.md"), vec![true]);
    assert_eq!(match_each(&vec![], "anything"), Vec::<bool>::new());
    assert!(path_accepted(&toward, &away, "/a/x.md"));
    assert!(!path_accepted(&toward, &away, "/a/tmp/x.md"));
    assert!(!path_accepted(&toward, &away, "/b/x.md"));
    assert!(path_accepted(&vec![], &vec![], ""));
}
