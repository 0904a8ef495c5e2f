//! Documents from the files of a directory tree.
//!
//! Walking a tree and reading a file are the caller's part. This module
//! decides which files take part and makes the document of each.

use crate::error::{Failure, FailureView};
use crate::model::{Document, DocumentView};
use crate::pattern::{accepts, path_accepted, sources, Pattern};
use crate::sequence::{
    failure_free, lemma_filter_map_keeps, lemma_filter_map_prefix, lemma_until_failure,
    lemma_until_failure_prefix, outcome_views, stops_at_failure, until_failure,
};
use std::collections::HashMap;
use vstd::prelude::*;

verus! {

/// One entry that a walk of a directory tree reports.
#[derive(Debug, PartialEq, Eq)]
pub struct FileEntry {
    /// The full path of the entry.
    pub path: String,
    /// The last component of the path.
    pub file_name: String,
    /// Whether the entry is a directory.
    pub is_dir: bool,
}

/// An entry of a walk together with what reading it gives.
#[derive(Debug, PartialEq, Eq)]
pub struct WalkedFile {
    pub entry: FileEntry,
    /// The text of the file, or why it cannot be read.
    pub content: Result<String, Failure>,
}

/// What to do with an entry of a walk.
#[derive(Clone, Copy, Debug, PartialEq, Eq, Structural)]
pub enum EntryAction {
    /// Pass over it.
    Skip,
    /// Read it and make its document.
    Read,
}

/// A source that yields the files under its root paths which pass its filter.
#[derive(Debug)]
pub struct FileSystemDocumentSource {
    pub source_id: String,
    pub paths: Vec<String>,
    /// A path takes part only if every one of these matches it.
    pub includes: Vec<Pattern>,
    /// A path takes part only if none of these matches it.
    pub excludes: Vec<Pattern>,
}

/// Whether an entry takes part under a filter: it is a file, not a
/// directory, and its full path passes the filter.
pub open spec fn selects(includes: Seq<Seq<char>>, excludes: Seq<Seq<char>>, entry: FileEntry)
    -> bool {
    !entry.is_dir && accepts(includes, excludes, entry.path@)
}

/// The document of a file: identifier and link are its full path, the title
/// is its name, the content is its text.
pub open spec fn document_of(source_id: Seq<char>, entry: FileEntry, content: Seq<char>)
    -> DocumentView {
    DocumentView {
        id: entry.path@,
        source: source_id,
        title: entry.file_name@,
        link: entry.path@,
        content,
        metadata: Map::empty(),
    }
}

/// What one step of a walk adds to the sequence: nothing for an entry that
/// does not take part, a failure for a step that failed or a file that
/// cannot be read, and else the document of the file.
pub open spec fn yield_of(
    source_id: Seq<char>,
    includes: Seq<Seq<char>>,
    excludes: Seq<Seq<char>>,
    item: Result<WalkedFile, Failure>,
) -> Option<Result<DocumentView, FailureView>> {
    match item {
        Err(failure) => Some(Err(failure@)),
        Ok(file) => if !selects(includes, excludes, file.entry) {
            None
        } else {
            match file.content {
                Ok(text) => Some(Ok(document_of(source_id, file.entry, text@))),
                Err(failure) => Some(Err(failure@)),
            }
        },
    }
}

/// What a whole walk adds to the sequence, step by step.
pub open spec fn yields(
    source_id: Seq<char>,
    includes: Seq<Seq<char>>,
    excludes: Seq<Seq<char>>,
    walked: Seq<Result<WalkedFile, Failure>>,
) -> Seq<Result<DocumentView, FailureView>> {
    walked.filter_map(
        |item: Result<WalkedFile, Failure>| yield_of(source_id, includes, excludes, item),
    )
}

impl FileSystemDocumentSource {
    /// Whether an entry takes part, under the filter of this source.
    pub open spec fn selects(&self, entry: FileEntry) -> bool {
        selects(sources(self.includes@), sources(self.excludes@), entry)
    }

    /// The document that this source makes of a file.
    pub open spec fn document_of(&self, entry: FileEntry, content: Seq<char>) -> DocumentView {
        document_of(self.source_id@, entry, content)
    }

    /// What one step of a walk adds to the sequence of this source.
    pub open spec fn yield_of(&self, item: Result<WalkedFile, Failure>) -> Option<
        Result<DocumentView, FailureView>,
    > {
        yield_of(self.source_id@, sources(self.includes@), sources(self.excludes@), item)
    }

    /// What a whole walk adds to the sequence of this source.
    pub open spec fn yields(&self, walked: Seq<Result<WalkedFile, Failure>>) -> Seq<
        Result<DocumentView, FailureView>,
    > {
        yields(self.source_id@, sources(self.includes@), sources(self.excludes@), walked)
    }

    /// Decides whether an entry is to be read.
    pub fn on_entry(&self, entry: &FileEntry) -> (action: EntryAction)
        ensures
            action == if self.selects(*entry) {
                EntryAction::Read
            } else {
                EntryAction::Skip
            },
    {
        if entry.is_dir {
            EntryAction::Skip
        } else if path_accepted(&self.includes, &self.excludes, entry.path.as_str()) {
            EntryAction::Read
        } else {
            EntryAction::Skip
        }
    }

    /// Makes the document of a file from its entry and its text.
    pub fn document(&self, entry: FileEntry, content: String) -> (document: Document)
        ensures
            document@ == self.document_of(entry, content@),
            entry.path@.len() > 0 && self.source_id@.len() > 0 ==> document@.identified(),
    {
        Document {
            id: entry.path.clone(),
            source: self.source_id.clone(),
            title: entry.file_name,
            link: entry.path,
            content,
            metadata: HashMap::new(),
        }
    }

    /// Answers one step of a walk with what it adds to the sequence.
    pub fn on_walked(&self, item: Result<WalkedFile, Failure>) -> (outcome: Option<
        Result<Document, Failure>,
    >)
        ensures
            outcome is Some <==> self.yield_of(item) is Some,
            outcome matches Some(Ok(document)) ==> self.yield_of(item) == Some(
                Ok::<DocumentView, FailureView>(document@),
            ),
            outcome matches Some(Err(failure)) ==> self.yield_of(item) == Some(
                Err::<DocumentView, FailureView>(failure@),
            ),
    {
        match item {
            Err(failure) => Some(Err(failure)),
            Ok(file) => {
                let WalkedFile { entry, content } = file;
                match self.on_entry(&entry) {
                    EntryAction::Skip => None,
                    EntryAction::Read => match content {
                        Ok(text) => Some(Ok(self.document(entry, text))),
                        Err(failure) => Some(Err(failure)),
                    },
                }
            },
        }
    }

    /// The sequence that the source yields on a walk: the documents of the
    /// files that take part, in the order of the walk, up to the first
    /// failure, which ends the sequence.
    pub fn fetch_from(&self, walked: Vec<Result<WalkedFile, Failure>>) -> (fetched: Vec<
        Result<Document, Failure>,
    >)
        ensures
            outcome_views(fetched@) == until_failure(self.yields(walked@)),
            stops_at_failure(outcome_views(fetched@)),
    {
        let mut fetched: Vec<Result<Document, Failure>> = Vec::new();
        let ghost all = walked@;
        let ghost step = |item: Result<WalkedFile, Failure>|
            yield_of(self.source_id@, sources(self.includes@), sources(self.excludes@), item);
        proof {
            assert(all.take(0).filter_map(step) =~= Seq::empty());
            assert(outcome_views(fetched@) =~= Seq::empty());
            lemma_until_failure(self.yields(all.take(0)));
        }
        for item in it: walked
            invariant
                it.seq() == all,
                step == |item: Result<WalkedFile, Failure>|
                    yield_of(
                        self.source_id@,
                        sources(self.includes@),
                        sources(self.excludes@),
                        item,
                    ),
                outcome_views(fetched@) == self.yields(all.take(it.index() as int)),
                failure_free(outcome_views(fetched@)),
        {
            let ghost at = it.index() as int;
            let ghost before = fetched@;
            proof {
                all.lemma_filter_map_take_succ(step, at);
            }
            match self.on_walked(item) {
                None => {},
                Some(outcome) => {
                    let failed = outcome.is_err();
                    fetched.push(outcome);
                    proof {
                        assert(outcome_views(fetched@) =~= outcome_views(before).push(
                            outcome_views(fetched@).last(),
                        ));
                        assert(outcome_views(fetched@) =~= self.yields(all.take(at + 1)));
                    }
                    if failed {
                        proof {
                            let part = self.yields(all.take(at + 1));
                            assert(part.last() is Err);
                            lemma_filter_map_prefix(all, step, at + 1);
                            lemma_until_failure_prefix(self.yields(all), part);
                            crate::sequence::lemma_until_failure_of_stopping(part);
                        }
                        return fetched;
                    }
                },
            }
        }
        proof {
            assert(all.take(all.len() as int) =~= all);
            lemma_until_failure(self.yields(all));
        }
        fetched
    }
}

/// On a walk of which no step fails and every file that takes part can be
/// read, the source yields exactly the files that pass its filter: the
/// document of every such file, with its full path as the link and its
/// text as the content, and nothing else.
pub proof fn lemma_fetch_yields_selected(
    source: FileSystemDocumentSource,
    walked: Seq<Result<WalkedFile, Failure>>,
)
    requires
        forall|i: int|
            0 <= i < walked.len() ==> (#[trigger] walked[i]) is Ok && (source.selects(
                walked[i]->Ok_0.entry,
            ) ==> walked[i]->Ok_0.content is Ok),
    ensures
        until_failure(source.yields(walked)) == source.yields(walked),
        failure_free(source.yields(walked)),
        forall|i: int|
            0 <= i < walked.len() && source.selects((#[trigger] walked[i])->Ok_0.entry)
                ==> source.yields(walked).contains(
                Ok(source.document_of(walked[i]->Ok_0.entry, walked[i]->Ok_0.content->Ok_0@)),
            ),
        forall|outcome: Result<DocumentView, FailureView>| #[trigger]
            source.yields(walked).contains(outcome) ==> exists|i: int|
                0 <= i < walked.len() && source.selects((#[trigger] walked[i])->Ok_0.entry)
                    && outcome == Ok::<DocumentView, FailureView>(
                    source.document_of(walked[i]->Ok_0.entry, walked[i]->Ok_0.content->Ok_0@),
                ) && outcome->Ok_0.link == walked[i]->Ok_0.entry.path@ && outcome->Ok_0.content
                    == walked[i]->Ok_0.content->Ok_0@,
{
    let step = |item: Result<WalkedFile, Failure>|
        yield_of(source.source_id@, sources(source.includes@), sources(source.excludes@), item);
    let yielded = source.yields(walked);
    assert forall|outcome: Result<DocumentView, FailureView>| #[trigger]
        yielded.contains(outcome) implies exists|i: int|
        0 <= i < walked.len() && source.selects((#[trigger] walked[i])->Ok_0.entry) && outcome
            == Ok::<DocumentView, FailureView>(
            source.document_of(walked[i]->Ok_0.entry, walked[i]->Ok_0.content->Ok_0@),
        ) && outcome->Ok_0.link == walked[i]->Ok_0.entry.path@ && outcome->Ok_0.content
            == walked[i]->Ok_0.content->Ok_0@ by {
        walked.lemma_filter_map_contains(step, outcome);
        let item = choose|item: Result<WalkedFile, Failure>| #[trigger]
            walked.contains(item) && step(item) == Some(outcome);
        let i = choose|i: int| 0 <= i < walked.len() && walked[i] == item;
        assert(walked[i] is Ok);
    }
    assert forall|k: int| 0 <= k < yielded.len() implies (#[trigger] yielded[k]) is Ok by {
        assert(yielded.contains(yielded[k]));
    }
    lemma_until_failure(yielded);
    assert forall|i: int|
        0 <= i < walked.len() && source.selects(
            (#[trigger] walked[i])->Ok_0.entry,
        ) implies yielded.contains(
        Ok(source.document_of(walked[i]->Ok_0.entry, walked[i]->Ok_0.content->Ok_0@)),
    ) by {
        lemma_filter_map_keeps(walked, step, i);
    }
}

} // verus!
