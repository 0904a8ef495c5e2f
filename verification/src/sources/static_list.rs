//! A source that yields a fixed list of documents.

use crate::error::Failure;
use crate::model::{Document, DocumentView};
use crate::sequence::{outcome_views, successes};
use vstd::prelude::*;

verus! {

/// A source that holds its documents and yields them once, in their order.
#[derive(Debug, PartialEq, Eq)]
pub struct StaticDocumentSource {
    pub documents: Vec<Document>,
}

/// The mathematical value of each document of a list.
pub open spec fn document_views(documents: Seq<Document>) -> Seq<DocumentView> {
    documents.map_values(|document: Document| document@)
}

impl StaticDocumentSource {
    /// The sequence that the source yields: every document, none failing.
    pub fn fetch(&self) -> (fetched: Vec<Result<Document, Failure>>)
        ensures
            outcome_views(fetched@) == successes::<DocumentView, crate::error::FailureView>(
                document_views(self.documents@),
            ),
    {
        let mut fetched: Vec<Result<Document, Failure>> = Vec::new();
        let mut i: usize = 0;
        while i < self.documents.len()
            invariant
                i <= self.documents.len(),
                outcome_views(fetched@) == successes::<DocumentView, crate::error::FailureView>(
                    document_views(self.documents@.take(i as int)),
                ),
            decreases self.documents.len() - i,
        {
            let ghost before = fetched@;
            let copy = self.documents[i].clone();
            fetched.push(Ok(copy));
            proof {
                assert(self.documents@.take(i + 1) =~= self.documents@.take(i as int).push(
                    self.documents@[i as int],
                ));
                assert(outcome_views(fetched@) =~= outcome_views(before).push(Ok(copy@)));
                assert(outcome_views(fetched@) =~= successes::<
                    DocumentView,
                    crate::error::FailureView,
                >(document_views(self.documents@.take(i + 1))));
            }
            i += 1;
        }
        proof {
            assert(self.documents@.take(self.documents.len() as int) =~= self.documents@);
        }
        fetched
    }
}

} // verus!
