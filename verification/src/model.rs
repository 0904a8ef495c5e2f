//! The unit of ingested content.

use std::collections::HashMap;
use vstd::prelude::*;

verus! {

/// A piece of content fetched from a source, ready to be indexed.
#[derive(Debug, PartialEq, Eq)]
pub struct Document {
    pub id: String,
    pub source: String,
    pub title: String,
    pub link: String,
    pub content: String,
    pub metadata: HashMap<String, String>,
}

/// The mathematical value of a [`Document`]: its fields as character sequences.
pub ghost struct DocumentView {
    pub id: Seq<char>,
    pub source: Seq<char>,
    pub title: Seq<char>,
    pub link: Seq<char>,
    pub content: Seq<char>,
    pub metadata: Map<String, String>,
}

impl DocumentView {
    /// Whether the document can be addressed in the index: it has an
    /// identifier and names its source.
    pub open spec fn identified(self) -> bool {
        self.id.len() > 0 && self.source.len() > 0
    }
}

impl View for Document {
    type V = DocumentView;

    open spec fn view(&self) -> DocumentView {
        DocumentView {
            id: self.id@,
            source: self.source@,
            title: self.title@,
            link: self.link@,
            content: self.content@,
            metadata: self.metadata@,
        }
    }
}

impl Clone for Document {
    fn clone(&self) -> (copy: Self)
        ensures
            copy@ == self@,
    {
        Document {
            id: self.id.clone(),
            source: self.source.clone(),
            title: self.title.clone(),
            link: self.link.clone(),
            content: self.content.clone(),
            metadata: self.metadata.clone(),
        }
    }
}

} // verus!
