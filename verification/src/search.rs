//! The fixed schema of the index, and how a document goes into the engine
//! and comes back out of it.
//!
//! The engine itself is the caller's part. It stores, for each document, a
//! list of field values; this module writes that list and reads it back.

use crate::model::{Document, DocumentView};
use std::collections::HashMap;
use vstd::prelude::*;

verus! {

/// The number of matches that a search returns at most.
pub const TOP_K: usize = 10;

/// The number of matches that wait between the engine and the consumer of
/// a search.
pub const RESULT_CAPACITY: usize = 64;

/// The memory that the engine may use for writing, in bytes.
pub const WRITER_MEMORY: usize = 50_000_000;

/// The fields of the schema. Each is stored; title and content are indexed
/// as full text, the others as exact values.
#[derive(Clone, Copy, Debug, PartialEq, Eq, Structural)]
pub enum SchemaField {
    Id,
    Title,
    Link,
    Content,
    Source,
}

/// One stored value of a document in the engine: its field, and its text
/// where the value is text.
#[derive(Debug, PartialEq, Eq)]
pub struct StoredValue {
    pub field: SchemaField,
    pub text: Option<String>,
}

/// The mathematical value of a [`StoredValue`].
pub ghost struct StoredValueView {
    pub field: SchemaField,
    pub text: Option<Seq<char>>,
}

impl View for StoredValue {
    type V = StoredValueView;

    open spec fn view(&self) -> StoredValueView {
        StoredValueView {
            field: self.field,
            text: match self.text {
                Some(text) => Some(text@),
                None => None,
            },
        }
    }
}

/// The mathematical value of each stored value of a list.
pub open spec fn stored_views(values: Seq<StoredValue>) -> Seq<StoredValueView> {
    values.map_values(|value: StoredValue| value@)
}

impl SchemaField {
    /// The name of the field in the schema.
    pub open spec fn name_of(self) -> Seq<char> {
        match self {
            SchemaField::Id => "id"@,
            SchemaField::Title => "title"@,
            SchemaField::Link => "link"@,
            SchemaField::Content => "content"@,
            SchemaField::Source => "source"@,
        }
    }

    /// Whether the field is indexed as full text, and not as an exact value.
    pub open spec fn full_text(self) -> bool {
        self == SchemaField::Title || self == SchemaField::Content
    }

    /// The name of the field in the schema.
    pub fn name(self) -> (name: &'static str)
        ensures
            name@ == self.name_of(),
    {
        match self {
            SchemaField::Id => "id",
            SchemaField::Title => "title",
            SchemaField::Link => "link",
            SchemaField::Content => "content",
            SchemaField::Source => "source",
        }
    }

    /// Whether the field is indexed as full text.
    pub fn is_full_text(self) -> (tokenized: bool)
        ensures
            tokenized == self.full_text(),
    {
        match self {
            SchemaField::Title | SchemaField::Content => true,
            SchemaField::Id | SchemaField::Link | SchemaField::Source => false,
        }
    }
}

/// The fields of the schema, in the order in which the schema declares them.
pub fn schema_fields() -> (fields: Vec<SchemaField>)
    ensures
        fields@ == seq![
            SchemaField::Id,
            SchemaField::Title,
            SchemaField::Link,
            SchemaField::Content,
            SchemaField::Source,
        ],
{
    let mut fields: Vec<SchemaField> = Vec::new();
    fields.push(SchemaField::Id);
    fields.push(SchemaField::Title);
    fields.push(SchemaField::Link);
    fields.push(SchemaField::Content);
    fields.push(SchemaField::Source);
    assert(fields@ =~= seq![
        SchemaField::Id,
        SchemaField::Title,
        SchemaField::Link,
        SchemaField::Content,
        SchemaField::Source,
    ]);
    fields
}

/// The fields in which a query is looked up when it names none.
pub fn default_fields() -> (fields: Vec<SchemaField>)
    ensures
        fields@ == seq![SchemaField::Title, SchemaField::Content],
{
    let mut fields: Vec<SchemaField> = Vec::new();
    fields.push(SchemaField::Title);
    fields.push(SchemaField::Content);
    assert(fields@ =~= seq![SchemaField::Title, SchemaField::Content]);
    fields
}

/// A stored text value.
pub open spec fn stored_text(field: SchemaField, text: Seq<char>) -> StoredValueView {
    StoredValueView { field, text: Some(text) }
}

/// What the engine stores of a document: one text value for each field.
pub open spec fn stored_of(document: DocumentView) -> Seq<StoredValueView> {
    seq![
        stored_text(SchemaField::Title, document.title),
        stored_text(SchemaField::Id, document.id),
        stored_text(SchemaField::Content, document.content),
        stored_text(SchemaField::Link, document.link),
        stored_text(SchemaField::Source, document.source),
    ]
}

/// The first value that a list of stored values holds for a field, if it
/// holds one and that value is text.
pub open spec fn first_text(values: Seq<StoredValueView>, field: SchemaField) -> Option<Seq<char>>
    decreases values.len(),
{
    if values.len() == 0 {
        None
    } else if values[0].field == field {
        values[0].text
    } else {
        first_text(values.drop_first(), field)
    }
}

/// The document that a list of stored values stands for: each field from
/// its first value, and no metadata. There is none where a field has no
/// value or its first value is no text.
pub open spec fn restored(values: Seq<StoredValueView>) -> Option<DocumentView> {
    if first_text(values, SchemaField::Title) is Some && first_text(values, SchemaField::Id)
        is Some && first_text(values, SchemaField::Link) is Some && first_text(
        values,
        SchemaField::Content,
    ) is Some && first_text(values, SchemaField::Source) is Some {
        Some(
            DocumentView {
                id: first_text(values, SchemaField::Id)->0,
                source: first_text(values, SchemaField::Source)->0,
                title: first_text(values, SchemaField::Title)->0,
                link: first_text(values, SchemaField::Link)->0,
                content: first_text(values, SchemaField::Content)->0,
                metadata: Map::empty(),
            },
        )
    } else {
        None
    }
}

/// Writes the values that the engine is to store of a document.
pub fn stored_fields(document: &Document) -> (values: Vec<StoredValue>)
    ensures
        stored_views(values@) == stored_of(document@),
{
    let mut values: Vec<StoredValue> = Vec::new();
    values.push(StoredValue { field: SchemaField::Title, text: Some(document.title.clone()) });
    values.push(StoredValue { field: SchemaField::Id, text: Some(document.id.clone()) });
    values.push(StoredValue { field: SchemaField::Content, text: Some(document.content.clone()) });
    values.push(StoredValue { field: SchemaField::Link, text: Some(document.link.clone()) });
    values.push(StoredValue { field: SchemaField::Source, text: Some(document.source.clone()) });
    assert(stored_views(values@) =~= stored_of(document@));
    values
}

/// Finds the text of the first value that the list holds for a field.
pub fn first_stored_text(values: &Vec<StoredValue>, field: SchemaField) -> (text: Option<String>)
    ensures
        text is Some <==> first_text(stored_views(values@), field) is Some,
        text matches Some(found) ==> first_text(stored_views(values@), field) == Some(found@),
{
    let ghost all = stored_views(values@);
    let mut i: usize = 0;
    proof {
        assert(all.skip(0) =~= all);
    }
    while i < values.len()
        invariant
            i <= values.len(),
            all == stored_views(values@),
            first_text(all, field) == first_text(all.skip(i as int), field),
        decreases values.len() - i,
    {
        proof {
            assert(all.skip(i as int).drop_first() =~= all.skip(i + 1));
            assert(all.skip(i as int)[0] == values@[i as int]@);
        }
        if values[i].field == field {
            return match &values[i].text {
                Some(text) => Some(text.clone()),
                None => None,
            };
        }
        i += 1;
    }
    None
}

/// Reads a document back from the values that the engine stored of it.
pub fn document_from_stored(values: &Vec<StoredValue>) -> (document: Option<Document>)
    ensures
        document is Some <==> restored(stored_views(values@)) is Some,
        document matches Some(found) ==> restored(stored_views(values@)) == Some(found@),
{
    let title = first_stored_text(values, SchemaField::Title);
    let id = first_stored_text(values, SchemaField::Id);
    let link = first_stored_text(values, SchemaField::Link);
    let content = first_stored_text(values, SchemaField::Content);
    let source = first_stored_text(values, SchemaField::Source);
    match (title, id, link, content, source) {
        (Some(title), Some(id), Some(link), Some(content), Some(source)) => Some(
            Document { id, source, title, link, content, metadata: HashMap::new() },
        ),
        _ => None,
    }
}

/// What goes into the engine comes back out: the values stored of a
/// document stand for that document, with its identifier, source, title,
/// link and content, and without metadata.
pub proof fn lemma_stored_round_trip(document: DocumentView)
    ensures
        restored(stored_of(document)) == Some(
            DocumentView { metadata: Map::empty(), ..document },
        ),
{
    reveal_with_fuel(first_text, 6);
}

} // verus!
