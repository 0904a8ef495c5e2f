use std::collections::HashMap;

use doks::model::Document;
use doks::search::{
    default_fields, document_from_stored, first_stored_text, schema_fields, stored_fields,
    SchemaField, StoredValue, TOP_K,
};
use tantivy::collector::TopDocs;
use tantivy::query::QueryParser;
use tantivy::schema::{Field, Schema, TantivyDocument, Value, STORED, STRING, TEXT};
use tantivy::{Index, IndexReader, IndexWriter};

fn text(field: SchemaField, text: &str) -> StoredValue {
    StoredValue {
        field,
        text: Some(text.to_string()),
    }
}

fn document(id: &str, title: &str, content: &str, link: &str) -> Document {
    Document {
        title: title.to_string(),
        content: content.to_string(),
        source: "My source".to_string(),
        link: link.to_string(),
        metadata: HashMap::new(),
        id: id.to_string(),
    }
}

#[test]
fn schema_is_fixed() {
    assert_eq!(TOP_K, 10);
    assert_eq!(
        schema_fields(),
        vec![
            SchemaField::Id,
            SchemaField::Title,
            SchemaField::Link,
            SchemaField::Content,
            SchemaField::Source,
        ]
    );
    assert_eq!(
        schema_fields().into_iter().map(|f| f.name()).collect::<Vec<_>>(),
        vec!["id", "title", "link", "content", "source"]
    );
    assert_eq!(
        schema_fields()
            .into_iter()
            .map(|f| f.is_full_text())
            .collect::<Vec<_>>(),
        vec![false, true, false, true, false]
    );
    assert_eq!(
        default_fields(),
        vec![SchemaField::Title, SchemaField::Content]
    );
}

#[test]
fn stored_fields_of_a_document() {
    let stored = stored_fields(&document("1", "Hello world", "Hello content", "link1"));
    assert_eq!(
        stored,
        vec![
            text(SchemaField::Title, "Hello world"),
            text(SchemaField::Id, "1"),
            text(SchemaField::Content, "Hello content"),
            text(SchemaField::Link, "link1"),
            text(SchemaField::Source, "My source"),
        ]
    );
}

#[test]
fn stored_fields_round_trip() {
    let mut original = document("42", "T", "C", "L");
    original
        .metadata
        .insert("kept".to_string(), "nowhere".to_string());
    let restored = document_from_stored(&stored_fields(&original)).unwrap();
    assert_eq!(restored, document("42", "T", "C", "L"));
}

#[test]
fn document_from_stored_takes_the_first_value_of_each_field() {
    let stored = vec![
        text(SchemaField::Source, "s"),
        text(SchemaField::Id, "first"),
        text(SchemaField::Id, "second"),
        text(SchemaField::Link, "l"),
        text(SchemaField::Content, "c"),
        text(SchemaField::Title, "t"),
        text(SchemaField::Title, "later"),
    ];
    assert_eq!(
        document_from_stored(&stored),
        Some(Document {
            id: "first".to_string(),
            source: "s".to_string(),
            title: "t".to_string(),
            link: "l".to_string(),
            content: "c".to_string(),
            metadata: HashMap::new(),
        })
    );
    assert_eq!(
        first_stored_text(&stored, SchemaField::Id),
        Some("first".to_string())
    );
}

#[test]
fn document_from_stored_wants_every_field() {
    let stored = vec![
        text(SchemaField::Source, "s"),
        text(SchemaField::Id, "i"),
        text(SchemaField::Link, "l"),
        text(SchemaField::Title, "t"),
    ];
    assert_eq!(document_from_stored(&stored), None);
    assert_eq!(document_from_stored(&vec![]), None);
}

#[test]
fn document_from_stored_wants_the_first_value_to_be_text() {
    let stored = vec![
        text(SchemaField::Source, "s"),
        StoredValue {
            field: SchemaField::Id,
            text: None,
        },
        text(SchemaField::Id, "i"),
        text(SchemaField::Link, "l"),
        text(SchemaField::Content, "c"),
        text(SchemaField::Title, "t"),
    ];
    assert_eq!(first_stored_text(&stored, SchemaField::Id), None);
    assert_eq!(document_from_stored(&stored), None);
}

struct Engine {
    index: Index,
    writer: IndexWriter,
    reader: IndexReader,
    fields: Vec<(SchemaField, Field)>,
}

fn engine() -> Engine {
    let mut builder = Schema::builder();
    let mut fields = Vec::new();
    for field in schema_fields() {
        let options = if field.is_full_text() {
            TEXT | STORED
        } else {
            STRING | STORED
        };
        fields.push((field, builder.add_text_field(field.name(), options)));
    }
    let index = Index::create_in_ram(builder.build());
    let writer = index.writer_with_num_threads(1, 15_000_000).unwrap();
    let reader = index.reader().unwrap();
    Engine {
        index,
        writer,
        reader,
        fields,
    }
}

fn handle(engine: &Engine, field: SchemaField) -> Field {
    engine
        .fields
        .iter()
        .find(|(known, _)| *known == field)
        .map(|(_, handle)| *handle)
        .unwrap()
}

fn index(engine: &mut Engine, documents: Vec<Document>) {
    for document in documents {
        let mut stored = TantivyDocument::default();
        for value in stored_fields(&document) {
            stored.add_text(handle(engine, value.field), value.text.unwrap());
        }
        engine.writer.add_document(stored).unwrap();
    }
    engine.writer.commit().unwrap();
}

fn search(engine: &Engine, query: &str) -> Vec<Document> {
    let searcher = engine.reader.searcher();
    let defaults = default_fields()
        .into_iter()
        .map(|field| handle(engine, field))
        .collect();
    let parser = QueryParser::for_index(&engine.index, defaults);
    let query = parser.parse_query(query).unwrap();
    let top = searcher
        .search(&query, &TopDocs::with_limit(TOP_K).order_by_score())
        .unwrap();
    let mut found = Vec::new();
    for (_, address) in top {
        let stored: TantivyDocument = searcher.doc(address).unwrap();
        let mut values = Vec::new();
        for (handle, value) in stored.field_values() {
            let field = engine
                .fields
                .iter()
                .find(|(_, known)| *known == handle)
                .map(|(field, _)| *field)
                .unwrap();
            values.push(StoredValue {
                field,
                text: value.as_str().map(|text| text.to_string()),
            });
        }
        found.push(document_from_stored(&values).unwrap());
    }
    found
}

#[test]
fn test_tantivy_search_engine() {
    let mut engine = engine();

    let document1 = document("1", "Hello world", "Hello content", "link1");
    let document2 = document("2", "Computer science", "Computer science content", "link2");

    index(&mut engine, vec![document1, document2.clone()]);

    engine.reader.reload().unwrap();

    let results = search(&engine, "computer");

    assert_eq!(results, vec![document2]);
    assert_eq!(results.len(), 1);
    assert_eq!(results[0].id, "2");
}

#[test]
fn indexed_document_is_found_by_title_and_by_content() {
    let mut engine = engine();
    let original = document("7", "Verified batching", "Groups of ten documents", "/docs/batching.md");
    index(&mut engine, vec![original.clone()]);
    engine.reader.reload().unwrap();

    for query in ["batching", "documents"] {
        let results = search(&engine, query);
        assert_eq!(results.len(), 1);
        assert_eq!(results[0].id, original.id);
        assert_eq!(results[0].source, original.source);
        assert_eq!(results[0].title, original.title);
        assert_eq!(results[0].link, original.link);
    }
    assert!(search(&engine, "absent").is_empty());
}
