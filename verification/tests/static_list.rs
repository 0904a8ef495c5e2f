use std::collections::HashMap;

use doks::model::Document;
use doks::sequence::collect;
use doks::sources::static_list::StaticDocumentSource;

#[test]
fn test_stream_when_not_empty() {
    let documents = vec![
        Document {
            id: "doc1".to_string(),
            source: "source".to_string(),
            link: "link1".to_string(),
            content: "content1".to_string(),
            title: "title1".to_string(),
            metadata: HashMap::new(),
        },
        Document {
            id: "doc2".to_string(),
            source: "source".to_string(),
            link: "link2".to_string(),
            content: "content2".to_string(),
            title: "title2".to_string(),
            metadata: HashMap::new(),
        },
    ];

    let source = StaticDocumentSource {
        documents: documents.clone(),
    };

    let stream = source.fetch();

    let collected = collect(stream).unwrap();

    assert_eq!(collected, documents);
}

#[test]
fn test_when_stream_is_empty() {
    let source = StaticDocumentSource { documents: vec![] };
    let stream = source.fetch();
    let collected = collect(stream).unwrap();

    assert_eq!(collected.len(), 0);
}

#[test]
fn document_clone_keeps_every_field() {
    let mut metadata = HashMap::new();
    metadata.insert("lang".to_string(), "en".to_string());
    let document = Document {
        id: "1".to_string(),
        source: "s".to_string(),
        title: "t".to_string(),
        link: "l".to_string(),
        content: "c".to_string(),
        metadata,
    };
    assert_eq!(document.clone(), document);
}
