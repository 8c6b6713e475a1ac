use quiz_browser::error::Error;
use quiz_browser::events::DocEvent;
use quiz_browser::loader::{load_modules, load_modules_from_events};

fn valid_document(name: &str) -> Vec<u8> {
    let mut text = String::new();
    text.push_str("<module><metadata><name>");
    text.push_str(name);
    text.push_str("</name><author>A</author><updated>now</updated>");
    text.push_str("<file-version>1.0.0</file-version>");
    text.push_str("<format-version>1.0.0</format-version></metadata>");
    text.push_str("<entries><entry id=\"e1\"/></entries></module>");
    text.into_bytes()
}

fn minimal_events(name: &str) -> Vec<DocEvent> {
    vec![
        DocEvent::Open { name: "module".to_string(), attrs: vec![] },
        DocEvent::Open { name: "metadata".to_string(), attrs: vec![] },
        DocEvent::Open { name: "name".to_string(), attrs: vec![] },
        DocEvent::Text { text: name.to_string() },
        DocEvent::Close,
        DocEvent::Open { name: "author".to_string(), attrs: vec![] },
        DocEvent::Close,
        DocEvent::Open { name: "updated".to_string(), attrs: vec![] },
        DocEvent::Close,
        DocEvent::Open { name: "file-version".to_string(), attrs: vec![] },
        DocEvent::Text { text: "1.0.0".to_string() },
        DocEvent::Close,
        DocEvent::Open { name: "format-version".to_string(), attrs: vec![] },
        DocEvent::Text { text: "1.0.0".to_string() },
        DocEvent::Close,
        DocEvent::Close,
        DocEvent::Open { name: "entries".to_string(), attrs: vec![] },
        DocEvent::Close,
        DocEvent::Close,
    ]
}

#[test]
fn three_valid_documents_load_in_listing_order() {
    let docs = vec![valid_document("first"), valid_document("second"), valid_document("third")];
    let ms = load_modules(&docs).unwrap();
    assert_eq!(ms.len(), 3);
    assert_eq!(ms[0].metadata.name, "first");
    assert_eq!(ms[1].metadata.name, "second");
    assert_eq!(ms[2].metadata.name, "third");
}

#[test]
fn one_invalid_document_fails_the_whole_batch() {
    let mut bad = valid_document("bad");
    bad.truncate(bad.len() - 10);
    let docs = vec![valid_document("first"), valid_document("second"), bad];
    assert!(matches!(load_modules(&docs), Err(Error::MalformedDocument { .. })));
}

#[test]
fn empty_directory_loads_no_modules() {
    let docs: Vec<Vec<u8>> = vec![];
    let ms = load_modules(&docs).unwrap();
    assert_eq!(ms.len(), 0);
}

#[test]
fn events_level_batch_keeps_listing_order() {
    let docs = vec![minimal_events("one"), minimal_events("two"), minimal_events("three")];
    let ms = load_modules_from_events(&docs).unwrap();
    assert_eq!(ms.len(), 3);
    assert_eq!(ms[0].metadata.name, "one");
    assert_eq!(ms[1].metadata.name, "two");
    assert_eq!(ms[2].metadata.name, "three");
}

#[test]
fn events_level_batch_fails_on_first_bad_document() {
    let docs = vec![minimal_events("one"), vec![DocEvent::Close], minimal_events("three")];
    assert!(matches!(load_modules_from_events(&docs), Err(Error::MalformedDocument { .. })));
}

#[test]
fn bad_version_text_in_a_batch_surfaces_as_version_error() {
    let text = String::from_utf8(valid_document("v")).unwrap().replace("1.0.0", "1.0.0.0");
    let docs = vec![text.into_bytes()];
    assert!(matches!(load_modules(&docs), Err(Error::MalformedVersion { .. })));
}
