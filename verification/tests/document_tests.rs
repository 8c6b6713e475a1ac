use quiz_browser::document::{parse_module_bytes, parse_module_events};
use quiz_browser::error::Error;
use quiz_browser::events::{Attr, DocEvent};
use quiz_browser::module_browser::{EntryTag, LearningModuleEntryType};
use quiz_browser::version::Version;

fn sample_document() -> String {
    let mut text = String::new();
    text.push_str("<module><metadata><name>Sample module</name><author>Someone</author>");
    text.push_str("<updated>2024-01-01</updated><file-version>1.0.0</file-version>");
    text.push_str("<format-version>2.0.0</format-version></metadata><entries>");
    text.push_str("<entry type=\"single-choice\" id=\"q1\" sampleable=\"true\">");
    text.push_str("<question>What color is the sky?</question>");
    text.push_str("<answer correct=\"true\" id=\"a1\">Blue</answer>");
    text.push_str("<answer correct=\"false\" id=\"a2\" category=\"colors\">Green</answer>");
    text.push_str("</entry></entries></module>");
    text
}

#[test]
fn decodes_single_choice_entry_in_order() {
    let m = parse_module_bytes(sample_document().as_bytes()).unwrap();
    assert_eq!(m.metadata.name, "Sample module");
    assert_eq!(m.metadata.author, "Someone");
    assert_eq!(m.metadata.updated, "2024-01-01");
    assert_eq!(m.metadata.file_version, Version { major: 1, minor: 0, patch: 0 });
    assert_eq!(m.metadata.format_version, Version { major: 2, minor: 0, patch: 0 });
    assert_eq!(m.entries.len(), 1);
    let entry = &m.entries[0];
    assert_eq!(entry.entry_type, LearningModuleEntryType::SingleChoice);
    assert_eq!(entry.id, "q1");
    assert!(entry.sampleable);
    assert_eq!(entry.entry_tags.len(), 3);
    match &entry.entry_tags[0] {
        EntryTag::Question(q) => assert_eq!(q.label, "What color is the sky?"),
        _ => panic!("first tag is the question"),
    }
    match &entry.entry_tags[1] {
        EntryTag::Answer(a) => {
            assert!(a.correct);
            assert_eq!(a.id, "a1");
            assert_eq!(a.label, "Blue");
        },
        _ => panic!("second tag is the correct answer"),
    }
    match &entry.entry_tags[2] {
        EntryTag::Answer(a) => {
            assert!(!a.correct);
            assert_eq!(a.id, "a2");
            assert_eq!(a.category, "colors");
            assert_eq!(a.label, "Green");
        },
        _ => panic!("third tag is the wrong answer"),
    }
}

#[test]
fn omitted_fields_take_defaults() {
    let mut text = String::new();
    text.push_str("<module><metadata><name>Defaults</name><author>A</author>");
    text.push_str("<updated>yesterday</updated><file-version>0.0.1</file-version>");
    text.push_str("<format-version>1.0.0</format-version></metadata><entries>");
    text.push_str("<entry id=\"e1\"><answer correct=\"false\" id=\"a1\">Maybe</answer></entry>");
    text.push_str("</entries></module>");
    let m = parse_module_bytes(text.as_bytes()).unwrap();
    let entry = &m.entries[0];
    assert_eq!(entry.entry_type, LearningModuleEntryType::Unspecified);
    assert!(!entry.sampleable);
    match &entry.entry_tags[0] {
        EntryTag::Answer(a) => assert_eq!(a.category, ""),
        _ => panic!("the answer tag survives"),
    }
}

#[test]
fn category_entries_decode() {
    let mut text = String::new();
    text.push_str("<module><metadata><name>Cats</name><author>A</author>");
    text.push_str("<updated>now</updated><file-version>1.0.0</file-version>");
    text.push_str("<format-version>1.0.0</format-version></metadata><entries>");
    text.push_str("<entry type=\"category\" id=\"c\">");
    text.push_str("<category id=\"colors\">All the colors</category>");
    text.push_str("</entry></entries></module>");
    let m = parse_module_bytes(text.as_bytes()).unwrap();
    let entry = &m.entries[0];
    assert_eq!(entry.entry_type, LearningModuleEntryType::Category);
    match &entry.entry_tags[0] {
        EntryTag::Category(c) => {
            assert_eq!(c.id, "colors");
            assert_eq!(c.label, "All the colors");
        },
        _ => panic!("the category tag survives"),
    }
}

#[test]
fn unknown_elements_are_ignored() {
    let mut text = String::new();
    text.push_str("<module><something-new>future</something-new><metadata>");
    text.push_str("<name>Forward</name><flavour>vanilla</flavour><author>A</author>");
    text.push_str("<updated>now</updated><file-version>1.0.0</file-version>");
    text.push_str("<format-version>9.0.0</format-version></metadata><entries>");
    text.push_str("<filler/><entry id=\"e\"><hint>unused</hint></entry>");
    text.push_str("</entries></module>");
    let m = parse_module_bytes(text.as_bytes()).unwrap();
    assert_eq!(m.metadata.name, "Forward");
    assert_eq!(m.entries.len(), 1);
    assert_eq!(m.entries[0].entry_tags.len(), 0);
}

#[test]
fn malformed_file_version_fails_whole_document() {
    let text = sample_document().replace("1.0.0", "1.0");
    let r = parse_module_bytes(text.as_bytes());
    assert!(matches!(r, Err(Error::MalformedVersion { .. })));
}

#[test]
fn malformed_format_version_fails_whole_document() {
    let text = sample_document().replace("2.0.0", "two.oh.oh");
    let r = parse_module_bytes(text.as_bytes());
    assert!(matches!(r, Err(Error::MalformedVersion { .. })));
}

#[test]
fn missing_name_fails_document() {
    let text = sample_document().replace("<name>Sample module</name>", "");
    assert!(matches!(parse_module_bytes(text.as_bytes()), Err(Error::MalformedDocument { .. })));
}

#[test]
fn missing_entry_id_fails_document() {
    let text = sample_document().replace(" id=\"q1\"", "");
    assert!(matches!(parse_module_bytes(text.as_bytes()), Err(Error::MalformedDocument { .. })));
}

#[test]
fn missing_answer_correct_flag_fails_document() {
    let text = sample_document().replace(" correct=\"true\"", "");
    assert!(matches!(parse_module_bytes(text.as_bytes()), Err(Error::MalformedDocument { .. })));
}

#[test]
fn bad_boolean_fails_document() {
    let text = sample_document().replace("sampleable=\"true\"", "sampleable=\"yes\"");
    assert!(matches!(parse_module_bytes(text.as_bytes()), Err(Error::MalformedDocument { .. })));
}

#[test]
fn unknown_entry_type_fails_document() {
    let text = sample_document().replace("type=\"single-choice\"", "type=\"essay\"");
    assert!(matches!(parse_module_bytes(text.as_bytes()), Err(Error::MalformedDocument { .. })));
}

#[test]
fn truncated_markup_fails_document() {
    let text = "<module><metadata><name>Broken</name>";
    assert!(matches!(parse_module_bytes(text.as_bytes()), Err(Error::MalformedDocument { .. })));
}

#[test]
fn mismatched_tags_fail_document() {
    let text = "<module><metadata></module></metadata>";
    assert!(matches!(parse_module_bytes(text.as_bytes()), Err(Error::MalformedDocument { .. })));
}

#[test]
fn events_level_parse_matches_schema() {
    let events = vec![
        DocEvent::Open { name: "module".to_string(), attrs: vec![] },
        DocEvent::Open { name: "metadata".to_string(), attrs: vec![] },
        DocEvent::Open { name: "name".to_string(), attrs: vec![] },
        DocEvent::Text { text: "From events".to_string() },
        DocEvent::Close,
        DocEvent::Open { name: "author".to_string(), attrs: vec![] },
        DocEvent::Text { text: "A".to_string() },
        DocEvent::Close,
        DocEvent::Open { name: "updated".to_string(), attrs: vec![] },
        DocEvent::Text { text: "today".to_string() },
        DocEvent::Close,
        DocEvent::Open { name: "file-version".to_string(), attrs: vec![] },
        DocEvent::Text { text: "1.2.3".to_string() },
        DocEvent::Close,
        DocEvent::Open { name: "format-version".to_string(), attrs: vec![] },
        DocEvent::Text { text: "4.5.6".to_string() },
        DocEvent::Close,
        DocEvent::Close,
        DocEvent::Open { name: "entries".to_string(), attrs: vec![] },
        DocEvent::Open {
            name: "entry".to_string(),
            attrs: vec![Attr { name: "id".to_string(), value: "e9".to_string() }],
        },
        DocEvent::Close,
        DocEvent::Close,
        DocEvent::Close,
    ];
    let m = parse_module_events(&events).unwrap();
    assert_eq!(m.metadata.name, "From events");
    assert_eq!(m.metadata.file_version, Version { major: 1, minor: 2, patch: 3 });
    assert_eq!(m.metadata.format_version, Version { major: 4, minor: 5, patch: 6 });
    assert_eq!(m.entries.len(), 1);
    assert_eq!(m.entries[0].id, "e9");
}

#[test]
fn events_level_parse_rejects_unbalanced_stream() {
    let events = vec![
        DocEvent::Open { name: "module".to_string(), attrs: vec![] },
        DocEvent::Open { name: "metadata".to_string(), attrs: vec![] },
    ];
    assert!(matches!(parse_module_events(&events), Err(Error::MalformedDocument { .. })));
}

#[test]
fn reader_yields_structural_events_in_order() {
    let evs = quiz_browser::events::read_events(b"<a b=\"c\">t</a>").unwrap();
    assert_eq!(evs.len(), 4);
    assert!(matches!(&evs[0], DocEvent::Skip));
    match &evs[1] {
        DocEvent::Open { name, attrs } => {
            assert_eq!(name, "a");
            assert_eq!(attrs.len(), 1);
            assert_eq!(attrs[0].name, "b");
            assert_eq!(attrs[0].value, "c");
        },
        _ => panic!("the element open comes after the document start"),
    }
    match &evs[2] {
        DocEvent::Text { text } => assert_eq!(text, "t"),
        _ => panic!("the character data follows"),
    }
    assert!(matches!(&evs[3], DocEvent::Close));
}

#[test]
fn reader_reports_markup_faults() {
    assert!(matches!(
        quiz_browser::events::read_events(b"<a><b></a></b>"),
        Err(Error::MalformedDocument { .. })
    ));
}
