use quiz_browser::module_browser::{
    Answer, EntryTag, LearningModule, LearningModuleEntry, LearningModuleEntryType,
    LearningModuleMetadata, Question,
};
use quiz_browser::version::Version;

fn sample_module() -> LearningModule {
    LearningModule {
        metadata: LearningModuleMetadata {
            name: "m".to_string(),
            author: "a".to_string(),
            updated: "today".to_string(),
            file_version: Version { major: 1, minor: 0, patch: 0 },
            format_version: Version { major: 2, minor: 0, patch: 0 },
        },
        entries: vec![
            LearningModuleEntry {
                entry_type: LearningModuleEntryType::SingleChoice,
                id: "e1".to_string(),
                sampleable: true,
                entry_tags: vec![
                    EntryTag::Question(Question { label: "q".to_string() }),
                    EntryTag::Answer(Answer {
                        correct: true,
                        id: "a1".to_string(),
                        category: "".to_string(),
                        label: "yes".to_string(),
                    }),
                ],
            },
        ],
    }
}

#[test]
fn entry_type_defaults_to_unspecified() {
    assert_eq!(LearningModuleEntryType::default(), LearningModuleEntryType::Unspecified);
}

#[test]
fn a_clone_carries_every_field() {
    let m = sample_module();
    let c = m.clone();
    assert_eq!(c.metadata.name, m.metadata.name);
    assert_eq!(c.metadata.author, m.metadata.author);
    assert_eq!(c.metadata.updated, m.metadata.updated);
    assert_eq!(c.metadata.file_version, m.metadata.file_version);
    assert_eq!(c.metadata.format_version, m.metadata.format_version);
    assert_eq!(c.entries.len(), m.entries.len());
    assert_eq!(c.entries[0].id, m.entries[0].id);
    assert_eq!(c.entries[0].entry_type, m.entries[0].entry_type);
    assert_eq!(c.entries[0].sampleable, m.entries[0].sampleable);
    assert_eq!(c.entries[0].entry_tags.len(), 2);
    match (&c.entries[0].entry_tags[1], &m.entries[0].entry_tags[1]) {
        (EntryTag::Answer(ca), EntryTag::Answer(ma)) => {
            assert_eq!(ca.correct, ma.correct);
            assert_eq!(ca.id, ma.id);
            assert_eq!(ca.category, ma.category);
            assert_eq!(ca.label, ma.label);
        },
        _ => panic!("the answer tag survives a clone"),
    }
}
