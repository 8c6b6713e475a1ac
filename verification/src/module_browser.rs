use vstd::prelude::*;
use crate::version::Version;

verus! {

/// One quiz/learning unit loaded from one source document.
pub struct LearningModule {
    pub metadata: LearningModuleMetadata,
    pub entries: Vec<LearningModuleEntry>,
}

/// The descriptive block of a module. `format_version` identifies the
/// document grammar the parser honours; `file_version` is content revision,
/// opaque to parsing logic.
pub struct LearningModuleMetadata {
    pub name: String,
    pub author: String,
    pub updated: String,
    pub file_version: Version,
    pub format_version: Version,
}

/// One addressable unit within a module: a question, a grouping category and
/// the like, carrying tagged content.
pub struct LearningModuleEntry {
    pub entry_type: LearningModuleEntryType,
    pub id: String,
    pub sampleable: bool,
    pub entry_tags: Vec<EntryTag>,
}

/// One typed piece of content nested inside an entry.
pub enum EntryTag {
    Question(Question),
    Answer(Answer),
    Category(Category),
}

pub struct Question {
    pub label: String,
}

pub struct Answer {
    pub correct: bool,
    pub id: String,
    pub category: String,
    pub label: String,
}

pub struct Category {
    pub id: String,
    pub label: String,
}

/// The closed set of entry kinds; `Unspecified` is the default when the source
/// document omits the field.
#[derive(Debug, Clone, Copy, PartialEq, Eq, Structural)]
pub enum LearningModuleEntryType {
    Unspecified,
    SingleChoice,
    MultipleChoice,
    Category,
}

impl Default for LearningModuleEntryType {
    fn default() -> (r: Self)
        ensures
            r == LearningModuleEntryType::Unspecified,
    {
        LearningModuleEntryType::Unspecified
    }
}

/// Mathematical image of a module's metadata.
pub ghost struct MetadataView {
    pub name: Seq<char>,
    pub author: Seq<char>,
    pub updated: Seq<char>,
    pub file_version: Version,
    pub format_version: Version,
}

/// Mathematical image of one tagged piece of entry content.
pub ghost enum TagView {
    Question { label: Seq<char> },
    Answer { correct: bool, id: Seq<char>, category: Seq<char>, label: Seq<char> },
    Category { id: Seq<char>, label: Seq<char> },
}

/// Mathematical image of one entry.
pub ghost struct EntryView {
    pub entry_type: LearningModuleEntryType,
    pub id: Seq<char>,
    pub sampleable: bool,
    pub tags: Seq<TagView>,
}

/// Mathematical image of a whole module.
pub ghost struct ModuleView {
    pub metadata: MetadataView,
    pub entries: Seq<EntryView>,
}

impl View for LearningModuleMetadata {
    type V = MetadataView;

    open spec fn view(&self) -> MetadataView {
        MetadataView {
            name: self.name@,
            author: self.author@,
            updated: self.updated@,
            file_version: self.file_version,
            format_version: self.format_version,
        }
    }
}

impl View for EntryTag {
    type V = TagView;

    open spec fn view(&self) -> TagView {
        match self {
            EntryTag::Question(q) => TagView::Question { label: q.label@ },
            EntryTag::Answer(a) => TagView::Answer {
                correct: a.correct,
                id: a.id@,
                category: a.category@,
                label: a.label@,
            },
            EntryTag::Category(c) => TagView::Category { id: c.id@, label: c.label@ },
        }
    }
}

impl View for LearningModuleEntry {
    type V = EntryView;

    open spec fn view(&self) -> EntryView {
        EntryView {
            entry_type: self.entry_type,
            id: self.id@,
            sampleable: self.sampleable,
            tags: self.entry_tags@.map_values(|t: EntryTag| t@),
        }
    }
}

impl View for LearningModule {
    type V = ModuleView;

    open spec fn view(&self) -> ModuleView {
        ModuleView {
            metadata: self.metadata@,
            entries: self.entries@.map_values(|e: LearningModuleEntry| e@),
        }
    }
}

impl Clone for Question {
    fn clone(&self) -> (r: Self)
        ensures
            r == *self,
    {
        Question { label: self.label.clone() }
    }
}

impl Clone for Answer {
    fn clone(&self) -> (r: Self)
        ensures
            r == *self,
    {
        Answer {
            correct: self.correct,
            id: self.id.clone(),
            category: self.category.clone(),
            label: self.label.clone(),
        }
    }
}

impl Clone for Category {
    fn clone(&self) -> (r: Self)
        ensures
            r == *self,
    {
        Category { id: self.id.clone(), label: self.label.clone() }
    }
}

impl Clone for EntryTag {
    fn clone(&self) -> (r: Self)
        ensures
            r == *self,
    {
        match self {
            EntryTag::Question(q) => EntryTag::Question(q.clone()),
            EntryTag::Answer(a) => EntryTag::Answer(a.clone()),
            EntryTag::Category(c) => EntryTag::Category(c.clone()),
        }
    }
}

impl Clone for LearningModuleEntry {
    fn clone(&self) -> (r: Self)
        ensures
            r@ == self@,
            r.entry_type == self.entry_type,
            r.sampleable == self.sampleable,
    {
        let tags = self.entry_tags.clone();
        proof {
            assert forall|i: int| 0 <= i < tags@.len() implies tags@[i] == self.entry_tags@[i] by {
                assert(vstd::pervasive::cloned::<EntryTag>(self.entry_tags[i], tags[i]));
            }
            assert(tags@ =~= self.entry_tags@);
        }
        LearningModuleEntry {
            entry_type: self.entry_type,
            id: self.id.clone(),
            sampleable: self.sampleable,
            entry_tags: tags,
        }
    }
}

impl Clone for LearningModuleMetadata {
    fn clone(&self) -> (r: Self)
        ensures
            r == *self,
    {
        LearningModuleMetadata {
            name: self.name.clone(),
            author: self.author.clone(),
            updated: self.updated.clone(),
            file_version: self.file_version,
            format_version: self.format_version,
        }
    }
}

impl Clone for LearningModule {
    fn clone(&self) -> (r: Self)
        ensures
            r@ == self@,
            r.metadata == self.metadata,
    {
        let entries = self.entries.clone();
        proof {
            assert forall|i: int| 0 <= i < entries@.len() implies entries@[i]@ == self.entries@[i]@ by {
                assert(vstd::pervasive::cloned::<LearningModuleEntry>(self.entries[i], entries[i]));
            }
            assert(entries@.map_values(|e: LearningModuleEntry| e@) =~= self.entries@.map_values(
                |e: LearningModuleEntry| e@));
        }
        LearningModule { metadata: self.metadata.clone(), entries }
    }
}

} // verus!
