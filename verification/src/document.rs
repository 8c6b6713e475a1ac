use vstd::prelude::*;
use vstd::string::StringExecFns;
use crate::error::Error;
use crate::events::{spec_events_of, Attr, AttrView, DocEvent};
use crate::module_browser::{
    Answer, Category, EntryTag, EntryView, LearningModule, LearningModuleEntry,
    LearningModuleEntryType, LearningModuleMetadata, MetadataView, ModuleView, Question, TagView,
};
use crate::tree::{
    attrs_view, lemma_nodes_view_elts, node_view, nodes_view, root_of, spec_root_of, Element,
    ElementView, Node, NodeView,
};
use crate::version::{spec_parse_version, Version};

verus! {

/// The images of a sequence of entry tags.
pub open spec fn tags_view(ts: Seq<EntryTag>) -> Seq<TagView> {
    ts.map_values(|t: EntryTag| t@)
}

/// The images of a sequence of entries.
pub open spec fn entries_view(es: Seq<LearningModuleEntry>) -> Seq<EntryView> {
    es.map_values(|e: LearningModuleEntry| e@)
}

/// The first element child bearing `name`, in document order; text and
/// differently-named children are passed over.
pub open spec fn spec_find_child(children: Seq<NodeView>, name: Seq<char>) -> Option<ElementView>
    decreases children.len(),
{
    if children.len() == 0 {
        None
    } else {
        match children[0] {
            NodeView::Elem(e) => if e.name == name {
                Some(e)
            } else {
                spec_find_child(children.skip(1), name)
            },
            NodeView::Text(_) => spec_find_child(children.skip(1), name),
        }
    }
}

/// The concatenation of the direct character data of an element, nested
/// elements contributing nothing.
pub open spec fn spec_text_of(children: Seq<NodeView>) -> Seq<char>
    decreases children.len(),
{
    if children.len() == 0 {
        Seq::empty()
    } else {
        match children[0] {
            NodeView::Text(t) => t + spec_text_of(children.skip(1)),
            NodeView::Elem(_) => spec_text_of(children.skip(1)),
        }
    }
}

/// The value of the first attribute bearing `name`.
pub open spec fn spec_attr_of(attrs: Seq<AttrView>, name: Seq<char>) -> Option<Seq<char>>
    decreases attrs.len(),
{
    if attrs.len() == 0 {
        None
    } else if attrs[0].name == name {
        Some(attrs[0].value)
    } else {
        spec_attr_of(attrs.skip(1), name)
    }
}

/// The reading of a boolean field: exactly `true` or `false`.
pub open spec fn spec_bool_of(s: Seq<char>) -> Option<bool> {
    if s == "true"@ {
        Some(true)
    } else if s == "false"@ {
        Some(false)
    } else {
        None
    }
}

/// The reading of an entry's `type` field.
pub open spec fn spec_type_of(s: Seq<char>) -> Option<LearningModuleEntryType> {
    if s == "single-choice"@ {
        Some(LearningModuleEntryType::SingleChoice)
    } else if s == "multiple-choice"@ {
        Some(LearningModuleEntryType::MultipleChoice)
    } else if s == "category"@ {
        Some(LearningModuleEntryType::Category)
    } else {
        None
    }
}

/// What one child of an entry contributes: a tag, nothing (unknown content
/// is ignored for forward compatibility), or a fault that fails the whole
/// document.
pub ghost enum TagRead {
    Tag(TagView),
    Ignored,
    Bad,
}

pub open spec fn spec_read_tag(n: NodeView) -> TagRead {
    match n {
        NodeView::Text(_) => TagRead::Ignored,
        NodeView::Elem(e) => {
            if e.name == "question"@ {
                TagRead::Tag(TagView::Question { label: spec_text_of(e.children) })
            } else if e.name == "answer"@ {
                match (spec_attr_of(e.attrs, "correct"@), spec_attr_of(e.attrs, "id"@)) {
                    (Some(c), Some(id)) => match spec_bool_of(c) {
                        Some(b) => TagRead::Tag(
                            TagView::Answer {
                                correct: b,
                                id: id,
                                category: match spec_attr_of(e.attrs, "category"@) {
                                    Some(v) => v,
                                    None => Seq::empty(),
                                },
                                label: spec_text_of(e.children),
                            },
                        ),
                        None => TagRead::Bad,
                    },
                    _ => TagRead::Bad,
                }
            } else if e.name == "category"@ {
                match spec_attr_of(e.attrs, "id"@) {
                    Some(id) => TagRead::Tag(
                        TagView::Category { id: id, label: spec_text_of(e.children) },
                    ),
                    None => TagRead::Bad,
                }
            } else {
                TagRead::Ignored
            }
        },
    }
}

/// The tags of an entry, in document order; any bad tag fails the reading.
pub open spec fn spec_tags_of(children: Seq<NodeView>) -> Option<Seq<TagView>>
    decreases children.len(),
{
    if children.len() == 0 {
        Some(Seq::empty())
    } else {
        match spec_read_tag(children[0]) {
            TagRead::Bad => None,
            TagRead::Ignored => spec_tags_of(children.skip(1)),
            TagRead::Tag(t) => match spec_tags_of(children.skip(1)) {
                None => None,
                Some(rest) => Some(seq![t] + rest),
            },
        }
    }
}

/// The reading of one `entry` element. `type` defaults to `Unspecified`,
/// `sampleable` to `false`; the `id` is required.
pub open spec fn spec_entry_of(e: ElementView) -> Option<EntryView> {
    let ty = match spec_attr_of(e.attrs, "type"@) {
        None => Some(LearningModuleEntryType::Unspecified),
        Some(s) => spec_type_of(s),
    };
    let smp = match spec_attr_of(e.attrs, "sampleable"@) {
        None => Some(false),
        Some(s) => spec_bool_of(s),
    };
    match (ty, smp, spec_attr_of(e.attrs, "id"@), spec_tags_of(e.children)) {
        (Some(t), Some(b), Some(id), Some(tags)) => Some(
            EntryView { entry_type: t, id: id, sampleable: b, tags: tags },
        ),
        _ => None,
    }
}

/// The entries of the `entries` block, in document order; children that are
/// not `entry` elements are ignored, and any bad entry fails the reading.
pub open spec fn spec_entries_of(children: Seq<NodeView>) -> Option<Seq<EntryView>>
    decreases children.len(),
{
    if children.len() == 0 {
        Some(Seq::empty())
    } else {
        match children[0] {
            NodeView::Elem(e) => if e.name == "entry"@ {
                match (spec_entry_of(e), spec_entries_of(children.skip(1))) {
                    (Some(en), Some(rest)) => Some(seq![en] + rest),
                    _ => None,
                }
            } else {
                spec_entries_of(children.skip(1))
            },
            NodeView::Text(_) => spec_entries_of(children.skip(1)),
        }
    }
}

/// The children of an entry that carry a tag, in document order.
pub open spec fn spec_tag_nodes(children: Seq<NodeView>) -> Seq<NodeView>
    decreases children.len(),
{
    if children.len() == 0 {
        Seq::empty()
    } else {
        let rest = spec_tag_nodes(children.skip(1));
        if spec_read_tag(children[0]) is Tag {
            seq![children[0]] + rest
        } else {
            rest
        }
    }
}

/// A successful tags reading lists exactly the readings of the tag-bearing
/// children, in document order: insertion order is preserved and nothing is
/// reordered or dropped.
pub proof fn lemma_tags_preserve_document_order(children: Seq<NodeView>, ts: Seq<TagView>)
    requires
        spec_tags_of(children) == Some(ts),
    ensures
        ts.len() == spec_tag_nodes(children).len(),
        forall|i: int|
            0 <= i < ts.len() ==> spec_read_tag(spec_tag_nodes(children)[i]) == TagRead::Tag(
                ts[i],
            ),
    decreases children.len(),
{
    if children.len() == 0 {
    } else {
        match spec_read_tag(children[0]) {
            TagRead::Bad => {},
            TagRead::Ignored => {
                lemma_tags_preserve_document_order(children.skip(1), ts);
            },
            TagRead::Tag(t) => {
                let rest_ts = spec_tags_of(children.skip(1))->Some_0;
                lemma_tags_preserve_document_order(children.skip(1), rest_ts);
                let nodes = spec_tag_nodes(children);
                let rest_nodes = spec_tag_nodes(children.skip(1));
                assert(ts == seq![t] + rest_ts);
                assert(nodes == seq![children[0]] + rest_nodes);
                assert forall|i: int|
                    0 <= i < ts.len() implies spec_read_tag(nodes[i]) == TagRead::Tag(ts[i]) by {
                    if i == 0 {
                        assert(nodes[0] == children[0]);
                        assert(ts[0] == t);
                    } else {
                        assert(nodes[i] == rest_nodes[i - 1]);
                        assert(ts[i] == rest_ts[i - 1]);
                    }
                }
            },
        }
    }
}

/// The `entry` elements among an element's children, in document order.
pub open spec fn spec_entry_elems(children: Seq<NodeView>) -> Seq<ElementView>
    decreases children.len(),
{
    if children.len() == 0 {
        Seq::empty()
    } else {
        let rest = spec_entry_elems(children.skip(1));
        match children[0] {
            NodeView::Elem(e) => if e.name == "entry"@ {
                seq![e] + rest
            } else {
                rest
            },
            NodeView::Text(_) => rest,
        }
    }
}

/// A successful entries reading holds exactly one entry per `entry`
/// element, in document order: nothing is reordered, dropped or invented.
pub proof fn lemma_entries_preserve_document_order(children: Seq<NodeView>, es: Seq<EntryView>)
    requires
        spec_entries_of(children) == Some(es),
    ensures
        es.len() == spec_entry_elems(children).len(),
        forall|i: int|
            0 <= i < es.len() ==> spec_entry_of(spec_entry_elems(children)[i]) == Some(es[i]),
    decreases children.len(),
{
    if children.len() == 0 {
    } else {
        match children[0] {
            NodeView::Elem(e) => {
                if e.name == "entry"@ {
                    let rest_es = spec_entries_of(children.skip(1))->Some_0;
                    let en = spec_entry_of(e)->Some_0;
                    lemma_entries_preserve_document_order(children.skip(1), rest_es);
                    let elems = spec_entry_elems(children);
                    let rest_elems = spec_entry_elems(children.skip(1));
                    assert(es == seq![en] + rest_es);
                    assert(elems == seq![e] + rest_elems);
                    assert forall|i: int|
                        0 <= i < es.len() implies spec_entry_of(elems[i]) == Some(es[i]) by {
                        if i == 0 {
                            assert(elems[0] == e);
                            assert(es[0] == en);
                        } else {
                            assert(elems[i] == rest_elems[i - 1]);
                            assert(es[i] == rest_es[i - 1]);
                        }
                    }
                } else {
                    lemma_entries_preserve_document_order(children.skip(1), es);
                }
            },
            NodeView::Text(_) => {
                lemma_entries_preserve_document_order(children.skip(1), es);
            },
        }
    }
}

/// The version carried by the named metadata field, read under the strict
/// version grammar.
pub open spec fn spec_version_field(meta: ElementView, field: Seq<char>) -> Option<Version> {
    match spec_find_child(meta.children, field) {
        None => None,
        Some(e) => spec_parse_version(spec_text_of(e.children)),
    }
}

/// The reading of the `metadata` block: `name`, `author` and `updated` carry
/// their text, and the two version fields must parse.
pub open spec fn spec_metadata_of(meta: ElementView) -> Option<MetadataView> {
    match (
        spec_find_child(meta.children, "name"@),
        spec_find_child(meta.children, "author"@),
        spec_find_child(meta.children, "updated"@),
    ) {
        (Some(nm), Some(au), Some(up)) => match (
            spec_version_field(meta, "file-version"@),
            spec_version_field(meta, "format-version"@),
        ) {
            (Some(fv), Some(gv)) => Some(
                MetadataView {
                    name: spec_text_of(nm.children),
                    author: spec_text_of(au.children),
                    updated: spec_text_of(up.children),
                    file_version: fv,
                    format_version: gv,
                },
            ),
            _ => None,
        },
        _ => None,
    }
}

/// Whether the metadata block fails specifically on version text: its
/// plain required fields are all present, yet the text of a present
/// `file-version` — or, that one being sound, of a present
/// `format-version` — does not match the version grammar. This is exactly
/// when a metadata fault is a `MalformedVersion` rather than a plain
/// `MalformedDocument`.
pub open spec fn spec_metadata_version_fault(meta: ElementView) -> bool {
    &&& spec_find_child(meta.children, "name"@) is Some
    &&& spec_find_child(meta.children, "author"@) is Some
    &&& spec_find_child(meta.children, "updated"@) is Some
    &&& {
        ||| match spec_find_child(meta.children, "file-version"@) {
            Some(e) => spec_parse_version(spec_text_of(e.children)) is None,
            None => false,
        }
        ||| (spec_version_field(meta, "file-version"@) is Some
            && match spec_find_child(meta.children, "format-version"@) {
            Some(e) => spec_parse_version(spec_text_of(e.children)) is None,
            None => false,
        })
    }
}

/// Whether a whole document fails specifically on version text anywhere in
/// its metadata.
pub open spec fn spec_version_fault(evs: Seq<DocEvent>) -> bool {
    match spec_root_of(evs) {
        None => false,
        Some(root) => match spec_find_child(root.children, "metadata"@) {
            None => false,
            Some(meta) => spec_metadata_version_fault(meta),
        },
    }
}

/// The reading of a whole document from its root element: a `metadata`
/// block and an `entries` block, other children ignored.
pub open spec fn spec_module_of(root: ElementView) -> Option<ModuleView> {
    match (spec_find_child(root.children, "metadata"@), spec_find_child(root.children, "entries"@)) {
        (Some(md), Some(en)) => match (spec_metadata_of(md), spec_entries_of(en.children)) {
            (Some(m), Some(es)) => Some(ModuleView { metadata: m, entries: es }),
            _ => None,
        },
        _ => None,
    }
}

/// The reading of a whole document from its parse events.
pub open spec fn spec_parse_module(evs: Seq<DocEvent>) -> Option<ModuleView> {
    match spec_root_of(evs) {
        None => None,
        Some(root) => spec_module_of(root),
    }
}

fn elem_named(e: &Element, name: &str) -> (r: bool)
    ensures
        r == (e@.name == name@),
{
    let s = String::from_str(name);
    e.name == s
}

fn find_child<'a>(children: &'a Vec<Node>, name: &str) -> (r: Option<&'a Element>)
    ensures
        match r {
            Some(e) => spec_find_child(nodes_view(children@), name@) == Some(e@),
            None => spec_find_child(nodes_view(children@), name@) is None,
        },
{
    let ghost full = nodes_view(children@);
    proof {
        lemma_nodes_view_elts(children@);
    }
    let mut i: usize = 0;
    proof {
        assert(full.skip(0) =~= full);
    }
    loop
        invariant
            i <= children@.len(),
            full == nodes_view(children@),
            full.len() == children@.len(),
            forall|k: int| 0 <= k < children@.len() ==> full[k] == node_view(children@[k]),
            spec_find_child(full, name@) == spec_find_child(full.skip(i as int), name@),
        decreases children@.len() - i,
    {
        if i == children.len() {
            return None;
        }
        proof {
            assert(full.skip(i as int)[0] == full[i as int]);
            assert(full.skip(i as int).skip(1) =~= full.skip(i + 1));
        }
        match &children[i] {
            Node::Elem(e) => {
                if elem_named(e, name) {
                    return Some(e);
                }
            },
            Node::Text(_) => {},
        }
        i = i + 1;
    }
}

fn text_of(children: &Vec<Node>) -> (r: String)
    ensures
        r@ == spec_text_of(nodes_view(children@)),
{
    let ghost full = nodes_view(children@);
    proof {
        lemma_nodes_view_elts(children@);
    }
    let mut out = String::new();
    let mut i: usize = 0;
    proof {
        assert(full.skip(0) =~= full);
        assert(out@ + spec_text_of(full) =~= spec_text_of(full));
    }
    loop
        invariant
            i <= children@.len(),
            full == nodes_view(children@),
            full.len() == children@.len(),
            forall|k: int| 0 <= k < children@.len() ==> full[k] == node_view(children@[k]),
            spec_text_of(full) == out@ + spec_text_of(full.skip(i as int)),
        decreases children@.len() - i,
    {
        if i == children.len() {
            proof {
                assert(spec_text_of(full.skip(i as int)) =~= Seq::<char>::empty());
                assert(out@ + Seq::<char>::empty() =~= out@);
            }
            return out;
        }
        proof {
            assert(full.skip(i as int)[0] == full[i as int]);
            assert(full.skip(i as int).skip(1) =~= full.skip(i + 1));
        }
        let ghost prev = out@;
        match &children[i] {
            Node::Elem(_) => {},
            Node::Text(t) => {
                out.append(t.as_str());
                proof {
                    assert(prev + (t@ + spec_text_of(full.skip(i + 1))) =~= (prev + t@)
                        + spec_text_of(full.skip(i + 1)));
                }
            },
        }
        i = i + 1;
    }
}

fn attr_of(attrs: &Vec<Attr>, name: &str) -> (r: Option<String>)
    ensures
        match r {
            Some(v) => spec_attr_of(attrs_view(attrs@), name@) == Some(v@),
            None => spec_attr_of(attrs_view(attrs@), name@) is None,
        },
{
    let ghost full = attrs_view(attrs@);
    let target = String::from_str(name);
    let mut i: usize = 0;
    proof {
        assert(full.skip(0) =~= full);
    }
    loop
        invariant
            i <= attrs@.len(),
            full == attrs_view(attrs@),
            target@ == name@,
            spec_attr_of(full, name@) == spec_attr_of(full.skip(i as int), name@),
        decreases attrs@.len() - i,
    {
        if i == attrs.len() {
            return None;
        }
        proof {
            assert(full.skip(i as int)[0] == full[i as int]);
            assert(full.skip(i as int).skip(1) =~= full.skip(i + 1));
        }
        if attrs[i].name == target {
            return Some(attrs[i].value.clone());
        }
        i = i + 1;
    }
}

fn bool_of(s: &String) -> (r: Option<bool>)
    ensures
        match r {
            Some(b) => spec_bool_of(s@) == Some(b),
            None => spec_bool_of(s@) is None,
        },
{
    if *s == String::from_str("true") {
        Some(true)
    } else if *s == String::from_str("false") {
        Some(false)
    } else {
        None
    }
}

fn type_of(s: &String) -> (r: Option<LearningModuleEntryType>)
    ensures
        match r {
            Some(t) => spec_type_of(s@) == Some(t),
            None => spec_type_of(s@) is None,
        },
{
    if *s == String::from_str("single-choice") {
        Some(LearningModuleEntryType::SingleChoice)
    } else if *s == String::from_str("multiple-choice") {
        Some(LearningModuleEntryType::MultipleChoice)
    } else if *s == String::from_str("category") {
        Some(LearningModuleEntryType::Category)
    } else {
        None
    }
}

fn read_tag(n: &Node) -> (r: Result<Option<EntryTag>, Error>)
    ensures
        match r {
            Ok(Some(t)) => spec_read_tag(n@) == TagRead::Tag(t@),
            Ok(None) => spec_read_tag(n@) is Ignored,
            Err(e) => spec_read_tag(n@) is Bad && e is MalformedDocument,
        },
{
    let e = match n {
        Node::Text(_) => {
            return Ok(None);
        },
        Node::Elem(e) => e,
    };
    if elem_named(e, "question") {
        let label = text_of(&e.children);
        Ok(Some(EntryTag::Question(Question { label })))
    } else if elem_named(e, "answer") {
        let correct_text = match attr_of(&e.attrs, "correct") {
            Some(v) => v,
            None => {
                return Err(Error::MalformedDocument {
                    detail: String::from_str("an answer needs a correct flag"),
                });
            },
        };
        let id = match attr_of(&e.attrs, "id") {
            Some(v) => v,
            None => {
                return Err(Error::MalformedDocument {
                    detail: String::from_str("an answer needs an id"),
                });
            },
        };
        let correct = match bool_of(&correct_text) {
            Some(b) => b,
            None => {
                return Err(Error::MalformedDocument {
                    detail: String::from_str("an answer's correct flag is not a boolean"),
                });
            },
        };
        let category = match attr_of(&e.attrs, "category") {
            Some(v) => v,
            None => String::new(),
        };
        let label = text_of(&e.children);
        Ok(Some(EntryTag::Answer(Answer { correct, id, category, label })))
    } else if elem_named(e, "category") {
        let id = match attr_of(&e.attrs, "id") {
            Some(v) => v,
            None => {
                return Err(Error::MalformedDocument {
                    detail: String::from_str("a category needs an id"),
                });
            },
        };
        let label = text_of(&e.children);
        Ok(Some(EntryTag::Category(Category { id, label })))
    } else {
        Ok(None)
    }
}

fn tags_of(children: &Vec<Node>) -> (r: Result<Vec<EntryTag>, Error>)
    ensures
        match r {
            Ok(ts) => spec_tags_of(nodes_view(children@)) == Some(tags_view(ts@)),
            Err(e) => spec_tags_of(nodes_view(children@)) is None && e is MalformedDocument,
        },
{
    let ghost full = nodes_view(children@);
    proof {
        lemma_nodes_view_elts(children@);
    }
    let mut out: Vec<EntryTag> = Vec::new();
    let mut i: usize = 0;
    proof {
        assert(full.skip(0) =~= full);
        assert(tags_view(out@) =~= Seq::<TagView>::empty());
        if spec_tags_of(full) is Some {
            assert(tags_view(out@) + spec_tags_of(full)->Some_0 =~= spec_tags_of(full)->Some_0);
        }
    }
    loop
        invariant
            i <= children@.len(),
            full == nodes_view(children@),
            full.len() == children@.len(),
            forall|k: int| 0 <= k < children@.len() ==> full[k] == node_view(children@[k]),
            spec_tags_of(full) == match spec_tags_of(full.skip(i as int)) {
                Some(rest) => Some(tags_view(out@) + rest),
                None => None::<Seq<TagView>>,
            },
        decreases children@.len() - i,
    {
        if i == children.len() {
            proof {
                assert(spec_tags_of(full.skip(i as int)) == Some(Seq::<TagView>::empty()));
                assert(tags_view(out@) + Seq::<TagView>::empty() =~= tags_view(out@));
            }
            return Ok(out);
        }
        proof {
            assert(full.skip(i as int)[0] == full[i as int]);
            assert(full.skip(i as int).skip(1) =~= full.skip(i + 1));
        }
        let ghost prev = out@;
        match read_tag(&children[i]) {
            Err(e) => {
                return Err(e);
            },
            Ok(None) => {},
            Ok(Some(t)) => {
                let ghost tv = t@;
                out.push(t);
                proof {
                    assert(tags_view(out@) =~= tags_view(prev) + seq![tv]);
                    if spec_tags_of(full.skip(i + 1)) is Some {
                        let rest = spec_tags_of(full.skip(i + 1))->Some_0;
                        assert(tags_view(prev) + (seq![tv] + rest) =~= (tags_view(prev)
                            + seq![tv]) + rest);
                    }
                }
            },
        }
        i = i + 1;
    }
}

fn entry_of(e: &Element) -> (r: Result<LearningModuleEntry, Error>)
    ensures
        match r {
            Ok(en) => spec_entry_of(e@) == Some(en@),
            Err(err) => spec_entry_of(e@) is None && err is MalformedDocument,
        },
{
    let entry_type = match attr_of(&e.attrs, "type") {
        None => LearningModuleEntryType::Unspecified,
        Some(s) => match type_of(&s) {
            Some(t) => t,
            None => {
                return Err(Error::MalformedDocument {
                    detail: String::from_str("unknown entry type"),
                });
            },
        },
    };
    let sampleable = match attr_of(&e.attrs, "sampleable") {
        None => false,
        Some(s) => match bool_of(&s) {
            Some(b) => b,
            None => {
                return Err(Error::MalformedDocument {
                    detail: String::from_str("an entry's sampleable flag is not a boolean"),
                });
            },
        },
    };
    let id = match attr_of(&e.attrs, "id") {
        Some(v) => v,
        None => {
            return Err(Error::MalformedDocument {
                detail: String::from_str("an entry needs an id"),
            });
        },
    };
    let entry_tags = match tags_of(&e.children) {
        Ok(ts) => ts,
        Err(err) => {
            return Err(err);
        },
    };
    let en = LearningModuleEntry { entry_type, id, sampleable, entry_tags };
    proof {
        assert(en@.tags =~= tags_view(en.entry_tags@));
    }
    Ok(en)
}

fn entries_of(children: &Vec<Node>) -> (r: Result<Vec<LearningModuleEntry>, Error>)
    ensures
        match r {
            Ok(es) => spec_entries_of(nodes_view(children@)) == Some(entries_view(es@)),
            Err(e) => spec_entries_of(nodes_view(children@)) is None && e is MalformedDocument,
        },
{
    let ghost full = nodes_view(children@);
    proof {
        lemma_nodes_view_elts(children@);
    }
    let mut out: Vec<LearningModuleEntry> = Vec::new();
    let mut i: usize = 0;
    proof {
        assert(full.skip(0) =~= full);
        assert(entries_view(out@) =~= Seq::<EntryView>::empty());
        if spec_entries_of(full) is Some {
            assert(entries_view(out@) + spec_entries_of(full)->Some_0 =~= spec_entries_of(
                full)->Some_0);
        }
    }
    loop
        invariant
            i <= children@.len(),
            full == nodes_view(children@),
            full.len() == children@.len(),
            forall|k: int| 0 <= k < children@.len() ==> full[k] == node_view(children@[k]),
            spec_entries_of(full) == match spec_entries_of(full.skip(i as int)) {
                Some(rest) => Some(entries_view(out@) + rest),
                None => None::<Seq<EntryView>>,
            },
        decreases children@.len() - i,
    {
        if i == children.len() {
            proof {
                assert(spec_entries_of(full.skip(i as int)) == Some(Seq::<EntryView>::empty()));
                assert(entries_view(out@) + Seq::<EntryView>::empty() =~= entries_view(out@));
            }
            return Ok(out);
        }
        proof {
            assert(full.skip(i as int)[0] == full[i as int]);
            assert(full.skip(i as int).skip(1) =~= full.skip(i + 1));
        }
        let ghost prev = out@;
        match &children[i] {
            Node::Text(_) => {},
            Node::Elem(e) => {
                if elem_named(e, "entry") {
                    match entry_of(e) {
                        Err(err) => {
                            return Err(err);
                        },
                        Ok(en) => {
                            let ghost ev = en@;
                            out.push(en);
                            proof {
                                assert(entries_view(out@) =~= entries_view(prev) + seq![ev]);
                                if spec_entries_of(full.skip(i + 1)) is Some {
                                    let rest = spec_entries_of(full.skip(i + 1))->Some_0;
                                    assert(entries_view(prev) + (seq![ev] + rest) =~= (
                                    entries_view(prev) + seq![ev]) + rest);
                                }
                            }
                        },
                    }
                }
            },
        }
        i = i + 1;
    }
}

fn version_field(meta: &Element, field: &str) -> (r: Result<Version, Error>)
    ensures
        match r {
            Ok(v) => spec_version_field(meta@, field@) == Some(v),
            Err(e) => {
                &&& spec_version_field(meta@, field@) is None
                &&& e.is_document_error()
                &&& (e is MalformedVersion <==> spec_find_child(meta@.children, field@) is Some)
            },
        },
{
    match find_child(&meta.children, field) {
        None => Err(Error::MalformedDocument {
            detail: String::from_str("a version field is missing"),
        }),
        Some(el) => {
            let text = text_of(&el.children);
            match Version::parse(text.as_str()) {
                Ok(v) => Ok(v),
                Err(e) => Err(e),
            }
        },
    }
}

fn metadata_of(meta: &Element) -> (r: Result<LearningModuleMetadata, Error>)
    ensures
        match r {
            Ok(m) => spec_metadata_of(meta@) == Some(m@),
            Err(e) => {
                &&& spec_metadata_of(meta@) is None
                &&& e.is_document_error()
                &&& (e is MalformedVersion <==> spec_metadata_version_fault(meta@))
            },
        },
{
    let name = match find_child(&meta.children, "name") {
        Some(el) => text_of(&el.children),
        None => {
            return Err(Error::MalformedDocument {
                detail: String::from_str("metadata needs a name"),
            });
        },
    };
    let author = match find_child(&meta.children, "author") {
        Some(el) => text_of(&el.children),
        None => {
            return Err(Error::MalformedDocument {
                detail: String::from_str("metadata needs an author"),
            });
        },
    };
    let updated = match find_child(&meta.children, "updated") {
        Some(el) => text_of(&el.children),
        None => {
            return Err(Error::MalformedDocument {
                detail: String::from_str("metadata needs an updated date"),
            });
        },
    };
    let file_version = match version_field(meta, "file-version") {
        Ok(v) => v,
        Err(e) => {
            return Err(e);
        },
    };
    let format_version = match version_field(meta, "format-version") {
        Ok(v) => v,
        Err(e) => {
            return Err(e);
        },
    };
    Ok(LearningModuleMetadata { name, author, updated, file_version, format_version })
}

/// Read one whole document, given as its structural parse events, into a
/// module: the reading follows [`spec_parse_module`] exactly, and any fault
/// — unbalanced markup, a missing required field, a bad version — fails the
/// whole document; no partial module is returned. The fault is
/// `MalformedVersion` exactly when version text anywhere in the metadata
/// fails the version grammar, and a plain `MalformedDocument` otherwise.
pub fn parse_module_events(events: &Vec<DocEvent>) -> (r: Result<LearningModule, Error>)
    ensures
        match r {
            Ok(m) => spec_parse_module(events@) == Some(m@),
            Err(e) => {
                &&& spec_parse_module(events@) is None
                &&& e.is_document_error()
                &&& (e is MalformedVersion <==> spec_version_fault(events@))
            },
        },
{
    let root = match root_of(events) {
        Ok(e) => e,
        Err(e) => {
            return Err(e);
        },
    };
    let md_elem = match find_child(&root.children, "metadata") {
        Some(el) => el,
        None => {
            return Err(Error::MalformedDocument {
                detail: String::from_str("a document needs a metadata block"),
            });
        },
    };
    let metadata = match metadata_of(md_elem) {
        Ok(m) => m,
        Err(e) => {
            return Err(e);
        },
    };
    let en_elem = match find_child(&root.children, "entries") {
        Some(el) => el,
        None => {
            return Err(Error::MalformedDocument {
                detail: String::from_str("a document needs an entries block"),
            });
        },
    };
    let entries = match entries_of(&en_elem.children) {
        Ok(es) => es,
        Err(e) => {
            return Err(e);
        },
    };
    let m = LearningModule { metadata, entries };
    proof {
        assert(m@.entries =~= entries_view(m.entries@));
    }
    Ok(m)
}

/// The reading of one whole document from its raw bytes: the markup
/// reader's events for those bytes, then the schema reading of the events.
pub open spec fn spec_parse_bytes(bytes: Seq<u8>) -> Option<ModuleView> {
    match spec_events_of(bytes) {
        None => None,
        Some(evs) => spec_parse_module(evs),
    }
}

/// Read one whole document, given as raw bytes, into a module: exactly the
/// event-level reading of the markup reader's events for these bytes,
/// nothing more. A markup fault from the reader fails the document, and the
/// fault is `MalformedVersion` exactly when the events read but version
/// text in the metadata fails the version grammar.
pub fn parse_module_bytes(bytes: &[u8]) -> (r: Result<LearningModule, Error>)
    ensures
        match r {
            Ok(m) => spec_parse_bytes(bytes@) == Some(m@),
            Err(e) => {
                &&& spec_parse_bytes(bytes@) is None
                &&& e.is_document_error()
                &&& (e is MalformedVersion <==> (spec_events_of(bytes@) matches Some(evs)
                    && spec_version_fault(evs)))
            },
        },
{
    let events = match crate::events::read_events(bytes) {
        Ok(v) => v,
        Err(e) => {
            return Err(e);
        },
    };
    parse_module_events(&events)
}

} // verus!
