use vstd::prelude::*;
use crate::error::Error;
use crate::events::{Attr, AttrView, DocEvent};

verus! {

broadcast use vstd::std_specs::vec::group_vec_axioms;

/// One element of a document tree: a name, its attributes, and its children
/// in document order.
pub struct Element {
    pub name: String,
    pub attrs: Vec<Attr>,
    pub children: Vec<Node>,
}

/// One node of a document tree: an element or a run of character data.
pub enum Node {
    Elem(Element),
    Text(String),
}

/// Mathematical image of an element.
pub ghost struct ElementView {
    pub name: Seq<char>,
    pub attrs: Seq<AttrView>,
    pub children: Seq<NodeView>,
}

/// Mathematical image of a node.
pub ghost enum NodeView {
    Elem(ElementView),
    Text(Seq<char>),
}

/// The images of a sequence of attributes.
pub open spec fn attrs_view(attrs: Seq<Attr>) -> Seq<AttrView> {
    attrs.map_values(|a: Attr| a@)
}

pub open spec fn node_view(n: Node) -> NodeView
    decreases n,
{
    match n {
        Node::Elem(e) => NodeView::Elem(element_view(e)),
        Node::Text(t) => NodeView::Text(t@),
    }
}

pub open spec fn element_view(e: Element) -> ElementView
    decreases e,
{
    ElementView { name: e.name@, attrs: attrs_view(e.attrs@), children: nodes_view(e.children@) }
}

pub open spec fn nodes_view(ns: Seq<Node>) -> Seq<NodeView>
    decreases ns,
{
    if ns.len() == 0 {
        Seq::empty()
    } else {
        nodes_view(ns.drop_last()).push(node_view(ns.last()))
    }
}

impl View for Node {
    type V = NodeView;

    open spec fn view(&self) -> NodeView {
        node_view(*self)
    }
}

impl View for Element {
    type V = ElementView;

    open spec fn view(&self) -> ElementView {
        element_view(*self)
    }
}

pub proof fn lemma_nodes_view_elts(ns: Seq<Node>)
    ensures
        nodes_view(ns).len() == ns.len(),
        forall|i: int| 0 <= i < ns.len() ==> nodes_view(ns)[i] == node_view(ns[i]),
    decreases ns,
{
    if ns.len() > 0 {
        lemma_nodes_view_elts(ns.drop_last());
    }
}

/// The unique reading of the events from position `i` as a sequence of
/// sibling nodes: it ends at the first unmatched element close (left
/// unconsumed) or at the end of the events, and it fails — yields nothing —
/// where an opened element never closes.
pub open spec fn spec_parse_nodes(evs: Seq<DocEvent>, i: int) -> Option<(Seq<NodeView>, int)>
    decreases evs.len() - i,
{
    if i < 0 {
        None
    } else if i >= evs.len() {
        Some((Seq::empty(), evs.len() as int))
    } else {
        match evs[i] {
            DocEvent::Close => Some((Seq::empty(), i)),
            DocEvent::Skip => spec_parse_nodes(evs, i + 1),
            DocEvent::Text { text } => match spec_parse_nodes(evs, i + 1) {
                None => None,
                Some((rest, p)) => Some((seq![NodeView::Text(text@)] + rest, p)),
            },
            DocEvent::Open { name, attrs } => match spec_parse_nodes(evs, i + 1) {
                None => None,
                Some((children, praw)) => {
                    let p2 = if praw < i + 1 { i + 1 } else { praw };
                    if p2 >= evs.len() || !(evs[p2] is Close) {
                        None
                    } else {
                        match spec_parse_nodes(evs, p2 + 1) {
                            None => None,
                            Some((rest, p3)) => Some(
                                (
                                    seq![
                                        NodeView::Elem(
                                            ElementView {
                                                name: name@,
                                                attrs: attrs_view(attrs@),
                                                children,
                                            },
                                        ),
                                    ] + rest,
                                    p3,
                                ),
                            ),
                        }
                    }
                },
            },
        }
    }
}

pub proof fn lemma_spec_parse_nodes_bounds(evs: Seq<DocEvent>, i: int)
    requires
        0 <= i <= evs.len(),
    ensures
        match spec_parse_nodes(evs, i) {
            Some((ns, p)) => i <= p <= evs.len() && (p == evs.len() || evs[p] is Close),
            None => true,
        },
    decreases evs.len() - i,
{
    if i < evs.len() {
        match evs[i] {
            DocEvent::Close => {},
            DocEvent::Skip => {
                lemma_spec_parse_nodes_bounds(evs, i + 1);
            },
            DocEvent::Text { .. } => {
                lemma_spec_parse_nodes_bounds(evs, i + 1);
            },
            DocEvent::Open { .. } => {
                lemma_spec_parse_nodes_bounds(evs, i + 1);
                match spec_parse_nodes(evs, i + 1) {
                    None => {},
                    Some((children, praw)) => {
                        let p2 = if praw < i + 1 { i + 1 } else { praw };
                        if p2 < evs.len() && evs[p2] is Close {
                            lemma_spec_parse_nodes_bounds(evs, p2 + 1);
                        }
                    },
                }
            },
        }
    }
}

fn clone_attrs(attrs: &Vec<Attr>) -> (r: Vec<Attr>)
    ensures
        r@ == attrs@,
{
    let r = attrs.clone();
    proof {
        assert forall|i: int| 0 <= i < r@.len() implies r@[i] == attrs@[i] by {
            assert(vstd::pervasive::cloned::<Attr>(attrs[i], r[i]));
        }
        assert(r@ =~= attrs@);
    }
    r
}

/// Read the sibling nodes that start at `pos`, exactly as
/// [`spec_parse_nodes`] describes them.
pub fn parse_nodes(events: &Vec<DocEvent>, pos: usize) -> (r: Result<(Vec<Node>, usize), Error>)
    requires
        pos <= events@.len(),
    ensures
        match r {
            Ok(np) => {
                &&& spec_parse_nodes(events@, pos as int) == Some(
                    (nodes_view(np.0@), np.1 as int),
                )
                &&& pos <= np.1 <= events@.len()
            },
            Err(e) => spec_parse_nodes(events@, pos as int) is None && e is MalformedDocument,
        },
    decreases events@.len() - pos,
{
    if pos == events.len() {
        let r: Vec<Node> = Vec::new();
        proof {
            assert(nodes_view(r@) =~= Seq::<NodeView>::empty());
        }
        return Ok((r, pos));
    }
    match &events[pos] {
        DocEvent::Close => {
            let r: Vec<Node> = Vec::new();
            proof {
                assert(nodes_view(r@) =~= Seq::<NodeView>::empty());
            }
            Ok((r, pos))
        },
        DocEvent::Skip => parse_nodes(events, pos + 1),
        DocEvent::Text { text } => {
            match parse_nodes(events, pos + 1) {
                Err(e) => Err(e),
                Ok((rest, p)) => {
                    let mut ns = rest;
                    let ghost tail = ns@;
                    ns.insert(0, Node::Text(text.clone()));
                    proof {
                        lemma_nodes_view_elts(ns@);
                        lemma_nodes_view_elts(tail);
                        assert(nodes_view(ns@) =~= seq![NodeView::Text(text@)] + nodes_view(tail));
                    }
                    Ok((ns, p))
                },
            }
        },
        DocEvent::Open { name, attrs } => {
            match parse_nodes(events, pos + 1) {
                Err(e) => Err(e),
                Ok((children, p2)) => {
                    proof {
                        lemma_spec_parse_nodes_bounds(events@, pos + 1);
                    }
                    if p2 == events.len() {
                        return Err(Error::MalformedDocument {
                            detail: String::from_str("an element is never closed"),
                        });
                    }
                    let closed = matches!(&events[p2], DocEvent::Close);
                    if !closed {
                        // the bounds of the sibling reading put a close here
                        return Err(Error::MalformedDocument {
                            detail: String::from_str("an element is never closed"),
                        });
                    }
                    match parse_nodes(events, p2 + 1) {
                        Err(e) => Err(e),
                        Ok((rest, p3)) => {
                            let elem = Element {
                                name: name.clone(),
                                attrs: clone_attrs(attrs),
                                children,
                            };
                            let mut ns = rest;
                            let ghost tail = ns@;
                            ns.insert(0, Node::Elem(elem));
                            proof {
                                lemma_nodes_view_elts(ns@);
                                lemma_nodes_view_elts(tail);
                                assert(nodes_view(ns@) =~= seq![
                                    NodeView::Elem(
                                        ElementView {
                                            name: name@,
                                            attrs: attrs_view(attrs@),
                                            children: nodes_view(ns@[0]->Elem_0.children@),
                                        },
                                    ),
                                ] + nodes_view(tail));
                            }
                            Ok((ns, p3))
                        },
                    }
                },
            }
        },
    }
}

/// The single root element of a whole document's events, when the events
/// read as exactly one element with nothing but ignorable content around it.
pub open spec fn spec_root_of(evs: Seq<DocEvent>) -> Option<ElementView> {
    match spec_parse_nodes(evs, 0) {
        None => None,
        Some((ns, p)) => {
            if p == evs.len() && ns.len() == 1 {
                match ns[0] {
                    NodeView::Elem(e) => Some(e),
                    NodeView::Text(_) => None,
                }
            } else {
                None
            }
        },
    }
}

/// Read a whole document's events into its root element.
pub fn root_of(events: &Vec<DocEvent>) -> (r: Result<Element, Error>)
    ensures
        match r {
            Ok(e) => spec_root_of(events@) == Some(e@),
            Err(err) => spec_root_of(events@) is None && err is MalformedDocument,
        },
{
    match parse_nodes(events, 0) {
        Err(e) => Err(e),
        Ok((ns, p)) => {
            proof {
                lemma_nodes_view_elts(ns@);
            }
            if p != events.len() {
                return Err(Error::MalformedDocument {
                    detail: String::from_str("content after the root element"),
                });
            }
            if ns.len() != 1 {
                return Err(Error::MalformedDocument {
                    detail: String::from_str("a document holds exactly one root element"),
                });
            }
            let mut ns = ns;
            let node = ns.pop().unwrap();
            match node {
                Node::Elem(e) => Ok(e),
                Node::Text(_) => Err(Error::MalformedDocument {
                    detail: String::from_str("a document's root is an element"),
                }),
            }
        },
    }
}

} // verus!
