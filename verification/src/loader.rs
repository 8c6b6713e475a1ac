use vstd::prelude::*;
use crate::document::{
    parse_module_bytes, parse_module_events, spec_parse_bytes, spec_parse_module,
    spec_version_fault,
};
use crate::error::Error;
use crate::events::{spec_events_of, DocEvent};
use crate::module_browser::LearningModule;

verus! {

/// Load one module per document, the documents given as event streams in
/// listing order. The whole batch fails on the first document that does not
/// read as a module: no partial list is ever returned.
pub fn load_modules_from_events(docs: &Vec<Vec<DocEvent>>) -> (r: Result<
    Vec<LearningModule>,
    Error,
>)
    ensures
        match r {
            Ok(ms) => {
                &&& ms@.len() == docs@.len()
                &&& forall|i: int|
                    0 <= i < docs@.len() ==> spec_parse_module(docs@[i]@) == Some(ms@[i]@)
            },
            Err(e) => {
                &&& e.is_document_error()
                &&& exists|k: int|
                    {
                        &&& 0 <= k < docs@.len()
                        &&& spec_parse_module(#[trigger] docs@[k]@) is None
                        &&& forall|j: int| 0 <= j < k ==> spec_parse_module(docs@[j]@) is Some
                        &&& (e is MalformedVersion <==> spec_version_fault(docs@[k]@))
                    }
            },
        },
{
    let mut out: Vec<LearningModule> = Vec::new();
    let mut i: usize = 0;
    while i < docs.len()
        invariant
            i <= docs@.len(),
            out@.len() == i,
            forall|j: int| 0 <= j < i ==> spec_parse_module(docs@[j]@) == Some(out@[j]@),
        decreases docs@.len() - i,
    {
        match parse_module_events(&docs[i]) {
            Ok(m) => {
                out.push(m);
            },
            Err(e) => {
                proof {
                    assert(spec_parse_module(docs@[i as int]@) is None);
                }
                return Err(e);
            },
        }
        i = i + 1;
    }
    Ok(out)
}

/// Load one module per document, the documents given as raw bytes in
/// listing order: each module is exactly the reading of its document's
/// bytes. The whole batch fails on the first document that does not read as
/// a module — a markup fault and a schema fault alike — and no partial list
/// is ever returned.
pub fn load_modules(docs: &Vec<Vec<u8>>) -> (r: Result<Vec<LearningModule>, Error>)
    ensures
        match r {
            Ok(ms) => {
                &&& ms@.len() == docs@.len()
                &&& forall|i: int|
                    0 <= i < docs@.len() ==> spec_parse_bytes(docs@[i]@) == Some(ms@[i]@)
            },
            Err(e) => {
                &&& e.is_document_error()
                &&& exists|k: int|
                    {
                        &&& 0 <= k < docs@.len()
                        &&& spec_parse_bytes(#[trigger] docs@[k]@) is None
                        &&& forall|j: int| 0 <= j < k ==> spec_parse_bytes(docs@[j]@) is Some
                        &&& (e is MalformedVersion <==> (spec_events_of(docs@[k]@)
                            matches Some(evs) && spec_version_fault(evs)))
                    }
            },
        },
{
    let mut out: Vec<LearningModule> = Vec::new();
    let mut i: usize = 0;
    while i < docs.len()
        invariant
            i <= docs@.len(),
            out@.len() == i,
            forall|j: int| 0 <= j < i ==> spec_parse_bytes(docs@[j]@) == Some(out@[j]@),
        decreases docs@.len() - i,
    {
        match parse_module_bytes(docs[i].as_slice()) {
            Ok(m) => {
                out.push(m);
            },
            Err(e) => {
                proof {
                    assert(spec_parse_bytes(docs@[i as int]@) is None);
                }
                return Err(e);
            },
        }
        i = i + 1;
    }
    Ok(out)
}

} // verus!
