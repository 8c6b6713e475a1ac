use vstd::prelude::*;
use xml::reader::Error as XmlReaderError;
use xml::reader::XmlEvent;

verus! {

/// One `name="value"` pair on an element.
pub struct Attr {
    pub name: String,
    pub value: String,
}

/// Mathematical image of an attribute.
pub ghost struct AttrView {
    pub name: Seq<char>,
    pub value: Seq<char>,
}

impl View for Attr {
    type V = AttrView;

    open spec fn view(&self) -> AttrView {
        AttrView { name: self.name@, value: self.value@ }
    }
}

impl Clone for Attr {
    fn clone(&self) -> (r: Self)
        ensures
            r == *self,
    {
        Attr { name: self.name.clone(), value: self.value.clone() }
    }
}

/// One structural parse event of a document: an element opens with its
/// attributes, text appears, an element closes, or something ignorable
/// (a comment, a processing instruction, markup whitespace) goes by.
pub enum DocEvent {
    Open { name: String, attrs: Vec<Attr> },
    Text { text: String },
    Close,
    Skip,
}

#[verifier::external_type_specification]
#[verifier::external_body]
pub struct ExXmlReaderError(XmlReaderError);

/// The markup reader's reading of one byte stream: the events it yields up
/// to the end of the document, or nothing where it reports a fault. The
/// reader works on the bytes alone — no chance, time or environment enters
/// — so its output is a function of them, named here rather than spelled
/// out.
pub uninterp spec fn spec_events_of(bytes: Seq<u8>) -> Option<Seq<DocEvent>>;

/// Relies on `xml::reader::EventReader`: `new` over the byte slice, then
/// `next` pulled to the end of the document, each event converted variant
/// by variant. Once `next` yields the document end or a fault it yields the
/// same again, so the pull ends. What comes back is the reading of these
/// bytes, `spec_events_of`.
#[verifier::external_body]
fn pull_events(bytes: &[u8]) -> (r: Result<Vec<DocEvent>, XmlReaderError>)
    ensures
        match r {
            Ok(v) => spec_events_of(bytes@) == Some(v@),
            Err(_) => spec_events_of(bytes@) is None,
        },
{
    let mut reader = xml::reader::EventReader::new(bytes);
    let mut out = Vec::new();
    loop {
        match reader.next() {
            Ok(XmlEvent::StartElement { name, attributes, .. }) => out.push(DocEvent::Open {
                name: name.local_name,
                attrs: attributes.into_iter().map(|a| Attr { name: a.name.local_name, value: a.value }).collect(),
            }),
            Ok(XmlEvent::EndElement { .. }) => out.push(DocEvent::Close),
            Ok(XmlEvent::Characters(t)) | Ok(XmlEvent::CData(t)) => out.push(DocEvent::Text { text: t }),
            Ok(XmlEvent::EndDocument) => return Ok(out),
            Ok(_) => out.push(DocEvent::Skip),
            Err(e) => return Err(e),
        }
    }
}

/// Relies on the `Display` rendering of `xml::reader::Error` for a
/// human-readable description of a markup fault.
#[verifier::external_body]
fn xml_error_text(e: &XmlReaderError) -> String {
    e.to_string()
}

/// Pull every structural event of one document out of the markup reader:
/// exactly the reading of these bytes. A markup fault — malformed tags,
/// truncated input, an encoding error — fails the whole document.
pub fn read_events(bytes: &[u8]) -> (r: Result<Vec<DocEvent>, crate::error::Error>)
    ensures
        match r {
            Ok(v) => spec_events_of(bytes@) == Some(v@),
            Err(e) => spec_events_of(bytes@) is None && e is MalformedDocument,
        },
{
    match pull_events(bytes) {
        Ok(v) => Ok(v),
        Err(e) => Err(crate::error::Error::MalformedDocument { detail: xml_error_text(&e) }),
    }
}

} // verus!
