use vstd::prelude::*;
use vstd::string::StringExecFns;

verus! {

/// The failure conditions this library reports.
///
/// `MalformedVersion` is a specialization of a document failure: a version
/// field that does not match the `<major>.<minor>.<patch>` grammar fails the
/// whole document just as any other structural fault does.
#[derive(Debug)]
pub enum Error {
    /// A directory or file could not be read.
    IOFailure { detail: String },
    /// A document's markup or structure does not fit the module schema.
    MalformedDocument { detail: String },
    /// A version field does not match the strict version grammar.
    MalformedVersion { detail: String },
    /// The browser reached a view that has no renderer yet.
    UnrecognizedState,
}

impl Error {
    /// The conditions that fail a whole document.
    pub open spec fn is_document_error(&self) -> bool {
        self is MalformedDocument || self is MalformedVersion
    }

    /// A printable description of the condition.
    pub fn message(&self) -> (r: String)
        ensures
            match self {
                Error::IOFailure { detail } => r@ == "input failure: "@ + detail@,
                Error::MalformedDocument { detail } => r@ == "malformed document: "@ + detail@,
                Error::MalformedVersion { detail } => r@ == "malformed version: "@ + detail@,
                Error::UnrecognizedState => r@ == "unrecognised state"@,
            },
    {
        match self {
            Error::IOFailure { detail } => String::from_str("input failure: ").concat(detail.as_str()),
            Error::MalformedDocument { detail } => {
                String::from_str("malformed document: ").concat(detail.as_str())
            },
            Error::MalformedVersion { detail } => {
                String::from_str("malformed version: ").concat(detail.as_str())
            },
            Error::UnrecognizedState => String::from_str("unrecognised state"),
        }
    }
}

} // verus!
