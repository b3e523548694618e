//! The errors of the operations that read or write document text.

use crate::text::{join2, join3};
use vstd::prelude::*;

verus! {

/// Why an operation on document text failed.
#[derive(Clone, Debug, PartialEq, Eq)]
pub enum MergeError {
    /// A schema's text could not be parsed. `source` names the service
    /// that the schema belongs to, where the operation knows it.
    ParseSchema { source: Option<String>, detail: String },
    /// A configuration's text could not be parsed.
    ParseConfig { detail: String },
    /// The text handed to the validator is not JSON.
    InvalidJson,
    /// A document could not be written as text. `source` names the service
    /// that the document belongs to, where the operation knows it.
    SerializeSchema { source: Option<String>, detail: String },
    /// The document is neither an object nor null, so it cannot hold an
    /// `info` block.
    NotAnObject,
}

/// The model of a `MergeError`.
pub enum ErrorModel {
    ParseSchema { source: Option<Seq<char>>, detail: Seq<char> },
    ParseConfig { detail: Seq<char> },
    InvalidJson,
    SerializeSchema { source: Option<Seq<char>>, detail: Seq<char> },
    NotAnObject,
}

impl View for MergeError {
    type V = ErrorModel;

    open spec fn view(&self) -> ErrorModel {
        match self {
            MergeError::ParseSchema { source, detail } => ErrorModel::ParseSchema {
                source: match source {
                    Some(name) => Some(name@),
                    None => None,
                },
                detail: detail@,
            },
            MergeError::ParseConfig { detail } => ErrorModel::ParseConfig { detail: detail@ },
            MergeError::InvalidJson => ErrorModel::InvalidJson,
            MergeError::SerializeSchema { source, detail } => ErrorModel::SerializeSchema {
                source: match source {
                    Some(name) => Some(name@),
                    None => None,
                },
                detail: detail@,
            },
            MergeError::NotAnObject => ErrorModel::NotAnObject,
        }
    }
}

/// What went wrong, the service that it went wrong for where one is named,
/// and the cause: `<what>: <detail>` or `<what> of <source>: <detail>`.
pub open spec fn described(what: Seq<char>, source: Option<Seq<char>>, detail: Seq<char>) -> Seq<
    char,
> {
    match source {
        Some(name) => what + " of "@ + name + ": "@ + detail,
        None => what + ": "@ + detail,
    }
}

impl ErrorModel {
    /// The text that describes the error. It names the service where the
    /// error does.
    pub open spec fn message(self) -> Seq<char> {
        match self {
            ErrorModel::ParseSchema { source, detail } => described(
                "Failed to parse schema"@,
                source,
                detail,
            ),
            ErrorModel::ParseConfig { detail } => "Failed to parse config: "@ + detail,
            ErrorModel::InvalidJson => "Invalid JSON format"@,
            ErrorModel::SerializeSchema { source, detail } => described(
                "Failed to serialize schema"@,
                source,
                detail,
            ),
            ErrorModel::NotAnObject => "Document is not an object"@,
        }
    }
}

/// Writes what went wrong, for which service, and why.
fn describe(what: &str, source: &Option<String>, detail: &str) -> (r: String)
    ensures
        r@ == described(
            what@,
            match source {
                Some(name) => Some(name@),
                None => None,
            },
            detail@,
        ),
{
    match source {
        Some(name) => {
            let head = join3(what, " of ", name.as_str());
            join3(head.as_str(), ": ", detail)
        },
        None => join3(what, ": ", detail),
    }
}

impl MergeError {
    /// The text that describes the error. It names the service where the
    /// error does.
    pub fn message(&self) -> (r: String)
        ensures
            r@ == self@.message(),
    {
        match self {
            MergeError::ParseSchema { source, detail } => describe(
                "Failed to parse schema",
                source,
                detail.as_str(),
            ),
            MergeError::ParseConfig { detail } => join2("Failed to parse config: ", detail.as_str()),
            MergeError::InvalidJson => "Invalid JSON format".to_owned(),
            MergeError::SerializeSchema { source, detail } => describe(
                "Failed to serialize schema",
                source,
                detail.as_str(),
            ),
            MergeError::NotAnObject => "Document is not an object".to_owned(),
        }
    }
}

} // verus!
