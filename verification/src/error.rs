//! The error taxonomy: transport failures reported by the collaborator
//! client, and the three ways a raw document can fail to decode.

use mongodb::error::Error as DatabaseFault;
use vstd::prelude::*;

use crate::document::ValueAccessError;

verus! {

/// Why a pull on the oplog failed.
#[derive(Debug)]
pub enum Error {
    /// A failure reported by the collaborator client, surfaced verbatim.
    Database(mongodb::error::Error),
    /// A required field was absent, or held an unexpected kind of value.
    MissingField(ValueAccessError),
    /// The `op` field held an unsupported operation code, kept verbatim.
    UnknownOperation(String),
    /// An element of an `applyOps` array was not itself a document.
    InvalidOperation,
}

/// The model of a decode failure.
pub enum DecodeErrorView {
    /// A required field was absent, or held an unexpected kind of value.
    MissingField(ValueAccessError),
    /// The `op` field held an unsupported operation code.
    UnknownOperation(Seq<char>),
    /// An element of an `applyOps` array was not itself a document.
    InvalidOperation,
}

impl Error {
    /// Whether this error carries exactly the given decode failure.
    pub open spec fn is_decode(self, v: DecodeErrorView) -> bool {
        match (self, v) {
            (Error::MissingField(a), DecodeErrorView::MissingField(b)) => a == b,
            (Error::UnknownOperation(s), DecodeErrorView::UnknownOperation(t)) => s@ == t,
            (Error::InvalidOperation, DecodeErrorView::InvalidOperation) => true,
            _ => false,
        }
    }
}

impl From<ValueAccessError> for Error {
    /// A failed field access is a missing-field error.
    fn from(original: ValueAccessError) -> (r: Error) {
        Error::MissingField(original)
    }
}

impl vstd::std_specs::convert::FromSpecImpl<ValueAccessError> for Error {
    open spec fn obeys_from_spec() -> bool {
        true
    }

    open spec fn from_spec(v: ValueAccessError) -> Error {
        Error::MissingField(v)
    }
}

impl From<DatabaseFault> for Error {
    /// A failure of the collaborator client is a transport error, wrapped
    /// verbatim.
    fn from(original: DatabaseFault) -> (r: Error) {
        Error::Database(original)
    }
}

impl vstd::std_specs::convert::FromSpecImpl<DatabaseFault> for Error {
    open spec fn obeys_from_spec() -> bool {
        true
    }

    open spec fn from_spec(v: DatabaseFault) -> Error {
        Error::Database(v)
    }
}

} // verus!
