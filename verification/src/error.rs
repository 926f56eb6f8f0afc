//! The errors of the codec.

use vstd::prelude::*;
use vstd::string::StringExecFns;

verus! {

/// Why an encode or decode call stopped. Every error ends the call it arose in;
/// nothing is retried and no partial value is handed out.
#[derive(Debug, Clone, Copy, PartialEq, Eq, Structural)]
pub enum Error {
    /// The source holds fewer bytes than the shape or a length prefix demands.
    TruncatedInput,
    /// A variable-length integer broke its continuation or length bound.
    MalformedVarInt,
    /// The text of an identifier did not parse.
    MalformedIdentifier,
    /// The shape asks for a traversal the engine does not perform, a tag
    /// selects nothing, or the value handed in does not have the shape it is
    /// encoded by.
    UnsupportedShape,
    /// The bytes of a string are not UTF-8.
    InvalidUtf8,
    /// A count or byte length is larger than its prefix can carry.
    LengthOverflow,
    /// The byte source or sink of the transport failed.
    UnderlyingIoFailure,
    /// The tree-document codec, or the decompression in front of it, failed.
    EmbeddedDocumentError,
}

/// The fixed message of each error.
pub open spec fn description_of(e: Error) -> Seq<char> {
    match e {
        Error::TruncatedInput => "truncated input"@,
        Error::MalformedVarInt => "malformed variable-length integer"@,
        Error::MalformedIdentifier => "malformed identifier"@,
        Error::UnsupportedShape => "unsupported type"@,
        Error::InvalidUtf8 => "invalid utf-8"@,
        Error::LengthOverflow => "length overflow"@,
        Error::UnderlyingIoFailure => "i/o failure"@,
        Error::EmbeddedDocumentError => "embedded document error"@,
    }
}

impl Error {
    /// A short, fixed description of the error.
    pub fn description(&self) -> (r: String)
        ensures
            r@ == description_of(*self),
    {
        match self {
            Error::TruncatedInput => String::from_str("truncated input"),
            Error::MalformedVarInt => String::from_str("malformed variable-length integer"),
            Error::MalformedIdentifier => String::from_str("malformed identifier"),
            Error::UnsupportedShape => String::from_str("unsupported type"),
            Error::InvalidUtf8 => String::from_str("invalid utf-8"),
            Error::LengthOverflow => String::from_str("length overflow"),
            Error::UnderlyingIoFailure => String::from_str("i/o failure"),
            Error::EmbeddedDocumentError => String::from_str("embedded document error"),
        }
    }

    /// Whether waiting for more input can cure the error: only a truncated
    /// source can grow into a complete one.
    pub fn is_recoverable(&self) -> (r: bool)
        ensures
            r == (*self == Error::TruncatedInput),
    {
        match self {
            Error::TruncatedInput => true,
            _ => false,
        }
    }
}

} // verus!
