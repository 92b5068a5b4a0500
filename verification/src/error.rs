//! Why a document was refused.

use vstd::prelude::*;
use vstd::string::StringExecFns;

verus! {

/// The records that are read from a mapping node.
#[derive(Clone, Copy, Debug, PartialEq, Eq, Structural)]
pub enum Record {
    Interface,
    Command,
    ErrorEntry,
    Variable,
    Type,
}

/// The reason a decode failed. A decode stops at its first failure.
#[derive(Clone, Debug, PartialEq, Eq)]
pub enum DecodeError {
    /// The node of a record is not a mapping.
    NotAMapping(Record),
    /// A key of a mapping is not a string.
    InvalidKey,
    /// A mapping holds this key twice.
    DuplicateKey(String),
    /// A mapping holds this key, which its record does not recognize.
    UnknownField(String),
    /// A record lacks this field, which it requires.
    MissingField(String),
    /// The value of this field has the wrong shape or is out of range.
    InvalidField(String),
    /// The `type` of a variable is neither a string nor a sequence.
    InvalidType,
    /// A type is named by something other than a string.
    InvalidKind,
    /// This string names no kind of type.
    UnknownKind(String),
}

/// The value of a [`DecodeError`].
#[verifier::ext_equal]
pub enum DecodeErrorView {
    NotAMapping(Record),
    InvalidKey,
    DuplicateKey(Seq<char>),
    UnknownField(Seq<char>),
    MissingField(Seq<char>),
    InvalidField(Seq<char>),
    InvalidType,
    InvalidKind,
    UnknownKind(Seq<char>),
}

impl View for DecodeError {
    type V = DecodeErrorView;

    open spec fn view(&self) -> DecodeErrorView {
        match self {
            DecodeError::NotAMapping(r) => DecodeErrorView::NotAMapping(*r),
            DecodeError::InvalidKey => DecodeErrorView::InvalidKey,
            DecodeError::DuplicateKey(s) => DecodeErrorView::DuplicateKey(s@),
            DecodeError::UnknownField(s) => DecodeErrorView::UnknownField(s@),
            DecodeError::MissingField(s) => DecodeErrorView::MissingField(s@),
            DecodeError::InvalidField(s) => DecodeErrorView::InvalidField(s@),
            DecodeError::InvalidType => DecodeErrorView::InvalidType,
            DecodeError::InvalidKind => DecodeErrorView::InvalidKind,
            DecodeError::UnknownKind(s) => DecodeErrorView::UnknownKind(s@),
        }
    }
}

/// The value of a decoder's result: that of what it decoded, or that of the
/// reason it gave.
pub open spec fn outcome<T: View>(r: Result<T, DecodeError>) -> Result<T::V, DecodeErrorView> {
    match r {
        Ok(value) => Ok(value@),
        Err(error) => Err(error@),
    }
}

/// The value of a decoder's result, where `value` gives the value of what
/// it decoded.
pub open spec fn outcome_with<T, V>(r: Result<T, DecodeError>, value: spec_fn(T) -> V) -> Result<
    V,
    DecodeErrorView,
> {
    match r {
        Ok(decoded) => Ok(value(decoded)),
        Err(error) => Err(error@),
    }
}

/// The name of a record, as messages spell it.
pub open spec fn record_name(record: Record) -> Seq<char> {
    match record {
        Record::Interface => "Interface"@,
        Record::Command => "Command"@,
        Record::ErrorEntry => "ErrorEntry"@,
        Record::Variable => "Variable"@,
        Record::Type => "Type"@,
    }
}

/// The text of the message for an error.
pub open spec fn message_of(error: DecodeErrorView) -> Seq<char> {
    match error {
        DecodeErrorView::NotAMapping(record) => record_name(record) + " must be a mapping"@,
        DecodeErrorView::InvalidKey => "keys must be strings"@,
        DecodeErrorView::DuplicateKey(name) => "duplicate key '"@ + name + "'"@,
        DecodeErrorView::UnknownField(name) => "unknown field '"@ + name + "'"@,
        DecodeErrorView::MissingField(name) => "missing field '"@ + name + "'"@,
        DecodeErrorView::InvalidField(name) => "'"@ + name + "' has an invalid value"@,
        DecodeErrorView::InvalidType => "'type' must be a sequence or a string."@,
        DecodeErrorView::InvalidKind => "a type must be named by a string"@,
        DecodeErrorView::UnknownKind(name) => "unknown type '"@ + name + "'"@,
    }
}

impl Record {
    /// The name of the record.
    pub fn name(&self) -> (name: &'static str)
        ensures
            name@ == record_name(*self),
    {
        match self {
            Record::Interface => "Interface",
            Record::Command => "Command",
            Record::ErrorEntry => "ErrorEntry",
            Record::Variable => "Variable",
            Record::Type => "Type",
        }
    }
}

/// `head`, then `name`, then `tail`.
fn framed(head: &str, name: &str, tail: &str) -> (text: String)
    ensures
        text@ == head@ + name@ + tail@,
{
    let mut text = head.to_string();
    text.append(name);
    text.append(tail);
    text
}

impl DecodeError {
    /// The message for this error.
    pub fn message(&self) -> (text: String)
        ensures
            text@ == message_of(self@),
    {
        match self {
            DecodeError::NotAMapping(record) => {
                let mut text = record.name().to_string();
                text.append(" must be a mapping");
                text
            },
            DecodeError::InvalidKey => "keys must be strings".to_string(),
            DecodeError::DuplicateKey(name) => framed("duplicate key '", name.as_str(), "'"),
            DecodeError::UnknownField(name) => framed("unknown field '", name.as_str(), "'"),
            DecodeError::MissingField(name) => framed("missing field '", name.as_str(), "'"),
            DecodeError::InvalidField(name) => framed("'", name.as_str(), "' has an invalid value"),
            DecodeError::InvalidType => "'type' must be a sequence or a string.".to_string(),
            DecodeError::InvalidKind => "a type must be named by a string".to_string(),
            DecodeError::UnknownKind(name) => framed("unknown type '", name.as_str(), "'"),
        }
    }
}

} // verus!
