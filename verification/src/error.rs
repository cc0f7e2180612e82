//! The library's error type. Every fallible function of the crate says in its
//! contract exactly which variant it returns and when.

use vstd::prelude::*;

use crate::text::concat2;

verus! {

/// One error class per failure kind of the pipeline.
#[derive(Debug)]
pub enum Error {
    /// An input could not be read (reported by the caller that did the read).
    Io(String),
    /// An input could not be parsed.
    Parse(String),
    /// The document fails a structural requirement.
    Validation(String),
    /// Rendering could not proceed.
    Generation(String),
    /// A transport failure (reported by the caller that made the call).
    Network(String),
    /// A value could not be encoded.
    Serialization(String),
    /// A template input is malformed.
    Template(String),
    /// A reference names a component that does not exist.
    Resolution(String),
    /// A reference chain never reaches a concrete item.
    ReferenceCycle(String),
    /// The document uses a construct the converter does not support.
    Unsupported(String),
    /// A derived tool name exceeds the configured maximum length.
    NameTooLong(String),
}

/// Mirror of `Error`.
pub enum ErrorV {
    Io(Seq<char>),
    Parse(Seq<char>),
    Validation(Seq<char>),
    Generation(Seq<char>),
    Network(Seq<char>),
    Serialization(Seq<char>),
    Template(Seq<char>),
    Resolution(Seq<char>),
    ReferenceCycle(Seq<char>),
    Unsupported(Seq<char>),
    NameTooLong(Seq<char>),
}

impl View for Error {
    type V = ErrorV;

    open spec fn view(&self) -> ErrorV {
        match self {
            Error::Io(m) => ErrorV::Io(m@),
            Error::Parse(m) => ErrorV::Parse(m@),
            Error::Validation(m) => ErrorV::Validation(m@),
            Error::Generation(m) => ErrorV::Generation(m@),
            Error::Network(m) => ErrorV::Network(m@),
            Error::Serialization(m) => ErrorV::Serialization(m@),
            Error::Template(m) => ErrorV::Template(m@),
            Error::Resolution(m) => ErrorV::Resolution(m@),
            Error::ReferenceCycle(m) => ErrorV::ReferenceCycle(m@),
            Error::Unsupported(m) => ErrorV::Unsupported(m@),
            Error::NameTooLong(m) => ErrorV::NameTooLong(m@),
        }
    }
}

/// The one-line rendering of an error.
pub open spec fn spec_message(e: ErrorV) -> Seq<char> {
    match e {
        ErrorV::Io(m) => "IO error: "@ + m,
        ErrorV::Parse(m) => "Parse error: "@ + m,
        ErrorV::Validation(m) => "Validation error: "@ + m,
        ErrorV::Generation(m) => "Generation error: "@ + m,
        ErrorV::Network(m) => "Network error: "@ + m,
        ErrorV::Serialization(m) => "Serialization error: "@ + m,
        ErrorV::Template(m) => "Template error: "@ + m,
        ErrorV::Resolution(m) => "Resolution error: "@ + m,
        ErrorV::ReferenceCycle(m) => "Reference cycle error: "@ + m,
        ErrorV::Unsupported(m) => "Unsupported: "@ + m,
        ErrorV::NameTooLong(m) => "Tool name exceeds maximum length: "@ + m,
    }
}

impl Error {
    /// The one-line rendering of the error, with its class named first.
    pub fn message(&self) -> (r: String)
        ensures
            r@ == spec_message(self@),
    {
        match self {
            Error::Io(m) => concat2("IO error: ", m.as_str()),
            Error::Parse(m) => concat2("Parse error: ", m.as_str()),
            Error::Validation(m) => concat2("Validation error: ", m.as_str()),
            Error::Generation(m) => concat2("Generation error: ", m.as_str()),
            Error::Network(m) => concat2("Network error: ", m.as_str()),
            Error::Serialization(m) => concat2("Serialization error: ", m.as_str()),
            Error::Template(m) => concat2("Template error: ", m.as_str()),
            Error::Resolution(m) => concat2("Resolution error: ", m.as_str()),
            Error::ReferenceCycle(m) => concat2("Reference cycle error: ", m.as_str()),
            Error::Unsupported(m) => concat2("Unsupported: ", m.as_str()),
            Error::NameTooLong(m) => concat2("Tool name exceeds maximum length: ", m.as_str()),
        }
    }
}

pub type Result<T> = core::result::Result<T, Error>;

} // verus!
