//! Structured error values shared by all decoders.

use vstd::prelude::*;

verus! {

/// The failure taxonomy of the asset pipeline.
///
/// `IoError` is reserved for failures of the surrounding application's file
/// handling; the decoders themselves report the other five kinds.
#[derive(Clone, Copy, Debug, PartialEq, Eq, Structural)]
pub enum ErrorKind {
    /// A failure in the byte source itself (reported by the embedding layer).
    IoError,
    /// A read ran past the end of the input.
    TruncatedInput,
    /// Bad magic, an unsupported version, or a version-selector mismatch.
    InvalidFormat,
    /// A texture compression format this library does not decode.
    UnsupportedFormat,
    /// A mip payload of length zero.
    EmptyData,
    /// The entity text block failed its structured-repair parse.
    MalformedText,
}

/// An error value: a kind from the fixed taxonomy plus a human-readable message.
#[derive(Debug)]
pub struct Error {
    pub kind: ErrorKind,
    pub error: String,
}

impl Error {
    /// The general-purpose constructor; used by the embedding layer to wrap
    /// failures of the byte source.
    pub fn new(e: String) -> (r: Self)
        ensures
            r.kind == ErrorKind::IoError,
            r.error == e,
    {
        Error { kind: ErrorKind::IoError, error: e }
    }

    /// Builds an error of the given kind.
    pub fn with_kind(kind: ErrorKind, e: String) -> (r: Self)
        ensures
            r.kind == kind,
            r.error == e,
    {
        Error { kind, error: e }
    }

    /// The human-readable message.
    pub fn message(&self) -> (r: &String)
        ensures
            r == &self.error,
    {
        &self.error
    }
}

} // verus!
