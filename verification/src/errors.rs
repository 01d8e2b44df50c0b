//! The error taxonomy shared by every fallible operation of the engine.

use vstd::prelude::*;

verus! {

/// Classification of a failed operation.
///
/// Every fallible operation returns one of these kinds, and the owning
/// document or page also records the same kind in its error log, so that an
/// observer can replay the history of failures.
#[derive(Clone, Copy, Debug, PartialEq, Eq, Structural)]
pub enum ErrorKind {
    /// An argument was outside the accepted range (a non-positive page
    /// width, a rotation that is not a multiple of ninety degrees, ...).
    InvalidArgument,
    /// A content-stream operator was appended while the stream was in an
    /// incompatible mode (a text operator during path construction, ...).
    WrongMode,
    /// A font name that the registry does not know.
    UnknownFont,
    /// An encoding name that the registry does not know.
    UnknownEncoding,
    /// A font program that could not be parsed.
    FontLoadError,
    /// A reference to an object that is not in this document's table.
    DanglingReference,
    /// The document could not be assembled into a byte stream.
    SerializationError,
    /// A sink refused the assembled bytes.
    IoError,
}

impl ErrorKind {
    /// The numeric detail code reported alongside the kind.
    pub fn code(self) -> (c: u32)
        ensures
            c == self.spec_code(),
    {
        match self {
            ErrorKind::InvalidArgument => 1,
            ErrorKind::WrongMode => 2,
            ErrorKind::UnknownFont => 3,
            ErrorKind::UnknownEncoding => 4,
            ErrorKind::FontLoadError => 5,
            ErrorKind::DanglingReference => 6,
            ErrorKind::SerializationError => 7,
            ErrorKind::IoError => 8,
        }
    }

    /// The code of each kind, as a specification-level map.
    pub open spec fn spec_code(self) -> u32 {
        match self {
            ErrorKind::InvalidArgument => 1,
            ErrorKind::WrongMode => 2,
            ErrorKind::UnknownFont => 3,
            ErrorKind::UnknownEncoding => 4,
            ErrorKind::FontLoadError => 5,
            ErrorKind::DanglingReference => 6,
            ErrorKind::SerializationError => 7,
            ErrorKind::IoError => 8,
        }
    }
}

} // verus!
