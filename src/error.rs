use vstd::prelude::*;

use crate::tags::Tag;

verus! {

/// The category a failure surfaces as: an absent chunk or member, or bytes
/// that break the format (truncation included).
#[derive(Clone, Copy, Debug, PartialEq, Eq, Structural)]
pub enum ErrorKind {
    NotFound,
    InvalidData,
}

/// Why a read or a parse failed.
#[derive(Clone, Copy, Debug, PartialEq, Eq, Structural)]
pub enum Error {
    /// A read ran past the end of the (sub-)reader.
    UnexpectedEof,
    /// A seek would move before the start of the buffer or overflow.
    InvalidSeek,
    /// The container or projector header carries an unknown magic.
    InvalidMagic(Tag),
    /// A framed chunk carries another tag than the one expected.
    TagMismatch { expected: Tag, found: Tag, position: u64 },
    /// The chunk expected at `position` with `tag` ends before its header or
    /// its payload does, or its parser read past the payload.
    Truncated { tag: Tag, position: u64 },
    /// Bytes violate a documented invariant of their chunk.
    InvalidData,
    /// A requested chunk or cast member is absent.
    NotFound,
}

impl Error {
    pub open spec fn spec_kind(self) -> ErrorKind {
        match self {
            Error::NotFound => ErrorKind::NotFound,
            _ => ErrorKind::InvalidData,
        }
    }

    pub fn kind(&self) -> (k: ErrorKind)
        ensures
            k == self.spec_kind(),
    {
        match self {
            Error::NotFound => ErrorKind::NotFound,
            _ => ErrorKind::InvalidData,
        }
    }
}

} // verus!
