use vstd::prelude::*;

verus! {

/// What can stop a package from being written.
#[derive(Debug, Clone, PartialEq, Eq)]
pub enum Error {
    /// A statement of the relational database failed or would fail.
    Database(String),
    /// A JSON blob could not be encoded.
    Serialization(String),
    /// An archive entry could not be started or written.
    Container(String),
    /// A temporary or media file could not be read or written.
    Io(String),
    /// Every id an allocator can issue has been issued.
    IdsExhausted,
    /// A media path that names no file.
    InvalidMediaPath(String),
}

} // verus!
