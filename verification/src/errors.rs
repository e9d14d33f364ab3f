//! The kinds of failure that the operations of this crate report.

use vstd::prelude::*;

verus! {

/// Every operation stops at the first failure and reports one of these kinds.
#[derive(Clone, Copy, Debug, PartialEq, Eq, Structural)]
pub enum ErrorKind {
    /// The path is missing or is not a regular file.
    FileNotFound,
    /// A file could not be opened.
    FileOpen,
    /// A file could not be created.
    FileCreate,
    /// Moving to a position in a file failed.
    FileSeek,
    /// Writing to a file failed.
    FileWrite,
    /// Flushing a file to disk failed.
    FileFlush,
    /// A file could not be removed.
    FileDelete,
    /// A directory does not exist.
    DirNotFound,
    /// A directory could not be created.
    DirCreate,
    /// A directory entry is neither a regular file nor a directory.
    DirUnsupported,
    /// The type of a directory entry could not be read.
    CanNotGetFileOrDirType,
    /// A directory, or one of its entries, could not be read.
    CanNotGetDirData,
    /// A container ends inside a length header or inside a block.
    CorruptContainer,
    /// The key is not a well-formed key.
    InvalidKey,
    /// A block did not authenticate or decrypt under the key.
    DecryptFailed,
    /// The system has no data directory for the user.
    SystemDataDirNotFound,
    /// The user did not repeat the confirmation code.
    ConfirmationNotMatch,
    /// A field of a JSON object is not a string.
    InvalidJson,
    /// The text is no JSON object.
    CanNotGetJsonObject,
}

/// A failure and the path that it occurred at.
#[derive(Debug, PartialEq, Eq)]
pub struct Failure {
    pub kind: ErrorKind,
    pub path: String,
}

} // verus!
