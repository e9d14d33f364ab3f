//! At-rest protection for files.
//!
//! The crate holds the logic of a streaming encrypted-container codec and of
//! a multi-pass secure eraser, with the path conventions, the directory
//! collector and the work partitioner that make them usable on many files.
//!
//! Nothing here touches the file system. The codec works on bytes that the
//! caller has read and hands back bytes to write. The eraser and the
//! collector take their decisions one step at a time: they ask the caller
//! to open, list, write or remove, and the caller reports what came of it.

pub mod encryption_manager;
pub mod errors;
pub mod filelib;
pub mod password_manager;
pub mod utilities;
