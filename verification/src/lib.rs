//! A single-file append-only record journal: records are serialized
//! back-to-back into one growable byte buffer, with forward streaming,
//! dirty-tail detection, and index-based random access.

use vstd::prelude::*;

pub mod byte_file;
pub mod codec;
pub mod counting_io;
pub mod indexed_journal;
pub mod journal_reader;
pub mod journal_writer;
pub mod owned_or_ref;

verus! {

/// A failed encode or decode of a record payload, reported by the codec.
#[derive(Debug, Clone, Copy, PartialEq, Eq)]
pub struct CodecError;

/// The I/O-level failures the journal can detect on its in-memory byte
/// resource.
#[derive(Debug, Clone, Copy, PartialEq, Eq)]
pub enum IoError {
    /// An end of stream where a record was still owed, either because the
    /// file has a dirty (truncated) tail or because the offset index
    /// promised a record at an offset past the readable data.
    UnexpectedEof,
    /// The resource could not take a whole encoded record: the grown file
    /// would no longer be addressable in memory.
    WriteZero,
}

/// The three error kinds every fallible journal operation surfaces.
#[derive(Debug, Clone, Copy, PartialEq, Eq)]
pub enum JournalError {
    /// A requested record index is at or past the number of indexed records.
    IndexOutOfBounds,
    /// An underlying read failure: dirty tail or unexpected end of stream.
    IOError(IoError),
    /// The codec failed to encode or decode a record.
    SerializationError(CodecError),
}

/// One decoded record together with the byte offset its encoding begins at.
/// It exists only transiently while iterating; the offset is recomputed from
/// the stream, never stored alongside the record.
pub(crate) struct JournalEntry {
    pub(crate) value: String,
    pub(crate) offset: u64,
}

impl JournalEntry {
    pub(crate) fn new(value: String, offset: u64) -> (r: JournalEntry)
        ensures
            r.value == value,
            r.offset == offset,
    {
        JournalEntry { value, offset }
    }
}

} // verus!
