//! The streaming reader: forward-only, resumable iteration over the records
//! of a journal file. Each pull decodes one record at the tracked position
//! and classifies the outcome; an end of stream that consumed bytes is a
//! dirty (truncated) tail and surfaces as a single fatal error. The iterator
//! holds the reader's file handle exclusively while it runs and hands it
//! back, with its final cursor position, through its explicit finish step.

use vstd::prelude::*;

use crate::byte_file::ByteFile;
use crate::codec::{bincode_decode_record, bincode_enc, is_enc_prefix, is_truncated_enc, DecodeOutcome};
use crate::counting_io::CountingIO;
use crate::owned_or_ref::OwnedOrRef;
use crate::{IoError, JournalEntry, JournalError};

verus! {

/// The decode half of the record codec interface: one decode attempt at a
/// position of the byte source, reporting a record, a clean end of stream,
/// or a codec failure. Implement it to read records in a custom data
/// format; stateless values implement `Copy` so the same codec can serve a
/// reader, a writer and an index build at once.
pub trait JournalDeserialize: Copy {
    /// The byte encoding this codec reads back for a record.
    spec fn encoded(&self, s: Seq<char>) -> Seq<u8>;

    /// Attempt to decode exactly one record from `data` at `pos`. When the
    /// remainder begins with the complete encoding of some record, that
    /// record comes back with exactly its bytes consumed; an end of stream
    /// met at the very end of the data is clean and consumes nothing, and
    /// one met inside an interrupted encoding still consumes at least one
    /// byte, which is how a dirty tail is told apart from a clean end.
    fn deserialize(&self, data: &Vec<u8>, pos: usize) -> (r: DecodeOutcome)
        requires
            pos <= data@.len(),
        ensures
            forall|s: Seq<char>|
                (#[trigger] self.encoded(s)).len() <= data@.skip(pos as int).len() && data@.skip(
                    pos as int,
                ).take(self.encoded(s).len() as int) == self.encoded(s) ==> r is Value
                    && r->value@ == s && r->rest == data@.skip(pos as int).len() - self.encoded(
                    s,
                ).len(),
            forall|w: Seq<char>, cut: int|
                0 < cut < self.encoded(w).len() && data@.skip(pos as int)
                    == (#[trigger] self.encoded(w).take(cut)) ==> r is CleanEof && r->left
                    < data@.skip(pos as int).len(),
            pos == data@.len() ==> r is CleanEof && r->left == 0,
            r is Value ==> r->rest < data@.skip(pos as int).len(),
            r is CleanEof ==> r->left <= data@.skip(pos as int).len() && (pos < data@.len()
                ==> r->left < data@.skip(pos as int).len()),
    ;
}

/// The default decoder: bincode's varint length-prefixed format.
#[derive(Debug, Clone, Copy)]
pub struct BincodeDeserializer;

impl JournalDeserialize for BincodeDeserializer {
    open spec fn encoded(&self, s: Seq<char>) -> Seq<u8> {
        bincode_enc(s)
    }

    fn deserialize(&self, data: &Vec<u8>, pos: usize) -> (r: DecodeOutcome) {
        let r = bincode_decode_record(data, pos);
        proof {
            let rem = data@.skip(pos as int);
            assert forall|s: Seq<char>|
                (#[trigger] self.encoded(s)).len() <= rem.len() && rem.take(
                    self.encoded(s).len() as int,
                ) == self.encoded(s) implies r is Value && r->value@ == s && r->rest == rem.len()
                - self.encoded(s).len() by {
                assert(is_enc_prefix(s, rem));
            }
            assert forall|w: Seq<char>, cut: int|
                0 < cut < self.encoded(w).len() && rem == (#[trigger] self.encoded(w).take(
                    cut,
                )) implies r is CleanEof && r->left < rem.len() by {
                assert(is_truncated_enc(rem, w, cut));
            }
        }
        r
    }
}

/// Provides sequential reads of a journal file's records, from the start or
/// resuming wherever the handle's cursor stands.
pub struct JournalReader {
    /// The underlying file handle; absent while an iterator holds it.
    pub file_handle: Option<OwnedOrRef<ByteFile>>,
    /// The decoder used to read entries back.
    pub deserializer: BincodeDeserializer,
    /// Whether a new iteration seeks to position zero before its first pull.
    pub seek: bool,
}

impl JournalReader {
    /// A reader over the given handle with the default decoder. Iterations
    /// seek to the start of the file until configured otherwise.
    pub fn new(file_handle: OwnedOrRef<ByteFile>) -> (r: JournalReader)
        ensures
            r.file_handle == Some(file_handle),
            r.seek == true,
    {
        Self::with_deserializer(file_handle, BincodeDeserializer)
    }

    /// Like `new`, with the decoder passed explicitly.
    pub fn with_deserializer(file_handle: OwnedOrRef<ByteFile>, deserializer: BincodeDeserializer) -> (r:
        JournalReader)
        ensures
            r.file_handle == Some(file_handle),
            r.deserializer == deserializer,
            r.seek == true,
    {
        JournalReader { file_handle: Some(file_handle), deserializer, seek: true }
    }

    /// Configure whether each new iteration seeks to the beginning of the
    /// file on its first pull. With `false`, a new iteration resumes at the
    /// position the last one stopped at.
    pub fn seek_on_iter_start(&mut self, seek: bool)
        ensures
            final(self).file_handle == old(self).file_handle,
            final(self).deserializer == old(self).deserializer,
            final(self).seek == seek,
    {
        self.seek = seek;
    }

    /// Iterate over the journal's records together with their byte offsets.
    /// The iterator takes the file handle; `finish` hands it back.
    pub(crate) fn iter_entries(&mut self) -> (it: JournalReaderIter)
        requires
            old(self).file_handle is Some,
        ensures
            final(self).file_handle is None,
            final(self).deserializer == old(self).deserializer,
            final(self).seek == old(self).seek,
            it.wf(),
            !it.done,
            it.deserializer == old(self).deserializer,
            it.owned == old(self).file_handle->Some_0.is_owned(),
            it.data() == old(self).file_handle->Some_0.data(),
            it.pos() == if old(self).seek {
                0int
            } else {
                old(self).file_handle->Some_0.cursor()
            },
    {
        let handle = self.file_handle.take();
        let (mut file, owned) = handle.unwrap().into_parts();
        if self.seek {
            file.seek(0);
        }
        let start = file.cursor;
        let cursor = CountingIO::new(file).with_offset(start as u64);
        JournalReaderIter { cursor, owned, done: false, deserializer: self.deserializer }
    }

    /// Iterate over the journal's records. The iterator takes the file
    /// handle; `finish` hands it back.
    pub fn iter(&mut self) -> (it: JournalReaderIterUnwrapped)
        requires
            old(self).file_handle is Some,
        ensures
            final(self).file_handle is None,
            final(self).deserializer == old(self).deserializer,
            final(self).seek == old(self).seek,
            it.wf(),
            !it.done(),
            it.owned() == old(self).file_handle->Some_0.is_owned(),
            it.data() == old(self).file_handle->Some_0.data(),
            it.pos() == if old(self).seek {
                0int
            } else {
                old(self).file_handle->Some_0.cursor()
            },
    {
        JournalReaderIterUnwrapped { inner: self.iter_entries() }
    }

    /// Turn this reader into an iterator outright; the handle then lives in
    /// the iterator, whose `into_file` releases it.
    pub fn into_iter(self) -> (it: JournalReaderIterUnwrapped)
        requires
            self.file_handle is Some,
        ensures
            it.wf(),
            !it.done(),
            it.owned() == self.file_handle->Some_0.is_owned(),
            it.data() == self.file_handle->Some_0.data(),
            it.pos() == if self.seek {
                0int
            } else {
                self.file_handle->Some_0.cursor()
            },
    {
        let mut this = self;
        this.iter()
    }

    /// Unwrap this reader and return the stored file handle.
    pub fn into_inner(self) -> (r: OwnedOrRef<ByteFile>)
        requires
            self.file_handle is Some,
        ensures
            r == self.file_handle->Some_0,
    {
        self.file_handle.unwrap()
    }
}

/// The streaming cursor over a journal file: an offset-tracked byte file
/// taken from a reader, a flag telling whether it was owned there, and a
/// terminal flag that latches once an error has been yielded.
pub(crate) struct JournalReaderIter {
    pub(crate) cursor: CountingIO,
    pub(crate) owned: bool,
    pub(crate) done: bool,
    pub(crate) deserializer: BincodeDeserializer,
}

impl JournalReaderIter {
    /// The bytes of the file the iterator holds.
    pub(crate) open spec fn data(&self) -> Seq<u8> {
        self.cursor.inner.data@
    }

    /// The byte offset the next pull decodes at.
    pub(crate) open spec fn pos(&self) -> int {
        self.cursor.inner.cursor as int
    }

    /// The tracked position agrees with the file's cursor.
    pub(crate) open spec fn wf(&self) -> bool {
        self.cursor.counter == Some(self.cursor.inner.cursor as u64)
    }

    /// Decode the next record. At each record boundary of a well-formed
    /// remainder this yields the record and its starting offset and stops
    /// at the next boundary; at the very end of the data it yields nothing;
    /// on a truncated final encoding it yields a single dirty-tail error
    /// and becomes exhausted, as it does on a codec failure.
    pub(crate) fn next(&mut self) -> (r: Option<Result<JournalEntry, JournalError>>)
        requires
            old(self).wf(),
        ensures
            final(self).wf(),
            final(self).data() == old(self).data(),
            final(self).owned == old(self).owned,
            final(self).deserializer == old(self).deserializer,
            old(self).done ==> r is None && *final(self) == *old(self),
            !old(self).done && old(self).pos() > old(self).data().len() ==> r is None && *final(self) == *old(self),
            !old(self).done && old(self).pos() <= old(self).data().len() ==> ({
                let rem = old(self).data().skip(old(self).pos());
                &&& forall|s: Seq<char>| #[trigger]
                    is_enc_prefix(s, rem) ==> (r matches Some(res) && res matches Ok(e)
                        && e.value@ == s && e.offset as int == old(self).pos() && final(self).pos()
                        == old(self).pos() + bincode_enc(s).len() && !final(self).done)
                &&& rem.len() == 0 ==> r is None && final(self).pos() == old(self).pos()
                    && final(self).done == old(self).done
                &&& forall|w: Seq<char>, cut: int| #[trigger]
                    is_truncated_enc(rem, w, cut) ==> (r == Some(
                        Err::<JournalEntry, JournalError>(JournalError::IOError(
                            IoError::UnexpectedEof,
                        )),
                    ) && final(self).done)
                &&& (r is None ==> rem.len() == 0 && final(self).pos() == old(self).pos())
                &&& (r matches Some(res) && res is Err ==> final(self).done)
                &&& (r matches Some(Ok(e)) ==> old(self).pos()
                    < final(self).pos() <= old(self).data().len()
                    && e.offset as int == old(self).pos() && !final(self).done)
            }),
    {
        if self.done {
            return None;
        }
        let pos = self.cursor.inner.cursor;
        let n = self.cursor.inner.data.len();
        if pos > n {
            return None;
        }
        let outcome = self.deserializer.deserialize(&self.cursor.inner.data, pos);
        proof {
            let rem = self.cursor.inner.data@.skip(pos as int);
            assert forall|s: Seq<char>| #[trigger]
                is_enc_prefix(s, rem) implies outcome is Value && outcome->value@ == s
                && outcome->rest == rem.len() - bincode_enc(s).len() by {
                assert(self.deserializer.encoded(s) == bincode_enc(s));
                assert(self.deserializer.encoded(s).len() <= rem.len() && rem.take(
                    self.deserializer.encoded(s).len() as int,
                ) == self.deserializer.encoded(s));
            }
            assert forall|w: Seq<char>, cut: int| #[trigger]
                is_truncated_enc(rem, w, cut) implies outcome is CleanEof && outcome->left
                < rem.len() by {
                assert(rem == self.deserializer.encoded(w).take(cut));
            }
        }
        match outcome {
            DecodeOutcome::Value { value, rest } => {
                self.cursor.seek(n - rest);
                Some(Ok(JournalEntry::new(value, pos as u64)))
            },
            DecodeOutcome::CleanEof { left } => {
                self.cursor.seek(n - left);
                if left == n - pos {
                    // nothing was consumed attempting a record: the stream
                    // ends cleanly here
                    None
                } else {
                    // bytes were consumed before the end of stream: the last
                    // write was interrupted and the file has a dirty tail
                    self.done = true;
                    Some(Err(JournalError::IOError(IoError::UnexpectedEof)))
                }
            },
            DecodeOutcome::Fail => {
                self.done = true;
                Some(Err(JournalError::SerializationError(crate::CodecError)))
            },
        }
    }

    /// Decode the next record of the file's first `limit` bytes: a position
    /// at or past the limit is a clean end of the bounded stream, and below
    /// it one record is decoded as `next` does. The indexed journal's
    /// iterators pull through this with the byte length its index covers,
    /// which keeps records appended after the index was built out of sight.
    pub(crate) fn next_within(&mut self, limit: usize) -> (r: Option<
        Result<JournalEntry, JournalError>,
    >)
        requires
            old(self).wf(),
        ensures
            final(self).wf(),
            final(self).data() == old(self).data(),
            final(self).owned == old(self).owned,
            final(self).deserializer == old(self).deserializer,
            old(self).done ==> r is None && *final(self) == *old(self),
            !old(self).done && old(self).pos() >= limit ==> r is None && *final(self) == *old(
                self,
            ),
            !old(self).done && old(self).pos() < limit && old(self).pos() > old(
                self,
            ).data().len() ==> r is None && *final(self) == *old(self),
            !old(self).done && old(self).pos() < limit && old(self).pos() <= old(
                self,
            ).data().len() ==> ({
                let rem = old(self).data().skip(old(self).pos());
                &&& forall|s: Seq<char>| #[trigger]
                    is_enc_prefix(s, rem) ==> (r matches Some(res) && res matches Ok(e)
                        && e.value@ == s && e.offset as int == old(self).pos() && final(self).pos()
                        == old(self).pos() + bincode_enc(s).len() && !final(self).done)
                &&& rem.len() == 0 ==> r is None && final(self).pos() == old(self).pos()
                    && final(self).done == old(self).done
                &&& forall|w: Seq<char>, cut: int| #[trigger]
                    is_truncated_enc(rem, w, cut) ==> (r == Some(
                        Err::<JournalEntry, JournalError>(JournalError::IOError(
                            IoError::UnexpectedEof,
                        )),
                    ) && final(self).done)
                &&& (r is None ==> rem.len() == 0 && final(self).pos() == old(self).pos())
                &&& (r matches Some(res) && res is Err ==> final(self).done)
                &&& (r matches Some(Ok(e)) ==> old(self).pos()
                    < final(self).pos() <= old(self).data().len()
                    && e.offset as int == old(self).pos() && !final(self).done)
            }),
    {
        if self.cursor.inner.cursor >= limit {
            return None;
        }
        self.next()
    }

    /// Release the held file, cursor where iteration stopped, with the tag
    /// saying whether the reader it came from owned it.
    pub(crate) fn into_file(self) -> (r: (ByteFile, bool))
        ensures
            r.0.data@ == self.data(),
            r.0.cursor as int == self.pos(),
            r.1 == self.owned,
    {
        (self.cursor.into_inner(), self.owned)
    }
}

/// The public face of the streaming iterator: yields the records alone.
pub struct JournalReaderIterUnwrapped {
    pub(crate) inner: JournalReaderIter,
}

impl JournalReaderIterUnwrapped {
    /// The bytes of the file the iterator holds.
    pub closed spec fn data(&self) -> Seq<u8> {
        self.inner.data()
    }

    /// The byte offset the next pull decodes at.
    pub closed spec fn pos(&self) -> int {
        self.inner.pos()
    }

    /// Whether the iterator has yielded an error and become exhausted.
    pub closed spec fn done(&self) -> bool {
        self.inner.done
    }

    /// Whether the file came from a reader that owned it.
    pub closed spec fn owned(&self) -> bool {
        self.inner.owned
    }

    /// The tracked position agrees with the file's cursor.
    pub closed spec fn wf(&self) -> bool {
        self.inner.wf()
    }

    /// Decode the next record, as the entry iterator does, yielding the
    /// record without its offset.
    pub fn next(&mut self) -> (r: Option<Result<String, JournalError>>)
        requires
            old(self).wf(),
        ensures
            final(self).wf(),
            final(self).data() == old(self).data(),
            final(self).owned() == old(self).owned(),
            old(self).done() ==> r is None && *final(self) == *old(self),
            !old(self).done() && old(self).pos() > old(self).data().len() ==> r is None && *final(self) == *old(self),
            !old(self).done() && old(self).pos() <= old(self).data().len() ==> ({
                let rem = old(self).data().skip(old(self).pos());
                &&& forall|s: Seq<char>| #[trigger]
                    is_enc_prefix(s, rem) ==> (r matches Some(res) && res matches Ok(v)
                        && v@ == s && final(self).pos() == old(self).pos() + bincode_enc(s).len()
                        && !final(self).done())
                &&& rem.len() == 0 ==> r is None && final(self).pos() == old(self).pos()
                    && final(self).done() == old(self).done()
                &&& forall|w: Seq<char>, cut: int| #[trigger]
                    is_truncated_enc(rem, w, cut) ==> (r == Some(
                        Err::<String, JournalError>(JournalError::IOError(IoError::UnexpectedEof)),
                    ) && final(self).done())
                &&& (r is None ==> rem.len() == 0 && final(self).pos() == old(self).pos())
                &&& (r matches Some(res) && res is Err ==> final(self).done())
                &&& (r matches Some(Ok(v)) ==> old(self).pos()
                    < final(self).pos() <= old(self).data().len() && !final(self).done())
            }),
    {
        match self.inner.next() {
            None => None,
            Some(Ok(entry)) => Some(Ok(entry.value)),
            Some(Err(err)) => Some(Err(err)),
        }
    }

    /// Hand the file handle back to the reader it was taken from, with the
    /// cursor where iteration stopped, so the reader is usable again.
    pub fn finish(self, reader: &mut JournalReader)
        requires
            old(reader).file_handle is None,
        ensures
            final(reader).deserializer == old(reader).deserializer,
            final(reader).seek == old(reader).seek,
            final(reader).file_handle matches Some(h) && h.data() == self.data() && h.cursor()
                == self.pos() && h.is_owned() == self.owned(),
    {
        let (file, owned) = self.inner.into_file();
        reader.file_handle = Some(OwnedOrRef::rebuild(file, owned));
    }

    /// Release the held file outright, cursor where iteration stopped, with
    /// the tag saying whether the reader it came from owned it.
    pub fn into_file(self) -> (r: (ByteFile, bool))
        ensures
            r.0.data@ == self.data(),
            r.0.cursor as int == self.pos(),
            r.1 == self.owned(),
    {
        self.inner.into_file()
    }
}

} // verus!
