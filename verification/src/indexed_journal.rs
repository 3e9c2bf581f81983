//! The indexed journal: an offset index built by one full forward scan at
//! open time, combined with an append writer and a positioned reader over
//! one shared file handle. Lookups are index-based and O(1); iteration can
//! start at any indexed record. Records appended through the same open
//! journal are not visible to index-based lookups nor to the journal's
//! iterators, which see only up to the byte length scanned at open, until
//! the journal is rebuilt: the index is a point-in-time snapshot.

use vstd::prelude::*;

use crate::byte_file::ByteFile;
use crate::codec::{
    bincode_decode_record, bincode_enc, dirty_encoding, encoding_of, is_enc_prefix,
    is_truncated_enc, lemma_dirty_tail_read, lemma_encoding_of_concat, lemma_round_trip_read,
    record_offset, DecodeOutcome,
};
use crate::counting_io::CountingIO;
use crate::journal_reader::{BincodeDeserializer, JournalDeserialize, JournalReaderIter};
use crate::journal_writer::{views_of, BincodeSerializer, JournalWriter};
use crate::owned_or_ref::OwnedOrRef;
use crate::{IoError, JournalError};

verus! {

/// The offset index: one `u64` byte offset per record, in file order, each
/// the position at which that record's encoding begins.
pub struct JournalIndex {
    pub entry_indices: Vec<u64>,
}

impl JournalIndex {
    /// The offset of the record at `entry_index`, or an error for an index
    /// at or past the number of indexed records.
    pub fn entry_offset(&self, entry_index: usize) -> (r: Result<u64, ()>)
        ensures
            r is Ok <==> entry_index < self.entry_indices@.len(),
            (r matches Ok(o) ==> o == self.entry_indices@[entry_index as int]),
    {
        if entry_index >= self.entry_indices.len() {
            Err(())
        } else {
            Ok(self.entry_indices[entry_index])
        }
    }

    /// Build the index by one full forward scan of `data` from offset zero,
    /// collecting the starting offset of every decoded record, and aborting
    /// on the first error: over the encodings of records `vs` the index
    /// holds exactly their offsets; over a file with a dirty tail the scan
    /// fails with an I/O error; whatever the file, a built index is
    /// strictly increasing, starts at zero, and stays inside the data.
    pub fn build(data: &Vec<u8>) -> (r: Result<JournalIndex, JournalError>)
        ensures
            forall|vs: Seq<Seq<char>>| data@ == #[trigger] encoding_of(vs) ==> (r matches Ok(ix)
                && ix.entry_indices@.len() == vs.len() && (forall|i: int|
                0 <= i < vs.len() ==> ix.entry_indices@[i] as int == record_offset(vs, i))),
            forall|vs: Seq<Seq<char>>, w: Seq<char>, cut: int|
                0 < cut < bincode_enc(w).len() && data@ == #[trigger] dirty_encoding(vs, w, cut)
                    ==> r == Err::<JournalIndex, JournalError>(JournalError::IOError(
                    IoError::UnexpectedEof,
                )),
            (r matches Ok(ix) ==> (forall|i: int|
                0 <= i < ix.entry_indices@.len() ==> (ix.entry_indices@[i] as int) < data@.len())
                && (forall|i: int, j: int|
                0 <= i < j < ix.entry_indices@.len() ==> ix.entry_indices@[i]
                    < ix.entry_indices@[j]) && (ix.entry_indices@.len() > 0
                ==> ix.entry_indices@[0] == 0)),
    {
        let n = data.len();
        let mut pos: usize = 0;
        let mut offs: Vec<u64> = Vec::new();
        proof {
            assert(forall|vs: Seq<Seq<char>>|
                data@ == #[trigger] encoding_of(vs) ==> record_offset(vs, 0) == 0 && 0
                    <= vs.len()) by {
                assert forall|vs: Seq<Seq<char>>|
                    data@ == #[trigger] encoding_of(vs) implies record_offset(vs, 0) == 0 && 0
                    <= vs.len() by {
                    lemma_round_trip_read(vs, 0);
                }
            }
        }
        loop
            invariant
                n == data@.len(),
                pos <= n,
                offs@.len() <= pos + 1,
                forall|i: int| 0 <= i < offs@.len() ==> (offs@[i] as int) < pos,
                forall|i: int, j: int| 0 <= i < j < offs@.len() ==> offs@[i] < offs@[j],
                offs@.len() > 0 ==> offs@[0] == 0,
                offs@.len() == 0 ==> pos == 0,
                forall|vs: Seq<Seq<char>>|
                    data@ == #[trigger] encoding_of(vs) ==> offs@.len() <= vs.len() && pos
                        == record_offset(vs, offs@.len() as int) && (forall|i: int|
                        0 <= i < offs@.len() ==> offs@[i] as int == record_offset(vs, i)),
                forall|vs: Seq<Seq<char>>, w: Seq<char>, cut: int|
                    0 < cut < bincode_enc(w).len() && data@ == #[trigger] dirty_encoding(
                        vs,
                        w,
                        cut,
                    ) ==> offs@.len() <= vs.len() && pos == record_offset(vs, offs@.len() as int)
                        && (forall|i: int|
                        0 <= i < offs@.len() ==> offs@[i] as int == record_offset(vs, i)),
            decreases n - pos,
        {
            let ghost j = offs@.len() as int;
            let outcome = bincode_decode_record(data, pos);
            proof {
                assert forall|vs: Seq<Seq<char>>| data@ == #[trigger] encoding_of(vs) implies {
                    &&& j < vs.len() ==> outcome is Value && outcome->value@ == vs[j]
                        && outcome->rest == data@.len() - record_offset(vs, j + 1)
                    &&& j == vs.len() ==> outcome is CleanEof && outcome->left == data@.len() - pos
                } by {
                    if j < vs.len() {
                        lemma_round_trip_read(vs, j);
                        lemma_round_trip_read(vs, j + 1);
                        assert(is_enc_prefix(vs[j], data@.skip(pos as int)));
                    } else {
                        lemma_round_trip_read(vs, j);
                        assert(pos == data@.len());
                    }
                }
                assert forall|vs: Seq<Seq<char>>, w: Seq<char>, cut: int|
                    0 < cut < bincode_enc(w).len() && data@ == #[trigger] dirty_encoding(
                        vs,
                        w,
                        cut,
                    ) implies {
                    &&& j < vs.len() ==> outcome is Value && outcome->value@ == vs[j]
                        && outcome->rest == data@.len() - record_offset(vs, j + 1)
                    &&& j == vs.len() ==> outcome is CleanEof && outcome->left < data@.len() - pos
                } by {
                    if j < vs.len() {
                        lemma_dirty_tail_read(vs, w, cut, j);
                        lemma_round_trip_read(vs, j);
                        lemma_round_trip_read(vs, j + 1);
                        assert(is_enc_prefix(vs[j], data@.skip(pos as int)));
                        assert(data@.len() - pos == bincode_enc(w).take(cut).len() + (encoding_of(
                            vs,
                        ).len() - record_offset(vs, j)));
                    } else {
                        lemma_dirty_tail_read(vs, w, cut, j);
                        assert(is_truncated_enc(data@.skip(pos as int), w, cut));
                    }
                }
            }
            match outcome {
                DecodeOutcome::Value { value: _, rest } => {
                    offs.push(pos as u64);
                    pos = n - rest;
                },
                DecodeOutcome::CleanEof { left } => {
                    if left == n - pos {
                        return Ok(JournalIndex { entry_indices: offs });
                    } else {
                        return Err(JournalError::IOError(IoError::UnexpectedEof));
                    }
                },
                DecodeOutcome::Fail => {
                    return Err(JournalError::SerializationError(crate::CodecError));
                },
            }
        }
    }
}

/// The indexed journal: the offset index, the shared file handle, and the
/// codec pair. The ghost record sequence tracks, for a file that is exactly
/// a back-to-back sequence of encodings, which records those are; the index
/// covers the records present when the journal was opened.
pub struct IndexedJournal {
    /// The underlying file handle; absent while an iterator holds it.
    pub file_handle: Option<OwnedOrRef<ByteFile>>,
    pub serializer: BincodeSerializer,
    pub deserializer: BincodeDeserializer,
    pub index: JournalIndex,
    /// The byte length the one-time scan covered: the length of the file at
    /// open. Index-based access and the journal's iterators see only this
    /// far; records appended later lie beyond it until the journal is
    /// rebuilt.
    pub scanned_len: usize,
    /// The records whose encodings make up the file, when `canonical` holds.
    pub records: Ghost<Seq<Seq<char>>>,
    /// Whether the file is exactly a back-to-back sequence of encodings.
    pub canonical: Ghost<bool>,
}

impl IndexedJournal {
    /// The bytes of the journal's file; meaningful while the handle is held.
    pub open spec fn data(&self) -> Seq<u8> {
        self.file_handle->Some_0.data()
    }

    /// The number of records the index covers.
    pub open spec fn indexed_len(&self) -> int {
        self.index.entry_indices@.len() as int
    }

    /// How the index and the ghost records relate to the given file bytes:
    /// on a canonical file the bytes are exactly the records' encodings and
    /// the index holds the offsets of the first `indexed_len` of them; on
    /// any file every indexed offset lies strictly inside the data.
    pub open spec fn index_ok(&self, data: Seq<u8>) -> bool {
        &&& self.canonical@ ==> {
            &&& data == encoding_of(self.records@)
            &&& self.indexed_len() <= self.records@.len()
            &&& forall|i: int|
                0 <= i < self.indexed_len() ==> self.index.entry_indices@[i] as int
                    == record_offset(self.records@, i)
            &&& self.scanned_len as int == record_offset(self.records@, self.indexed_len())
        }
        &&& self.scanned_len <= data.len()
        &&& forall|i: int|
            0 <= i < self.indexed_len() ==> (self.index.entry_indices@[i] as int)
                < self.scanned_len
    }

    /// The journal holds its file handle and the index fits the file.
    pub open spec fn wf(&self) -> bool {
        &&& self.file_handle is Some
        &&& self.index_ok(self.data())
    }

    /// Open an indexed journal over the given handle with the default
    /// codec: builds the offset index by one full scan, which succeeds on
    /// any file of back-to-back encodings and fails on one with a dirty
    /// tail, with whatever error the scan produced.
    pub fn new(file_handle: OwnedOrRef<ByteFile>) -> (r: Result<IndexedJournal, JournalError>)
        ensures
            forall|vs: Seq<Seq<char>>| file_handle.data() == #[trigger] encoding_of(vs) ==> (
            r matches Ok(j) && j.canonical@ && j.indexed_len() == vs.len() && j.records@.len()
                == vs.len() && (forall|i: int|
                0 <= i < vs.len() ==> j.index.entry_indices@[i] as int == record_offset(vs, i))),
            forall|vs: Seq<Seq<char>>, w: Seq<char>, cut: int|
                0 < cut < bincode_enc(w).len() && file_handle.data() == #[trigger] dirty_encoding(
                    vs,
                    w,
                    cut,
                ) ==> r == Err::<IndexedJournal, JournalError>(JournalError::IOError(
                IoError::UnexpectedEof,
            )),
            (r matches Ok(j) ==> j.wf() && j.data() == file_handle.data()
                && j.file_handle->Some_0.is_owned() == file_handle.is_owned()
                && j.scanned_len == file_handle.data().len() && (j.canonical@
                ==> j.indexed_len() == j.records@.len())),
    {
        Self::with_serializer(file_handle, BincodeSerializer, BincodeDeserializer)
    }

    /// Like `new`, with the codec pair passed explicitly.
    pub fn with_serializer(
        file_handle: OwnedOrRef<ByteFile>,
        serializer: BincodeSerializer,
        deserializer: BincodeDeserializer,
    ) -> (r: Result<IndexedJournal, JournalError>)
        ensures
            forall|vs: Seq<Seq<char>>| file_handle.data() == #[trigger] encoding_of(vs) ==> (
            r matches Ok(j) && j.canonical@ && j.indexed_len() == vs.len() && j.records@.len()
                == vs.len() && (forall|i: int|
                0 <= i < vs.len() ==> j.index.entry_indices@[i] as int == record_offset(vs, i))),
            forall|vs: Seq<Seq<char>>, w: Seq<char>, cut: int|
                0 < cut < bincode_enc(w).len() && file_handle.data() == #[trigger] dirty_encoding(
                    vs,
                    w,
                    cut,
                ) ==> r == Err::<IndexedJournal, JournalError>(JournalError::IOError(
                IoError::UnexpectedEof,
            )),
            (r matches Ok(j) ==> j.wf() && j.data() == file_handle.data()
                && j.file_handle->Some_0.is_owned() == file_handle.is_owned()
                && j.serializer == serializer && j.deserializer == deserializer
                && j.scanned_len == file_handle.data().len() && (j.canonical@
                ==> j.indexed_len() == j.records@.len())),
    {
        let handle = file_handle;
        let scanned_len = handle.as_ref().len();
        match JournalIndex::build(handle.as_ref().buffer()) {
            Err(err) => Err(err),
            Ok(index) => {
                let ghost canonical = exists|vs: Seq<Seq<char>>|
                    handle.data() == encoding_of(vs);
                let ghost recs: Seq<Seq<char>> = if canonical {
                    choose|vs: Seq<Seq<char>>| handle.data() == encoding_of(vs)
                } else {
                    Seq::empty()
                };
                proof {
                    if canonical {
                        assert(recs.take(recs.len() as int) =~= recs);
                    }
                }
                Ok(
                    IndexedJournal {
                        file_handle: Some(handle),
                        serializer,
                        deserializer,
                        index,
                        scanned_len,
                        records: Ghost(recs),
                        canonical: Ghost(canonical),
                    },
                )
            },
        }
    }

    /// Unwrap the journal and return the stored file handle.
    pub fn into_inner(self) -> (r: OwnedOrRef<ByteFile>)
        requires
            self.file_handle is Some,
        ensures
            r == self.file_handle->Some_0,
    {
        self.file_handle.unwrap()
    }

    /// Load the record at the given index: out-of-range indices fail up
    /// front, exactly when the index is at or past the number of indexed
    /// records; in range, the journal seeks to the indexed offset and
    /// decodes one record, and a clean end of stream there is itself an
    /// error, since the index promised a record. Records appended after
    /// open sit past the indexed range and stay invisible here.
    pub fn load_entry(&mut self, index: usize) -> (r: Result<String, JournalError>)
        requires
            old(self).wf(),
        ensures
            final(self).wf(),
            final(self).data() == old(self).data(),
            final(self).index == old(self).index,
            final(self).scanned_len == old(self).scanned_len,
            final(self).records == old(self).records,
            final(self).canonical == old(self).canonical,
            final(self).serializer == old(self).serializer,
            final(self).deserializer == old(self).deserializer,
            final(self).file_handle->Some_0.is_owned()
                == old(self).file_handle->Some_0.is_owned(),
            r == Err::<String, JournalError>(JournalError::IndexOutOfBounds)
                <==> index >= old(self).indexed_len(),
            index >= old(self).indexed_len() ==> *final(self) == *old(self),
            old(self).canonical@ && index < old(self).indexed_len() ==> (r matches Ok(v) && v@
                == old(self).records@[index as int]),
            forall|w: Seq<char>, cut: int|
                index < old(self).indexed_len() && #[trigger] is_truncated_enc(
                    old(self).data().skip(old(self).index.entry_indices@[index as int] as int),
                    w,
                    cut,
                ) ==> r == Err::<String, JournalError>(JournalError::IOError(
                    IoError::UnexpectedEof,
                )),
    {
        let offset = match self.index.entry_offset(index) {
            Err(()) => {
                return Err(JournalError::IndexOutOfBounds);
            },
            Ok(offset) => offset,
        };
        let mut handle = self.file_handle.take().unwrap();
        let n = handle.as_ref().len();
        let pos = offset as usize;
        handle.seek(pos);
        let outcome = self.deserializer.deserialize(handle.as_ref().buffer(), pos);
        proof {
            assert forall|w: Seq<char>, cut: int| #[trigger]
                is_truncated_enc(handle.data().skip(pos as int), w, cut) implies outcome
                is CleanEof by {
                assert(handle.data().skip(pos as int) == self.deserializer.encoded(w).take(cut));
            }
            if self.canonical@ && index < self.index.entry_indices@.len() {
                let s = self.records@[index as int];
                lemma_round_trip_read(self.records@, index as int);
                assert(is_enc_prefix(s, handle.data().skip(pos as int)));
                assert(self.deserializer.encoded(s) == bincode_enc(s));
                assert(self.deserializer.encoded(s).len() <= handle.data().skip(
                    pos as int,
                ).len() && handle.data().skip(pos as int).take(
                    self.deserializer.encoded(s).len() as int,
                ) == self.deserializer.encoded(s));
            }
        }
        let result = match outcome {
            DecodeOutcome::Value { value, rest } => {
                handle.seek(n - rest);
                Ok(value)
            },
            DecodeOutcome::CleanEof { left: _ } => Err(
                JournalError::IOError(IoError::UnexpectedEof),
            ),
            DecodeOutcome::Fail => Err(JournalError::SerializationError(crate::CodecError)),
        };
        self.file_handle = Some(handle);
        result
    }

    /// Iterate over the indexed records from the beginning of the file.
    /// The iterator takes the file handle and reads only up to the byte
    /// length scanned at open, so records appended since then stay out of
    /// sight; its `finish` hands the handle back.
    pub fn iter(&mut self) -> (it: IndexedJournalIter)
        requires
            old(self).wf(),
        ensures
            final(self).file_handle is None,
            final(self).index == old(self).index,
            final(self).scanned_len == old(self).scanned_len,
            final(self).records == old(self).records,
            final(self).canonical == old(self).canonical,
            final(self).serializer == old(self).serializer,
            final(self).deserializer == old(self).deserializer,
            final(self).index_ok(it.data()),
            it.wf(),
            !it.done(),
            it.owned() == old(self).file_handle->Some_0.is_owned(),
            it.data() == old(self).data(),
            it.pos() == 0,
            it.limit() == old(self).scanned_len,
    {
        let handle = self.file_handle.take().unwrap();
        let (mut file, owned) = handle.into_parts();
        file.seek(0);
        let cursor = CountingIO::new(file).with_offset(0);
        IndexedJournalIter {
            inner: JournalReaderIter { cursor, owned, done: false, deserializer: self.deserializer },
            limit: self.scanned_len,
        }
    }

    /// Iterate from the record at the given index, reusing one buffered
    /// cursor across pulls; an out-of-range index fails up front, exactly
    /// when it is at or past the number of indexed records, and the handle
    /// stays with the journal. On success the iterator takes the handle,
    /// seeded at the indexed offset and reading only up to the byte length
    /// scanned at open; its `finish` hands the handle back.
    pub fn iter_from(&mut self, index: usize) -> (r: Result<IndexedJournalIter, JournalError>)
        requires
            old(self).wf(),
        ensures
            r is Err <==> index >= old(self).indexed_len(),
            (r matches Err(e) ==> e == JournalError::IndexOutOfBounds && *final(self) == *old(self) && final(self).wf()),
            (r matches Ok(it) ==> final(self).file_handle is None && final(self).index == old(self).index && final(self).scanned_len == old(self).scanned_len && final(self).records == old(self).records && final(self).canonical == old(self).canonical && final(self).serializer == old(self).serializer && final(self).deserializer == old(self).deserializer && final(self).index_ok(it.data())
                && it.wf() && !it.done() && it.owned() == old(self).file_handle->Some_0.is_owned() && it.data() == old(self).data() && it.pos() == old(self).index.entry_indices@[index as int] as int && it.limit() == old(self).scanned_len),
    {
        let offset = match self.index.entry_offset(index) {
            Err(()) => {
                return Err(JournalError::IndexOutOfBounds);
            },
            Ok(offset) => offset,
        };
        let handle = self.file_handle.take().unwrap();
        let (mut file, owned) = handle.into_parts();
        let n = file.len();
        proof {
            // the indexed offset lies inside the data, so it fits a usize
            assert(offset < n);
        }
        let pos = offset as usize;
        file.seek(pos);
        let cursor = CountingIO::new(file).with_offset(pos as u64);
        Ok(
            IndexedJournalIter {
                inner: JournalReaderIter {
                    cursor,
                    owned,
                    done: false,
                    deserializer: self.deserializer,
                },
                limit: self.scanned_len,
            },
        )
    }

    /// Append one record at the true end of the file, through a transient
    /// append writer over the same handle. The index is not updated: the
    /// new record is invisible to index-based access until the journal is
    /// rebuilt. Success is owed whenever the grown file fits in memory.
    pub fn store_entry(&mut self, entry: String) -> (r: Result<(), JournalError>)
        requires
            old(self).wf(),
        ensures
            final(self).wf(),
            final(self).index == old(self).index,
            final(self).scanned_len == old(self).scanned_len,
            final(self).canonical == old(self).canonical,
            final(self).serializer == old(self).serializer,
            final(self).deserializer == old(self).deserializer,
            final(self).file_handle->Some_0.is_owned()
                == old(self).file_handle->Some_0.is_owned(),
            r is Ok <==> old(self).data().len() + bincode_enc(entry@).len() <= usize::MAX,
            r is Ok ==> final(self).data() == old(self).data() + bincode_enc(entry@)
                && final(self).records@ == old(self).records@.push(entry@),
            r is Err ==> final(self).data() == old(self).data()
                && final(self).records == old(self).records
                && r == Err::<(), JournalError>(JournalError::IOError(IoError::WriteZero)),
    {
        let handle = self.file_handle.take().unwrap();
        let mut writer = JournalWriter::with_serializer(handle, self.serializer);
        let result = writer.store_entry(entry);
        self.file_handle = Some(writer.into_inner());
        if result.is_ok() {
            proof {
                self.records@ = self.records@.push(entry@);
                if self.canonical@ {
                    lemma_encoding_of_concat(old(self).records@, seq![entry@]);
                    assert(seq![entry@].skip(1) =~= Seq::<Seq<char>>::empty());
                    assert(encoding_of(Seq::<Seq<char>>::empty()) =~= Seq::<u8>::empty());
                    assert(old(self).records@ + seq![entry@] =~= self.records@);
                    assert(encoding_of(seq![entry@]) =~= bincode_enc(entry@));
                    assert forall|i: int| 0 <= i < self.indexed_len() implies
                        self.index.entry_indices@[i] as int == record_offset(
                        self.records@,
                        i,
                    ) by {
                        assert(self.index.entry_indices@[i] as int == record_offset(
                            old(self).records@,
                            i,
                        ));
                        assert(self.records@.take(i) =~= old(self).records@.take(i));
                    }
                    assert(self.records@.take(self.indexed_len()) =~= old(self).records@.take(
                        self.indexed_len(),
                    ));
                }
            }
        }
        result
    }

    /// Append a batch of records at the true end of the file, through a
    /// transient append writer over the same handle, stopping at the first
    /// failure; earlier records remain written. The index is not updated.
    pub fn store_entries(&mut self, entries: Vec<String>) -> (r: Result<(), JournalError>)
        requires
            old(self).wf(),
        ensures
            final(self).wf(),
            final(self).index == old(self).index,
            final(self).scanned_len == old(self).scanned_len,
            final(self).canonical == old(self).canonical,
            final(self).serializer == old(self).serializer,
            final(self).deserializer == old(self).deserializer,
            final(self).file_handle->Some_0.is_owned()
                == old(self).file_handle->Some_0.is_owned(),
            r is Ok <==> old(self).data().len() + encoding_of(views_of(entries@)).len()
                <= usize::MAX,
            r is Ok ==> final(self).data() == old(self).data() + encoding_of(views_of(entries@))
                && final(self).records@ == old(self).records@ + views_of(entries@),
            r is Err ==> r == Err::<(), JournalError>(JournalError::IOError(IoError::WriteZero))
                && (exists|k: int|
                0 <= k < entries@.len() && final(self).data() == old(self).data() + encoding_of(
                    #[trigger] views_of(entries@).take(k),
                ) && final(self).records@ == old(self).records@ + views_of(entries@).take(k)
                    && old(self).data().len() + encoding_of(views_of(entries@).take(k + 1)).len()
                    > usize::MAX),
    {
        let ghost vs = views_of(entries@);
        let handle = self.file_handle.take().unwrap();
        let mut writer = JournalWriter::with_serializer(handle, self.serializer);
        let result = writer.store_entries(entries);
        self.file_handle = Some(writer.into_inner());
        proof {
            let appended: Seq<Seq<char>> = if result is Ok {
                vs
            } else {
                let k = choose|k: int|
                    0 <= k < vs.len() && self.data() == old(self).data() + encoding_of(
                        #[trigger] vs.take(k),
                    ) && old(self).data().len() + encoding_of(vs.take(k + 1)).len() > usize::MAX;
                vs.take(k)
            };
            assert(self.data() == old(self).data() + encoding_of(appended));
            self.records@ = self.records@ + appended;
            if self.canonical@ {
                lemma_encoding_of_concat(old(self).records@, appended);
                assert forall|i: int| 0 <= i < self.indexed_len() implies
                    self.index.entry_indices@[i] as int == record_offset(self.records@, i) by {
                    assert(self.index.entry_indices@[i] as int == record_offset(
                        old(self).records@,
                        i,
                    ));
                    assert(self.records@.take(i) =~= old(self).records@.take(i));
                }
                assert(self.records@.take(self.indexed_len()) =~= old(self).records@.take(
                    self.indexed_len(),
                ));
            }
        }
        result
    }
}

/// Index correctness law: over a journal whose file holds exactly the
/// encodings of its records, the indexed offset of record `i` is the byte
/// boundary a sequential read from offset zero reaches after `i` records,
/// and the remainder there begins with that record's complete encoding —
/// so an index-based lookup and the `i`-th step of a full sequential read
/// return the same record.
pub proof fn lemma_index_correct(j: IndexedJournal, i: int)
    requires
        j.wf(),
        j.canonical@,
        0 <= i < j.indexed_len(),
    ensures
        j.index.entry_indices@[i] as int == record_offset(j.records@, i),
        is_enc_prefix(j.records@[i], j.data().skip(j.index.entry_indices@[i] as int)),
{
    lemma_round_trip_read(j.records@, i);
}

/// The lazy, finite, single-pass sequence over a journal's indexed records:
/// it holds an exclusive lease on the journal's file handle while it runs,
/// reads only up to the byte length the index build scanned, and its finish
/// step writes the handle back into the journal.
pub struct IndexedJournalIter {
    pub(crate) inner: JournalReaderIter,
    pub(crate) limit: usize,
}

impl IndexedJournalIter {
    /// The bytes of the file the iterator holds.
    pub closed spec fn data(&self) -> Seq<u8> {
        self.inner.data()
    }

    /// The byte offset the next pull decodes at.
    pub closed spec fn pos(&self) -> int {
        self.inner.pos()
    }

    /// Whether the iterator has yielded an error and become exhausted.
    pub closed spec fn done(&self) -> bool {
        self.inner.done
    }

    /// Whether the file was owned by the journal it came from.
    pub closed spec fn owned(&self) -> bool {
        self.inner.owned
    }

    /// The byte length the iteration reads up to: the length the journal's
    /// index build scanned, so records appended after open are not seen.
    pub closed spec fn limit(&self) -> int {
        self.limit as int
    }

    /// The tracked position agrees with the file's cursor.
    pub closed spec fn wf(&self) -> bool {
        self.inner.wf()
    }

    /// Decode the next record of the indexed span: a position at or past
    /// the scanned byte length is the end of the iteration, which is how
    /// records appended through the open journal stay invisible; below it,
    /// at each record boundary of a well-formed remainder the pull yields
    /// the record and stops at the next boundary, and on a truncated final
    /// encoding it yields a single dirty-tail error and becomes exhausted,
    /// as it does on a codec failure.
    pub fn next(&mut self) -> (r: Option<Result<String, JournalError>>)
        requires
            old(self).wf(),
        ensures
            final(self).wf(),
            final(self).data() == old(self).data(),
            final(self).owned() == old(self).owned(),
            final(self).limit() == old(self).limit(),
            old(self).done() ==> r is None && *final(self) == *old(self),
            !old(self).done() && old(self).pos() >= old(self).limit() ==> r is None && *final(self) == *old(self),
            !old(self).done() && old(self).pos() < old(self).limit() && old(self).pos() > old(self).data().len() ==> r is None && *final(self) == *old(self),
            !old(self).done() && old(self).pos() < old(self).limit() && old(self).pos() <= old(self).data().len() ==> ({
                let rem = old(self).data().skip(old(self).pos());
                &&& forall|s: Seq<char>| #[trigger]
                    is_enc_prefix(s, rem) ==> (r matches Some(res) && res matches Ok(v) && v@ == s
                        && final(self).pos() == old(self).pos() + bincode_enc(s).len() && !final(self).done())
                &&& rem.len() == 0 ==> r is None && final(self).pos() == old(self).pos() && final(self).done() == old(self).done()
                &&& forall|w: Seq<char>, cut: int| #[trigger]
                    is_truncated_enc(rem, w, cut) ==> (r == Some(
                        Err::<String, JournalError>(JournalError::IOError(IoError::UnexpectedEof)),
                    ) && final(self).done())
                &&& (r is None ==> rem.len() == 0 && final(self).pos() == old(self).pos())
                &&& (r matches Some(res) && res is Err ==> final(self).done())
                &&& (r matches Some(Ok(v)) ==> old(self).pos() < final(self).pos() <= old(self).data().len() && !final(self).done())
            }),
    {
        match self.inner.next_within(self.limit) {
            None => None,
            Some(Ok(entry)) => Some(Ok(entry.value)),
            Some(Err(err)) => Some(Err(err)),
        }
    }

    /// Hand the file handle back to the journal it was taken from, with
    /// the cursor where iteration stopped, so the journal is usable again.
    /// The handle must fit the journal's index, which iteration never
    /// disturbs: the iterator reads and seeks but does not write.
    pub fn finish(self, journal: &mut IndexedJournal)
        requires
            old(journal).file_handle is None,
            old(journal).index_ok(self.data()),
        ensures
            final(journal).index == old(journal).index,
            final(journal).scanned_len == old(journal).scanned_len,
            final(journal).records == old(journal).records,
            final(journal).canonical == old(journal).canonical,
            final(journal).serializer == old(journal).serializer,
            final(journal).deserializer == old(journal).deserializer,
            final(journal).file_handle matches Some(h) && h.data() == self.data() && h.cursor()
                == self.pos() && h.is_owned() == self.owned(),
            final(journal).wf(),
    {
        let (file, owned) = self.inner.into_file();
        journal.file_handle = Some(OwnedOrRef::rebuild(file, owned));
    }
}

} // verus!
