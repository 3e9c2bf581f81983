//! The append writer: positions itself at the true end of the file and
//! appends encoded records back-to-back, never overwriting existing bytes.
//! A batch append encodes each record in sequence and stops at the first
//! failure, leaving the earlier records durably written.

use vstd::prelude::*;

use crate::byte_file::ByteFile;
use crate::codec::{bincode_enc, bincode_encode_record, encoding_of, lemma_encoding_of_concat};
use crate::owned_or_ref::OwnedOrRef;
use crate::{CodecError, IoError, JournalError};

verus! {

/// The encode half of the record codec interface: one record in, its
/// self-delimiting byte encoding out. Implement it to store records in a
/// custom data format; stateless values implement `Copy` so the same codec
/// can serve a writer, a reader and an index build at once.
pub trait JournalSerialize: Copy {
    /// The byte encoding this codec produces for a record.
    spec fn encoded(&self, s: Seq<char>) -> Seq<u8>;

    /// Encode one record into a fresh byte vector; the encoding is
    /// self-delimiting and never empty.
    fn serialize(&self, value: &String) -> (r: Result<Vec<u8>, CodecError>)
        ensures
            (r matches Ok(b) ==> b@ == self.encoded(value@) && b@.len() > 0),
    ;
}

/// The default encoder: bincode's varint length-prefixed format.
#[derive(Debug, Clone, Copy)]
pub struct BincodeSerializer;

impl BincodeSerializer {
    /// Encode one record with the default format; this cannot fail.
    pub fn encode(&self, value: &String) -> (r: Vec<u8>)
        ensures
            r@ == bincode_enc(value@),
            r@.len() > 0,
    {
        bincode_encode_record(value)
    }
}

impl JournalSerialize for BincodeSerializer {
    open spec fn encoded(&self, s: Seq<char>) -> Seq<u8> {
        bincode_enc(s)
    }

    fn serialize(&self, value: &String) -> (r: Result<Vec<u8>, CodecError>)
        ensures
            r is Ok,
    {
        Ok(bincode_encode_record(value))
    }
}

/// The record views of a batch of entries, in order.
pub open spec fn views_of(entries: Seq<String>) -> Seq<Seq<char>> {
    entries.map_values(|s: String| s@)
}

/// Appends records to the end of the file held by its handle.
pub struct JournalWriter {
    pub file_handle: OwnedOrRef<ByteFile>,
    pub serializer: BincodeSerializer,
}

impl JournalWriter {
    /// The bytes of the underlying file.
    pub open spec fn data(&self) -> Seq<u8> {
        self.file_handle.inner_spec().data@
    }

    /// A writer over the given handle with the default encoder.
    pub fn new(file_handle: OwnedOrRef<ByteFile>) -> (r: JournalWriter)
        ensures
            r.file_handle == file_handle,
    {
        Self::with_serializer(file_handle, BincodeSerializer)
    }

    /// Like `new`, with the encoder passed explicitly.
    pub fn with_serializer(file_handle: OwnedOrRef<ByteFile>, serializer: BincodeSerializer) -> (r:
        JournalWriter)
        ensures
            r.file_handle == file_handle,
            r.serializer == serializer,
    {
        JournalWriter { file_handle, serializer }
    }

    /// Give the file handle back to the caller.
    pub fn into_inner(self) -> (r: OwnedOrRef<ByteFile>)
        ensures
            r == self.file_handle,
    {
        self.file_handle
    }

    /// Append one record at the true end of the file. On success the file
    /// has grown by exactly the record's encoding; success is owed whenever
    /// the grown file still fits in memory, and on failure nothing has been
    /// written.
    pub fn store_entry(&mut self, entry: String) -> (r: Result<(), JournalError>)
        ensures
            r is Ok <==> old(self).data().len() + bincode_enc(entry@).len() <= usize::MAX,
            r is Ok ==> final(self).data() == old(self).data() + bincode_enc(entry@),
            r is Err ==> final(self).data() == old(self).data() && r == Err::<(), JournalError>(
                JournalError::IOError(IoError::WriteZero),
            ),
            final(self).file_handle.is_owned() == old(self).file_handle.is_owned(),
            final(self).serializer == old(self).serializer,
    {
        let encoded = self.serializer.encode(&entry);
        let end = self.file_handle.seek_end();
        if encoded.len() <= usize::MAX - end {
            self.file_handle.write(encoded.as_slice());
            proof {
                assert(self.data() =~= old(self).data() + bincode_enc(entry@));
            }
            Ok(())
        } else {
            Err(JournalError::IOError(IoError::WriteZero))
        }
    }

    /// Append a batch of records at the true end of the file, stopping at
    /// the first failure: records before it remain durably written, later
    /// ones are not attempted. Success is owed whenever the whole batch
    /// fits in memory.
    pub fn store_entries(&mut self, entries: Vec<String>) -> (r: Result<(), JournalError>)
        ensures
            r is Ok <==> old(self).data().len() + encoding_of(views_of(entries@)).len()
                <= usize::MAX,
            r is Ok ==> final(self).data() == old(self).data() + encoding_of(views_of(entries@)),
            r is Err ==> r == Err::<(), JournalError>(JournalError::IOError(IoError::WriteZero))
                && (exists|k: int|
                0 <= k < entries@.len() && final(self).data() == old(self).data() + encoding_of(
                    #[trigger] views_of(entries@).take(k),
                ) && old(self).data().len() + encoding_of(views_of(entries@).take(k + 1)).len()
                    > usize::MAX),
            final(self).file_handle.is_owned() == old(self).file_handle.is_owned(),
            final(self).serializer == old(self).serializer,
    {
        let ghost orig = self.data();
        let ghost vs = views_of(entries@);
        self.file_handle.seek_end();
        let mut i: usize = 0;
        proof {
            assert(vs.take(0) =~= Seq::<Seq<char>>::empty());
            assert(orig + encoding_of(vs.take(0)) =~= orig);
        }
        while i < entries.len()
            invariant
                i <= entries@.len(),
                orig == old(self).data(),
                vs == views_of(entries@),
                vs.len() == entries@.len(),
                self.data() == orig + encoding_of(vs.take(i as int)),
                self.data().len() <= usize::MAX,
                self.serializer == old(self).serializer,
                self.file_handle.is_owned() == old(self).file_handle.is_owned(),
            decreases entries@.len() - i,
        {
            let encoded = self.serializer.encode(&entries[i]);
            proof {
                assert(vs.take(i + 1) =~= vs.take(i as int) + seq![vs[i as int]]);
                lemma_encoding_of_concat(vs.take(i as int), seq![vs[i as int]]);
                assert(seq![vs[i as int]].skip(1) =~= Seq::<Seq<char>>::empty());
                assert(encoding_of(Seq::<Seq<char>>::empty()) =~= Seq::<u8>::empty());
                assert(encoding_of(seq![vs[i as int]]) =~= bincode_enc(vs[i as int]));
                assert(vs[i as int] == entries@[i as int]@);
            }
            let end = self.file_handle.seek_end();
            if encoded.len() <= usize::MAX - end {
                self.file_handle.write(encoded.as_slice());
                proof {
                    assert(self.data() =~= orig + encoding_of(vs.take(i + 1)));
                }
            } else {
                proof {
                    lemma_batch_tail_grows(vs, i + 1);
                    assert(orig + encoding_of(vs.take(i as int)) == self.data());
                }
                return Err(JournalError::IOError(IoError::WriteZero));
            }
            i += 1;
        }
        proof {
            assert(vs.take(vs.len() as int) =~= vs);
        }
        Ok(())
    }
}

/// The encoded length of a batch never shrinks as records are added: the
/// length of any prefix's encoding is at most the whole batch's.
pub proof fn lemma_batch_tail_grows(vs: Seq<Seq<char>>, k: int)
    requires
        0 <= k <= vs.len(),
    ensures
        encoding_of(vs.take(k)).len() <= encoding_of(vs).len(),
    decreases vs.len() - k,
{
    if k < vs.len() {
        assert(vs.take(k + 1) =~= vs.take(k) + seq![vs[k]]);
        lemma_encoding_of_concat(vs.take(k), seq![vs[k]]);
        lemma_batch_tail_grows(vs, k + 1);
    } else {
        assert(vs.take(k) =~= vs);
    }
}

} // verus!
