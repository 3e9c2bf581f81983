//! The record codec: every record on disk is the byte encoding that bincode's
//! varint options produce (a variable-length length prefix followed by that
//! many payload bytes). The two functions that cross into bincode live here,
//! together with the spec-level model of the encoding that all journal
//! contracts are phrased over, and the lemmas that relate a whole file of
//! encodings to its record boundaries.

use vstd::prelude::*;

use bincode::Options;

verus! {

/// The bytes that the default codec produces for one record. The exact byte
/// sequence is bincode's business; the journal relies only on the facts the
/// trusted items below state about it.
pub uninterp spec fn bincode_enc(s: Seq<char>) -> Seq<u8>;

/// `rem` begins with the complete encoding of the record `s`.
pub open spec fn is_enc_prefix(s: Seq<char>, rem: Seq<u8>) -> bool {
    &&& bincode_enc(s).len() <= rem.len()
    &&& rem.take(bincode_enc(s).len() as int) == bincode_enc(s)
}

/// `rem` is a non-empty strict prefix of the encoding of `w`: the shape a
/// dirty tail has when a write of `w` was interrupted after `cut` bytes.
pub open spec fn is_truncated_enc(rem: Seq<u8>, w: Seq<char>, cut: int) -> bool {
    &&& 0 < cut < bincode_enc(w).len()
    &&& rem == bincode_enc(w).take(cut)
}

/// The whole-file contents after appending the records `vs` in order to an
/// empty file: their encodings back-to-back, with no header or delimiter.
pub open spec fn encoding_of(vs: Seq<Seq<char>>) -> Seq<u8>
    decreases vs.len(),
{
    if vs.len() == 0 {
        Seq::empty()
    } else {
        bincode_enc(vs[0]) + encoding_of(vs.skip(1))
    }
}

/// The byte offset at which record `i` of `vs` begins in `encoding_of(vs)`;
/// at `i == vs.len()` it is the total encoded length.
pub open spec fn record_offset(vs: Seq<Seq<char>>, i: int) -> int {
    encoding_of(vs.take(i)).len() as int
}

/// The whole-file contents of a journal whose final write was interrupted:
/// the records `vs` encoded back-to-back, followed by the first `cut` bytes
/// of the encoding of one more record `w`.
pub open spec fn dirty_encoding(vs: Seq<Seq<char>>, w: Seq<char>, cut: int) -> Seq<u8> {
    encoding_of(vs) + bincode_enc(w).take(cut)
}

/// What one decode attempt at a position reports: a record together with how
/// many bytes follow it, a clean end of stream (with how many bytes were left
/// unconsumed when it was hit), or a failure of the codec itself.
pub enum DecodeOutcome {
    Value { value: String, rest: usize },
    CleanEof { left: usize },
    Fail,
}

/// Relies on bincode 1.3 (`options().with_varint_encoding()`): `serialize`
/// of a string writes a varint length prefix followed by the UTF-8 payload
/// into a fresh vector and cannot fail, so the result is a function of the
/// string alone; the encoding is never empty.
#[verifier::external_body]
pub(crate) fn bincode_encode_record(value: &String) -> (r: Vec<u8>)
    ensures
        r@ == bincode_enc(value@),
        r@.len() > 0,
{
    match bincode::options().with_varint_encoding().serialize(value) {
        Ok(bytes) => bytes,
        // serialization of a string with these options has no failure path
        // (no size limit, and writing to a vector cannot fail), so this arm
        // is unreachable
        Err(_) => Vec::new(),
    }
}

/// Relies on bincode 1.3 (`options().with_varint_encoding().allow_trailing_bytes()`):
/// `deserialize_from` over a byte slice reads exactly one length-prefixed
/// record from the front, consuming only its bytes; an end of stream shows up
/// as an `UnexpectedEof` I/O error, and reading from a slice consumes at
/// least one byte before any end of stream can be hit. A malformed length
/// prefix larger than any record a machine holds makes bincode allocate its
/// payload buffer before reading, which can only abort the process on
/// allocation failure, never return a wrong record.
#[verifier::external_body]
pub(crate) fn bincode_decode_record(data: &Vec<u8>, pos: usize) -> (r: DecodeOutcome)
    requires
        pos <= data@.len(),
    ensures
        forall|s: Seq<char>| #[trigger] is_enc_prefix(s, data@.skip(pos as int)) ==> r is Value
            && r->value@ == s && r->rest == data@.skip(pos as int).len() - bincode_enc(s).len(),
        forall|w: Seq<char>, cut: int| #[trigger] is_truncated_enc(data@.skip(pos as int), w, cut)
            ==> r is CleanEof && r->left < data@.skip(pos as int).len(),
        pos == data@.len() ==> r is CleanEof && r->left == 0,
        r is Value ==> r->rest < data@.skip(pos as int).len(),
        r is CleanEof ==> r->left <= data@.skip(pos as int).len() && (pos < data@.len()
            ==> r->left < data@.skip(pos as int).len()),
{
    let mut rest: &[u8] = &data[pos..];
    let res: Result<String, bincode::Error> = bincode::options()
        .with_varint_encoding()
        .allow_trailing_bytes()
        .deserialize_from(&mut rest);
    match res {
        Ok(value) => DecodeOutcome::Value { value, rest: rest.len() },
        Err(err) => match *err {
            bincode::ErrorKind::Io(ref io_err) if io_err.kind() == std::io::ErrorKind::UnexpectedEof => {
                DecodeOutcome::CleanEof { left: rest.len() }
            },
            _ => DecodeOutcome::Fail,
        },
    }
}

/// Encodings concatenate record-wise.
pub proof fn lemma_encoding_of_concat(a: Seq<Seq<char>>, b: Seq<Seq<char>>)
    ensures
        encoding_of(a + b) == encoding_of(a) + encoding_of(b),
    decreases a.len(),
{
    if a.len() == 0 {
        assert(a + b =~= b);
        assert(encoding_of(a) + encoding_of(b) =~= encoding_of(b));
    } else {
        assert((a + b).skip(1) =~= a.skip(1) + b);
        lemma_encoding_of_concat(a.skip(1), b);
        assert((a + b)[0] == a[0]);
        assert(bincode_enc(a[0]) + (encoding_of(a.skip(1)) + encoding_of(b)) =~= (bincode_enc(
            a[0],
        ) + encoding_of(a.skip(1))) + encoding_of(b));
    }
}

/// A file of encodings splits at any record boundary: what precedes record
/// `i` is the encoding of the first `i` records, what follows is the
/// encoding of the rest.
pub proof fn lemma_record_split(vs: Seq<Seq<char>>, i: int)
    requires
        0 <= i <= vs.len(),
    ensures
        encoding_of(vs) == encoding_of(vs.take(i)) + encoding_of(vs.skip(i)),
        encoding_of(vs).skip(record_offset(vs, i)) == encoding_of(vs.skip(i)),
        0 <= record_offset(vs, i) <= encoding_of(vs).len(),
{
    assert(vs.take(i) + vs.skip(i) =~= vs);
    lemma_encoding_of_concat(vs.take(i), vs.skip(i));
    assert(encoding_of(vs).skip(record_offset(vs, i)) =~= encoding_of(vs.skip(i)));
}

/// Consuming record `i` moves the boundary forward by exactly the length of
/// its encoding.
pub proof fn lemma_offset_step(vs: Seq<Seq<char>>, i: int)
    requires
        0 <= i < vs.len(),
    ensures
        record_offset(vs, i + 1) == record_offset(vs, i) + bincode_enc(vs[i]).len(),
{
    assert(vs.take(i + 1) =~= vs.take(i) + seq![vs[i]]);
    lemma_encoding_of_concat(vs.take(i), seq![vs[i]]);
    assert(seq![vs[i]].skip(1) =~= Seq::<Seq<char>>::empty());
    assert(encoding_of(Seq::<Seq<char>>::empty()) =~= Seq::<u8>::empty());
    assert(encoding_of(seq![vs[i]]) =~= bincode_enc(vs[i]));
}

/// Round-trip law: a file holding exactly the encodings of the records `vs`
/// presents, at the boundary of each record `i`, a remainder that begins
/// with the complete encoding of `vs[i]` and continues at the boundary of
/// record `i + 1`; past the last record the remainder is empty. Together
/// with the streaming reader's contract this says that reading sequentially
/// from offset zero yields exactly `vs`, in order — and that an iteration
/// resumed at a record boundary, as one started with seek-on-start disabled
/// is, reads on from exactly the record that boundary belongs to.
pub proof fn lemma_round_trip_read(vs: Seq<Seq<char>>, i: int)
    requires
        0 <= i <= vs.len(),
    ensures
        record_offset(vs, 0) == 0,
        record_offset(vs, vs.len() as int) == encoding_of(vs).len(),
        0 <= record_offset(vs, i) <= encoding_of(vs).len(),
        i < vs.len() ==> is_enc_prefix(vs[i], encoding_of(vs).skip(record_offset(vs, i))),
        i < vs.len() ==> record_offset(vs, i) + bincode_enc(vs[i]).len() == record_offset(
            vs,
            i + 1,
        ),
{
    assert(vs.take(0) =~= Seq::<Seq<char>>::empty());
    assert(vs.take(vs.len() as int) =~= vs);
    lemma_record_split(vs, i);
    if i < vs.len() {
        lemma_offset_step(vs, i);
        let rem = encoding_of(vs).skip(record_offset(vs, i));
        assert(vs.skip(i)[0] == vs[i]);
        assert(rem == bincode_enc(vs[i]) + encoding_of(vs.skip(i).skip(1)));
        assert(rem.take(bincode_enc(vs[i]).len() as int) =~= bincode_enc(vs[i]));
    }
}

/// Dirty-tail law: a file holding the encodings of `vs` followed by the
/// first `cut` bytes of the encoding of one more record `w` (an interrupted
/// final write) presents, at each boundary `i < vs.len()`, a remainder that
/// still begins with the complete encoding of `vs[i]`, and at the boundary
/// past the last complete record exactly the truncated tail. Together with
/// the streaming reader's contract this says that sequential iteration
/// yields all complete records and then a single dirty-tail error, with no
/// record decoded from the tail.
pub proof fn lemma_dirty_tail_read(vs: Seq<Seq<char>>, w: Seq<char>, cut: int, i: int)
    requires
        0 <= i <= vs.len(),
        0 < cut < bincode_enc(w).len(),
    ensures
        i < vs.len() ==> is_enc_prefix(
            vs[i],
            dirty_encoding(vs, w, cut).skip(record_offset(vs, i)),
        ),
        i == vs.len() ==> is_truncated_enc(
            dirty_encoding(vs, w, cut).skip(record_offset(vs, i)),
            w,
            cut,
        ),
{
    let tail = bincode_enc(w).take(cut);
    let full = dirty_encoding(vs, w, cut);
    lemma_round_trip_read(vs, i);
    assert(full.skip(record_offset(vs, i)) =~= encoding_of(vs).skip(record_offset(vs, i)) + tail);
    if i < vs.len() {
        let rem = encoding_of(vs).skip(record_offset(vs, i));
        assert((rem + tail).take(bincode_enc(vs[i]).len() as int) =~= rem.take(
            bincode_enc(vs[i]).len() as int,
        ));
    } else {
        assert(encoding_of(vs).skip(record_offset(vs, i)) =~= Seq::<u8>::empty());
        assert(full.skip(record_offset(vs, i)) =~= tail);
    }
}

} // verus!
