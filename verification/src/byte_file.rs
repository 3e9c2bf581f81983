//! The underlying byte-addressable resource the journal operates on: a
//! growable in-memory byte buffer with a seek cursor, standing in for an
//! already-open readable+writable+seekable file. The embedding application
//! moves bytes between this buffer and whatever durable storage it manages.

use vstd::prelude::*;

verus! {

/// An in-memory byte file: the journal's single shared mutable resource.
/// The cursor may point past the end of the data; writing there zero-fills
/// the gap, as a seekable file would.
pub struct ByteFile {
    pub data: Vec<u8>,
    pub cursor: usize,
}

/// The contents of a byte file after writing `buf` at position `cursor`
/// of `data`: bytes before the cursor are kept (zero-filled past the old
/// end), `buf` overwrites from the cursor on, and any old bytes past the
/// written span survive.
pub open spec fn write_result(data: Seq<u8>, cursor: int, buf: Seq<u8>) -> Seq<u8> {
    let end = if data.len() > cursor + buf.len() {
        data.len() as int
    } else {
        cursor + buf.len()
    };
    Seq::new(end as nat, |i: int| {
        if i < cursor {
            if i < data.len() {
                data[i]
            } else {
                0u8
            }
        } else if i < cursor + buf.len() {
            buf[i - cursor]
        } else {
            data[i]
        }
    })
}

impl ByteFile {
    /// An empty file with the cursor at the start.
    pub fn empty() -> (r: ByteFile)
        ensures
            r.data@ =~= Seq::<u8>::empty(),
            r.cursor == 0,
    {
        ByteFile { data: Vec::new(), cursor: 0 }
    }

    /// Wrap existing bytes (for example, bytes the embedding application
    /// read from durable storage), with the cursor at the start.
    pub fn from_bytes(data: Vec<u8>) -> (r: ByteFile)
        ensures
            r.data@ == data@,
            r.cursor == 0,
    {
        ByteFile { data, cursor: 0 }
    }

    /// Give the raw bytes back to the caller.
    pub fn into_bytes(self) -> (r: Vec<u8>)
        ensures
            r@ == self.data@,
    {
        self.data
    }

    /// Borrow the raw bytes.
    pub fn buffer(&self) -> (r: &Vec<u8>)
        ensures
            r@ == self.data@,
    {
        &self.data
    }

    /// The number of bytes stored.
    pub fn len(&self) -> (r: usize)
        ensures
            r == self.data@.len(),
    {
        self.data.len()
    }

    /// Move the cursor to an absolute position.
    pub fn seek(&mut self, pos: usize) -> (r: usize)
        ensures
            final(self).data == old(self).data,
            final(self).cursor == pos,
            r == pos,
    {
        self.cursor = pos;
        pos
    }

    /// Move the cursor to the end of the data.
    pub fn seek_end(&mut self) -> (r: usize)
        ensures
            final(self).data == old(self).data,
            final(self).cursor == old(self).data@.len(),
            r == old(self).data@.len(),
    {
        self.cursor = self.data.len();
        self.cursor
    }

    /// Read up to `n` bytes from the cursor, advancing it by the number of
    /// bytes actually read; fewer than `n` come back at the end of the data.
    pub fn read(&mut self, n: usize) -> (r: Vec<u8>)
        ensures
            final(self).data == old(self).data,
            old(self).cursor <= old(self).data@.len() ==> {
                let end = if old(self).cursor + n <= old(self).data@.len() {
                    old(self).cursor + n
                } else {
                    old(self).data@.len() as int
                };
                &&& r@ == old(self).data@.subrange(old(self).cursor as int, end)
                &&& final(self).cursor == end
            },
            old(self).cursor > old(self).data@.len() ==> {
                &&& r@ =~= Seq::<u8>::empty()
                &&& final(self).cursor == old(self).cursor
            },
    {
        if self.cursor > self.data.len() {
            return Vec::new();
        }
        let end = if n <= self.data.len() - self.cursor {
            self.cursor + n
        } else {
            self.data.len()
        };
        let mut out: Vec<u8> = Vec::new();
        let mut i = self.cursor;
        while i < end
            invariant
                self.cursor <= i <= end <= self.data@.len(),
                out@ == self.data@.subrange(self.cursor as int, i as int),
            decreases end - i,
        {
            out.push(self.data[i]);
            assert(out@ =~= self.data@.subrange(self.cursor as int, i + 1));
            i += 1;
        }
        self.cursor = end;
        out
    }

    /// Write all of `buf` at the cursor, overwriting existing bytes and
    /// growing the data as needed; a cursor past the end zero-fills the gap.
    /// The cursor ends just past the written bytes.
    pub fn write(&mut self, buf: &[u8]) -> (r: usize)
        requires
            old(self).cursor + buf@.len() <= usize::MAX,
        ensures
            final(self).data@ == write_result(old(self).data@, old(self).cursor as int, buf@),
            final(self).cursor == old(self).cursor + buf@.len(),
            r == buf@.len(),
    {
        let ghost orig = self.data@;
        let ghost c = self.cursor as int;
        while self.data.len() < self.cursor
            invariant
                self.cursor == c,
                orig.len() <= self.data@.len(),
                self.data@.len() <= c || self.data@.len() == orig.len(),
                forall|i: int| 0 <= i < orig.len() ==> self.data@[i] == orig[i],
                forall|i: int| orig.len() <= i < self.data@.len() ==> self.data@[i] == 0u8,
            decreases self.cursor - self.data@.len(),
        {
            self.data.push(0u8);
        }
        let ghost padded = self.data@;
        assert(padded.len() == if orig.len() > c { orig.len() as int } else { c });
        assert(forall|i: int| 0 <= i < orig.len() ==> padded[i] == orig[i]);
        assert(forall|i: int| orig.len() <= i < padded.len() ==> padded[i] == 0u8);
        let mut i: usize = 0;
        while i < buf.len()
            invariant
                self.cursor == c,
                i <= buf@.len(),
                c + buf@.len() <= usize::MAX,
                c <= padded.len(),
                self.data@.len() == if padded.len() > c + i { padded.len() as int } else { c + i },
                forall|j: int| 0 <= j < c ==> self.data@[j] == padded[j],
                forall|j: int| 0 <= j < i ==> self.data@[c + j] == buf@[j],
                forall|j: int| c + i <= j < self.data@.len() ==> self.data@[j] == padded[j],
            decreases buf@.len() - i,
        {
            let pos = self.cursor + i;
            if pos < self.data.len() {
                self.data.set(pos, buf[i]);
            } else {
                self.data.push(buf[i]);
            }
            i += 1;
        }
        self.cursor = self.cursor + buf.len();
        proof {
            let wr = write_result(orig, c, buf@);
            assert(self.data@.len() == wr.len());
            assert forall|k: int| 0 <= k < wr.len() implies self.data@[k] == wr[k] by {
                if k < c {
                    assert(self.data@[k] == padded[k]);
                    if k < orig.len() {
                        assert(padded[k] == orig[k]);
                    } else {
                        assert(padded[k] == 0u8);
                    }
                } else if k < c + buf@.len() {
                    assert(self.data@[c + (k - c)] == buf@[k - c]);
                } else {
                    assert(self.data@[k] == padded[k]);
                    assert(padded[k] == orig[k]);
                }
            }
            assert(self.data@ =~= wr);
        }
        buf.len()
    }
}

} // verus!
