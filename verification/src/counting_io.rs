//! An offset-tracking wrapper around the byte file: it records the logical
//! position alongside every successful read, write and seek, so the current
//! byte offset can be queried without an extra seek. Tracking is off until a
//! position is installed (or a seek is performed, whose absolute result
//! becomes the tracked position).

use vstd::prelude::*;

use crate::byte_file::{write_result, ByteFile};

verus! {

/// A byte file together with an optional tracked position. `None` means
/// tracking has not been initialized; a successful read or write adds the
/// transferred byte count to an active position, and a seek always installs
/// its absolute target.
pub struct CountingIO {
    pub inner: ByteFile,
    pub counter: Option<u64>,
}

impl CountingIO {
    /// Wrap a byte file with tracking not yet initialized.
    pub fn new(inner: ByteFile) -> (r: CountingIO)
        ensures
            r.inner == inner,
            r.counter == Option::<u64>::None,
    {
        CountingIO { inner, counter: None }
    }

    /// Start tracking from position zero.
    pub fn without_offset(self) -> (r: CountingIO)
        ensures
            r.inner == self.inner,
            r.counter == Some(0u64),
    {
        CountingIO { counter: Some(0), ..self }
    }

    /// Start tracking from a known byte offset.
    pub fn with_offset(self, offset: u64) -> (r: CountingIO)
        ensures
            r.inner == self.inner,
            r.counter == Some(offset),
    {
        CountingIO { counter: Some(offset), ..self }
    }

    /// Install a known byte offset as the tracked position.
    pub fn set_position(&mut self, offset: u64)
        ensures
            final(self).inner == old(self).inner,
            final(self).counter == Some(offset),
    {
        self.counter = Some(offset);
    }

    /// The tracked position, if tracking is active.
    pub fn position(&self) -> (r: Option<u64>)
        ensures
            r == self.counter,
    {
        self.counter
    }

    /// Unwrap the underlying byte file.
    pub fn into_inner(self) -> (r: ByteFile)
        ensures
            r == self.inner,
    {
        self.inner
    }

    /// Read up to `n` bytes, adding the transferred count to the tracked
    /// position when tracking is active.
    pub fn read(&mut self, n: usize) -> (r: Vec<u8>)
        requires
            old(self).counter matches Some(c) ==> c + n <= u64::MAX,
        ensures
            final(self).inner.data == old(self).inner.data,
            old(self).inner.cursor <= old(self).inner.data@.len() ==> {
                let end = if old(self).inner.cursor + n <= old(self).inner.data@.len() {
                    old(self).inner.cursor + n
                } else {
                    old(self).inner.data@.len() as int
                };
                &&& r@ == old(self).inner.data@.subrange(old(self).inner.cursor as int, end)
                &&& final(self).inner.cursor == end
            },
            old(self).inner.cursor > old(self).inner.data@.len() ==> {
                &&& r@ =~= Seq::<u8>::empty()
                &&& final(self).inner.cursor == old(self).inner.cursor
            },
            final(self).counter == (match old(self).counter {
                Some(c) => Some((c + r@.len()) as u64),
                None => Option::<u64>::None,
            }),
    {
        let out = self.inner.read(n);
        if let Some(c) = self.counter {
            self.counter = Some(c + out.len() as u64);
        }
        out
    }

    /// Write all of `buf` at the cursor, adding the written count to the
    /// tracked position when tracking is active.
    pub fn write(&mut self, buf: &[u8]) -> (r: usize)
        requires
            old(self).inner.cursor + buf@.len() <= usize::MAX,
            old(self).counter matches Some(c) ==> c + buf@.len() <= u64::MAX,
        ensures
            final(self).inner.data@ == write_result(
                old(self).inner.data@,
                old(self).inner.cursor as int,
                buf@,
            ),
            final(self).inner.cursor == old(self).inner.cursor + buf@.len(),
            r == buf@.len(),
            final(self).counter == (match old(self).counter {
                Some(c) => Some((c + buf@.len()) as u64),
                None => Option::<u64>::None,
            }),
    {
        let n = self.inner.write(buf);
        if let Some(c) = self.counter {
            self.counter = Some(c + n as u64);
        }
        n
    }

    /// Pass a flush through; the in-memory file has nothing buffered.
    pub fn flush(&mut self)
        ensures
            *final(self) == *old(self),
    {
    }

    /// Seek to an absolute position; its result becomes the tracked position.
    pub fn seek(&mut self, pos: usize) -> (r: u64)
        ensures
            final(self).inner.data == old(self).inner.data,
            final(self).inner.cursor == pos,
            final(self).counter == Some(pos as u64),
            r == pos as u64,
    {
        let p = self.inner.seek(pos);
        self.counter = Some(p as u64);
        p as u64
    }

    /// Seek to the end of the data; its result becomes the tracked position.
    pub fn seek_end(&mut self) -> (r: u64)
        ensures
            final(self).inner.data == old(self).inner.data,
            final(self).inner.cursor == old(self).inner.data@.len(),
            final(self).counter == Some(old(self).inner.data@.len() as u64),
            r == old(self).inner.data@.len() as u64,
    {
        let p = self.inner.seek_end();
        self.counter = Some(p as u64);
        p as u64
    }
}

} // verus!
