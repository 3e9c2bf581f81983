//! The shared-handle holder: a value held either outright or on behalf of a
//! lender. APIs that consume a file handle accept either form; a holder in
//! the lent form is obliged to hand the value back to its lender when the
//! borrowing scope finishes, which the journal's iterators do through their
//! explicit finish step.

use vstd::prelude::*;

use crate::byte_file::{write_result, ByteFile};

verus! {

/// A value that is either owned outright or held temporarily on behalf of a
/// lender. Both forms carry the value itself; the variant records only who
/// it must eventually go back to.
pub enum OwnedOrRef<T> {
    /// Held on behalf of a lender; must be handed back when the holder is done.
    Ref(T),
    /// Owned outright.
    Owned(T),
}

impl<T> OwnedOrRef<T> {
    /// The held value, whichever form the holder has.
    pub open spec fn inner_spec(&self) -> T {
        match self {
            OwnedOrRef::Ref(v) => *v,
            OwnedOrRef::Owned(v) => *v,
        }
    }

    /// Whether the value is owned outright.
    pub open spec fn is_owned(&self) -> bool {
        self matches OwnedOrRef::Owned(_)
    }

    /// Mutable access to the held value, whichever form the holder has.
    pub fn as_mut(&mut self) -> (r: &mut T)
        ensures
            *r == old(self).inner_spec(),
            final(self).inner_spec() == *final(r),
            final(self).is_owned() == old(self).is_owned(),
    {
        match self {
            OwnedOrRef::Ref(v) => v,
            OwnedOrRef::Owned(v) => v,
        }
    }

    /// Shared access to the held value, whichever form the holder has.
    pub fn as_ref(&self) -> (r: &T)
        ensures
            *r == self.inner_spec(),
    {
        match self {
            OwnedOrRef::Ref(v) => v,
            OwnedOrRef::Owned(v) => v,
        }
    }

    /// Take the value out of an owned holder. A lent value may not be kept:
    /// it is owed back to its lender, so unwrapping it is excluded up front.
    pub fn unwrap_owned(self) -> (r: T)
        requires
            self.is_owned(),
        ensures
            r == self.inner_spec(),
    {
        match self {
            OwnedOrRef::Ref(_) => unreached(),
            OwnedOrRef::Owned(v) => v,
        }
    }

    /// Take the value out together with the tag saying whether it was owned;
    /// the matching holder can be rebuilt with `rebuild`.
    pub fn into_parts(self) -> (r: (T, bool))
        ensures
            r.0 == self.inner_spec(),
            r.1 == self.is_owned(),
    {
        match self {
            OwnedOrRef::Ref(v) => (v, false),
            OwnedOrRef::Owned(v) => (v, true),
        }
    }

    /// Rebuild a holder from a value and an ownership tag.
    pub fn rebuild(value: T, owned: bool) -> (r: OwnedOrRef<T>)
        ensures
            r.inner_spec() == value,
            r.is_owned() == owned,
    {
        if owned {
            OwnedOrRef::Owned(value)
        } else {
            OwnedOrRef::Ref(value)
        }
    }
}

impl OwnedOrRef<ByteFile> {
    /// The bytes of the held file.
    pub open spec fn data(&self) -> Seq<u8> {
        self.inner_spec().data@
    }

    /// The cursor of the held file.
    pub open spec fn cursor(&self) -> int {
        self.inner_spec().cursor as int
    }

    /// Read up to `n` bytes from the held file's cursor, as the file itself
    /// would.
    pub fn read(&mut self, n: usize) -> (r: Vec<u8>)
        ensures
            final(self).data() == old(self).data(),
            final(self).is_owned() == old(self).is_owned(),
            old(self).cursor() <= old(self).data().len() ==> {
                let end = if old(self).cursor() + n <= old(self).data().len() {
                    old(self).cursor() + n
                } else {
                    old(self).data().len() as int
                };
                &&& r@ == old(self).data().subrange(old(self).cursor(), end)
                &&& final(self).cursor() == end
            },
            old(self).cursor() > old(self).data().len() ==> r@ =~= Seq::<u8>::empty()
                && final(self).cursor() == old(self).cursor(),
    {
        match self {
            OwnedOrRef::Ref(f) => f.read(n),
            OwnedOrRef::Owned(f) => f.read(n),
        }
    }

    /// Write all of `buf` at the held file's cursor, as the file itself
    /// would.
    pub fn write(&mut self, buf: &[u8]) -> (r: usize)
        requires
            old(self).cursor() + buf@.len() <= usize::MAX,
        ensures
            final(self).data() == write_result(old(self).data(), old(self).cursor(), buf@),
            final(self).cursor() == old(self).cursor() + buf@.len(),
            final(self).is_owned() == old(self).is_owned(),
            r == buf@.len(),
    {
        match self {
            OwnedOrRef::Ref(f) => f.write(buf),
            OwnedOrRef::Owned(f) => f.write(buf),
        }
    }

    /// Seek the held file to an absolute position.
    pub fn seek(&mut self, pos: usize) -> (r: usize)
        ensures
            final(self).data() == old(self).data(),
            final(self).cursor() == pos,
            final(self).is_owned() == old(self).is_owned(),
            r == pos,
    {
        match self {
            OwnedOrRef::Ref(f) => f.seek(pos),
            OwnedOrRef::Owned(f) => f.seek(pos),
        }
    }

    /// Seek the held file to the end of its data.
    pub fn seek_end(&mut self) -> (r: usize)
        ensures
            final(self).data() == old(self).data(),
            final(self).cursor() == old(self).data().len(),
            final(self).is_owned() == old(self).is_owned(),
            r == old(self).data().len(),
    {
        match self {
            OwnedOrRef::Ref(f) => f.seek_end(),
            OwnedOrRef::Owned(f) => f.seek_end(),
        }
    }
}

} // verus!
