//! The in-memory file store: a fixed-capacity byte buffer plus a logical
//! length. Only the region `[0, length)` holds meaningful data; bytes beyond
//! it are stale and are never returned by a read.

use vstd::prelude::*;

verus! {

/// Errors reported by the store and by the filesystem driver.
#[derive(Clone, Copy, Debug, PartialEq, Eq, Structural)]
pub enum FsError {
    /// The identity or name does not resolve to the root or the file.
    NotFound,
    /// A write's target range exceeds the store's fixed capacity.
    OutOfSpace,
    /// A requested truncation size exceeds the store's fixed capacity.
    TooLarge,
    /// A create request named anything other than the one well-known name.
    AlreadyExists,
}

/// Fixed maximum byte length of the single file (1 GiB).
pub const FILE_CAPACITY: usize = 1024 * 1024 * 1024;

/// A fixed-capacity in-memory file: `data` always holds exactly the capacity
/// chosen at construction, and `size` is the current logical length.
pub struct MemFile {
    data: Vec<u8>,
    size: usize,
}

impl MemFile {
    /// The fixed capacity: the length of the underlying buffer.
    pub closed spec fn capacity(self) -> int {
        self.data@.len() as int
    }

    /// The current logical length.
    pub closed spec fn length(self) -> int {
        self.size as int
    }

    /// The full underlying buffer, capacity bytes long; only the prefix of
    /// `length()` bytes is meaningful data.
    pub closed spec fn contents(self) -> Seq<u8> {
        self.data@
    }

    /// Well-formedness: the buffer holds exactly the capacity, and the
    /// logical length never exceeds it.
    pub open spec fn wf(self) -> bool {
        &&& 0 <= self.length() <= self.capacity()
        &&& self.contents().len() == self.capacity()
    }

    /// What a read at `offset` of at most `max_len` bytes returns: the bytes
    /// of `[offset, min(offset + max_len, length))`, empty when the offset is
    /// at or beyond the logical length.
    pub open spec fn spec_read(self, offset: int, max_len: int) -> Seq<u8> {
        if offset >= self.length() {
            Seq::empty()
        } else if offset + max_len >= self.length() {
            self.contents().subrange(offset, self.length())
        } else {
            self.contents().subrange(offset, offset + max_len)
        }
    }

    /// A store with the default 1 GiB capacity, zero-initialized, logically
    /// empty.
    pub fn new() -> (s: Self)
        ensures
            s.wf(),
            s.capacity() == FILE_CAPACITY,
            s.length() == 0,
            forall|i: int| 0 <= i < s.capacity() ==> s.contents()[i] == 0u8,
    {
        Self::with_capacity(FILE_CAPACITY)
    }

    /// A store of the given capacity, zero-initialized, logically empty.
    pub fn with_capacity(capacity: usize) -> (s: Self)
        ensures
            s.wf(),
            s.capacity() == capacity,
            s.length() == 0,
            forall|i: int| 0 <= i < s.capacity() ==> s.contents()[i] == 0u8,
    {
        let data: Vec<u8> = vec![0u8; capacity];
        MemFile { data, size: 0 }
    }

    /// Read-only query of the logical length, for attribute construction.
    pub fn snapshot_len(&self) -> (r: usize)
        ensures
            r == self.length(),
    {
        self.size
    }

    /// Read-only query of the fixed capacity.
    pub fn capacity_bytes(&self) -> (r: usize)
        ensures
            r == self.capacity(),
    {
        self.data.len()
    }

    /// Returns the bytes of `[offset, min(offset + max_len, length))`; empty
    /// when `offset >= length`. Never fails.
    pub fn read(&self, offset: usize, max_len: usize) -> (r: Vec<u8>)
        requires
            self.wf(),
        ensures
            r@ == self.spec_read(offset as int, max_len as int),
    {
        let mut r: Vec<u8> = Vec::new();
        if offset >= self.size {
            return r;
        }
        let end: usize = if max_len >= self.size - offset {
            self.size
        } else {
            offset + max_len
        };
        let mut i: usize = offset;
        while i < end
            invariant
                offset <= i <= end <= self.size <= self.data@.len(),
                r@ =~= self.contents().subrange(offset as int, i as int),
            decreases end - i,
        {
            r.push(self.data[i]);
            proof {
                assert(r@ =~= self.contents().subrange(offset as int, i + 1 as int));
            }
            i = i + 1;
        }
        proof {
            assert(r@ =~= self.spec_read(offset as int, max_len as int));
        }
        r
    }

    /// Copies `bytes` into the buffer at `offset` and extends the logical
    /// length past the written range if needed; rejects the write without any
    /// mutation when the target range does not fit within the capacity.
    pub fn write(&mut self, offset: usize, bytes: &[u8]) -> (r: Result<usize, FsError>)
        requires
            old(self).wf(),
        ensures
            final(self).wf(),
            final(self).capacity() == old(self).capacity(),
            offset + bytes@.len() > old(self).capacity() ==> {
                &&& r == Err::<usize, FsError>(FsError::OutOfSpace)
                &&& final(self).length() == old(self).length()
                &&& final(self).contents() == old(self).contents()
            },
            offset + bytes@.len() <= old(self).capacity() ==> {
                &&& r == Ok::<usize, FsError>(bytes@.len() as usize)
                &&& final(self).length() == if offset + bytes@.len() > old(self).length() {
                    offset + bytes@.len()
                } else {
                    old(self).length()
                }
                &&& forall|i: int|
                    offset <= i < offset + bytes@.len() ==> final(self).contents()[i] == bytes@[i
                        - offset]
                &&& forall|i: int|
                    0 <= i < old(self).capacity() && !(offset <= i < offset + bytes@.len())
                        ==> final(self).contents()[i] == old(self).contents()[i]
            },
    {
        if bytes.len() > self.data.len() || offset > self.data.len() - bytes.len() {
            return Err(FsError::OutOfSpace);
        }
        let new_end: usize = offset + bytes.len();
        let mut i: usize = 0;
        while i < bytes.len()
            invariant
                i <= bytes@.len(),
                new_end == offset + bytes@.len(),
                offset + bytes@.len() <= self.data@.len(),
                self.data@.len() == old(self).data@.len(),
                self.size == old(self).size,
                forall|j: int| offset <= j < offset + i ==> self.data@[j] == bytes@[j - offset],
                forall|j: int|
                    0 <= j < self.data@.len() && !(offset <= j < offset + i)
                        ==> self.data@[j] == old(self).data@[j],
            decreases bytes@.len() - i,
        {
            self.data[offset + i] = bytes[i];
            i = i + 1;
        }
        if new_end > self.size {
            self.size = new_end;
        }
        Ok(bytes.len())
    }

    /// Sets the logical length to `new_length`; rejects lengths beyond the
    /// capacity without any mutation. Bytes newly exposed by an extension are
    /// whatever the buffer already held; they are not re-zeroed.
    pub fn truncate(&mut self, new_length: usize) -> (r: Result<(), FsError>)
        requires
            old(self).wf(),
        ensures
            final(self).wf(),
            final(self).capacity() == old(self).capacity(),
            final(self).contents() == old(self).contents(),
            new_length > old(self).capacity() ==> {
                &&& r == Err::<(), FsError>(FsError::TooLarge)
                &&& final(self).length() == old(self).length()
            },
            new_length <= old(self).capacity() ==> {
                &&& r == Ok::<(), FsError>(())
                &&& final(self).length() == new_length
            },
    {
        if new_length > self.data.len() {
            return Err(FsError::TooLarge);
        }
        self.size = new_length;
        Ok(())
    }

    /// Sets the logical length to zero; used by create and unlink. The buffer
    /// itself is kept.
    pub fn reset(&mut self)
        requires
            old(self).wf(),
        ensures
            final(self).wf(),
            final(self).capacity() == old(self).capacity(),
            final(self).contents() == old(self).contents(),
            final(self).length() == 0,
    {
        self.size = 0;
    }
}

/// Write-then-read round trip: any store state that satisfies `write`'s
/// success postcondition for `bytes` at `offset` reads those very bytes back
/// at `offset`.
pub proof fn lemma_write_then_read(pre: MemFile, post: MemFile, offset: int, bytes: Seq<u8>)
    requires
        pre.wf(),
        post.wf(),
        0 <= offset,
        offset + bytes.len() <= pre.capacity(),
        post.capacity() == pre.capacity(),
        post.length() == if offset + bytes.len() > pre.length() {
            offset + bytes.len()
        } else {
            pre.length()
        },
        forall|i: int| offset <= i < offset + bytes.len() ==> post.contents()[i] == bytes[i - offset],
    ensures
        post.spec_read(offset, bytes.len() as int) == bytes,
{
    if bytes.len() == 0 {
        assert(post.spec_read(offset, 0) =~= bytes);
    } else {
        assert(offset + bytes.len() <= post.length());
        assert(post.spec_read(offset, bytes.len() as int) =~= bytes);
    }
}

} // verus!
