//! The filesystem driver: translates identity numbers to the synthetic root
//! directory or the single regular file, performs the requested operation on
//! the in-memory store, and reports the outcome or the matching error.

use vstd::prelude::*;
use vstd::string::*;

use crate::store::{FsError, MemFile, FILE_CAPACITY};

verus! {

/// Identity of the synthetic root directory.
pub const ROOT_INODE: u64 = 1;

/// Identity of the single regular file.
pub const FILE_INODE: u64 = 2;

/// How long a caller may treat a returned attribute snapshot as accurate, in
/// seconds (the attribute-cache validity window).
pub const TTL_SECS: u64 = 1;

/// The kind of a directory entry or of an attribute snapshot.
#[derive(Clone, Copy, Debug, PartialEq, Eq, Structural)]
pub enum FileKind {
    Directory,
    RegularFile,
}

/// An attribute snapshot: synthesized on demand from the store's logical
/// length plus fixed metadata. Timestamps are deliberately absent; they are
/// stamped with the current time at the transport edge on every query.
#[derive(Clone, Copy, Debug, PartialEq, Eq, Structural)]
pub struct FileAttr {
    pub ino: u64,
    pub size: u64,
    pub blocks: u64,
    pub kind: FileKind,
    pub perm: u16,
    pub nlink: u32,
    pub uid: u32,
    pub gid: u32,
    pub rdev: u32,
    pub flags: u32,
    pub blksize: u32,
}

/// One directory listing entry; `offset` is the offset a caller passes to
/// resume the listing just after this entry.
#[derive(Clone, Debug, PartialEq, Eq)]
pub struct DirEntry {
    pub ino: u64,
    pub offset: i64,
    pub kind: FileKind,
    pub name: String,
}

/// The `j`-th entry of the root directory's fixed listing: itself, its
/// parent, then the single file.
pub open spec fn dir_entry_matches(e: DirEntry, j: int) -> bool {
    &&& e.ino == if j < 2 {
        ROOT_INODE
    } else {
        FILE_INODE
    }
    &&& e.offset == j + 1
    &&& e.kind == if j < 2 {
        FileKind::Directory
    } else {
        FileKind::RegularFile
    }
    &&& e.name@ == if j == 0 {
        "."@
    } else if j == 1 {
        ".."@
    } else {
        "test.txt"@
    }
}

/// The filesystem driver: the single file's store plus the fixed ownership
/// metadata reported in attribute snapshots.
pub struct MemFS {
    file: MemFile,
    uid: u32,
    gid: u32,
}

impl MemFS {
    /// The store's current logical length.
    pub closed spec fn length(self) -> int {
        self.file.length()
    }

    /// The store's fixed capacity.
    pub closed spec fn capacity(self) -> int {
        self.file.capacity()
    }

    /// The store's full underlying buffer.
    pub closed spec fn contents(self) -> Seq<u8> {
        self.file.contents()
    }

    /// The owner reported in attribute snapshots.
    pub closed spec fn owner_uid(self) -> u32 {
        self.uid
    }

    /// The owning group reported in attribute snapshots.
    pub closed spec fn owner_gid(self) -> u32 {
        self.gid
    }

    /// Well-formedness: the store's buffer holds exactly the capacity, and
    /// its logical length never exceeds it.
    pub open spec fn wf(self) -> bool {
        &&& 0 <= self.length() <= self.capacity()
        &&& self.contents().len() == self.capacity()
    }

    /// What a read at `offset` of at most `max_len` bytes returns.
    pub open spec fn spec_read(self, offset: int, max_len: int) -> Seq<u8> {
        if offset >= self.length() {
            Seq::<u8>::empty()
        } else if offset + max_len >= self.length() {
            self.contents().subrange(offset, self.length())
        } else {
            self.contents().subrange(offset, offset + max_len)
        }
    }

    /// The file's attribute snapshot: its size is the store's logical length;
    /// everything else is fixed metadata.
    pub open spec fn spec_file_attr(self) -> FileAttr {
        FileAttr {
            ino: FILE_INODE,
            size: self.length() as u64,
            blocks: 1,
            kind: FileKind::RegularFile,
            perm: 0o644,
            nlink: 1,
            uid: self.owner_uid(),
            gid: self.owner_gid(),
            rdev: 0,
            flags: 0,
            blksize: 512,
        }
    }

    /// The root directory's attribute snapshot: fixed metadata only.
    pub open spec fn spec_root_attr(self) -> FileAttr {
        FileAttr {
            ino: ROOT_INODE,
            size: 0,
            blocks: 0,
            kind: FileKind::Directory,
            perm: 0o755,
            nlink: 2,
            uid: self.owner_uid(),
            gid: self.owner_gid(),
            rdev: 0,
            flags: 0,
            blksize: 512,
        }
    }

    /// A driver over a fresh store with the default 1 GiB capacity,
    /// zero-initialized, owned by uid 0 and gid 0.
    pub fn new() -> (s: Self)
        ensures
            s.wf(),
            s.capacity() == FILE_CAPACITY,
            s.length() == 0,
            forall|i: int| 0 <= i < s.capacity() ==> s.contents()[i] == 0u8,
            s.owner_uid() == 0,
            s.owner_gid() == 0,
    {
        MemFS { file: MemFile::new(), uid: 0, gid: 0 }
    }

    /// A driver over a fresh store of the given capacity, zero-initialized,
    /// reporting the given owner in attribute snapshots.
    pub fn with_config(capacity: usize, uid: u32, gid: u32) -> (s: Self)
        ensures
            s.wf(),
            s.capacity() == capacity,
            s.length() == 0,
            forall|i: int| 0 <= i < s.capacity() ==> s.contents()[i] == 0u8,
            s.owner_uid() == uid,
            s.owner_gid() == gid,
    {
        MemFS { file: MemFile::with_capacity(capacity), uid, gid }
    }

    /// Whether `name` is the one well-known file name, byte for byte.
    fn is_file_name(name: &str) -> (r: bool)
        ensures
            r == (name@ == "test.txt"@),
    {
        let n = String::from_str(name);
        let t = String::from_str("test.txt");
        n == t
    }

    /// The file's attribute snapshot, synthesized from the current length.
    pub fn file_attr(&self) -> (r: FileAttr)
        ensures
            r == self.spec_file_attr(),
    {
        FileAttr {
            ino: FILE_INODE,
            size: self.file.snapshot_len() as u64,
            blocks: 1,
            kind: FileKind::RegularFile,
            perm: 0o644,
            nlink: 1,
            uid: self.uid,
            gid: self.gid,
            rdev: 0,
            flags: 0,
            blksize: 512,
        }
    }

    /// The root directory's attribute snapshot.
    pub fn root_attr(&self) -> (r: FileAttr)
        ensures
            r == self.spec_root_attr(),
    {
        FileAttr {
            ino: ROOT_INODE,
            size: 0,
            blocks: 0,
            kind: FileKind::Directory,
            perm: 0o755,
            nlink: 2,
            uid: self.uid,
            gid: self.gid,
            rdev: 0,
            flags: 0,
            blksize: 512,
        }
    }

    /// Resolves `name` under `parent`: the file's attribute snapshot when the
    /// parent is the root and the name is the well-known one, `NotFound`
    /// otherwise. The identity always resolves, whatever the logical length.
    pub fn lookup(&self, parent: u64, name: &str) -> (r: Result<FileAttr, FsError>)
        ensures
            r == if parent == ROOT_INODE && name@ == "test.txt"@ {
                Ok::<FileAttr, FsError>(self.spec_file_attr())
            } else {
                Err::<FileAttr, FsError>(FsError::NotFound)
            },
    {
        if parent == ROOT_INODE && Self::is_file_name(name) {
            Ok(self.file_attr())
        } else {
            Err(FsError::NotFound)
        }
    }

    /// The attribute snapshot of the given identity, `NotFound` for any
    /// identity other than the root or the file.
    pub fn getattr(&self, ino: u64) -> (r: Result<FileAttr, FsError>)
        ensures
            r == if ino == ROOT_INODE {
                Ok::<FileAttr, FsError>(self.spec_root_attr())
            } else if ino == FILE_INODE {
                Ok::<FileAttr, FsError>(self.spec_file_attr())
            } else {
                Err::<FileAttr, FsError>(FsError::NotFound)
            },
    {
        if ino == ROOT_INODE {
            Ok(self.root_attr())
        } else if ino == FILE_INODE {
            Ok(self.file_attr())
        } else {
            Err(FsError::NotFound)
        }
    }

    /// The root directory's fixed three-entry listing (self, parent, the
    /// file), resumed at `start`; `NotFound` for any other identity.
    pub fn readdir(&self, ino: u64, start: usize) -> (r: Result<Vec<DirEntry>, FsError>)
        ensures
            ino != ROOT_INODE ==> r == Err::<Vec<DirEntry>, FsError>(FsError::NotFound),
            ino == ROOT_INODE ==> (r matches Ok(entries) && {
                &&& entries@.len() == if start >= 3 {
                    0int
                } else {
                    3 - start
                }
                &&& forall|k: int|
                    0 <= k < entries@.len() ==> dir_entry_matches(entries@[k], start + k)
            }),
    {
        if ino != ROOT_INODE {
            return Err(FsError::NotFound);
        }
        let mut entries: Vec<DirEntry> = Vec::new();
        if start == 0 {
            entries.push(
                DirEntry {
                    ino: ROOT_INODE,
                    offset: 1,
                    kind: FileKind::Directory,
                    name: String::from_str("."),
                },
            );
        }
        if start <= 1 {
            entries.push(
                DirEntry {
                    ino: ROOT_INODE,
                    offset: 2,
                    kind: FileKind::Directory,
                    name: String::from_str(".."),
                },
            );
        }
        if start <= 2 {
            entries.push(
                DirEntry {
                    ino: FILE_INODE,
                    offset: 3,
                    kind: FileKind::RegularFile,
                    name: String::from_str("test.txt"),
                },
            );
        }
        Ok(entries)
    }

    /// Acknowledges an open of the file: handle 0 and the flags handed in,
    /// with no per-handle state; `NotFound` for any other identity.
    pub fn open(&self, ino: u64, flags: u32) -> (r: Result<(u64, u32), FsError>)
        ensures
            r == if ino == FILE_INODE {
                Ok::<(u64, u32), FsError>((0u64, flags))
            } else {
                Err::<(u64, u32), FsError>(FsError::NotFound)
            },
    {
        if ino == FILE_INODE {
            Ok((0, flags))
        } else {
            Err(FsError::NotFound)
        }
    }

    /// Reads at most `size` bytes at `offset` from the file: the bytes of
    /// `[offset, min(offset + size, length))`, empty at or beyond the logical
    /// length; `NotFound` for any other identity, never an error on the file.
    pub fn read(&self, ino: u64, offset: usize, size: u32) -> (r: Result<Vec<u8>, FsError>)
        requires
            self.wf(),
        ensures
            ino != FILE_INODE ==> r == Err::<Vec<u8>, FsError>(FsError::NotFound),
            ino == FILE_INODE ==> (r matches Ok(bytes) && bytes@ == self.spec_read(
                offset as int,
                size as int,
            )),
    {
        if ino != FILE_INODE {
            return Err(FsError::NotFound);
        }
        Ok(self.file.read(offset, size as usize))
    }

    /// Writes `data` at `offset` into the file and returns the number of
    /// bytes written, extending the logical length past the written range if
    /// needed. Rejects with `OutOfSpace`, mutating nothing, when the target
    /// range does not fit within the capacity; `NotFound` for any other
    /// identity.
    pub fn write(&mut self, ino: u64, offset: usize, data: &[u8]) -> (r: Result<usize, FsError>)
        requires
            old(self).wf(),
        ensures
            final(self).wf(),
            final(self).capacity() == old(self).capacity(),
            final(self).owner_uid() == old(self).owner_uid(),
            final(self).owner_gid() == old(self).owner_gid(),
            ino != FILE_INODE ==> {
                &&& r == Err::<usize, FsError>(FsError::NotFound)
                &&& final(self).length() == old(self).length()
                &&& final(self).contents() == old(self).contents()
            },
            ino == FILE_INODE && offset + data@.len() > old(self).capacity() ==> {
                &&& r == Err::<usize, FsError>(FsError::OutOfSpace)
                &&& final(self).length() == old(self).length()
                &&& final(self).contents() == old(self).contents()
            },
            ino == FILE_INODE && offset + data@.len() <= old(self).capacity() ==> {
                &&& r == Ok::<usize, FsError>(data@.len() as usize)
                &&& final(self).length() == if offset + data@.len() > old(self).length() {
                    offset + data@.len()
                } else {
                    old(self).length()
                }
                &&& forall|i: int|
                    offset <= i < offset + data@.len() ==> final(self).contents()[i] == data@[i
                        - offset]
                &&& forall|i: int|
                    0 <= i < old(self).capacity() && !(offset <= i < offset + data@.len())
                        ==> final(self).contents()[i] == old(self).contents()[i]
            },
    {
        if ino != FILE_INODE {
            return Err(FsError::NotFound);
        }
        self.file.write(offset, data)
    }

    /// Creates the file: resets the logical length to zero and returns the
    /// fresh attribute snapshot when the parent is the root and the name is
    /// the well-known one; `AlreadyExists`, mutating nothing, for any other
    /// name or parent. The buffer is kept; only the length is reset.
    pub fn create(&mut self, parent: u64, name: &str) -> (r: Result<FileAttr, FsError>)
        requires
            old(self).wf(),
        ensures
            final(self).wf(),
            final(self).capacity() == old(self).capacity(),
            final(self).contents() == old(self).contents(),
            final(self).owner_uid() == old(self).owner_uid(),
            final(self).owner_gid() == old(self).owner_gid(),
            parent == ROOT_INODE && name@ == "test.txt"@ ==> {
                &&& final(self).length() == 0
                &&& r == Ok::<FileAttr, FsError>(final(self).spec_file_attr())
            },
            !(parent == ROOT_INODE && name@ == "test.txt"@) ==> {
                &&& r == Err::<FileAttr, FsError>(FsError::AlreadyExists)
                &&& final(self).length() == old(self).length()
            },
    {
        if parent == ROOT_INODE && Self::is_file_name(name) {
            self.file.reset();
            Ok(self.file_attr())
        } else {
            Err(FsError::AlreadyExists)
        }
    }

    /// Unlinks the file: resets the logical length to zero when the parent is
    /// the root and the name is the well-known one; `NotFound`, mutating
    /// nothing, otherwise. The identity itself persists and still resolves.
    pub fn unlink(&mut self, parent: u64, name: &str) -> (r: Result<(), FsError>)
        requires
            old(self).wf(),
        ensures
            final(self).wf(),
            final(self).capacity() == old(self).capacity(),
            final(self).contents() == old(self).contents(),
            final(self).owner_uid() == old(self).owner_uid(),
            final(self).owner_gid() == old(self).owner_gid(),
            parent == ROOT_INODE && name@ == "test.txt"@ ==> {
                &&& r == Ok::<(), FsError>(())
                &&& final(self).length() == 0
            },
            !(parent == ROOT_INODE && name@ == "test.txt"@) ==> {
                &&& r == Err::<(), FsError>(FsError::NotFound)
                &&& final(self).length() == old(self).length()
            },
    {
        if parent == ROOT_INODE && Self::is_file_name(name) {
            self.file.reset();
            Ok(())
        } else {
            Err(FsError::NotFound)
        }
    }

    /// Sets attributes of the file: when a new size is given, truncates (or
    /// extends) the logical length to it, rejecting sizes beyond the capacity
    /// with `TooLarge` and mutating nothing; always returns the fresh
    /// attribute snapshot on success. `NotFound` for any other identity.
    pub fn setattr(&mut self, ino: u64, new_size: Option<u64>) -> (r: Result<FileAttr, FsError>)
        requires
            old(self).wf(),
        ensures
            final(self).wf(),
            final(self).capacity() == old(self).capacity(),
            final(self).contents() == old(self).contents(),
            final(self).owner_uid() == old(self).owner_uid(),
            final(self).owner_gid() == old(self).owner_gid(),
            ino != FILE_INODE ==> {
                &&& r == Err::<FileAttr, FsError>(FsError::NotFound)
                &&& final(self).length() == old(self).length()
            },
            ino == FILE_INODE ==> match new_size {
                None => {
                    &&& r == Ok::<FileAttr, FsError>(final(self).spec_file_attr())
                    &&& final(self).length() == old(self).length()
                },
                Some(s) => if s > old(self).capacity() {
                    &&& r == Err::<FileAttr, FsError>(FsError::TooLarge)
                    &&& final(self).length() == old(self).length()
                } else {
                    &&& r == Ok::<FileAttr, FsError>(final(self).spec_file_attr())
                    &&& final(self).length() == s
                },
            },
    {
        if ino != FILE_INODE {
            return Err(FsError::NotFound);
        }
        if let Some(s) = new_size {
            if s > self.file.capacity_bytes() as u64 {
                return Err(FsError::TooLarge);
            }
            let _ = self.file.truncate(s as usize);
        }
        Ok(self.file_attr())
    }
}

/// After a create or an unlink the logical length is zero, so the very next
/// attribute snapshot of the file reports size zero.
pub proof fn lemma_reset_attr_size(fs: MemFS)
    requires
        fs.length() == 0,
    ensures
        fs.spec_file_attr().size == 0,
{
}

} // verus!
