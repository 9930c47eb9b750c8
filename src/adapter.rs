//! The queries as a kernel filesystem driver asks them. Identifiers there
//! are `inode_number + 1`, with `1` kept for the root and `0` never valid;
//! this mapping stays here, out of the volume's own numbering.

use vstd::prelude::*;
use crate::dir::{lemma_entries_len, DirEntry};
use crate::error::FsError;
use crate::inode::DiskInode;
use crate::volume::{first_match, is_directory, QRFileSystem};

verus! {

/// The identifier under which the driver asks for the root directory.
pub const ROOT_ID: u64 = 1;

/// Block size reported in attributes, and the unit of their block count.
pub const REPORTED_BLOCK_SIZE: u32 = 512;

/// The kind of a file as the driver reports it.
#[derive(Clone, Copy, Debug, PartialEq, Eq, Structural)]
pub enum FileKind {
    Directory,
    RegularFile,
}

/// The attributes of an inode as the driver reports them.
#[derive(Clone, Copy, Debug, PartialEq, Eq, Structural)]
pub struct FileAttributes {
    pub ino: u64,
    pub size: u64,
    /// Size in 512-byte units, rounded up.
    pub blocks: u64,
    pub kind: FileKind,
    pub perm: u16,
    pub nlink: u32,
    pub uid: u32,
    pub gid: u32,
    pub blksize: u32,
}

/// One entry of a directory listing, with the offset that resumes after it.
pub struct DirListing {
    pub ino: u64,
    pub offset: i64,
    pub kind: FileKind,
    pub name: String,
}

/// The inode number that the driver identifier `ino` stands for.
pub open spec fn id_to_inode(root: u32, ino: u64) -> Option<u32> {
    if ino == ROOT_ID {
        Some(root)
    } else if ino == 0 || ino - 1 > u32::MAX {
        None
    } else {
        Some((ino - 1) as u32)
    }
}

/// The kind reported for an inode.
pub open spec fn kind_spec(d: DiskInode) -> FileKind {
    if is_directory(d) {
        FileKind::Directory
    } else {
        FileKind::RegularFile
    }
}

/// The attributes reported for an inode.
pub open spec fn attr_spec(d: DiskInode) -> FileAttributes {
    FileAttributes {
        ino: (d.inode_number + 1) as u64,
        size: d.size as u64,
        blocks: ((d.size + 511) / 512) as u64,
        kind: kind_spec(d),
        perm: (d.inode_mode & 0o777) as u16,
        nlink: d.links,
        uid: d.user_id,
        gid: d.group_id,
        blksize: REPORTED_BLOCK_SIZE,
    }
}

/// The attributes reported for `inode`.
pub fn fileattr_from_inode(inode: &DiskInode) -> (r: FileAttributes)
    ensures
        r == attr_spec(*inode),
{
    let kind = if inode.is_dir() {
        FileKind::Directory
    } else {
        FileKind::RegularFile
    };
    FileAttributes {
        ino: inode.inode_number as u64 + 1,
        size: inode.size as u64,
        blocks: (inode.size as u64 + 511) / 512,
        kind,
        perm: (inode.inode_mode & 0o777) as u16,
        nlink: inode.links,
        uid: inode.user_id,
        gid: inode.group_id,
        blksize: REPORTED_BLOCK_SIZE,
    }
}

impl QRFileSystem {
    /// The slot that the driver identifier `ino` stands for.
    pub open spec fn slot_of(&self, ino: u64) -> Option<DiskInode> {
        match id_to_inode(self.sb.root_inode, ino) {
            Some(n) => if n < self.inodes@.len() {
                Some(self.inodes@[n as int])
            } else {
                None
            },
            None => None,
        }
    }

    /// The kind reported for the entry target `n`: a regular file when the
    /// table has no such slot.
    pub open spec fn target_kind(&self, n: u32) -> FileKind {
        if n < self.inodes@.len() {
            kind_spec(self.inodes@[n as int])
        } else {
            FileKind::RegularFile
        }
    }

    /// The inode number that the driver identifier `ino` stands for.
    pub fn inode_number_of(&self, ino: u64) -> (r: Option<u32>)
        ensures
            r == id_to_inode(self.sb.root_inode, ino),
    {
        if ino == ROOT_ID {
            Some(self.sb.root_inode)
        } else if ino == 0 || ino - 1 > u32::MAX as u64 {
            None
        } else {
            Some((ino - 1) as u32)
        }
    }

    /// The slot that the driver identifier `ino` stands for.
    fn slot(&self, ino: u64) -> (r: Result<DiskInode, FsError>)
        ensures
            self.slot_of(ino) matches Some(d) ==> r == Ok::<DiskInode, FsError>(d),
            self.slot_of(ino) is None ==> r == Err::<DiskInode, FsError>(FsError::NotFound),
    {
        match self.inode_number_of(ino) {
            Some(n) => self.attributes(n),
            None => Err(FsError::NotFound),
        }
    }

    /// Attributes of the entry `name` of the directory `parent`.
    pub fn lookup(&self, parent: u64, name: &str) -> (r: Result<FileAttributes, FsError>)
        ensures
            self.slot_of(parent) is None ==> r == Err::<FileAttributes, FsError>(FsError::NotFound),
            self.slot_of(parent) matches Some(p) ==> {
                &&& !is_directory(p) ==> r == Err::<FileAttributes, FsError>(FsError::NotFound)
                &&& is_directory(p) && !self.readable(p.direct@[0] as int) ==> r == Err::<
                    FileAttributes,
                    FsError,
                >(FsError::Io)
                &&& is_directory(p) && self.readable(p.direct@[0] as int) ==> r == match first_match(
                    self.entries_of(p),
                    name@,
                    0,
                ) {
                    Some(n) => if n < self.inodes@.len() {
                        Ok::<FileAttributes, FsError>(attr_spec(self.inodes@[n as int]))
                    } else {
                        Err(FsError::NotFound)
                    },
                    None => Err(FsError::NotFound),
                }
            },
    {
        let p = self.slot(parent)?;
        let n = self.lookup_child(&p, name)?;
        let d = self.attributes(n)?;
        Ok(fileattr_from_inode(&d))
    }

    /// Attributes of the inode `ino`.
    pub fn getattr(&self, ino: u64) -> (r: Result<FileAttributes, FsError>)
        ensures
            self.slot_of(ino) matches Some(d) ==> r == Ok::<FileAttributes, FsError>(attr_spec(d)),
            self.slot_of(ino) is None ==> r == Err::<FileAttributes, FsError>(FsError::NotFound),
    {
        let d = self.slot(ino)?;
        Ok(fileattr_from_inode(&d))
    }

    /// Opens the regular file `ino`; directories are refused.
    pub fn open(&self, ino: u64) -> (r: Result<(), FsError>)
        ensures
            self.slot_of(ino) is None ==> r == Err::<(), FsError>(FsError::NotFound),
            self.slot_of(ino) matches Some(d) ==> r == if is_directory(d) {
                Err::<(), FsError>(FsError::IsADirectory)
            } else {
                Ok(())
            },
    {
        let d = self.slot(ino)?;
        if d.is_dir() {
            Err(FsError::IsADirectory)
        } else {
            Ok(())
        }
    }

    /// Reads `size` bytes at `offset` of the regular file `ino`. A negative
    /// offset lies past every file's end.
    pub fn read(&self, ino: u64, offset: i64, size: u32) -> (r: Result<Vec<u8>, FsError>)
        requires
            self.wf(),
        ensures
            self.slot_of(ino) is None ==> r == Err::<Vec<u8>, FsError>(FsError::NotFound),
            self.slot_of(ino) matches Some(d) ==> {
                &&& is_directory(d) ==> r == Err::<Vec<u8>, FsError>(FsError::IsADirectory)
                &&& !is_directory(d) && (offset < 0 || offset >= d.size) ==> r is Ok
                    && r->Ok_0@.len() == 0
                &&& !is_directory(d) && 0 <= offset < d.size ==> {
                    &&& r is Ok <==> self.visited_readable(d, offset as u64, size as usize)
                    &&& r is Ok ==> r->Ok_0@ == self.range_bytes(d, offset as u64, size as usize)
                    &&& r is Err ==> r->Err_0 == FsError::Io
                }
            },
    {
        let d = self.slot(ino)?;
        if d.is_dir() {
            return Err(FsError::IsADirectory);
        }
        if offset < 0 {
            return Ok(Vec::new());
        }
        self.read_file_range(&d, offset as u64, size as usize)
    }

    /// Lists the directory `ino` from entry number `offset` on (from the
    /// start when `offset` is not positive). Each listed entry carries the
    /// offset that resumes after it.
    pub fn readdir(&self, ino: u64, offset: i64) -> (r: Result<Vec<DirListing>, FsError>)
        ensures
            self.slot_of(ino) is None ==> r == Err::<Vec<DirListing>, FsError>(FsError::NotFound),
            self.slot_of(ino) matches Some(d) ==> {
                &&& !is_directory(d) ==> r == Err::<Vec<DirListing>, FsError>(FsError::NotADirectory)
                &&& is_directory(d) && !self.readable(d.direct@[0] as int) ==> r == Err::<
                    Vec<DirListing>,
                    FsError,
                >(FsError::Io)
                &&& is_directory(d) && self.readable(d.direct@[0] as int) ==> {
                    let es = self.entries_of(d);
                    let skip: int = if offset <= 0 { 0 } else { offset as int };
                    &&& r is Ok
                    &&& r->Ok_0@.len() == if skip >= es.len() { 0 } else { es.len() - skip }
                    &&& forall|k: int|
                        0 <= k < r->Ok_0@.len() ==> {
                            let e = #[trigger] r->Ok_0@[k];
                            &&& e.ino == es[skip + k].0 as u64 + 1
                            &&& e.offset == skip + k + 1
                            &&& e.kind == self.target_kind(es[skip + k].0)
                            &&& e.name@ == es[skip + k].1
                        }
                }
            },
    {
        let d = self.slot(ino)?;
        if !d.is_dir() {
            return Err(FsError::NotADirectory);
        }
        let entries: Vec<DirEntry> = self.read_dir_entries_from_block(d.direct[0])?;
        let ghost es = self.entries_of(d);
        proof {
            let blk = self.block(d.direct@[0] as int);
            lemma_entries_len(blk, blk.len() as int / 260);
        }
        let n = entries.len();
        let mut out: Vec<DirListing> = Vec::new();
        if offset > 0 && offset as u64 >= n as u64 {
            return Ok(out);
        }
        let start: usize = if offset <= 0 {
            0
        } else {
            offset as usize
        };
        let mut i: usize = start;
        while i < n
            invariant
                start <= i <= n,
                n == entries@.len(),
                n == es.len(),
                n <= u32::MAX,
                start == (if offset <= 0 { 0 } else { offset as int }),
                forall|j: int| 0 <= j < n ==> #[trigger] entries@[j]@ == es[j],
                out@.len() == i - start,
                forall|k: int|
                    0 <= k < out@.len() ==> {
                        let e = #[trigger] out@[k];
                        &&& e.ino == es[start + k].0 as u64 + 1
                        &&& e.offset == start + k + 1
                        &&& e.kind == self.target_kind(es[start + k].0)
                        &&& e.name@ == es[start + k].1
                    },
            decreases n - i,
        {
            let e = &entries[i];
            assert(entries@[i as int]@ == es[i as int]);
            let kind = match self.get_inode(e.inode) {
                Some(t) => if t.is_dir() {
                    FileKind::Directory
                } else {
                    FileKind::RegularFile
                },
                None => FileKind::RegularFile,
            };
            let ghost prev = out@;
            let item = DirListing {
                ino: e.inode as u64 + 1,
                offset: i as i64 + 1,
                kind,
                name: e.name.clone(),
            };
            assert(item.kind == self.target_kind(es[i as int].0));
            out.push(item);
            assert forall|k: int| 0 <= k < out@.len() implies {
                let e = #[trigger] out@[k];
                &&& e.ino == es[start + k].0 as u64 + 1
                &&& e.offset == start + k + 1
                &&& e.kind == self.target_kind(es[start + k].0)
                &&& e.name@ == es[start + k].1
            } by {
                if k < prev.len() {
                    assert(out@[k] == prev[k]);
                }
            }
            i = i + 1;
        }
        Ok(out)
    }
}

} // verus!
