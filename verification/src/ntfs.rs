//! Entry metadata model for NTFS volume listings: a name, the basic
//! kind flags, the three NT timestamps, and the file-attribute word with
//! one predicate per attribute bit.

use vstd::prelude::*;

use crate::formats::{Entry, FileType};

verus! {

pub const NTFS_READ_ONLY: u32 = 0x0001;

pub const NTFS_HIDDEN: u32 = 0x0002;

pub const NTFS_SYSTEM: u32 = 0x0004;

pub const NTFS_ARCHIVE: u32 = 0x0020;

pub const NTFS_DEVICE: u32 = 0x0040;

pub const NTFS_NORMAL: u32 = 0x0080;

pub const NTFS_TEMPORARY: u32 = 0x0100;

pub const NTFS_SPARSE_FILE: u32 = 0x0200;

pub const NTFS_REPARSE_POINT: u32 = 0x0400;

pub const NTFS_COMPRESSED: u32 = 0x0800;

pub const NTFS_OFFLINE: u32 = 0x1000;

pub const NTFS_NOT_CONTENT_INDEXED: u32 = 0x2000;

pub const NTFS_ENCRYPTED: u32 = 0x4000;

/// One file of an NTFS volume: kind, size, path, NT timestamps (100 ns
/// units since 1601), and the attribute word.
#[derive(Clone)]
pub struct NtfsEntry {
    pub is_dir: bool,
    pub is_file: bool,
    pub size: u64,
    pub path: String,
    pub nt_creation_time: u64,
    pub nt_access_time: u64,
    pub nt_modification_time: u64,
    pub attr: u32,
}

impl Entry for NtfsEntry {
    fn file_type(&self) -> (r: FileType)
        ensures
            r == if self.is_dir {
                FileType::Directory
            } else if self.is_file {
                FileType::RegularFile
            } else {
                FileType::Other
            },
    {
        if self.is_dir {
            return FileType::Directory;
        }
        if self.is_file {
            return FileType::RegularFile;
        }
        FileType::Other
    }

    fn hand_link(&self) -> (r: Option<String>)
        ensures
            r is None,
    {
        None
    }

    fn path_name(&self) -> (r: String)
        ensures
            r@ == self.path@,
    {
        self.path.clone()
    }

    fn gid(&self) -> (r: Option<u64>)
        ensures
            r is None,
    {
        None
    }

    fn uid(&self) -> (r: Option<u64>)
        ensures
            r is None,
    {
        None
    }

    fn size(&self) -> (r: u64)
        ensures
            r == self.size,
    {
        self.size
    }

    fn sym_link(&self) -> (r: Option<String>)
        ensures
            r is None,
    {
        None
    }
}

impl NtfsEntry {
    /// File is marked read-only.
    pub fn ntfs_readonly(&self) -> (r: bool)
        ensures
            r == ((self.attr & NTFS_READ_ONLY) != 0),
    {
        (self.attr & NTFS_READ_ONLY) != 0
    }

    /// File is hidden (in file browsers that care).
    pub fn ntfs_hidden(&self) -> (r: bool)
        ensures
            r == ((self.attr & NTFS_HIDDEN) != 0),
    {
        (self.attr & NTFS_HIDDEN) != 0
    }

    /// File is marked as a system file.
    pub fn ntfs_system(&self) -> (r: bool)
        ensures
            r == ((self.attr & NTFS_SYSTEM) != 0),
    {
        (self.attr & NTFS_SYSTEM) != 0
    }

    /// File is marked for archival.
    pub fn ntfs_archive(&self) -> (r: bool)
        ensures
            r == ((self.attr & NTFS_ARCHIVE) != 0),
    {
        (self.attr & NTFS_ARCHIVE) != 0
    }

    /// File denotes a device.
    pub fn ntfs_device(&self) -> (r: bool)
        ensures
            r == ((self.attr & NTFS_DEVICE) != 0),
    {
        (self.attr & NTFS_DEVICE) != 0
    }

    /// Set when no other attributes are set.
    pub fn ntfs_normal(&self) -> (r: bool)
        ensures
            r == ((self.attr & NTFS_NORMAL) != 0),
    {
        (self.attr & NTFS_NORMAL) != 0
    }

    /// File is a temporary file that is likely to be deleted.
    pub fn ntfs_temporary(&self) -> (r: bool)
        ensures
            r == ((self.attr & NTFS_TEMPORARY) != 0),
    {
        (self.attr & NTFS_TEMPORARY) != 0
    }

    /// File is stored sparsely.
    pub fn ntfs_sparse_file(&self) -> (r: bool)
        ensures
            r == ((self.attr & NTFS_SPARSE_FILE) != 0),
    {
        (self.attr & NTFS_SPARSE_FILE) != 0
    }

    /// File is a reparse point.
    pub fn ntfs_reparse_point(&self) -> (r: bool)
        ensures
            r == ((self.attr & NTFS_REPARSE_POINT) != 0),
    {
        (self.attr & NTFS_REPARSE_POINT) != 0
    }

    /// File is transparently compressed by the filesystem.
    pub fn ntfs_compressed(&self) -> (r: bool)
        ensures
            r == ((self.attr & NTFS_COMPRESSED) != 0),
    {
        (self.attr & NTFS_COMPRESSED) != 0
    }

    pub fn ntfs_offline(&self) -> (r: bool)
        ensures
            r == ((self.attr & NTFS_OFFLINE) != 0),
    {
        (self.attr & NTFS_OFFLINE) != 0
    }

    /// File has not (yet) been indexed by the content indexing service.
    pub fn ntfs_content_indexed(&self) -> (r: bool)
        ensures
            r == ((self.attr & NTFS_NOT_CONTENT_INDEXED) != 0),
    {
        (self.attr & NTFS_NOT_CONTENT_INDEXED) != 0
    }

    /// File is encrypted via EFS.
    pub fn ntfs_encrypted(&self) -> (r: bool)
        ensures
            r == ((self.attr & NTFS_ENCRYPTED) != 0),
    {
        (self.attr & NTFS_ENCRYPTED) != 0
    }
}

/// A materialized listing of NTFS entries, walked in order.
#[derive(Clone)]
pub struct NtfsEntries {
    pub inner: Vec<NtfsEntry>,
    pub current: usize,
}

impl NtfsEntry {
    /// A copy of the entry, its path duplicated by content.
    fn duplicate(&self) -> (r: NtfsEntry)
        ensures
            r.is_dir == self.is_dir && r.is_file == self.is_file && r.size == self.size,
            r.path@ == self.path@,
            r.nt_creation_time == self.nt_creation_time,
            r.nt_access_time == self.nt_access_time,
            r.nt_modification_time == self.nt_modification_time,
            r.attr == self.attr,
    {
        NtfsEntry {
            is_dir: self.is_dir,
            is_file: self.is_file,
            size: self.size,
            path: self.path.clone(),
            nt_creation_time: self.nt_creation_time,
            nt_access_time: self.nt_access_time,
            nt_modification_time: self.nt_modification_time,
            attr: self.attr,
        }
    }
}

impl NtfsEntries {
    pub fn new(inner: Vec<NtfsEntry>) -> (r: NtfsEntries)
        ensures
            r.inner == inner,
            r.current == 0,
    {
        NtfsEntries { inner, current: 0 }
    }

    /// The next entry of the listing, or `None` once exhausted.
    pub fn next_entry(&mut self) -> (r: Option<NtfsEntry>)
        ensures
            final(self).inner == old(self).inner,
            r is Some <==> old(self).current < old(self).inner@.len(),
            r is Some ==> final(self).current == old(self).current + 1,
            r matches Some(e) ==> ({
                let o = old(self).inner@[old(self).current as int];
                e.is_dir == o.is_dir && e.is_file == o.is_file && e.size == o.size && e.path@
                    == o.path@ && e.nt_creation_time == o.nt_creation_time && e.nt_access_time
                    == o.nt_access_time && e.nt_modification_time == o.nt_modification_time
                    && e.attr == o.attr
            }),
    {
        if self.current < self.inner.len() {
            let e = self.inner[self.current].duplicate();
            self.current += 1;
            Some(e)
        } else {
            None
        }
    }
}

} // verus!
