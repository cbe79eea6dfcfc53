//! Entry metadata model for zip listings: the entry index, kind flags,
//! size, path, and the optional Unix mode word.

use vstd::prelude::*;

use crate::formats::{Entry, FileType};

verus! {

/// One member of a zip archive.
#[derive(Clone)]
pub struct ZipEntry {
    pub index: usize,
    pub is_dir: bool,
    pub is_file: bool,
    pub size: u64,
    pub path: String,
    pub mode: Option<u32>,
}

impl Entry for ZipEntry {
    fn file_type(&self) -> (r: FileType)
        ensures
            r == if self.is_dir {
                FileType::Directory
            } else if self.is_file {
                FileType::RegularFile
            } else {
                FileType::Other
            },
    {
        if self.is_dir {
            return FileType::Directory;
        }
        if self.is_file {
            return FileType::RegularFile;
        }
        FileType::Other
    }

    fn hand_link(&self) -> (r: Option<String>)
        ensures
            r is None,
    {
        None
    }

    fn path_name(&self) -> (r: String)
        ensures
            r@ == self.path@,
    {
        self.path.clone()
    }

    fn gid(&self) -> (r: Option<u64>)
        ensures
            r is None,
    {
        None
    }

    fn uid(&self) -> (r: Option<u64>)
        ensures
            r is None,
    {
        None
    }

    fn size(&self) -> (r: u64)
        ensures
            r == self.size,
    {
        self.size
    }

    fn sym_link(&self) -> (r: Option<String>)
        ensures
            r is None,
    {
        None
    }
}

impl ZipEntry {
    /// The Unix permission bits recorded for the entry, if any.
    pub fn unix_mode(&self) -> (r: Option<u32>)
        ensures
            r == self.mode,
    {
        self.mode
    }
}

} // verus!
