//! The 7z adapter consumed by the surrounding archive tooling: wraps the
//! reader, lists entries in the common entry model, and extracts the
//! decompressed contents.

use vstd::prelude::*;

use crate::archive::SevenZArchiveEntry;
use crate::error::Error;
use crate::formats::{Archive as ArchiveHandle, Entry, FileType};
use crate::password::Password;
use crate::reader::{spec_signature, SevenZReader};

verus! {

/// An opened 7z archive.
pub struct SevenZipArchive {
    pub inner: SevenZReader,
}

/// One member of a 7z archive in the common entry model.
#[derive(Clone)]
pub struct SevenZipEntry {
    pub index: usize,
    pub is_dir: bool,
    pub is_file: bool,
    pub size: u64,
    pub path: String,
    pub inner_creation_date: i64,
    pub inner_last_modified_date: i64,
}

impl Entry for SevenZipEntry {
    fn file_type(&self) -> (r: FileType)
        ensures
            r == if self.is_dir {
                FileType::Directory
            } else if self.is_file {
                FileType::RegularFile
            } else {
                FileType::Other
            },
    {
        if self.is_dir {
            return FileType::Directory;
        }
        if self.is_file {
            return FileType::RegularFile;
        }
        FileType::Other
    }

    fn hand_link(&self) -> (r: Option<String>)
        ensures
            r is None,
    {
        None
    }

    fn path_name(&self) -> (r: String)
        ensures
            r@ == self.path@,
    {
        self.path.clone()
    }

    fn gid(&self) -> (r: Option<u64>)
        ensures
            r is None,
    {
        None
    }

    fn uid(&self) -> (r: Option<u64>)
        ensures
            r is None,
    {
        None
    }

    fn size(&self) -> (r: u64)
        ensures
            r == self.size,
    {
        self.size
    }

    fn sym_link(&self) -> (r: Option<String>)
        ensures
            r is None,
    {
        None
    }
}

/// The archive's entries, walked in file order.
pub struct ZipEntries {
    pub entries: Vec<SevenZipEntry>,
    pub current: usize,
}

impl SevenZipEntry {
    /// A copy of the entry, its path duplicated by content.
    fn duplicate(&self) -> (r: SevenZipEntry)
        ensures
            r.index == self.index && r.is_dir == self.is_dir && r.is_file == self.is_file,
            r.size == self.size,
            r.path@ == self.path@,
            r.inner_creation_date == self.inner_creation_date,
            r.inner_last_modified_date == self.inner_last_modified_date,
    {
        SevenZipEntry {
            index: self.index,
            is_dir: self.is_dir,
            is_file: self.is_file,
            size: self.size,
            path: self.path.clone(),
            inner_creation_date: self.inner_creation_date,
            inner_last_modified_date: self.inner_last_modified_date,
        }
    }
}

impl ZipEntries {
    /// The next entry, or `None` once exhausted.
    pub fn next_entry(&mut self) -> (r: Option<SevenZipEntry>)
        ensures
            final(self).entries == old(self).entries,
            r is Some <==> old(self).current < old(self).entries@.len(),
            r is Some ==> final(self).current == old(self).current + 1,
            r matches Some(e) ==> ({
                let o = old(self).entries@[old(self).current as int];
                e.index == o.index && e.is_dir == o.is_dir && e.is_file == o.is_file && e.size
                    == o.size && e.path@ == o.path@ && e.inner_creation_date
                    == o.inner_creation_date && e.inner_last_modified_date
                    == o.inner_last_modified_date
            }),
    {
        if self.current < self.entries.len() {
            let e = self.entries[self.current].duplicate();
            self.current += 1;
            Some(e)
        } else {
            None
        }
    }
}

impl ArchiveHandle for SevenZipArchive {

}

impl SevenZipArchive {
    /// Opens a 7z archive held in memory, with an optional password.
    pub fn create_with_reader(data: Vec<u8>, password: Option<String>) -> (r: Result<
        SevenZipArchive,
        Error,
    >)
        ensures
            r matches Ok(a) ==> a.inner.source == data
                && crate::archive::stream_map_covers_files(a.inner.archive),
            r is Ok ==> data@.len() >= 32 && data@.subrange(0, 6) == spec_signature(),
            data@.len() >= 6 && data@.subrange(0, 6) != spec_signature() ==> (r matches Err(e) && e
                is BadSignature),
    {
        let pw = match password {
            Some(p) => Password::from_str(p.as_str()),
            None => Password::empty(),
        };
        let inner = SevenZReader::new(data, pw)?;
        Ok(SevenZipArchive { inner })
    }

    /// Lists the archive's entries in the common entry model, carrying
    /// each file's kind, size, name, and dates over.
    pub fn entries(&self) -> (r: ZipEntries)
        ensures
            r.entries@.len() == self.inner.archive.files@.len(),
            r.current == 0,
            forall|i: int|
                0 <= i < r.entries@.len() ==> ({
                    let f = self.inner.archive.files@[i];
                    (#[trigger] r.entries@[i]).index == i && r.entries@[i].is_dir
                        == f.is_directory && r.entries@[i].is_file == !f.is_directory
                        && r.entries@[i].size == f.size && r.entries@[i].path@ == f.name@
                        && r.entries@[i].inner_creation_date == f.creation_date && r.entries@[
                    i].inner_last_modified_date == f.last_modified_date
                }),
    {
        let files = &self.inner.archive.files;
        let mut out: Vec<SevenZipEntry> = Vec::new();
        let mut i: usize = 0;
        while i < files.len()
            invariant
                i <= files@.len(),
                files == self.inner.archive.files,
                out@.len() == i,
                forall|j: int|
                    0 <= j < i ==> ({
                        let f = self.inner.archive.files@[j];
                        (#[trigger] out@[j]).index == j && out@[j].is_dir == f.is_directory
                            && out@[j].is_file == !f.is_directory && out@[j].size == f.size
                            && out@[j].path@ == f.name@ && out@[j].inner_creation_date
                            == f.creation_date && out@[j].inner_last_modified_date
                            == f.last_modified_date
                    }),
            decreases files@.len() - i,
        {
            let f: &SevenZArchiveEntry = &files[i];
            let e = SevenZipEntry {
                index: i,
                is_dir: f.is_directory,
                is_file: !f.is_directory,
                size: f.size,
                path: f.name.clone(),
                inner_creation_date: f.creation_date,
                inner_last_modified_date: f.last_modified_date,
            };
            out.push(e);
            i += 1;
        }
        ZipEntries { entries: out, current: 0 }
    }

    /// Extracts every entry: one decompressed byte stream per entry, in
    /// file order, each of exactly its entry's declared size.
    pub fn unpack_all(&self) -> (r: Result<Vec<Vec<u8>>, Error>)
        ensures
            r matches Ok(list) ==> list@.len() == self.inner.archive.files@.len() && forall|i: int|
                0 <= i < list@.len() ==> (#[trigger] list@[i])@.len()
                    == self.inner.archive.files@[i].size,
    {
        let r = self.inner.read_all()?;
        Ok(r)
    }
}

} // verus!
