//! Entry metadata model for tar listings: the entry kind, path, size,
//! ownership, and link target, in the common entry model.

use vstd::prelude::*;

use crate::formats::{Entry, FileType};

verus! {

/// One member of a tar archive.
#[derive(Clone)]
pub struct TarEntry {
    pub kind: FileType,
    pub path: String,
    pub size: u64,
    pub gid: Option<u64>,
    pub uid: Option<u64>,
    pub link_name: Option<String>,
}

impl Entry for TarEntry {
    fn file_type(&self) -> (r: FileType)
        ensures
            r == self.kind,
    {
        self.kind
    }

    /// The link target, for hard links alone.
    fn hand_link(&self) -> (r: Option<String>)
        ensures
            r is Some <==> self.kind == FileType::HardLink && self.link_name is Some,
    {
        if self.kind == FileType::HardLink {
            match &self.link_name {
                Some(l) => Some(l.clone()),
                None => None,
            }
        } else {
            None
        }
    }

    fn path_name(&self) -> (r: String)
        ensures
            r@ == self.path@,
    {
        self.path.clone()
    }

    fn gid(&self) -> (r: Option<u64>)
        ensures
            r == self.gid,
    {
        self.gid
    }

    fn uid(&self) -> (r: Option<u64>)
        ensures
            r == self.uid,
    {
        self.uid
    }

    fn size(&self) -> (r: u64)
        ensures
            r == self.size,
    {
        self.size
    }

    /// The link target, for symbolic links alone.
    fn sym_link(&self) -> (r: Option<String>)
        ensures
            r is Some <==> self.kind == FileType::SymbolicLink && self.link_name is Some,
    {
        if self.kind == FileType::SymbolicLink {
            match &self.link_name {
                Some(l) => Some(l.clone()),
                None => None,
            }
        } else {
            None
        }
    }
}

/// A materialized tar listing, walked in order.
#[derive(Clone)]
pub struct TarEntries {
    pub inner: Vec<TarEntry>,
    pub current: usize,
}

impl TarEntry {
    /// A copy of the entry, its strings duplicated by content.
    fn duplicate(&self) -> (r: TarEntry)
        ensures
            r.kind == self.kind && r.size == self.size && r.gid == self.gid && r.uid == self.uid,
            r.path@ == self.path@,
            r.link_name is Some <==> self.link_name is Some,
            r.link_name matches Some(l2) ==> (self.link_name matches Some(l) && l2@ == l@),
    {
        TarEntry {
            kind: self.kind,
            path: self.path.clone(),
            size: self.size,
            gid: self.gid,
            uid: self.uid,
            link_name: match &self.link_name {
                Some(l) => Some(l.clone()),
                None => None,
            },
        }
    }
}

impl TarEntries {
    pub fn new(inner: Vec<TarEntry>) -> (r: TarEntries)
        ensures
            r.inner == inner,
            r.current == 0,
    {
        TarEntries { inner, current: 0 }
    }

    /// The next entry of the listing, or `None` once exhausted.
    pub fn next_entry(&mut self) -> (r: Option<TarEntry>)
        ensures
            final(self).inner == old(self).inner,
            r is Some <==> old(self).current < old(self).inner@.len(),
            r is Some ==> final(self).current == old(self).current + 1,
            r matches Some(e) ==> ({
                let o = old(self).inner@[old(self).current as int];
                e.kind == o.kind && e.size == o.size && e.gid == o.gid && e.uid == o.uid && e.path@
                    == o.path@ && (e.link_name is Some <==> o.link_name is Some)
            }),
    {
        if self.current < self.inner.len() {
            let e = self.inner[self.current].duplicate();
            self.current += 1;
            Some(e)
        } else {
            None
        }
    }
}

} // verus!
