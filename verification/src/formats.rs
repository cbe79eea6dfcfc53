//! Common archive-entry vocabulary shared by the format adapters: the
//! format selector, entry file types, extraction options, and the entry
//! interface that every adapter's entry model implements.

use vstd::prelude::*;

verus! {

/// Which archive format a reader should assume.
pub enum ReadFormat {
    SevenZip,
    All,
    Ar,
    Cab,
    Cpio,
    Empty,
    Gnutar,
    Iso9660,
    Lha,
    Mtree,
    Rar,
    Raw,
    Tar,
    Xar,
    Zip,
    Dmg,
}

/// The kind of filesystem object an entry restores to.
#[derive(Clone, Copy, Debug, PartialEq, Eq, Structural)]
pub enum FileType {
    BlockDevice,
    SymbolicLink,
    HardLink,
    Socket,
    CharacterDevice,
    Directory,
    NamedPipe,
    Mount,
    RegularFile,
    Other,
}

/// Behaviors a caller may request while restoring entries to disk.
pub enum ExtractOption {
    /// Restore the owning user and group ids.
    Owner,
    /// Restore full permissions, including SGID, SUID, and sticky bits.
    Permissions,
    /// Restore timestamps (atime restoration is not supported).
    Time,
    /// Never overwrite existing files.
    NoOverwrite,
    /// Unlink existing files before creating them.
    Unlink,
    /// Attempt to restore ACLs.
    ACL,
    /// Attempt to restore extended file flags.
    FFlags,
    /// Attempt to restore POSIX.1e extended attributes.
    XAttr,
    /// Refuse to extract through symlinks on disk.
    SecureSymlinks,
    /// Refuse paths that contain a `..` element.
    SecureNoDotDot,
    /// Do not create parent directories.
    NoAutoDir,
    /// Do not overwrite files newer than the archived ones.
    NoOverwriteNewer,
    /// Recreate runs of NUL bytes as holes.
    Sparse,
    /// Restore Mac extended metadata.
    MacMetadata,
    /// Do not use HFS+ compression.
    NoHFSCompression,
    /// Force HFS+ compression.
    HFSCompressionForced,
    /// Refuse entries with absolute paths.
    SecureNoAbsolutePaths,
    /// Clear no-change flags when unlinking.
    ClearNoChangeFFlags,
}

/// What every adapter exposes about one archive member.
pub trait Entry {
    fn file_type(&self) -> FileType;

    fn hand_link(&self) -> Option<String>;

    fn path_name(&self) -> String;

    fn gid(&self) -> Option<u64>;

    fn uid(&self) -> Option<u64>;

    fn size(&self) -> u64;

    fn sym_link(&self) -> Option<String>;
}

/// Marker for the adapters' archive handles.
pub trait Archive {

}

} // verus!
