//! Error kinds surfaced by the 7z reader.
//!
//! Every distinct failure is user-observable as its own variant: signature
//! and version problems, CRC mismatches (with the next-header CRC kept as a
//! separate kind to aid recovery), malformed input, unsupported features,
//! memory limits, and a missing password for encrypted archives.

use vstd::prelude::*;

verus! {

#[derive(Debug)]
pub enum Error {
    /// The file does not begin with the 6-byte 7z signature.
    BadSignature([u8; 6]),
    /// The archive format major version is not 0.
    UnsupportedVersion { major: u8, minor: u8 },
    /// A declared CRC-32 (start header, folder, or file) did not match.
    ChecksumVerificationFailed,
    /// The next header's CRC-32 did not match the start header's declaration.
    NextHeaderCrcMismatch,
    /// A malformed field or a violated decoder invariant, with context.
    CorruptInput(String),
    /// An underlying input failure, carried as a message.
    Io(String),
    /// A failure while opening a file by path.
    FileOpen(String, String),
    /// Any other failure, carried as a message.
    Other(String),
    BadTerminatedStreamsInfo(u8),
    BadTerminatedUnpackInfo,
    BadTerminatedPackInfo(u8),
    BadTerminatedSubStreamsInfo,
    BadTerminatedheader(u8),
    /// The header uses the unsupported "external" indirection.
    ExternalUnsupported,
    /// A coder id that this reader does not implement.
    UnsupportedCompressionMethod(String),
    /// The derived dictionary size exceeds the configured cap.
    MaxMemLimited { max_kb: usize, actaul_kb: usize },
    /// An AES-encrypted stream was found but the password is empty.
    PasswordRequired,
}

impl Error {
    pub fn other(s: &str) -> (r: Error)
        ensures
            r matches Error::Other(m) && m@ == s@,
    {
        Error::Other(s.to_owned())
    }

    pub fn io(s: &str) -> (r: Error)
        ensures
            r matches Error::Io(m) && m@ == s@,
    {
        Error::Io(s.to_owned())
    }

    pub fn corrupt(s: &str) -> (r: Error)
        ensures
            r matches Error::CorruptInput(m) && m@ == s@,
    {
        Error::CorruptInput(s.to_owned())
    }
}

} // verus!
