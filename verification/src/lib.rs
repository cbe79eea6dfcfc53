//! Reader for 7z archives, with models of the entry metadata that the
//! surrounding archive tooling consumes.
//!
//! The core parses the 7z container (signature, start header, streams-info
//! tree), reconstructs the folder/coder graph, and decodes each folder's
//! coder chain (Copy, LZMA, LZMA2, Delta, BCJ variants, AES-256-SHA-256)
//! into per-entry byte streams, verifying the declared CRC-32 values.

pub mod aes256sha256;
pub mod archive;
pub mod bcj;
pub mod bitset;
pub mod bytes;
pub mod crc32;
pub mod decoders;
pub mod delta;
pub mod error;
pub mod formats;
pub mod lz;
pub mod lzma;
pub mod lzma_decoder;
pub mod lzma2_reader;
pub mod lzma_reader;
pub mod ntfs;
pub mod password;
pub mod range_codec;
pub mod reader;
pub mod seven_zip;
pub mod tar;
pub mod zip;

pub use archive::Archive;
pub use archive::SevenZArchiveEntry;
pub use error::Error;
pub use password::Password;
pub use reader::SevenZReader;
