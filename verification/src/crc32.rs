//! CRC-32 (ISO-HDLC) over byte buffers.
//!
//! The checksum itself is computed by the `crc` crate; its value is named by
//! the uninterpreted function `crc32_of`, and every CRC check in the reader
//! is stated against that name.

use vstd::prelude::*;

verus! {

/// The CRC-32 (polynomial 0xEDB88320, reflected, init and final 0xFFFFFFFF)
/// of a byte sequence, as computed by the `crc` crate's ISO-HDLC algorithm.
pub uninterp spec fn crc32_of(data: Seq<u8>) -> u32;

/// Relies on crc::Crc::<u32>::checksum with the CRC_32_ISO_HDLC algorithm:
/// the checksum depends on the input bytes alone.
#[verifier::external_body]
pub fn crc32_cksum(data: &Vec<u8>) -> (r: u32)
    ensures
        r == crc32_of(data@),
{
    crc::Crc::<u32>::new(&crc::CRC_32_ISO_HDLC).checksum(data.as_slice())
}

} // verus!
