//! The 7z container parser and the archive reader.
//!
//! `Archive::read` checks the signature, version, and start-header CRC,
//! locates the next header (scanning backward from the end of the file
//! when the start header is zeroed out), decodes an encoded header through
//! the regular folder pipeline, and parses the streams-info tree and the
//! files info into an `Archive`.  `SevenZReader` then decodes folders and
//! slices per-entry byte streams out of them, verifying declared CRCs.

use vstd::prelude::*;

use crate::archive::{
    count_nonempty_folders, count_streamed, folder_crcs_passed, folder_shape_wf, folder_wf,
    in_stream_bound, lemma_count_streamed_mono, lemma_count_streamed_push,
    is_unpack_size, lemma_count_nonempty_folders_mono, lemma_sum_sizes_push,
    lemma_sum_sub_streams_mono, stream_map_covers_files, sub_sizes_aligned, sub_sizes_collapsed,
    sum_pack_sizes, sum_packed_streams, sum_sizes, sum_sub_streams, Archive, BindPair, Coder,
    Folder, SevenZArchiveEntry, StartHeader, StreamMap, SubStreamsInfo,
};
use crate::bitset::{bits_of, Bits};
use crate::bytes::{
    read_all_or_bits, read_bits, read_exact, read_u32, read_u64, read_u64le, read_u8, read_usize,
    u32_le_at, u64_le_at,
};
use crate::crc32::{crc32_cksum, crc32_of};
use crate::decoders::decode_folder;
use crate::error::Error;
use crate::password::Password;

verus! {

pub const SIGNATURE_HEADER_SIZE: u64 = 32;

const K_END: u8 = 0;

const K_HEADER: u8 = 1;

const K_ARCHIVE_PROPERTIES: u8 = 2;

const K_ADDITIONAL_STREAMS_INFO: u8 = 3;

const K_MAIN_STREAMS_INFO: u8 = 4;

const K_FILES_INFO: u8 = 5;

const K_PACK_INFO: u8 = 6;

const K_UNPACK_INFO: u8 = 7;

const K_SUB_STREAMS_INFO: u8 = 8;

const K_SIZE: u8 = 9;

const K_CRC: u8 = 10;

const K_FOLDER: u8 = 11;

const K_CODERS_UNPACK_SIZE: u8 = 12;

const K_NUM_UNPACK_STREAM: u8 = 13;

const K_EMPTY_STREAM: u8 = 14;

const K_EMPTY_FILE: u8 = 15;

const K_ANTI: u8 = 16;

const K_NAME: u8 = 17;

const K_C_TIME: u8 = 18;

const K_A_TIME: u8 = 19;

const K_M_TIME: u8 = 20;

const K_WIN_ATTRIBUTES: u8 = 21;

const K_ENCODED_HEADER: u8 = 23;

const K_START_POS: u8 = 24;

const K_DUMMY: u8 = 25;

/// The 6-byte 7z signature.
pub open spec fn spec_signature() -> Seq<u8> {
    seq![0x37u8, 0x7Au8, 0xBCu8, 0xAFu8, 0x27u8, 0x1Cu8]
}

/// Code points of a UTF-16 unit sequence, as `String::from_utf16` decodes
/// them.
pub uninterp spec fn utf16_str(units: Seq<u16>) -> Seq<char>;

/// Relies on String::from_utf16: decodes UTF-16 units, failing on
/// malformed input; the result depends on the units alone.
#[verifier::external_body]
fn utf16_to_string(units: &Vec<u16>) -> (r: Option<String>)
    ensures
        r matches Some(s) ==> s@ == utf16_str(units@),
{
    match String::from_utf16(units.as_slice()) {
        Ok(s) => Some(s),
        Err(_) => None,
    }
}

/// An in-memory length-limited reader: hands out at most `remain` bytes
/// of its buffer, then reports end-of-stream with empty reads.
pub struct BoundedReader {
    pub inner: Vec<u8>,
    pub pos: usize,
    pub remain: usize,
}

impl BoundedReader {
    pub fn new(inner: Vec<u8>, max_size: usize) -> (r: BoundedReader)
        ensures
            r.inner == inner,
            r.pos == 0,
            r.remain == max_size,
    {
        BoundedReader { inner, pos: 0, remain: max_size }
    }

    /// Appends up to `len` bytes to `out`; 0 once the bound or the buffer
    /// is exhausted.
    pub fn read(&mut self, out: &mut Vec<u8>, len: usize) -> (n: usize)
        requires
            old(self).pos <= old(self).inner@.len(),
        ensures
            final(self).inner == old(self).inner,
            final(self).pos == old(self).pos + n,
            final(self).pos <= final(self).inner@.len(),
            final(self).remain == old(self).remain - n,
            n <= len && n <= old(self).remain,
            final(out)@ == old(out)@ + old(self).inner@.subrange(
                old(self).pos as int,
                old(self).pos + n,
            ),
    {
        let mut n = if len < self.remain {
            len
        } else {
            self.remain
        };
        let avail = self.inner.len() - self.pos;
        if avail < n {
            n = avail;
        }
        let ghost out0 = out@;
        let mut k: usize = 0;
        while k < n
            invariant
                k <= n,
                self == old(self),
                self.pos + n <= self.inner@.len(),
                self.inner@.len() <= usize::MAX,
                out@ == out0 + self.inner@.subrange(self.pos as int, self.pos + k),
            decreases n - k,
        {
            out.push(self.inner[self.pos + k]);
            proof {
                assert(out@ =~= out0 + self.inner@.subrange(self.pos as int, self.pos + k + 1));
            }
            k += 1;
        }
        self.pos += n;
        self.remain -= n;
        n
    }
}

/// Counts the indices below `upto` that are present in the set.
fn count_bits(s: &Bits, upto: usize) -> (r: usize)
    ensures
        r <= upto,
{
    let mut n: usize = 0;
    let mut i: usize = 0;
    while i < upto
        invariant
            i <= upto,
            n <= i,
        decreases upto - i,
    {
        if s.contains(i) {
            n += 1;
        }
        i += 1;
    }
    n
}

/// The sum of the counts in `s[..k]`.
spec fn sum_usizes(s: Seq<usize>, k: int) -> int
    decreases k,
{
    if k <= 0 {
        0
    } else {
        sum_usizes(s, k - 1) + s[k - 1]
    }
}

proof fn lemma_sum_usizes_push(s: Seq<usize>, v: usize, k: int)
    requires
        k <= s.len(),
    ensures
        sum_usizes(s.push(v), k) == sum_usizes(s, k),
    decreases k,
{
    if k > 0 {
        lemma_sum_usizes_push(s, v, k - 1);
        assert(s.push(v)[k - 1] == s[k - 1]);
    }
}

proof fn lemma_sum_sub_eq_counts(folders: Seq<Folder>, counts: Seq<usize>, k: int)
    requires
        0 <= k <= folders.len(),
        counts.len() == folders.len(),
        forall|j: int|
            0 <= j < folders.len() ==> (#[trigger] folders[j]).num_unpack_sub_streams == counts[j],
    ensures
        sum_sub_streams(folders, k) == sum_usizes(counts, k),
    decreases k,
{
    if k > 0 {
        lemma_sum_sub_eq_counts(folders, counts, k - 1);
    }
}

proof fn lemma_prefix_all_single(folders: Seq<Folder>, k: int)
    requires
        0 <= k <= folders.len(),
        forall|j: int|
            0 <= j < folders.len() ==> (#[trigger] folders[j]).num_unpack_sub_streams == 1,
    ensures
        sum_sub_streams(folders, k) == k,
        count_nonempty_folders(folders, k) == k,
    decreases k,
{
    if k > 0 {
        lemma_prefix_all_single(folders, k - 1);
    }
}

/// With one substream per folder, either sizes layout collapses to one
/// entry per folder holding that folder's unpack size.
proof fn lemma_sub_sizes_single(folders: Seq<Folder>, sizes: Seq<u64>)
    requires
        forall|j: int|
            0 <= j < folders.len() ==> (#[trigger] folders[j]).num_unpack_sub_streams == 1,
        sub_sizes_aligned(folders, sizes) || sub_sizes_collapsed(folders, sizes),
    ensures
        sizes.len() == folders.len(),
        forall|i: int|
            0 <= i < folders.len() ==> is_unpack_size(#[trigger] folders[i], sizes[i] as int),
{
    lemma_prefix_all_single(folders, folders.len() as int);
    assert forall|i: int| 0 <= i < folders.len() implies is_unpack_size(
        #[trigger] folders[i],
        sizes[i] as int,
    ) by {
        lemma_prefix_all_single(folders, i);
        lemma_prefix_all_single(folders, i + 1);
        if sub_sizes_aligned(folders, sizes) {
            assert(sum_sizes(sizes, i, i + 1) == sum_sizes(sizes, i, i) + sizes[i]);
        }
    }
}

/// Checks at run time that a folder has the structural shape the decoder
/// pipeline relies on.
fn check_folder_wf(f: &Folder) -> (r: bool)
    ensures
        r == folder_wf(*f),
{
    f.total_output_streams >= 1 && f.bind_pairs.len() == f.total_output_streams - 1
        && f.packed_streams.len() <= f.total_input_streams && f.total_input_streams
        - f.packed_streams.len() == f.bind_pairs.len() && f.unpack_sizes.len()
        == f.total_output_streams
}

impl Archive {
    /// Parses an archive image: signature, version, start header (with its
    /// CRC), then the next header; a zeroed start header triggers the
    /// backward scan for a header token.
    pub fn read(data: &Vec<u8>, password: &Vec<u8>) -> (r: Result<Archive, Error>)
        ensures
            data@.len() >= 6 && data@.subrange(0, 6) != spec_signature() ==> (r matches Err(e) && e
                is BadSignature),
            data@.len() >= 8 && data@.subrange(0, 6) == spec_signature() && data@[6] != 0 ==> (
            r matches Err(e) && e is UnsupportedVersion),
            data@.len() >= 32 && data@.subrange(0, 6) == spec_signature() && data@[6] == 0
                && u32_le_at(data@, 8) != 0 && crc32_of(data@.subrange(12, 32)) as int != u32_le_at(
                data@,
                8,
            ) ==> (r matches Err(e) && e is ChecksumVerificationFailed),
            ({
                let off = 32 + u64_le_at(data@, 12);
                let nhs = u64_le_at(data@, 20);
                data@.len() >= 32 && data@.subrange(0, 6) == spec_signature() && data@[6] == 0
                    && u32_le_at(data@, 8) != 0 && crc32_of(data@.subrange(12, 32)) as int
                    == u32_le_at(data@, 8) && nhs <= usize::MAX && off + nhs <= data@.len()
                    && crc32_of(data@.subrange(off, off + nhs)) as int != u32_le_at(data@, 28)
            }) ==> (r matches Err(e) && e is NextHeaderCrcMismatch),
            data@.len() >= 32 && data@.subrange(0, 6) == spec_signature() && data@[6] == 0
                && u32_le_at(data@, 8) == 0 && (exists|q: int| 12 <= q < 32 && data@[q] != 0)
                && crc32_of(data@.subrange(12, 32)) as int != 0 ==> (r matches Err(e) && e
                is ChecksumVerificationFailed),
            r is Ok ==> data@.len() >= 32 && data@.subrange(0, 6) == spec_signature() && data@[6]
                == 0,
            r matches Ok(a) ==> stream_map_covers_files(a),
    {
        let mut pos: usize = 0;
        let signature = read_exact(data, &mut pos, 6)?;
        let sig_ok = signature[0] == 0x37 && signature[1] == 0x7A && signature[2] == 0xBC
            && signature[3] == 0xAF && signature[4] == 0x27 && signature[5] == 0x1C;
        proof {
            if sig_ok {
                assert(signature@ =~= spec_signature());
            }
        }
        if !sig_ok {
            return Err(
                Error::BadSignature(
                    [
                        signature[0],
                        signature[1],
                        signature[2],
                        signature[3],
                        signature[4],
                        signature[5],
                    ],
                ),
            );
        }
        let version_major = read_u8(data, &mut pos)?;
        let version_minor = read_u8(data, &mut pos)?;
        if version_major != 0 {
            return Err(Error::UnsupportedVersion { major: version_major, minor: version_minor });
        }
        let start_header_crc = read_u32(data, &mut pos)?;
        let header_valid: bool = if start_header_crc == 0 {
            if data.len() - pos < 20 {
                return Err(Error::corrupt("archive too short for a start header"));
            }
            let mut any = false;
            let mut k: usize = 0;
            while k < 20
                invariant
                    k <= 20,
                    pos == 12,
                    pos + 20 <= data@.len(),
                    data@.len() <= usize::MAX,
                    any == exists|q: int| 12 <= q < 12 + k && data@[q] != 0,
                decreases 20 - k,
            {
                if data[pos + k] != 0 {
                    any = true;
                }
                proof {
                    if data@[12 + k] != 0 {
                        assert(exists|q: int| 12 <= q < 12 + k + 1 && data@[q] != 0);
                    }
                }
                k += 1;
            }
            any
        } else {
            true
        };
        if header_valid {
            let start_header = Self::read_start_header(data, &mut pos, start_header_crc)?;
            Self::init_archive(data, &start_header, password, true)
        } else {
            Self::try_to_locale_end_header(data, password)
        }
    }

    /// Reads the 20-byte start header, first checking its CRC-32 against
    /// the declared value.
    fn read_start_header(data: &Vec<u8>, pos: &mut usize, start_header_crc: u32) -> (r: Result<
        StartHeader,
        Error,
    >)
        requires
            *old(pos) <= data@.len(),
        ensures
            *old(pos) <= *final(pos) <= data@.len(),
            *old(pos) + 20 <= data@.len() && crc32_of(
                data@.subrange(*old(pos) as int, *old(pos) + 20),
            ) != start_header_crc ==> (r matches Err(e) && e is ChecksumVerificationFailed),
            *old(pos) + 20 <= data@.len() && crc32_of(
                data@.subrange(*old(pos) as int, *old(pos) + 20),
            ) == start_header_crc ==> r is Ok,
            r matches Ok(h) ==> *old(pos) + 20 <= data@.len() && crc32_of(
                data@.subrange(*old(pos) as int, *old(pos) + 20),
            ) == start_header_crc && h.next_header_offset == u64_le_at(data@, *old(pos) as int)
                && h.next_header_size == u64_le_at(data@, *old(pos) + 8) && h.next_header_crc
                == u32_le_at(data@, *old(pos) + 16),
    {
        let buf = read_exact(data, pos, 20)?;
        let value = crc32_cksum(&buf);
        if value != start_header_crc {
            return Err(Error::ChecksumVerificationFailed);
        }
        let mut bpos: usize = 0;
        let offset = read_u64le(&buf, &mut bpos)?;
        let size = read_u64le(&buf, &mut bpos)?;
        let crc = read_u32(&buf, &mut bpos)?;
        Ok(
            StartHeader {
                next_header_offset: offset,
                next_header_size: size,
                next_header_crc: crc as u64,
            },
        )
    }

    /// Scans backward from the end of the file (up to 1 MiB) for a header
    /// token and tries to parse an archive from it; best-effort recovery
    /// for a zeroed start header.
    fn try_to_locale_end_header(data: &Vec<u8>, password: &Vec<u8>) -> (r: Result<Archive, Error>)
        ensures
            r matches Ok(a) ==> stream_map_covers_files(a),
    {
        let reader_len = data.len();
        if reader_len < 34 {
            return Err(Error::corrupt("archive too short"));
        }
        let search_limit: usize = 1024 * 1024;
        let prev_data_size: usize = 32;
        let min_pos: usize = if 12 + search_limit > reader_len {
            12
        } else {
            reader_len - search_limit
        };
        let mut p: usize = reader_len - 1;
        while p > min_pos
            invariant
                min_pos >= 12,
                p < reader_len == data@.len(),
            decreases p,
        {
            p -= 1;
            let nid = data[p];
            if p >= prev_data_size && (nid == K_ENCODED_HEADER || nid == K_HEADER) {
                let start_header = StartHeader {
                    next_header_offset: (p - prev_data_size) as u64,
                    next_header_size: (reader_len - p) as u64,
                    next_header_crc: 0,
                };
                let result = Self::init_archive(data, &start_header, password, false)?;
                if result.files.len() > 0 {
                    return Ok(result);
                }
            }
        }
        Err(Error::other("Start header corrupt and unable to guess end header"))
    }

    /// Loads the next-header bytes (checking their CRC when asked to),
    /// decodes an encoded header if present, and parses the header proper.
    fn init_archive(
        data: &Vec<u8>,
        start_header: &StartHeader,
        password: &Vec<u8>,
        verify_crc: bool,
    ) -> (r: Result<Archive, Error>)
        ensures
            ({
                let off = 32 + start_header.next_header_offset;
                let nhs = start_header.next_header_size;
                verify_crc && nhs <= usize::MAX && off + nhs <= data@.len() && crc32_of(
                    data@.subrange(off as int, off + nhs),
                ) as int != start_header.next_header_crc ==> (r matches Err(e) && e
                    is NextHeaderCrcMismatch)
            }),
            r matches Ok(a) ==> stream_map_covers_files(a),
    {
        let data_len = data.len();
        if start_header.next_header_size > usize::MAX as u64 {
            return Err(Error::other("Cannot handle next_header_size"));
        }
        let next_header_size_int = start_header.next_header_size as usize;
        if start_header.next_header_offset > u64::MAX - SIGNATURE_HEADER_SIZE {
            return Err(Error::corrupt("next header offset out of range"));
        }
        let off64 = SIGNATURE_HEADER_SIZE + start_header.next_header_offset;
        if off64 > data.len() as u64 {
            return Err(Error::corrupt("next header reaches past the end of the archive"));
        }
        let off = off64 as usize;
        if next_header_size_int > data.len() - off {
            return Err(Error::corrupt("next header reaches past the end of the archive"));
        }
        let mut pos: usize = off;
        let buf = read_exact(data, &mut pos, next_header_size_int)?;
        if verify_crc {
            let c = crc32_cksum(&buf);
            if c as u64 != start_header.next_header_crc {
                return Err(Error::NextHeaderCrcMismatch);
            }
        }
        let mut archive = Archive::empty();
        let mut bpos: usize = 0;
        let mut nid = read_u8(&buf, &mut bpos)?;
        if nid == K_ENCODED_HEADER {
            let decoded = Self::read_encoded_header(&buf, &mut bpos, data, &mut archive, password)?;
            archive = Archive::empty();
            let mut dpos: usize = 0;
            nid = read_u8(&decoded, &mut dpos)?;
            if nid == K_HEADER {
                Self::read_header(&decoded, &mut dpos, &mut archive)?;
                return Ok(archive);
            } else {
                return Err(Error::other("Broken or unsupported archive: no Header"));
            }
        }
        if nid == K_HEADER {
            Self::read_header(&buf, &mut bpos, &mut archive)?;
            Ok(archive)
        } else {
            Err(Error::other("Broken or unsupported archive: no Header"))
        }
    }

    /// Parses the streams info that describes the encoded header and
    /// decodes that single folder into the plain header bytes.
    fn read_encoded_header(
        header: &Vec<u8>,
        pos: &mut usize,
        data: &Vec<u8>,
        archive: &mut Archive,
        password: &Vec<u8>,
    ) -> (r: Result<Vec<u8>, Error>)
        requires
            *old(pos) <= header@.len(),
        ensures
            *final(pos) <= header@.len(),
            r matches Ok(v) ==> final(archive).folders@.len() >= 1 && is_unpack_size(
                final(archive).folders@[0],
                v@.len() as int,
            ) && (final(archive).folders@[0].has_crc ==> final(archive).folders@[0].crc
                == crate::crc32::crc32_of(v@) as u64),
    {
        Self::read_streams_info(header, pos, archive)?;
        if archive.folders.len() == 0 {
            return Err(Error::other("no folders, can't read encoded header"));
        }
        if archive.pack_sizes.len() == 0 {
            return Err(Error::other("no packed streams, can't read encoded header"));
        }
        let folder = &archive.folders[0];
        if !check_folder_wf(folder) {
            return Err(Error::corrupt("malformed folder"));
        }
        if archive.pack_pos > u64::MAX - SIGNATURE_HEADER_SIZE {
            return Err(Error::corrupt("pack position out of range"));
        }
        let folder_offset = SIGNATURE_HEADER_SIZE + archive.pack_pos;
        let pack_size = archive.pack_sizes[0];
        let decoded = decode_folder(data, folder, folder_offset, pack_size, password)?;
        Ok(decoded)
    }

    /// Parses the plain header: optional archive properties, the main
    /// streams info, and the files info, ending at the end token.
    fn read_header(header: &Vec<u8>, pos: &mut usize, archive: &mut Archive) -> (r: Result<
        (),
        Error,
    >)
        requires
            *old(pos) <= header@.len(),
            old(archive).files@.len() == 0,
            old(archive).stream_map.file_folder_index@.len() == 0,
        ensures
            *final(pos) <= header@.len(),
            r is Ok ==> stream_map_covers_files(*final(archive)),
    {
        let mut nid = read_u8(header, pos)?;
        if nid == K_ARCHIVE_PROPERTIES {
            Self::read_archive_properties(header, pos)?;
            nid = read_u8(header, pos)?;
        }
        if nid == K_ADDITIONAL_STREAMS_INFO {
            return Err(Error::other("Additional streams unsupported"));
        }
        if nid == K_MAIN_STREAMS_INFO {
            Self::read_streams_info(header, pos, archive)?;
            nid = read_u8(header, pos)?;
        }
        if nid == K_FILES_INFO {
            Self::read_files_info(header, pos, archive)?;
            nid = read_u8(header, pos)?;
        }
        if nid != K_END {
            return Err(Error::BadTerminatedheader(nid));
        }
        Ok(())
    }

    fn read_archive_properties(header: &Vec<u8>, pos: &mut usize) -> (r: Result<(), Error>)
        requires
            *old(pos) <= header@.len(),
        ensures
            *final(pos) <= header@.len(),
    {
        let mut nid = read_u8(header, pos)?;
        while nid != K_END
            invariant
                *pos <= header@.len(),
            decreases header@.len() - *pos,
        {
            let ghost pos0 = *pos;
            let property_size = read_usize(header, pos, "propertySize")?;
            if property_size > header.len() - *pos {
                return Err(Error::corrupt("archive property reaches past the header"));
            }
            *pos += property_size;
            nid = read_u8(header, pos)?;
            proof {
                assert(*pos > pos0);
            }
        }
        Ok(())
    }

    /// Parses pack info, unpack info (the folders), and sub-streams info,
    /// each section optional, ending at the end token.
    fn read_streams_info(header: &Vec<u8>, pos: &mut usize, archive: &mut Archive) -> (r: Result<
        (),
        Error,
    >)
        requires
            *old(pos) <= header@.len(),
        ensures
            *final(pos) <= header@.len(),
            final(archive).files == old(archive).files,
            final(archive).stream_map == old(archive).stream_map,
    {
        let mut nid = read_u8(header, pos)?;
        if nid == K_PACK_INFO {
            Self::read_pack_info(header, pos, archive)?;
            nid = read_u8(header, pos)?;
        }
        if nid == K_UNPACK_INFO {
            Self::read_unpack_info(header, pos, archive)?;
            nid = read_u8(header, pos)?;
        } else {
            archive.folders = Vec::new();
        }
        if nid == K_SUB_STREAMS_INFO {
            Self::read_sub_streams_info(header, pos, archive)?;
            nid = read_u8(header, pos)?;
        }
        if nid != K_END {
            return Err(Error::BadTerminatedStreamsInfo(nid));
        }
        Ok(())
    }

    /// Parses the packed-stream table: the pack position, the sizes, and
    /// optional CRCs.
    fn read_pack_info(header: &Vec<u8>, pos: &mut usize, archive: &mut Archive) -> (r: Result<
        (),
        Error,
    >)
        requires
            *old(pos) <= header@.len(),
        ensures
            *final(pos) <= header@.len(),
            final(archive).files == old(archive).files,
            final(archive).stream_map == old(archive).stream_map,
            r is Ok ==> final(archive).pack_pos == crate::bytes::u64v_value(
                header@,
                *old(pos) as int,
            ),
    {
        archive.pack_pos = read_u64(header, pos)?;
        let num_pack_streams = read_usize(header, pos, "num pack streams")?;
        let mut nid = read_u8(header, pos)?;
        if nid == K_SIZE {
            let mut sizes: Vec<u64> = Vec::new();
            let mut i: usize = 0;
            while i < num_pack_streams
                invariant
                    archive.files == old(archive).files,
                    archive.stream_map == old(archive).stream_map,
                    i <= num_pack_streams,
                    *pos <= header@.len(),
                decreases num_pack_streams - i,
            {
                let v = read_u64(header, pos)?;
                sizes.push(v);
                i += 1;
            }
            archive.pack_sizes = sizes;
            nid = read_u8(header, pos)?;
        }
        if nid == K_CRC {
            archive.pack_crcs_defined = read_all_or_bits(header, pos, num_pack_streams)?;
            let mut crcs: Vec<u64> = Vec::new();
            let mut i: usize = 0;
            while i < num_pack_streams
                invariant
                    archive.files == old(archive).files,
                    archive.stream_map == old(archive).stream_map,
                    i <= num_pack_streams,
                    *pos <= header@.len(),
                decreases num_pack_streams - i,
            {
                if archive.pack_crcs_defined.contains(i) {
                    let c = read_u32(header, pos)?;
                    crcs.push(c as u64);
                } else {
                    crcs.push(0);
                }
                i += 1;
            }
            archive.pack_crcs = crcs;
            nid = read_u8(header, pos)?;
        }
        if nid != K_END {
            return Err(Error::BadTerminatedPackInfo(nid));
        }
        Ok(())
    }

    /// Parses the folders, their per-output unpack sizes, and optional
    /// folder CRCs.
    fn read_unpack_info(header: &Vec<u8>, pos: &mut usize, archive: &mut Archive) -> (r: Result<
        (),
        Error,
    >)
        requires
            *old(pos) <= header@.len(),
        ensures
            *final(pos) <= header@.len(),
            final(archive).files == old(archive).files,
            final(archive).stream_map == old(archive).stream_map,
            r is Ok ==> forall|j: int|
                0 <= j < final(archive).folders@.len() ==> folder_wf(
                    #[trigger] final(archive).folders@[j],
                ),
    {
        let nid0 = read_u8(header, pos)?;
        if nid0 != K_FOLDER {
            return Err(Error::other("Expected kFolder"));
        }
        let num_folders = read_usize(header, pos, "num folders")?;
        let external = read_u8(header, pos)?;
        if external != 0 {
            return Err(Error::ExternalUnsupported);
        }
        let mut folders: Vec<Folder> = Vec::new();
        let mut i: usize = 0;
        while i < num_folders
            invariant
                archive.files == old(archive).files,
                archive.stream_map == old(archive).stream_map,
                i <= num_folders,
                *pos <= header@.len(),
                forall|j: int|
                    0 <= j < folders@.len() ==> folder_shape_wf(#[trigger] folders@[j]),
            decreases num_folders - i,
        {
            let f = Self::read_folder(header, pos)?;
            folders.push(f);
            i += 1;
        }
        let nid1 = read_u8(header, pos)?;
        if nid1 != K_CODERS_UNPACK_SIZE {
            return Err(Error::other("Expected kCodersUnpackSize"));
        }
        let mut folders2: Vec<Folder> = Vec::new();
        while folders.len() > 0
            invariant
                archive.files == old(archive).files,
                archive.stream_map == old(archive).stream_map,
                *pos <= header@.len(),
                forall|j: int|
                    0 <= j < folders@.len() ==> folder_shape_wf(#[trigger] folders@[j]),
                forall|j: int| 0 <= j < folders2@.len() ==> folder_wf(#[trigger] folders2@[j]),
            decreases folders@.len(),
        {
            let mut f = folders.remove(0);
            let tos = f.total_output_streams;
            let mut sizes: Vec<u64> = Vec::new();
            let mut k: usize = 0;
            while k < tos
                invariant
                    archive.files == old(archive).files,
                    archive.stream_map == old(archive).stream_map,
                    k <= tos,
                    sizes@.len() == k,
                    *pos <= header@.len(),
                decreases tos - k,
            {
                let v = read_u64(header, pos)?;
                sizes.push(v);
                k += 1;
            }
            f.unpack_sizes = sizes;
            folders2.push(f);
        }
        let mut nid = read_u8(header, pos)?;
        if nid == K_CRC {
            let crcs_defined = read_all_or_bits(header, pos, num_folders)?;
            let mut folders3: Vec<Folder> = Vec::new();
            let mut k: usize = 0;
            while folders2.len() > 0
                invariant
                    archive.files == old(archive).files,
                    archive.stream_map == old(archive).stream_map,
                    *pos <= header@.len(),
                    forall|j: int| 0 <= j < folders2@.len() ==> folder_wf(#[trigger] folders2@[j]),
                    forall|j: int| 0 <= j < folders3@.len() ==> folder_wf(#[trigger] folders3@[j]),
                decreases folders2@.len(),
            {
                let mut f = folders2.remove(0);
                if crcs_defined.contains(k) {
                    f.has_crc = true;
                    let c = read_u32(header, pos)?;
                    f.crc = c as u64;
                } else {
                    f.has_crc = false;
                }
                folders3.push(f);
                if k < usize::MAX {
                    k += 1;
                }
            }
            folders2 = folders3;
            nid = read_u8(header, pos)?;
        }
        if nid != K_END {
            return Err(Error::BadTerminatedUnpackInfo);
        }
        archive.folders = folders2;
        Ok(())
    }

    /// Parses one folder: its coders, bind pairs, and packed-stream
    /// indices.
    fn read_folder(header: &Vec<u8>, pos: &mut usize) -> (r: Result<Folder, Error>)
        requires
            *old(pos) <= header@.len(),
        ensures
            *final(pos) <= header@.len(),
            r matches Ok(f) ==> folder_shape_wf(f) && f.unpack_sizes@.len() == 0
                && f.num_unpack_sub_streams == 1 && !f.has_crc,
            r matches Ok(f) ==> f.packed_streams@.len() == 1 ==> !in_stream_bound(
                f,
                f.packed_streams@[0] as int,
            ) && (forall|j: int| 0 <= j < f.packed_streams@[0] ==> in_stream_bound(f, j)),
    {
        let num_coders = read_usize(header, pos, "num coders")?;
        let mut coders: Vec<Coder> = Vec::new();
        let mut total_in_streams: u64 = 0;
        let mut total_out_streams: u64 = 0;
        let mut i: usize = 0;
        while i < num_coders
            invariant
                i <= num_coders,
                *pos <= header@.len(),
            decreases num_coders - i,
        {
            let bits = read_u8(header, pos)?;
            let id_size = (bits & 0xF) as usize;
            let is_simple = (bits & 0x10) == 0;
            let has_attributes = (bits & 0x20) != 0;
            let more_alternative_methods = (bits & 0x80) != 0;
            let id = read_exact(header, pos, id_size)?;
            let num_in: u64;
            let num_out: u64;
            if is_simple {
                num_in = 1;
                num_out = 1;
            } else {
                num_in = read_u64(header, pos)?;
                num_out = read_u64(header, pos)?;
            }
            if num_in > u64::MAX - total_in_streams || num_out > u64::MAX - total_out_streams {
                return Err(Error::other("totalInStreams"));
            }
            total_in_streams += num_in;
            total_out_streams += num_out;
            let mut properties: Vec<u8> = Vec::new();
            if has_attributes {
                let properties_size = read_usize(header, pos, "properties size")?;
                properties = read_exact(header, pos, properties_size)?;
            }
            coders.push(
                Coder { id, num_in_streams: num_in, num_out_streams: num_out, properties },
            );
            if more_alternative_methods {
                return Err(
                    Error::other(
                        "Alternative methods are unsupported, please report. The reference implementation doesn't support them either.",
                    ),
                );
            }
            i += 1;
        }
        if total_in_streams > usize::MAX as u64 {
            return Err(Error::other("totalInStreams"));
        }
        if total_out_streams > usize::MAX as u64 {
            return Err(Error::other("totalOutStreams"));
        }
        let total_in = total_in_streams as usize;
        let total_out = total_out_streams as usize;
        if total_out == 0 {
            return Err(Error::other("Total output streams can't be 0"));
        }
        let num_bind_pairs = total_out - 1;
        let mut bind_pairs: Vec<BindPair> = Vec::new();
        let mut k: usize = 0;
        while k < num_bind_pairs
            invariant
                k <= num_bind_pairs,
                bind_pairs@.len() == k,
                *pos <= header@.len(),
            decreases num_bind_pairs - k,
        {
            let in_index = read_u64(header, pos)?;
            let out_index = read_u64(header, pos)?;
            bind_pairs.push(BindPair { in_index, out_index });
            k += 1;
        }
        if total_in < num_bind_pairs {
            return Err(Error::other("Total input streams can't be less than the number of bind pairs"));
        }
        let num_packed_streams = total_in - num_bind_pairs;
        let mut folder = Folder {
            coders,
            total_input_streams: total_in,
            total_output_streams: total_out,
            bind_pairs,
            packed_streams: Vec::new(),
            unpack_sizes: Vec::new(),
            has_crc: false,
            crc: 0,
            num_unpack_sub_streams: 1,
        };
        let mut packed_streams: Vec<u64> = Vec::new();
        if num_packed_streams == 1 {
            let mut found: Option<u64> = None;
            let mut t: usize = 0;
            while t < total_in
                invariant_except_break
                    found is None,
                invariant
                    t <= total_in,
                    forall|j: int| 0 <= j < t ==> in_stream_bound(folder, j),
                ensures
                    found matches Some(ix) ==> ix == t && t < total_in && !in_stream_bound(
                        folder,
                        t as int,
                    ),
                    found is None ==> t == total_in,
                decreases total_in - t,
            {
                if folder.find_bind_pair_for_in_stream(t).is_none() {
                    found = Some(t as u64);
                    break ;
                }
                t += 1;
            }
            let index = match found {
                Some(ix) => ix,
                None => {
                    return Err(Error::other("Couldn't find stream's bind pair index"));
                },
            };
            packed_streams.push(index);
        } else {
            let mut q: usize = 0;
            while q < num_packed_streams
                invariant
                    q <= num_packed_streams,
                    packed_streams@.len() == q,
                    *pos <= header@.len(),
                decreases num_packed_streams - q,
            {
                let v = read_u64(header, pos)?;
                packed_streams.push(v);
                q += 1;
            }
        }
        let ghost pre = folder;
        folder.packed_streams = packed_streams;
        proof {
            // the wiring predicates ignore the packed-stream list
            assert(folder.bind_pairs@ == pre.bind_pairs@);
            assert forall|j: int| in_stream_bound(pre, j) implies in_stream_bound(folder, j) by {
                let k = choose|k: int|
                    0 <= k < pre.bind_pairs@.len() && pre.bind_pairs@[k].in_index == j;
                assert(folder.bind_pairs@[k].in_index == j);
            }
            assert forall|j: int| in_stream_bound(folder, j) implies in_stream_bound(pre, j) by {
                let k = choose|k: int|
                    0 <= k < folder.bind_pairs@.len() && folder.bind_pairs@[k].in_index == j;
                assert(pre.bind_pairs@[k].in_index == j);
            }
        }
        Ok(folder)
    }
}

impl Archive {
    /// Reads the per-substream sizes folder by folder: with a sizes
    /// section, all but each folder's last size are read and the last is
    /// inferred as the remainder of the folder's unpack size; without
    /// one, each folder with substreams records its whole unpack size.
    #[verifier::rlimit(100)]
    fn read_sub_stream_sizes(
        header: &Vec<u8>,
        pos: &mut usize,
        folders: &Vec<Folder>,
        sized: bool,
    ) -> (r: Result<Vec<u64>, Error>)
        requires
            *old(pos) <= header@.len(),
        ensures
            *final(pos) <= header@.len(),
            r matches Ok(sizes) ==> if sized {
                sub_sizes_aligned(folders@, sizes@)
            } else {
                sub_sizes_collapsed(folders@, sizes@)
            },
    {
        let nfolders = folders.len();
        let mut sizes: Vec<u64> = Vec::new();
        let mut gi: usize = 0;
        while gi < nfolders
            invariant
                *pos <= header@.len(),
                nfolders == folders@.len(),
                gi <= nfolders,
                sized ==> sizes@.len() == sum_sub_streams(folders@, gi as int),
                !sized ==> sizes@.len() == count_nonempty_folders(folders@, gi as int),
                forall|j: int|
                    0 <= j < gi && (#[trigger] folders@[j]).num_unpack_sub_streams > 0 && sized
                        ==> is_unpack_size(
                        folders@[j],
                        sum_sizes(
                            sizes@,
                            sum_sub_streams(folders@, j),
                            sum_sub_streams(folders@, j + 1),
                        ),
                    ),
                forall|j: int|
                    0 <= j < gi && (#[trigger] folders@[j]).num_unpack_sub_streams > 0 && !sized
                        ==> is_unpack_size(
                        folders@[j],
                        sizes@[count_nonempty_folders(folders@, j)] as int,
                    ),
            decreases nfolders - gi,
        {
            let count = folders[gi].num_unpack_sub_streams;
            if count == 0 {
                gi += 1;
                continue ;
            }
            let ghost block_start = sizes@.len() as int;
            let mut sum: u64 = 0;
            if sized {
                let mut si: usize = 0;
                while si + 1 < count
                    invariant
                        *pos <= header@.len(),
                        sized,
                        gi < folders@.len() == nfolders,
                        count == folders@[gi as int].num_unpack_sub_streams,
                        count > 0,
                        si < count,
                        block_start >= 0,
                        block_start == sum_sub_streams(folders@, gi as int),
                        sizes@.len() == block_start + si,
                        sum == sum_sizes(sizes@, block_start, block_start + si),
                        forall|j: int|
                            0 <= j < gi && (#[trigger] folders@[j]).num_unpack_sub_streams > 0
                                ==> is_unpack_size(
                                folders@[j],
                                sum_sizes(
                                    sizes@,
                                    sum_sub_streams(folders@, j),
                                    sum_sub_streams(folders@, j + 1),
                                ),
                            ),
                    decreases count - si,
                {
                    let size = read_u64(header, pos)?;
                    if size > u64::MAX - sum {
                        return Err(Error::corrupt("substream sizes overflow"));
                    }
                    proof {
                        assert forall|j: int|
                            0 <= j < gi && (#[trigger] folders@[j]).num_unpack_sub_streams
                                > 0 implies sum_sizes(
                            sizes@.push(size),
                            sum_sub_streams(folders@, j),
                            sum_sub_streams(folders@, j + 1),
                        ) == sum_sizes(
                            sizes@,
                            sum_sub_streams(folders@, j),
                            sum_sub_streams(folders@, j + 1),
                        ) by {
                            lemma_sum_sub_streams_mono(folders@, 0, j);
                            lemma_sum_sub_streams_mono(folders@, j + 1, gi as int);
                            lemma_sum_sizes_push(
                                sizes@,
                                size,
                                sum_sub_streams(folders@, j),
                                sum_sub_streams(folders@, j + 1),
                            );
                        }
                        lemma_sum_sizes_push(sizes@, size, block_start, block_start + si);
                    }
                    sizes.push(size);
                    sum += size;
                    si += 1;
                }
            }
            let f = &folders[gi];
            if !check_folder_wf(f) {
                return Err(Error::corrupt("malformed folder"));
            }
            let total = f.get_unpack_size();
            if sum > total {
                return Err(Error::other("sum of unpack sizes of folder exceeds total unpack size"));
            }
            let ghost pre_sizes = sizes@;
            sizes.push(total - sum);
            proof {
                let fs = folders@;
                let bs = block_start;
                let g = gi as int;
                assert(sizes@ == pre_sizes.push((total - sum) as u64));
                assert(sum_sub_streams(fs, g + 1) == sum_sub_streams(fs, g) + count);
                assert(count_nonempty_folders(fs, g + 1) == count_nonempty_folders(fs, g) + 1);
                if sized {
                    lemma_sum_sizes_push(pre_sizes, (total - sum) as u64, bs, bs + count - 1);
                    assert(sum_sizes(sizes@, bs, bs + count) == sum_sizes(
                        sizes@,
                        bs,
                        bs + count - 1,
                    ) + sizes@[bs + count - 1]);
                    assert(sizes@[bs + count - 1] == (total - sum) as u64);
                    assert(sum_sizes(sizes@, bs, bs + count) == total);
                    assert(is_unpack_size(fs[g], total as int));
                    assert(sizes@.len() == sum_sub_streams(fs, g + 1));
                    assert forall|j: int|
                        0 <= j < g && (#[trigger] fs[j]).num_unpack_sub_streams
                            > 0 implies is_unpack_size(
                        fs[j],
                        sum_sizes(sizes@, sum_sub_streams(fs, j), sum_sub_streams(fs, j + 1)),
                    ) by {
                        lemma_sum_sub_streams_mono(fs, 0, j);
                        lemma_sum_sub_streams_mono(fs, j + 1, g);
                        lemma_sum_sizes_push(
                            pre_sizes,
                            (total - sum) as u64,
                            sum_sub_streams(fs, j),
                            sum_sub_streams(fs, j + 1),
                        );
                    }
                } else {
                    assert(sizes@[bs] == total);
                    assert(sizes@.len() == count_nonempty_folders(fs, g + 1));
                    assert forall|j: int|
                        0 <= j < g && (#[trigger] fs[j]).num_unpack_sub_streams
                            > 0 implies is_unpack_size(
                        fs[j],
                        sizes@[count_nonempty_folders(fs, j)] as int,
                    ) by {
                        lemma_count_nonempty_folders_mono(fs, 0, j);
                        lemma_count_nonempty_folders_mono(fs, j + 1, g);
                        assert(count_nonempty_folders(fs, j + 1) == count_nonempty_folders(fs, j)
                            + 1);
                        assert(sizes@[count_nonempty_folders(fs, j)] == pre_sizes[count_nonempty_folders(
                            fs,
                            j,
                        )]);
                    }
                }
            }
            gi += 1;
        }
        Ok(sizes)
    }

    /// Parses per-substream counts, sizes, and CRCs: with no counts
    /// token every folder defaults to a single substream of its full
    /// unpack size; each folder's last size is inferred as the remainder
    /// of its unpack size; a folder's declared CRC is passed on to its
    /// only substream.
    #[verifier::rlimit(100)]
    fn read_sub_streams_info(header: &Vec<u8>, pos: &mut usize, archive: &mut Archive) -> (r:
        Result<(), Error>)
        requires
            *old(pos) <= header@.len(),
        ensures
            *final(pos) <= header@.len(),
            final(archive).files == old(archive).files,
            final(archive).stream_map == old(archive).stream_map,
            r is Ok ==> final(archive).sub_streams_info is Some,
            r is Ok ==> final(archive).folders@.len() == old(archive).folders@.len(),
            r is Ok && header@[*old(pos) as int] != K_NUM_UNPACK_STREAM ==> forall|i: int|
                0 <= i < final(archive).folders@.len() ==> (#[trigger] final(
                    archive).folders@[i]).num_unpack_sub_streams == 1,
            r is Ok ==> (final(archive).sub_streams_info matches Some(ssi) && ({
                let folders = final(archive).folders@;
                &&& ssi.crcs@.len() == sum_sub_streams(folders, folders.len() as int)
                &&& (sub_sizes_aligned(folders, ssi.unpack_sizes@) || sub_sizes_collapsed(
                    folders,
                    ssi.unpack_sizes@,
                ))
                &&& (header@[*old(pos) as int] != K_NUM_UNPACK_STREAM ==> ssi.unpack_sizes@.len()
                    == folders.len() && (forall|i: int|
                    0 <= i < folders.len() ==> is_unpack_size(
                        #[trigger] folders[i],
                        ssi.unpack_sizes@[i] as int,
                    )))
                &&& (folder_crcs_passed(folders, ssi) || (forall|j: int|
                    !bits_of(ssi.has_crc).contains(j)))
            })),
    {
        let nfolders = archive.folders.len();
        let mut nid = read_u8(header, pos)?;
        let ghost default_counts = nid != K_NUM_UNPACK_STREAM;
        let mut counts: Vec<usize> = Vec::new();
        let mut total_unpack_streams: usize = 0;
        if nid == K_NUM_UNPACK_STREAM {
            let mut i: usize = 0;
            while i < nfolders
                invariant
                    archive.files == old(archive).files,
                    archive.stream_map == old(archive).stream_map,
                    i <= nfolders,
                    counts@.len() == i,
                    total_unpack_streams == sum_usizes(counts@, i as int),
                    *pos <= header@.len(),
                decreases nfolders - i,
            {
                let c = read_usize(header, pos, "numStreams")?;
                if c > usize::MAX - total_unpack_streams {
                    return Err(Error::corrupt("too many substreams"));
                }
                proof {
                    lemma_sum_usizes_push(counts@, c, i as int);
                }
                total_unpack_streams += c;
                counts.push(c);
                i += 1;
            }
            nid = read_u8(header, pos)?;
        } else {
            let mut i: usize = 0;
            while i < nfolders
                invariant
                    i <= nfolders,
                    counts@.len() == i,
                    sum_usizes(counts@, i as int) == i,
                    forall|j: int| 0 <= j < i ==> counts@[j] == 1,
                decreases nfolders - i,
            {
                proof {
                    lemma_sum_usizes_push(counts@, 1, i as int);
                }
                counts.push(1);
                i += 1;
            }
            total_unpack_streams = nfolders;
        }
        let mut old_folders: Vec<Folder> = Vec::new();
        core::mem::swap(&mut old_folders, &mut archive.folders);
        let mut new_folders: Vec<Folder> = Vec::new();
        while old_folders.len() > 0
            invariant
                counts@.len() == nfolders,
                new_folders@.len() + old_folders@.len() == nfolders,
                forall|j: int|
                    0 <= j < new_folders@.len() ==> (#[trigger] new_folders@[j]).num_unpack_sub_streams
                        == counts@[j],
            decreases old_folders@.len(),
        {
            let mut f = old_folders.remove(0);
            let fi = new_folders.len();
            f.num_unpack_sub_streams = counts[fi];
            new_folders.push(f);
        }
        archive.folders = new_folders;
        let ghost folders_final = archive.folders@;
        proof {
            lemma_sum_sub_eq_counts(folders_final, counts@, nfolders as int);
            assert(total_unpack_streams == sum_sub_streams(folders_final, nfolders as int));
            if default_counts {
                assert forall|j: int|
                    0 <= j < folders_final.len() implies (#[trigger] folders_final[j]).num_unpack_sub_streams
                        == 1 by {
                    assert(counts@[j] == 1);
                }
            }
        }
        let ghost sized = nid == K_SIZE;
        let unpack_sizes = Self::read_sub_stream_sizes(
            header,
            pos,
            &archive.folders,
            nid == K_SIZE,
        )?;
        proof {
            if default_counts {
                lemma_sub_sizes_single(folders_final, unpack_sizes@);
            }
        }
        if nid == K_SIZE {
            nid = read_u8(header, pos)?;
        }
        let mut num_digests: usize = 0;
        let mut di: usize = 0;
        while di < archive.folders.len()
            invariant
                archive.files == old(archive).files,
                archive.stream_map == old(archive).stream_map,
                *pos <= header@.len(),
                di <= archive.folders@.len(),
            decreases archive.folders@.len() - di,
        {
            let c = archive.folders[di].num_unpack_sub_streams;
            if c != 1 || !archive.folders[di].has_crc {
                if c > usize::MAX - num_digests {
                    return Err(Error::corrupt("too many digests"));
                }
                num_digests += c;
            }
            di += 1;
        }
        let mut has_crc = Bits::with_capacity(total_unpack_streams);
        let mut crcs: Vec<u64> = Vec::new();
        let mut zi: usize = 0;
        while zi < total_unpack_streams
            invariant
                zi <= total_unpack_streams,
                crcs@.len() == zi,
            decreases total_unpack_streams - zi,
        {
            crcs.push(0);
            zi += 1;
        }
        let ghost crc_section = nid == K_CRC;
        if nid == K_CRC {
            let defined = read_all_or_bits(header, pos, num_digests)?;
            let mut missing: Vec<u64> = Vec::new();
            let mut mi: usize = 0;
            while mi < num_digests
                invariant
                    archive.files == old(archive).files,
                    archive.stream_map == old(archive).stream_map,
                    mi <= num_digests,
                    missing@.len() == mi,
                    *pos <= header@.len(),
                decreases num_digests - mi,
            {
                if defined.contains(mi) {
                    let c = read_u32(header, pos)?;
                    missing.push(c as u64);
                } else {
                    missing.push(0);
                }
                mi += 1;
            }
            let mut next_crc: usize = 0;
            let mut next_missing: usize = 0;
            let mut ci: usize = 0;
            while ci < archive.folders.len()
                invariant
                    archive.files == old(archive).files,
                    archive.stream_map == old(archive).stream_map,
                    *pos <= header@.len(),
                    archive.folders@ == folders_final,
                    folders_final.len() == nfolders,
                    ci <= nfolders,
                    crcs@.len() == total_unpack_streams,
                    total_unpack_streams == sum_sub_streams(folders_final, nfolders as int),
                    next_crc == sum_sub_streams(folders_final, ci as int),
                    next_missing <= missing@.len(),
                    forall|j: int|
                        0 <= j < ci && (#[trigger] folders_final[j]).num_unpack_sub_streams == 1
                            && folders_final[j].has_crc ==> bits_of(has_crc).contains(
                            sum_sub_streams(folders_final, j),
                        ) && crcs@[sum_sub_streams(folders_final, j)] == folders_final[j].crc,
                decreases nfolders - ci,
            {
                let c = archive.folders[ci].num_unpack_sub_streams;
                proof {
                    lemma_sum_sub_streams_mono(folders_final, ci as int + 1, nfolders as int);
                    assert(sum_sub_streams(folders_final, ci as int + 1) == next_crc + c);
                }
                if c == 1 && archive.folders[ci].has_crc {
                    if next_crc >= crcs.len() {
                        return Err(Error::corrupt("substream digest index out of range"));
                    }
                    has_crc.insert(next_crc);
                    let v = archive.folders[ci].crc;
                    crcs.set(next_crc, v);
                    proof {
                        assert forall|j: int|
                            0 <= j < ci && (#[trigger] folders_final[j]).num_unpack_sub_streams
                                == 1 && folders_final[j].has_crc implies bits_of(
                            has_crc,
                        ).contains(sum_sub_streams(folders_final, j)) && crcs@[sum_sub_streams(
                            folders_final,
                            j,
                        )] == folders_final[j].crc by {
                            lemma_sum_sub_streams_mono(folders_final, 0, j);
                            lemma_sum_sub_streams_mono(folders_final, j + 1, ci as int);
                            assert(sum_sub_streams(folders_final, j + 1) == sum_sub_streams(
                                folders_final,
                                j,
                            ) + 1);
                        }
                    }
                    next_crc += 1;
                } else {
                    let mut si: usize = 0;
                    while si < c
                        invariant
                            archive.files == old(archive).files,
                            archive.stream_map == old(archive).stream_map,
                            *pos <= header@.len(),
                            archive.folders@ == folders_final,
                            ci < folders_final.len() == nfolders,
                            c == folders_final[ci as int].num_unpack_sub_streams,
                            si <= c,
                            crcs@.len() == total_unpack_streams,
                            total_unpack_streams == sum_sub_streams(folders_final, nfolders as int),
                            next_crc == sum_sub_streams(folders_final, ci as int) + si,
                            next_missing <= missing@.len(),
                            forall|j: int|
                                0 <= j < ci && (#[trigger] folders_final[j]).num_unpack_sub_streams
                                    == 1 && folders_final[j].has_crc ==> bits_of(
                                    has_crc,
                                ).contains(sum_sub_streams(folders_final, j)) && crcs@[sum_sub_streams(
                                    folders_final,
                                    j,
                                )] == folders_final[j].crc,
                        decreases c - si,
                    {
                        if next_missing >= missing.len() || next_crc >= crcs.len() {
                            return Err(Error::corrupt("substream digest index out of range"));
                        }
                        if defined.contains(next_missing) {
                            has_crc.insert(next_crc);
                        } else {
                            has_crc.remove(next_crc);
                        }
                        let v = missing[next_missing];
                        crcs.set(next_crc, v);
                        proof {
                            lemma_sum_sub_streams_mono(folders_final, ci as int + 1, nfolders as int);
                            assert forall|j: int|
                                0 <= j < ci && (#[trigger] folders_final[j]).num_unpack_sub_streams
                                    == 1 && folders_final[j].has_crc implies bits_of(
                                has_crc,
                            ).contains(sum_sub_streams(folders_final, j)) && crcs@[sum_sub_streams(
                                folders_final,
                                j,
                            )] == folders_final[j].crc by {
                                lemma_sum_sub_streams_mono(folders_final, 0, j);
                                lemma_sum_sub_streams_mono(folders_final, j + 1, ci as int);
                                assert(sum_sub_streams(folders_final, j + 1) == sum_sub_streams(
                                    folders_final,
                                    j,
                                ) + 1);
                            }
                        }
                        next_crc += 1;
                        next_missing += 1;
                        si += 1;
                    }
                }
                ci += 1;
            }
            nid = read_u8(header, pos)?;
        }
        if nid != K_END {
            return Err(Error::BadTerminatedSubStreamsInfo);
        }
        let info = SubStreamsInfo { unpack_sizes, has_crc, crcs };
        proof {
            assert(info.crcs@.len() == sum_sub_streams(folders_final, folders_final.len() as int));
            if sized {
                assert(sub_sizes_aligned(folders_final, info.unpack_sizes@));
            } else {
                assert(sub_sizes_collapsed(folders_final, info.unpack_sizes@));
            }
            if crc_section {
                assert forall|j: int|
                    0 <= j < folders_final.len() && (#[trigger] folders_final[j]).num_unpack_sub_streams
                        == 1 && folders_final[j].has_crc implies {
                    let p = sum_sub_streams(folders_final, j);
                    0 <= p < info.crcs@.len() && bits_of(info.has_crc).contains(p)
                        && info.crcs@[p] == folders_final[j].crc
                } by {
                    lemma_sum_sub_streams_mono(folders_final, 0, j);
                    lemma_sum_sub_streams_mono(folders_final, j + 1, folders_final.len() as int);
                    assert(sum_sub_streams(folders_final, j + 1) == sum_sub_streams(
                        folders_final,
                        j,
                    ) + 1);
                }
                assert(folder_crcs_passed(folders_final, info));
            }
        }
        archive.sub_streams_info = Some(info);
        Ok(())
    }

    /// Parses one timestamp section: which entries define it and the
    /// FILETIME value of each defined entry.
    fn read_times(header: &Vec<u8>, pos: &mut usize, num_files: usize) -> (r: Result<
        (Bits, Vec<i64>),
        Error,
    >)
        requires
            *old(pos) <= header@.len(),
        ensures
            *old(pos) <= *final(pos) <= header@.len(),
            r matches Ok(p) ==> p.1@.len() == num_files,
    {
        let defined = read_all_or_bits(header, pos, num_files)?;
        let external = read_u8(header, pos)?;
        if external != 0 {
            return Err(Error::other("Unimplemented:external != 0"));
        }
        let mut vals: Vec<i64> = Vec::new();
        let mut i: usize = 0;
        while i < num_files
            invariant
                i <= num_files,
                vals@.len() == i,
                *old(pos) <= *pos <= header@.len(),
            decreases num_files - i,
        {
            if defined.contains(i) {
                let v = read_u64le(header, pos)?;
                vals.push(#[verifier::truncate] (v as i64));
            } else {
                vals.push(0);
            }
            i += 1;
        }
        Ok((defined, vals))
    }

    /// Parses the null-terminated UTF-16LE file names packed into `nbytes`
    /// bytes.
    fn read_names(header: &Vec<u8>, pos: &mut usize, nbytes: usize) -> (r: Result<
        Vec<String>,
        Error,
    >)
        requires
            *old(pos) <= header@.len(),
        ensures
            *old(pos) <= *final(pos) <= header@.len(),
    {
        if nbytes > header.len() - *pos {
            return Err(Error::corrupt("file names reach past the header"));
        }
        let mut parsed: Vec<String> = Vec::new();
        let mut read_bytes: usize = 0;
        while read_bytes < nbytes
            invariant
                read_bytes <= nbytes,
                *old(pos) <= *pos,
                *pos + (nbytes - read_bytes) <= header@.len(),
            decreases nbytes - read_bytes,
        {
            let ghost rb0 = read_bytes as int;
            let mut units: Vec<u16> = Vec::new();
            loop
                invariant
                    rb0 < nbytes,
                    rb0 <= read_bytes <= nbytes,
                    *old(pos) <= *pos,
                    *pos + (nbytes - read_bytes) <= header@.len(),
                ensures
                    rb0 < read_bytes <= nbytes,
                    *old(pos) <= *pos,
                    *pos + (nbytes - read_bytes) <= header@.len(),
                decreases nbytes - read_bytes,
            {
                if read_bytes >= nbytes {
                    break ;
                }
                if nbytes - read_bytes < 2 {
                    return Err(Error::corrupt("odd file name bytes"));
                }
                let lo = read_u8(header, pos)?;
                let hi = read_u8(header, pos)?;
                read_bytes += 2;
                let u: u16 = (lo as u16) + (hi as u16) * 0x100;
                if u == 0 {
                    break ;
                }
                units.push(u);
            }
            match utf16_to_string(&units) {
                Some(s) => {
                    parsed.push(s);
                },
                None => {
                    return Err(Error::other("invalid file name"));
                },
            }
        }
        Ok(parsed)
    }

    /// Parses the files info: names, empty-stream/empty-file/anti bitsets,
    /// timestamps, and attributes, then builds the entry table and the
    /// stream map.
    fn read_files_info(header: &Vec<u8>, pos: &mut usize, archive: &mut Archive) -> (r: Result<
        (),
        Error,
    >)
        requires
            *old(pos) <= header@.len(),
        ensures
            *final(pos) <= header@.len(),
            final(archive).sub_streams_info == old(archive).sub_streams_info,
            final(archive).folders == old(archive).folders,
            r is Ok ==> stream_map_covers_files(*final(archive)),
            r is Ok ==> (forall|j: int|
                0 <= j < final(archive).files@.len() && (#[trigger] final(
                    archive).files@[j]).has_stream ==> (final(archive).sub_streams_info
                    matches Some(ssi) && ({
                    let s = count_streamed(final(archive).files@, j);
                    &&& 0 <= s < ssi.unpack_sizes@.len()
                    &&& s < ssi.crcs@.len()
                    &&& final(archive).files@[j].size == ssi.unpack_sizes@[s]
                    &&& final(archive).files@[j].has_crc == bits_of(ssi.has_crc).contains(s)
                    &&& final(archive).files@[j].crc == ssi.crcs@[s]
                }))),
    {
        let num_files = read_usize(header, pos, "num files")?;
        let mut names: Option<Vec<String>> = None;
        let mut is_empty_stream: Option<Bits> = None;
        let mut is_empty_file: Option<Bits> = None;
        let mut is_anti: Option<Bits> = None;
        let mut ctime: Option<(Bits, Vec<i64>)> = None;
        let mut atime: Option<(Bits, Vec<i64>)> = None;
        let mut mtime: Option<(Bits, Vec<i64>)> = None;
        let mut attributes: Option<(Bits, Vec<u32>)> = None;
        loop
            invariant
                *pos <= header@.len(),
                ctime matches Some(p) ==> p.1@.len() == num_files,
                atime matches Some(p) ==> p.1@.len() == num_files,
                mtime matches Some(p) ==> p.1@.len() == num_files,
                attributes matches Some(p) ==> p.1@.len() == num_files,
            ensures
                *pos <= header@.len(),
                ctime matches Some(p) ==> p.1@.len() == num_files,
                atime matches Some(p) ==> p.1@.len() == num_files,
                mtime matches Some(p) ==> p.1@.len() == num_files,
                attributes matches Some(p) ==> p.1@.len() == num_files,
            decreases header@.len() - *pos,
        {
            let prop_type = read_u8(header, pos)?;
            if prop_type == 0 {
                break ;
            }
            let size = read_u64(header, pos)?;
            if prop_type == K_EMPTY_STREAM {
                is_empty_stream = Some(read_bits(header, pos, num_files)?);
            } else if prop_type == K_EMPTY_FILE {
                // one bit per empty-stream entry
                let n: usize = match &is_empty_stream {
                    Some(s) => count_bits(s, num_files),
                    None => {
                        return Err(
                            Error::other(
                                "Header format error: kEmptyStream must appear before kEmptyFile",
                            ),
                        );
                    },
                };
                is_empty_file = Some(read_bits(header, pos, n)?);
            } else if prop_type == K_ANTI {
                // one bit per empty-stream entry
                let n: usize = match &is_empty_stream {
                    Some(s) => count_bits(s, num_files),
                    None => {
                        return Err(
                            Error::other(
                                "Header format error: kEmptyStream must appear before kEmptyFile",
                            ),
                        );
                    },
                };
                is_anti = Some(read_bits(header, pos, n)?);
            } else if prop_type == K_NAME {
                let external = read_u8(header, pos)?;
                if external != 0 {
                    return Err(Error::other("Not implemented:external != 0"));
                }
                if size < 1 {
                    return Err(Error::corrupt("file names length invalid"));
                }
                if (size - 1) % 2 != 0 {
                    return Err(Error::other("file names length invalid"));
                }
                if size - 1 > usize::MAX as u64 {
                    return Err(Error::other("file names length"));
                }
                let parsed = Self::read_names(header, pos, (size - 1) as usize)?;
                if parsed.len() != num_files {
                    return Err(Error::other("Error parsing file names"));
                }
                names = Some(parsed);
            } else if prop_type == K_C_TIME {
                ctime = Some(Self::read_times(header, pos, num_files)?);
            } else if prop_type == K_A_TIME {
                atime = Some(Self::read_times(header, pos, num_files)?);
            } else if prop_type == K_M_TIME {
                mtime = Some(Self::read_times(header, pos, num_files)?);
            } else if prop_type == K_WIN_ATTRIBUTES {
                let defined = read_all_or_bits(header, pos, num_files)?;
                let external = read_u8(header, pos)?;
                if external != 0 {
                    return Err(Error::other("Unimplemented:external != 0"));
                }
                let ghost pw0 = *pos as int;
                let mut vals: Vec<u32> = Vec::new();
                let mut i: usize = 0;
                while i < num_files
                    invariant
                        i <= num_files,
                        vals@.len() == i,
                        pw0 <= *pos <= header@.len(),
                    decreases num_files - i,
                {
                    if defined.contains(i) {
                        let v = read_u32(header, pos)?;
                        vals.push(v);
                    } else {
                        vals.push(0);
                    }
                    i += 1;
                }
                attributes = Some((defined, vals));
            } else if prop_type == K_START_POS {
                return Err(Error::other("kStartPos is unsupported, please report"));
            } else {
                // K_DUMMY and unknown properties are skipped
                if size > (header.len() - *pos) as u64 {
                    return Err(Error::corrupt("property reaches past the header"));
                }
                *pos += size as usize;
            }
        }
        let mut files: Vec<SevenZArchiveEntry> = Vec::new();
        let mut non_empty: usize = 0;
        let mut empty_ct: usize = 0;
        let mut i: usize = 0;
        while i < num_files
            invariant
                i <= num_files,
                *pos <= header@.len(),
                files@.len() == i,
                archive.sub_streams_info == old(archive).sub_streams_info,
                archive.folders == old(archive).folders,
                archive.files == old(archive).files,
                non_empty == count_streamed(files@, i as int),
                ctime matches Some(p) ==> p.1@.len() == num_files,
                atime matches Some(p) ==> p.1@.len() == num_files,
                mtime matches Some(p) ==> p.1@.len() == num_files,
                attributes matches Some(p) ==> p.1@.len() == num_files,
                forall|j: int|
                    0 <= j < i && (#[trigger] files@[j]).has_stream ==> (
                    archive.sub_streams_info matches Some(ssi) && ({
                        let s = count_streamed(files@, j);
                        &&& 0 <= s < ssi.unpack_sizes@.len()
                        &&& s < ssi.crcs@.len()
                        &&& files@[j].size == ssi.unpack_sizes@[s]
                        &&& files@[j].has_crc == bits_of(ssi.has_crc).contains(s)
                        &&& files@[j].crc == ssi.crcs@[s]
                    })),
            decreases num_files - i,
        {
            let mut e = SevenZArchiveEntry::empty();
            match &names {
                Some(ns) => {
                    if i < ns.len() {
                        e.name = ns[i].clone();
                    }
                },
                None => {},
            }
            let has_stream = match &is_empty_stream {
                Some(s) => !s.contains(i),
                None => true,
            };
            e.has_stream = has_stream;
            if has_stream {
                match &archive.sub_streams_info {
                    Some(ssi) => {
                        e.is_directory = false;
                        e.is_anti_item = false;
                        if non_empty >= ssi.crcs.len() || non_empty >= ssi.unpack_sizes.len() {
                            return Err(Error::corrupt("more streams than substream entries"));
                        }
                        e.has_crc = ssi.has_crc.contains(non_empty);
                        e.crc = ssi.crcs[non_empty];
                        e.size = ssi.unpack_sizes[non_empty];
                        non_empty += 1;
                    },
                    None => {
                        return Err(
                            Error::other("Archive contains file with streams but no subStreamsInfo"),
                        );
                    },
                }
            } else {
                e.is_directory = match &is_empty_file {
                    Some(s) => !s.contains(empty_ct),
                    None => true,
                };
                e.is_anti_item = match &is_anti {
                    Some(s) => s.contains(empty_ct),
                    None => false,
                };
                e.has_crc = false;
                e.size = 0;
                if empty_ct < usize::MAX {
                    empty_ct += 1;
                }
            }
            match &ctime {
                Some(p) => {
                    e.has_creation_date = p.0.contains(i);
                    if e.has_creation_date {
                        e.creation_date = p.1[i];
                    }
                },
                None => {},
            }
            match &atime {
                Some(p) => {
                    e.has_access_date = p.0.contains(i);
                    if e.has_access_date {
                        e.access_date = p.1[i];
                    }
                },
                None => {},
            }
            match &mtime {
                Some(p) => {
                    e.has_last_modified_date = p.0.contains(i);
                    if e.has_last_modified_date {
                        e.last_modified_date = p.1[i];
                    }
                },
                None => {},
            }
            match &attributes {
                Some(p) => {
                    e.has_windows_attributes = p.0.contains(i);
                    if e.has_windows_attributes {
                        e.windows_attributes = p.1[i];
                    }
                },
                None => {},
            }
            let ghost pre_files = files@;
            files.push(e);
            proof {
                assert(count_streamed(files@, i + 1) == count_streamed(files@, i as int) + (
                if files@[i as int].has_stream {
                    1int
                } else {
                    0int
                }));
                assert forall|j: int| 0 <= j <= i as int implies count_streamed(files@, j)
                    == count_streamed(pre_files, j) by {
                    lemma_count_streamed_push(pre_files, e, j);
                }
            }
            i += 1;
        }
        archive.files = files;
        let sm = Self::calculate_stream_map(archive)?;
        archive.stream_map = sm;
        Ok(())
    }

    /// Derives the stream map: per-folder first packed stream, packed
    /// byte offsets, and the file-to-folder assignment in file order.
    fn calculate_stream_map(archive: &Archive) -> (r: Result<StreamMap, Error>)
        ensures
            r matches Ok(sm) ==> {
                &&& sm.file_folder_index@.len() == archive.files@.len()
                &&& sm.folder_first_pack_stream_index@.len() == archive.folders@.len()
                &&& sm.folder_first_file_index@.len() == archive.folders@.len()
                &&& sm.pack_stream_offsets@.len() == archive.pack_sizes@.len()
                &&& forall|f: int|
                    0 <= f < archive.folders@.len() ==> #[trigger] sm.folder_first_pack_stream_index@[f]
                        == sum_packed_streams(archive.folders@, f)
                &&& forall|p: int|
                    0 <= p < archive.pack_sizes@.len() ==> #[trigger] sm.pack_stream_offsets@[p]
                        == sum_pack_sizes(archive.pack_sizes@, p)
                &&& forall|j: int|
                    0 <= j < sm.file_folder_index@.len() ==> ((#[trigger] sm.file_folder_index@[j])
                        matches Some(f) ==> 0 <= f < archive.folders@.len())
                &&& forall|j: int|
                    0 <= j < archive.files@.len() && (#[trigger] archive.files@[j]).has_stream
                        ==> (sm.file_folder_index@[j] matches Some(f) && sum_sub_streams(
                        archive.folders@,
                        f as int,
                    ) <= count_streamed(archive.files@, j) < sum_sub_streams(
                        archive.folders@,
                        f as int + 1,
                    ))
                &&& forall|f: int, j: int|
                    #![trigger archive.folders@[f], archive.files@[j]]
                    0 <= f < archive.folders@.len() && 0 <= j < archive.files@.len()
                        && archive.files@[j].has_stream && count_streamed(archive.files@, j)
                        == sum_sub_streams(archive.folders@, f)
                        && archive.folders@[f].num_unpack_sub_streams > 0
                        ==> sm.folder_first_file_index@[f] == j
            },
    {
        let nfolders = archive.folders.len();
        let mut folder_first_pack_stream_index: Vec<usize> = Vec::new();
        let mut next_pack: usize = 0;
        let mut i: usize = 0;
        while i < nfolders
            invariant
                i <= nfolders,
                nfolders == archive.folders@.len(),
                folder_first_pack_stream_index@.len() == i,
                next_pack == sum_packed_streams(archive.folders@, i as int),
                forall|f: int|
                    0 <= f < i ==> #[trigger] folder_first_pack_stream_index@[f]
                        == sum_packed_streams(archive.folders@, f),
            decreases nfolders - i,
        {
            folder_first_pack_stream_index.push(next_pack);
            let n = archive.folders[i].packed_streams.len();
            if n > usize::MAX - next_pack {
                return Err(Error::corrupt("too many packed streams"));
            }
            next_pack += n;
            i += 1;
        }
        let mut pack_stream_offsets: Vec<u64> = Vec::new();
        let mut next_offset: u64 = 0;
        let mut k: usize = 0;
        while k < archive.pack_sizes.len()
            invariant
                k <= archive.pack_sizes@.len(),
                pack_stream_offsets@.len() == k,
                next_offset == sum_pack_sizes(archive.pack_sizes@, k as int),
                forall|p: int|
                    0 <= p < k ==> #[trigger] pack_stream_offsets@[p] == sum_pack_sizes(
                        archive.pack_sizes@,
                        p,
                    ),
            decreases archive.pack_sizes@.len() - k,
        {
            pack_stream_offsets.push(next_offset);
            let sz = archive.pack_sizes[k];
            if sz > u64::MAX - next_offset {
                return Err(Error::corrupt("packed stream offsets overflow"));
            }
            next_offset += sz;
            k += 1;
        }
        let mut folder_first_file_index: Vec<usize> = Vec::new();
        let mut z: usize = 0;
        while z < nfolders
            invariant
                z <= nfolders,
                folder_first_file_index@.len() == z,
            decreases nfolders - z,
        {
            folder_first_file_index.push(0);
            z += 1;
        }
        let nfiles = archive.files.len();
        let mut file_folder_index: Vec<Option<usize>> = Vec::new();
        let mut next_folder: usize = 0;
        let mut next_sub: usize = 0;
        let mut fi: usize = 0;
        while fi < nfiles
            invariant
                fi <= nfiles,
                nfiles == archive.files@.len(),
                nfolders == archive.folders@.len(),
                folder_first_file_index@.len() == nfolders,
                file_folder_index@.len() == fi,
                next_folder <= nfolders,
                next_sub > 0 ==> next_folder < nfolders && next_sub
                    < archive.folders@[next_folder as int].num_unpack_sub_streams,
                next_sub == 0 ==> count_streamed(archive.files@, fi as int) == sum_sub_streams(
                    archive.folders@,
                    next_folder as int,
                ),
                next_sub > 0 ==> count_streamed(archive.files@, fi as int) == sum_sub_streams(
                    archive.folders@,
                    next_folder as int,
                ) + next_sub,
                forall|j: int|
                    0 <= j < file_folder_index@.len() ==> ((#[trigger] file_folder_index@[j])
                        matches Some(f) ==> 0 <= f < nfolders),
                forall|j: int|
                    0 <= j < fi && (#[trigger] archive.files@[j]).has_stream ==> (
                    file_folder_index@[j] matches Some(f) && sum_sub_streams(
                        archive.folders@,
                        f as int,
                    ) <= count_streamed(archive.files@, j) < sum_sub_streams(
                        archive.folders@,
                        f as int + 1,
                    )),
                forall|f: int, j: int|
                    #![trigger archive.folders@[f], archive.files@[j]]
                    0 <= f < nfolders && 0 <= j < fi && archive.files@[j].has_stream
                        && count_streamed(archive.files@, j) == sum_sub_streams(
                        archive.folders@,
                        f,
                    ) && archive.folders@[f].num_unpack_sub_streams > 0
                        ==> folder_first_file_index@[f] == j,
            decreases nfiles - fi,
        {
            let ghost s_fi = count_streamed(archive.files@, fi as int);
            let has_stream = archive.files[fi].has_stream;
            proof {
                assert(count_streamed(archive.files@, fi as int + 1) == s_fi + (
                if archive.files@[fi as int].has_stream {
                    1int
                } else {
                    0int
                }));
            }
            if !has_stream && next_sub == 0 {
                file_folder_index.push(None);
                fi += 1;
                continue ;
            }
            if next_sub == 0 {
                while next_folder < nfolders
                    invariant
                        next_folder <= nfolders,
                        nfolders == archive.folders@.len(),
                        nfiles == archive.files@.len(),
                        folder_first_file_index@.len() == nfolders,
                        fi < nfiles,
                        count_streamed(archive.files@, fi as int) == sum_sub_streams(
                            archive.folders@,
                            next_folder as int,
                        ),
                        forall|f: int, j: int|
                            #![trigger archive.folders@[f], archive.files@[j]]
                            0 <= f < nfolders && 0 <= j < fi && archive.files@[j].has_stream
                                && count_streamed(archive.files@, j) == sum_sub_streams(
                                archive.folders@,
                                f,
                            ) && archive.folders@[f].num_unpack_sub_streams > 0
                                ==> folder_first_file_index@[f] == j,
                    ensures
                        folder_first_file_index@.len() == nfolders,
                        next_folder >= nfolders || (next_folder < nfolders
                            && archive.folders@[next_folder as int].num_unpack_sub_streams > 0
                            && count_streamed(archive.files@, fi as int) == sum_sub_streams(
                            archive.folders@,
                            next_folder as int,
                        ) && folder_first_file_index@[next_folder as int] == fi),
                        forall|f: int, j: int|
                            #![trigger archive.folders@[f], archive.files@[j]]
                            0 <= f < nfolders && 0 <= j < fi && archive.files@[j].has_stream
                                && count_streamed(archive.files@, j) == sum_sub_streams(
                                archive.folders@,
                                f,
                            ) && archive.folders@[f].num_unpack_sub_streams > 0
                                ==> folder_first_file_index@[f] == j,
                    decreases nfolders - next_folder,
                {
                    let ghost pre_scan = folder_first_file_index@;
                    folder_first_file_index.set(next_folder, fi);
                    proof {
                        assert forall|f: int, j: int|
                            #![trigger archive.folders@[f], archive.files@[j]]
                            0 <= f < nfolders && 0 <= j < fi && archive.files@[j].has_stream
                                && count_streamed(archive.files@, j) == sum_sub_streams(
                                archive.folders@,
                                f,
                            ) && archive.folders@[f].num_unpack_sub_streams
                                > 0 implies folder_first_file_index@[f] == j by {
                            assert(count_streamed(archive.files@, j + 1) == count_streamed(
                                archive.files@,
                                j,
                            ) + 1);
                            lemma_count_streamed_mono(archive.files@, j + 1, fi as int);
                            if f >= next_folder as int {
                                lemma_sum_sub_streams_mono(
                                    archive.folders@,
                                    next_folder as int,
                                    f,
                                );
                            }
                            assert(folder_first_file_index@[f] == pre_scan[f]);
                        }
                    }
                    if archive.folders[next_folder].num_unpack_sub_streams > 0 {
                        break ;
                    }
                    next_folder += 1;
                }
                if next_folder >= nfolders {
                    return Err(Error::other("Too few folders in archive"));
                }
            }
            let ghost pre_ffi = file_folder_index@;
            file_folder_index.push(Some(next_folder));
            proof {
                let fs = archive.folders@;
                let nf0 = next_folder as int;
                assert(sum_sub_streams(fs, nf0 + 1) == sum_sub_streams(fs, nf0)
                    + fs[nf0].num_unpack_sub_streams);
                assert(file_folder_index@[fi as int] == Some(next_folder));
                assert forall|j: int|
                    0 <= j < fi && (#[trigger] archive.files@[j]).has_stream implies (
                file_folder_index@[j] matches Some(f) && sum_sub_streams(fs, f as int)
                    <= count_streamed(archive.files@, j) < sum_sub_streams(
                    fs,
                    f as int + 1,
                )) by {
                    assert(file_folder_index@[j] == pre_ffi[j]);
                }
                assert forall|f: int, j: int|
                    #![trigger archive.folders@[f], archive.files@[j]]
                    0 <= f < nfolders && 0 <= j < fi + 1 && archive.files@[j].has_stream
                        && count_streamed(archive.files@, j) == sum_sub_streams(
                        archive.folders@,
                        f,
                    ) && archive.folders@[f].num_unpack_sub_streams
                        > 0 implies folder_first_file_index@[f] == j by {
                    if j == fi {
                        if f < nf0 {
                            assert(sum_sub_streams(archive.folders@, f + 1) == sum_sub_streams(
                                archive.folders@,
                                f,
                            ) + archive.folders@[f].num_unpack_sub_streams);
                            lemma_sum_sub_streams_mono(archive.folders@, f + 1, nf0);
                        } else if f > nf0 {
                            lemma_sum_sub_streams_mono(archive.folders@, nf0 + 1, f);
                        }
                    }
                }
            }
            if !has_stream {
                fi += 1;
                continue ;
            }
            if next_sub < usize::MAX {
                next_sub += 1;
            }
            if next_sub >= archive.folders[next_folder].num_unpack_sub_streams {
                next_folder += 1;
                next_sub = 0;
            }
            fi += 1;
        }
        Ok(
            StreamMap {
                folder_first_pack_stream_index,
                pack_stream_offsets,
                folder_first_file_index,
                file_folder_index,
            },
        )
    }
}

/// Reads 7z archives held in memory: parses the headers once, then
/// decodes folders and slices per-entry streams out of them.
pub struct SevenZReader {
    pub source: Vec<u8>,
    pub archive: Archive,
    pub password: Vec<u8>,
}

impl SevenZReader {
    /// Parses the archive image and keeps it together with the password
    /// for later folder decoding.
    pub fn new(source: Vec<u8>, password: Password) -> (r: Result<SevenZReader, Error>)
        ensures
            r matches Ok(rd) ==> rd.source == source && rd.password@ == password.bytes@
                && stream_map_covers_files(rd.archive),
            r is Ok ==> source@.len() >= 32 && source@.subrange(0, 6) == spec_signature(),
            source@.len() >= 6 && source@.subrange(0, 6) != spec_signature() ==> (r matches Err(e)
                && e is BadSignature),
            source@.len() >= 8 && source@.subrange(0, 6) == spec_signature() && source@[6] != 0
                ==> (r matches Err(e) && e is UnsupportedVersion),
            source@.len() >= 32 && source@.subrange(0, 6) == spec_signature() && source@[6] == 0
                && u32_le_at(source@, 8) != 0 && crc32_of(source@.subrange(12, 32)) as int
                != u32_le_at(source@, 8) ==> (r matches Err(e) && e is ChecksumVerificationFailed),
            ({
                let off = 32 + u64_le_at(source@, 12);
                let nhs = u64_le_at(source@, 20);
                source@.len() >= 32 && source@.subrange(0, 6) == spec_signature() && source@[6]
                    == 0 && u32_le_at(source@, 8) != 0 && crc32_of(
                    source@.subrange(12, 32),
                ) as int == u32_le_at(source@, 8) && nhs <= usize::MAX && off + nhs
                    <= source@.len() && crc32_of(source@.subrange(off, off + nhs)) as int
                    != u32_le_at(source@, 28)
            }) ==> (r matches Err(e) && e is NextHeaderCrcMismatch),
    {
        let pw = password.to_vec();
        let archive = Archive::read(&source, &pw)?;
        Ok(SevenZReader { source, archive, password: pw })
    }

    /// Decodes one folder to its full unpack size, verifying a declared
    /// folder CRC.
    fn decode_folder_at(&self, folder_index: usize) -> (r: Result<Vec<u8>, Error>)
        ensures
            r matches Ok(v) ==> folder_index < self.archive.folders@.len() && is_unpack_size(
                self.archive.folders@[folder_index as int],
                v@.len() as int,
            ) && (self.archive.folders@[folder_index as int].has_crc
                ==> self.archive.folders@[folder_index as int].crc == crc32_of(v@) as u64),
    {
        let a = &self.archive;
        if folder_index >= a.folders.len() {
            return Err(Error::corrupt("folder index out of range"));
        }
        let sm = &a.stream_map;
        if folder_index >= sm.folder_first_pack_stream_index.len() {
            return Err(Error::corrupt("stream map too short"));
        }
        let fp = sm.folder_first_pack_stream_index[folder_index];
        if fp >= a.pack_sizes.len() || fp >= sm.pack_stream_offsets.len() {
            return Err(Error::corrupt("packed stream index out of range"));
        }
        if a.pack_pos > u64::MAX - SIGNATURE_HEADER_SIZE {
            return Err(Error::corrupt("pack position out of range"));
        }
        let base = SIGNATURE_HEADER_SIZE + a.pack_pos;
        let off = sm.pack_stream_offsets[fp];
        if off > u64::MAX - base {
            return Err(Error::corrupt("pack offset out of range"));
        }
        let folder_offset = base + off;
        let folder = &a.folders[folder_index];
        if !check_folder_wf(folder) {
            return Err(Error::corrupt("malformed folder"));
        }
        decode_folder(&self.source, folder, folder_offset, a.pack_sizes[fp], &self.password)
    }

    /// Extracts entry `index` alone: the decompressed byte stream has
    /// exactly the entry's size, and a declared entry CRC-32 is verified.
    pub fn read_file(&self, index: usize) -> (r: Result<Vec<u8>, Error>)
        ensures
            r matches Ok(v) ==> index < self.archive.files@.len() && v@.len()
                == self.archive.files@[index as int].size && (self.archive.files@[
                index as int
            ].has_crc ==> self.archive.files@[index as int].crc == crc32_of(v@) as u64),
    {
        if index >= self.archive.files.len() {
            return Err(Error::corrupt("entry index out of range"));
        }
        if index >= self.archive.stream_map.file_folder_index.len() {
            return Err(Error::corrupt("stream map too short"));
        }
        let size64 = self.archive.files[index].size;
        if size64 > usize::MAX as u64 {
            return Err(Error::corrupt("entry size outside the addressable range"));
        }
        let size = size64 as usize;
        match self.archive.stream_map.file_folder_index[index] {
            None => {
                if size != 0 {
                    return Err(Error::corrupt("entry without a stream has a nonzero size"));
                }
                let v: Vec<u8> = Vec::new();
                if self.archive.files[index].has_crc {
                    let c = crc32_cksum(&v);
                    if c as u64 != self.archive.files[index].crc {
                        return Err(Error::ChecksumVerificationFailed);
                    }
                }
                Ok(v)
            },
            Some(f) => {
                let folder_out = self.decode_folder_at(f)?;
                if f >= self.archive.stream_map.folder_first_file_index.len() {
                    return Err(Error::corrupt("stream map too short"));
                }
                let start_file = self.archive.stream_map.folder_first_file_index[f];
                if start_file > index {
                    return Err(Error::corrupt("stream map is inconsistent"));
                }
                let mut offset: usize = 0;
                let mut j: usize = start_file;
                while j < index
                    invariant
                        start_file <= j <= index,
                        index < self.archive.files@.len(),
                        index < self.archive.stream_map.file_folder_index@.len(),
                        offset <= usize::MAX,
                    decreases index - j,
                {
                    if j >= self.archive.stream_map.file_folder_index.len() {
                        return Err(Error::corrupt("stream map too short"));
                    }
                    let same = match self.archive.stream_map.file_folder_index[j] {
                        Some(g) => g == f,
                        None => false,
                    };
                    if same && self.archive.files[j].has_stream {
                        let s = self.archive.files[j].size;
                        if s > (usize::MAX - offset) as u64 {
                            return Err(Error::corrupt("entry offsets overflow"));
                        }
                        offset += s as usize;
                    }
                    j += 1;
                }
                if offset > folder_out.len() || size > folder_out.len() - offset {
                    return Err(Error::corrupt("entry reaches past its folder"));
                }
                let mut piece: Vec<u8> = Vec::new();
                let mut t: usize = 0;
                while t < size
                    invariant
                        t <= size,
                        offset + size <= folder_out@.len(),
                        folder_out@.len() <= usize::MAX,
                        piece@.len() == t,
                    decreases size - t,
                {
                    piece.push(folder_out[offset + t]);
                    t += 1;
                }
                if self.archive.files[index].has_crc {
                    let c = crc32_cksum(&piece);
                    if c as u64 != self.archive.files[index].crc {
                        return Err(Error::ChecksumVerificationFailed);
                    }
                }
                Ok(piece)
            },
        }
    }

    /// Extracts every entry in file order, reusing each folder's decoded
    /// output for the entries that share it.  Every produced stream has
    /// exactly its entry's size, and declared entry CRC-32 values hold.
    pub fn read_all(&self) -> (r: Result<Vec<Vec<u8>>, Error>)
        ensures
            r matches Ok(list) ==> list@.len() == self.archive.files@.len() && forall|i: int|
                0 <= i < list@.len() ==> (#[trigger] list@[i])@.len() == self.archive.files@[i].size
                    && (self.archive.files@[i].has_crc ==> self.archive.files@[i].crc == crc32_of(
                    list@[i]@,
                ) as u64),
    {
        let nfiles = self.archive.files.len();
        let mut result: Vec<Vec<u8>> = Vec::new();
        let mut cache: Vec<u8> = Vec::new();
        let mut cache_folder: Option<usize> = None;
        let mut offset: usize = 0;
        let mut i: usize = 0;
        while i < nfiles
            invariant
                i <= nfiles,
                nfiles == self.archive.files@.len(),
                result@.len() == i,
                offset <= cache@.len(),
                forall|j: int|
                    0 <= j < result@.len() ==> (#[trigger] result@[j])@.len()
                        == self.archive.files@[j].size && (self.archive.files@[j].has_crc
                        ==> self.archive.files@[j].crc == crc32_of(result@[j]@) as u64),
            decreases nfiles - i,
        {
            if i >= self.archive.stream_map.file_folder_index.len() {
                return Err(Error::corrupt("stream map too short"));
            }
            let size64 = self.archive.files[i].size;
            if size64 > usize::MAX as u64 {
                return Err(Error::corrupt("entry size outside the addressable range"));
            }
            let size = size64 as usize;
            let folder_index = self.archive.stream_map.file_folder_index[i];
            let piece: Vec<u8>;
            match folder_index {
                None => {
                    if size != 0 {
                        return Err(Error::corrupt("entry without a stream has a nonzero size"));
                    }
                    piece = Vec::new();
                },
                Some(f) => {
                    let same = match cache_folder {
                        Some(g) => g == f,
                        None => false,
                    };
                    if !same {
                        cache = self.decode_folder_at(f)?;
                        cache_folder = Some(f);
                        offset = 0;
                    }
                    if size > cache.len() - offset {
                        return Err(Error::corrupt("entry reaches past its folder"));
                    }
                    let mut p: Vec<u8> = Vec::new();
                    let mut t: usize = 0;
                    while t < size
                        invariant
                            t <= size,
                            offset + size <= cache@.len(),
                            cache@.len() <= usize::MAX,
                            p@.len() == t,
                        decreases size - t,
                    {
                        p.push(cache[offset + t]);
                        t += 1;
                    }
                    offset += size;
                    piece = p;
                },
            }
            if self.archive.files[i].has_crc {
                let c = crc32_cksum(&piece);
                if c as u64 != self.archive.files[i].crc {
                    return Err(Error::ChecksumVerificationFailed);
                }
            }
            if piece.len() != size {
                return Err(Error::corrupt("entry has the wrong number of bytes"));
            }
            result.push(piece);
            i += 1;
        }
        Ok(result)
    }
}

} // verus!
