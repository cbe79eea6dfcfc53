//! End-to-end tests over archives built in memory: the copy coder, LZMA
//! and LZMA2 folders, a Delta+LZMA chain, empty files, an encoded header,
//! and the error paths for corrupted bytes.

use xeno::reader::SevenZReader;
use xeno::Error;
use xeno::Password;

fn crc32(data: &[u8]) -> u32 {
    crc::Crc::<u32>::new(&crc::CRC_32_ISO_HDLC).checksum(data)
}

/// Encodes the 7z variable-length integer.
fn u64v(v: u64) -> Vec<u8> {
    for n in 0..8u32 {
        let bits = 7 * (n + 1);
        if bits >= 64 || v < (1u64 << bits) {
            let mut first: u8 = 0;
            for k in 0..n {
                first |= 0x80 >> k;
            }
            let low_mask: u8 = (0x80u8 >> n).wrapping_sub(1);
            first |= ((v >> (8 * n)) as u8) & low_mask;
            let mut out = vec![first];
            for k in 0..n {
                out.push((v >> (8 * k)) as u8);
            }
            return out;
        }
    }
    let mut out = vec![0xFFu8];
    out.extend_from_slice(&v.to_le_bytes());
    out
}

fn utf16le(s: &str) -> Vec<u8> {
    let mut out = Vec::new();
    for u in s.encode_utf16() {
        out.extend_from_slice(&u.to_le_bytes());
    }
    out
}

/// kFilesInfo for the given names, all with streams.
fn files_info(names: &[&str]) -> Vec<u8> {
    let mut h = Vec::new();
    h.push(5u8); // kFilesInfo
    h.extend_from_slice(&u64v(names.len() as u64));
    let mut name_bytes = Vec::new();
    for n in names {
        name_bytes.extend_from_slice(&utf16le(n));
        name_bytes.extend_from_slice(&[0, 0]);
    }
    h.push(17u8); // kName
    h.extend_from_slice(&u64v(1 + name_bytes.len() as u64));
    h.push(0); // external
    h.extend_from_slice(&name_bytes);
    h.push(0); // property list end
    h
}

/// kMainStreamsInfo for one folder fed by one packed stream.
///
/// `coders` lists (id bytes, properties); `bind_pairs` wires output to
/// input stream indices; `unpack_sizes` has one entry per coder output.
/// `substream_sizes` splits the folder output over several files (sizes
/// and optional CRCs); when empty the folder is one substream and its
/// CRC, if given, is the folder CRC.
#[allow(clippy::too_many_arguments)]
fn main_streams_info(
    pack_size: u64,
    coders: &[(&[u8], &[u8])],
    bind_pairs: &[(u64, u64)],
    unpack_sizes: &[u64],
    folder_crc: Option<u32>,
    substreams: Option<(&[u64], &[Option<u32>])>,
) -> Vec<u8> {
    let mut h = Vec::new();
    h.push(4u8); // kMainStreamsInfo
    // kPackInfo
    h.push(6u8);
    h.extend_from_slice(&u64v(0)); // pack pos
    h.extend_from_slice(&u64v(1)); // num pack streams
    h.push(9u8); // kSize
    h.extend_from_slice(&u64v(pack_size));
    h.push(0u8); // end of pack info
    // kUnpackInfo
    h.push(7u8);
    h.push(11u8); // kFolder
    h.extend_from_slice(&u64v(1)); // one folder
    h.push(0u8); // not external
    h.extend_from_slice(&u64v(coders.len() as u64));
    for (id, props) in coders {
        let mut flags = id.len() as u8;
        if !props.is_empty() {
            flags |= 0x20;
        }
        h.push(flags);
        h.extend_from_slice(id);
        if !props.is_empty() {
            h.extend_from_slice(&u64v(props.len() as u64));
            h.extend_from_slice(props);
        }
    }
    for (in_index, out_index) in bind_pairs {
        h.extend_from_slice(&u64v(*in_index));
        h.extend_from_slice(&u64v(*out_index));
    }
    h.push(12u8); // kCodersUnpackSize
    for s in unpack_sizes {
        h.extend_from_slice(&u64v(*s));
    }
    if let Some(c) = folder_crc {
        h.push(10u8); // kCRC
        h.push(1u8); // all defined
        h.extend_from_slice(&c.to_le_bytes());
    }
    h.push(0u8); // end of unpack info
    // kSubStreamsInfo
    h.push(8u8);
    if let Some((sizes, crcs)) = substreams {
        h.push(13u8); // kNumUnpackStream
        h.extend_from_slice(&u64v(sizes.len() as u64));
        if sizes.len() > 1 {
            h.push(9u8); // kSize: all but the last
            for s in &sizes[..sizes.len() - 1] {
                h.extend_from_slice(&u64v(*s));
            }
        }
        let declared: Vec<u32> = crcs.iter().flatten().copied().collect();
        if !declared.is_empty() {
            h.push(10u8); // kCRC
            if declared.len() == crcs.len() {
                h.push(1u8); // all defined
            } else {
                h.push(0u8);
                let mut byte = 0u8;
                let mut nbits = 0;
                let mut packed = Vec::new();
                for c in crcs.iter() {
                    byte <<= 1;
                    if c.is_some() {
                        byte |= 1;
                    }
                    nbits += 1;
                    if nbits == 8 {
                        packed.push(byte);
                        byte = 0;
                        nbits = 0;
                    }
                }
                if nbits > 0 {
                    packed.push(byte << (8 - nbits));
                }
                h.extend_from_slice(&packed);
            }
            for c in &declared {
                h.extend_from_slice(&c.to_le_bytes());
            }
        }
    }
    h.push(0u8); // end of substreams info
    h.push(0u8); // end of streams info
    h
}

/// Assembles a complete archive image from the packed area and the plain
/// header body (which must start with kHeader).
fn assemble(pack: &[u8], header: &[u8]) -> Vec<u8> {
    let mut start_header = Vec::new();
    start_header.extend_from_slice(&(pack.len() as u64).to_le_bytes());
    start_header.extend_from_slice(&(header.len() as u64).to_le_bytes());
    start_header.extend_from_slice(&crc32(header).to_le_bytes());
    let mut data = vec![0x37u8, 0x7A, 0xBC, 0xAF, 0x27, 0x1C, 0, 4];
    data.extend_from_slice(&crc32(&start_header).to_le_bytes());
    data.extend_from_slice(&start_header);
    data.extend_from_slice(pack);
    data.extend_from_slice(header);
    data
}

/// A single-file archive with a copy coder and a file CRC.
fn copy_archive(name: &str, content: &[u8]) -> Vec<u8> {
    let mut header = vec![1u8]; // kHeader
    header.extend_from_slice(&main_streams_info(
        content.len() as u64,
        &[(&[0x00], &[])],
        &[],
        &[content.len() as u64],
        Some(crc32(content)),
        None,
    ));
    header.extend_from_slice(&files_info(&[name]));
    header.push(0); // end of header
    assemble(content, &header)
}

fn lzma_pack(content: &[u8]) -> (Vec<u8>, Vec<u8>) {
    let mut compressed = Vec::new();
    lzma_rs::lzma_compress(&mut std::io::Cursor::new(content), &mut compressed).unwrap();
    // 13-byte header: properties byte, dictionary size, unpacked size
    let props = compressed[..5].to_vec();
    let stream = compressed[13..].to_vec();
    (props, stream)
}

fn lzma_archive(name: &str, content: &[u8]) -> Vec<u8> {
    let (props, stream) = lzma_pack(content);
    let mut header = vec![1u8];
    header.extend_from_slice(&main_streams_info(
        stream.len() as u64,
        &[(&[0x03, 0x01, 0x01], &props)],
        &[],
        &[content.len() as u64],
        Some(crc32(content)),
        None,
    ));
    header.extend_from_slice(&files_info(&[name]));
    header.push(0);
    assemble(&stream, &header)
}

#[test]
fn copy_archive_single_file() {
    let data = copy_archive("copy.txt", b"simple copy encoding");
    let reader = SevenZReader::new(data, Password::empty()).unwrap();
    assert_eq!(reader.archive.files.len(), 1);
    assert_eq!(reader.archive.files[0].name().as_str(), "copy.txt");
    let contents = reader.read_all().unwrap();
    assert_eq!(contents[0], b"simple copy encoding".to_vec());
}

#[test]
fn lzma_archive_single_file() {
    let data = lzma_archive("file.txt", b"this is a file\n");
    let reader = SevenZReader::new(data, Password::empty()).unwrap();
    assert_eq!(reader.archive.files[0].name().as_str(), "file.txt");
    let contents = reader.read_all().unwrap();
    assert_eq!(contents[0], b"this is a file\n".to_vec());
}

#[test]
fn lzma_archive_two_files_share_one_folder() {
    let all = b"file one content\nfile two content\n";
    let (props, stream) = lzma_pack(all);
    let c1 = crc32(b"file one content\n");
    let c2 = crc32(b"file two content\n");
    let mut header = vec![1u8];
    header.extend_from_slice(&main_streams_info(
        stream.len() as u64,
        &[(&[0x03, 0x01, 0x01], &props)],
        &[],
        &[all.len() as u64],
        None,
        Some((&[17, 17], &[Some(c1), Some(c2)])),
    ));
    header.extend_from_slice(&files_info(&["file1.txt", "file2.txt"]));
    header.push(0);
    let data = assemble(&stream, &header);
    let reader = SevenZReader::new(data, Password::empty()).unwrap();
    let contents = reader.read_all().unwrap();
    assert_eq!(contents[0], b"file one content\n".to_vec());
    assert_eq!(contents[1], b"file two content\n".to_vec());
    assert_eq!(reader.read_file(1).unwrap(), b"file two content\n".to_vec());
}

#[test]
fn lzma2_archive_single_file() {
    let content = b"simple copy encoding";
    let mut stream = Vec::new();
    lzma_rs::lzma2_compress(&mut std::io::Cursor::new(&content[..]), &mut stream).unwrap();
    let mut header = vec![1u8];
    header.extend_from_slice(&main_streams_info(
        stream.len() as u64,
        &[(&[0x21], &[0x00])],
        &[],
        &[content.len() as u64],
        Some(crc32(content)),
        None,
    ));
    header.extend_from_slice(&files_info(&["copy.txt"]));
    header.push(0);
    let data = assemble(&stream, &header);
    let reader = SevenZReader::new(data, Password::empty()).unwrap();
    let contents = reader.read_all().unwrap();
    assert_eq!(contents[0], content.to_vec());
}

#[test]
fn delta_lzma_chain_archive() {
    let content = b"aaaabbbbcccc";
    let dist = 1usize;
    // the encoder side of the delta filter
    let mut encoded = content.to_vec();
    for i in (0..encoded.len()).rev() {
        let prev = if i >= dist { content[i - dist] } else { 0 };
        encoded[i] = content[i].wrapping_sub(prev);
    }
    let (props, stream) = lzma_pack(&encoded);
    let mut header = vec![1u8];
    header.extend_from_slice(&main_streams_info(
        stream.len() as u64,
        &[(&[0x03, 0x01, 0x01], &props), (&[0x03], &[(dist - 1) as u8])],
        &[(1, 0)],
        &[content.len() as u64, content.len() as u64],
        Some(crc32(content)),
        None,
    ));
    header.extend_from_slice(&files_info(&["delta.txt"]));
    header.push(0);
    let data = assemble(&stream, &header);
    let reader = SevenZReader::new(data, Password::empty()).unwrap();
    let contents = reader.read_all().unwrap();
    assert_eq!(contents[0], b"aaaabbbbcccc".to_vec());
}

/// An archive of empty files alone has no streams info at all.
fn empty_files_archive(names: &[&str]) -> Vec<u8> {
    let mut header = vec![1u8, 5u8]; // kHeader, kFilesInfo
    header.extend_from_slice(&u64v(names.len() as u64));
    let nbytes = (names.len() + 7) / 8;
    // every entry has an empty stream
    header.push(14u8); // kEmptyStream
    header.extend_from_slice(&u64v(nbytes as u64));
    header.extend_from_slice(&vec![0xFFu8; nbytes]);
    // and every entry is a file, not a directory
    header.push(15u8); // kEmptyFile
    header.extend_from_slice(&u64v(nbytes as u64));
    header.extend_from_slice(&vec![0xFFu8; nbytes]);
    let mut name_bytes = Vec::new();
    for n in names {
        name_bytes.extend_from_slice(&utf16le(n));
        name_bytes.extend_from_slice(&[0, 0]);
    }
    header.push(17u8); // kName
    header.extend_from_slice(&u64v(1 + name_bytes.len() as u64));
    header.push(0);
    header.extend_from_slice(&name_bytes);
    header.push(0); // property list end
    header.push(0); // header end
    assemble(&[], &header)
}

#[test]
fn archive_with_single_empty_file() {
    let data = empty_files_archive(&["empty.txt"]);
    let reader = SevenZReader::new(data, Password::empty()).unwrap();
    assert_eq!(reader.archive.files.len(), 1);
    assert_eq!(reader.archive.files[0].name().as_str(), "empty.txt");
    assert_eq!(reader.archive.files[0].size(), 0);
    assert!(!reader.archive.files[0].is_directory());
    let contents = reader.read_all().unwrap();
    assert_eq!(contents[0], b"".to_vec());
}

#[test]
fn archive_with_two_empty_files() {
    let data = empty_files_archive(&["file1.txt", "file2.txt"]);
    let reader = SevenZReader::new(data, Password::empty()).unwrap();
    assert_eq!(reader.archive.files.len(), 2);
    assert_eq!(reader.archive.files[0].name().as_str(), "file1.txt");
    assert_eq!(reader.archive.files[1].name().as_str(), "file2.txt");
    let contents = reader.read_all().unwrap();
    assert_eq!(contents[0], b"".to_vec());
    assert_eq!(contents[1], b"".to_vec());
}

#[test]
fn encoded_header_archive() {
    // build the plain header for a copy-coder file, then store that
    // header itself as a copy-coder folder after the file's packed bytes
    let content = b"file one content\n";
    let mut plain = vec![1u8];
    plain.extend_from_slice(&main_streams_info(
        content.len() as u64,
        &[(&[0x00], &[])],
        &[],
        &[content.len() as u64],
        Some(crc32(content)),
        None,
    ));
    plain.extend_from_slice(&files_info(&["file1.txt"]));
    plain.push(0);

    let mut encoded = vec![23u8]; // kEncodedHeader
    {
        // streams info for the header folder, packed after the content
        let mut h = Vec::new();
        h.push(6u8); // kPackInfo
        h.extend_from_slice(&u64v(content.len() as u64)); // pack pos
        h.extend_from_slice(&u64v(1));
        h.push(9u8);
        h.extend_from_slice(&u64v(plain.len() as u64));
        h.push(0u8);
        h.push(7u8); // kUnpackInfo
        h.push(11u8);
        h.extend_from_slice(&u64v(1));
        h.push(0u8);
        h.extend_from_slice(&u64v(1)); // one coder
        h.push(1u8); // copy coder, id size 1
        h.push(0x00);
        h.push(12u8); // kCodersUnpackSize
        h.extend_from_slice(&u64v(plain.len() as u64));
        h.push(10u8); // folder CRC
        h.push(1u8);
        h.extend_from_slice(&crc32(&plain).to_le_bytes());
        h.push(0u8); // end unpack info
        h.push(0u8); // end streams info
        encoded.extend_from_slice(&h);
    }
    let mut pack = content.to_vec();
    pack.extend_from_slice(&plain);
    let data = assemble(&pack, &encoded);
    let reader = SevenZReader::new(data, Password::empty()).unwrap();
    assert_eq!(reader.archive.files[0].name().as_str(), "file1.txt");
    let contents = reader.read_all().unwrap();
    assert_eq!(contents[0], b"file one content\n".to_vec());
}

#[test]
fn reading_twice_yields_identical_outputs() {
    let data = lzma_archive("file.txt", b"this is a file\n");
    let reader = SevenZReader::new(data.clone(), Password::empty()).unwrap();
    let first = reader.read_all().unwrap();
    let second = reader.read_all().unwrap();
    assert_eq!(first, second);
    let reader2 = SevenZReader::new(data, Password::empty()).unwrap();
    let third = reader2.read_all().unwrap();
    assert_eq!(first, third);
}

#[test]
fn bad_signature_is_reported() {
    let mut data = copy_archive("a.txt", b"x");
    data[0] ^= 0xFF;
    match SevenZReader::new(data, Password::empty()) {
        Err(Error::BadSignature(_)) => {}
        other => panic!("expected BadSignature, got {:?}", other.err()),
    }
}

#[test]
fn unsupported_version_is_reported() {
    let mut data = copy_archive("a.txt", b"x");
    data[6] = 1;
    match SevenZReader::new(data, Password::empty()) {
        Err(Error::UnsupportedVersion { major: 1, .. }) => {}
        other => panic!("expected UnsupportedVersion, got {:?}", other.err()),
    }
}

#[test]
fn start_header_corruption_is_detected() {
    let mut data = copy_archive("a.txt", b"some bytes here");
    data[12] ^= 0x01; // a start-header byte, invalidating its CRC
    match SevenZReader::new(data, Password::empty()) {
        Err(Error::ChecksumVerificationFailed) => {}
        other => panic!("expected ChecksumVerificationFailed, got {:?}", other.err()),
    }
}

#[test]
fn next_header_corruption_is_detected() {
    let content = b"some bytes here";
    let mut data = copy_archive("a.txt", content);
    let header_start = 32 + content.len();
    data[header_start + 2] ^= 0x01;
    match SevenZReader::new(data, Password::empty()) {
        Err(Error::NextHeaderCrcMismatch) => {}
        other => panic!("expected NextHeaderCrcMismatch, got {:?}", other.err()),
    }
}

#[test]
fn flipped_content_byte_fails_the_crc_check() {
    let content = b"simple copy encoding";
    let mut data = copy_archive("copy.txt", content);
    data[32] ^= 0x01; // first packed byte
    let reader = SevenZReader::new(data, Password::empty()).unwrap();
    match reader.read_all() {
        Err(Error::ChecksumVerificationFailed) => {}
        other => panic!("expected ChecksumVerificationFailed, got {:?}", other.err()),
    }
}

#[test]
fn truncated_pack_region_is_corrupt_input() {
    let content = b"simple copy encoding";
    // declare one packed byte fewer than the copy coder must produce
    let mut header = vec![1u8];
    header.extend_from_slice(&main_streams_info(
        content.len() as u64 - 1,
        &[(&[0x00], &[])],
        &[],
        &[content.len() as u64],
        None,
        None,
    ));
    header.extend_from_slice(&files_info(&["copy.txt"]));
    header.push(0);
    let data = assemble(&content[..content.len() - 1], &header);
    let reader = SevenZReader::new(data, Password::empty()).unwrap();
    match reader.read_all() {
        Err(Error::CorruptInput(_)) => {}
        other => panic!("expected CorruptInput, got {:?}", other.err()),
    }
}

#[test]
fn zeroed_start_header_without_tokens_fails_the_scan() {
    let mut data = vec![0x37u8, 0x7A, 0xBC, 0xAF, 0x27, 0x1C, 0, 4];
    data.extend_from_slice(&[0u8; 4]); // start header CRC 0
    data.extend_from_slice(&[0u8; 20]); // zeroed start header
    data.extend_from_slice(&[0xEEu8; 2048]); // no header tokens anywhere
    match SevenZReader::new(data, Password::empty()) {
        Err(Error::Other(_)) => {}
        other => panic!("expected a scan failure, got {:?}", other.err()),
    }
}

#[test]
fn unknown_coder_is_unsupported() {
    let content = b"x";
    let mut header = vec![1u8];
    header.extend_from_slice(&main_streams_info(
        1,
        &[(&[0x04, 0x02, 0x02], &[])], // bzip2, which this reader does not implement
        &[],
        &[1],
        None,
        None,
    ));
    header.extend_from_slice(&files_info(&["a.txt"]));
    header.push(0);
    let data = assemble(content, &header);
    let reader = SevenZReader::new(data, Password::empty()).unwrap();
    match reader.read_all() {
        Err(Error::UnsupportedCompressionMethod(_)) => {}
        other => panic!("expected UnsupportedCompressionMethod, got {:?}", other.err()),
    }
}

#[test]
fn two_folders_with_their_own_packed_streams() {
    let a = b"first folder bytes";
    let b = b"second folder";
    let mut h = vec![1u8, 4u8]; // kHeader, kMainStreamsInfo
    h.push(6u8); // kPackInfo
    h.extend_from_slice(&u64v(0));
    h.extend_from_slice(&u64v(2));
    h.push(9u8);
    h.extend_from_slice(&u64v(a.len() as u64));
    h.extend_from_slice(&u64v(b.len() as u64));
    h.push(0u8);
    h.push(7u8); // kUnpackInfo
    h.push(11u8);
    h.extend_from_slice(&u64v(2));
    h.push(0u8);
    for _ in 0..2 {
        h.extend_from_slice(&u64v(1)); // one coder
        h.push(1u8); // copy
        h.push(0x00);
    }
    h.push(12u8); // kCodersUnpackSize
    h.extend_from_slice(&u64v(a.len() as u64));
    h.extend_from_slice(&u64v(b.len() as u64));
    h.push(0u8); // end unpack info
    h.push(8u8); // kSubStreamsInfo, defaulted
    h.push(0u8);
    h.push(0u8); // end streams info
    h.extend_from_slice(&files_info(&["a.bin", "b.bin"]));
    h.push(0);
    let mut pack = a.to_vec();
    pack.extend_from_slice(b);
    let data = assemble(&pack, &h);
    let reader = SevenZReader::new(data, Password::empty()).unwrap();
    let contents = reader.read_all().unwrap();
    assert_eq!(contents[0], a.to_vec());
    assert_eq!(contents[1], b.to_vec());
    assert_eq!(reader.read_file(0).unwrap(), a.to_vec());
    assert_eq!(reader.read_file(1).unwrap(), b.to_vec());
}

#[test]
fn directory_entry_beside_a_file() {
    let content = b"inner file";
    let mut h = vec![1u8];
    h.extend_from_slice(&main_streams_info(
        content.len() as u64,
        &[(&[0x00], &[])],
        &[],
        &[content.len() as u64],
        Some(crc32(content)),
        None,
    ));
    // files info: entry 0 is a directory (empty stream, not an empty
    // file), entry 1 carries the stream
    h.push(5u8);
    h.extend_from_slice(&u64v(2));
    h.push(14u8); // kEmptyStream: bit 0 set
    h.extend_from_slice(&u64v(1));
    h.push(0b1000_0000);
    h.push(15u8); // kEmptyFile over the one empty entry: clear, a directory
    h.extend_from_slice(&u64v(1));
    h.push(0b0000_0000);
    let mut name_bytes = Vec::new();
    for n in ["dir", "dir.txt"] {
        name_bytes.extend_from_slice(&utf16le(n));
        name_bytes.extend_from_slice(&[0, 0]);
    }
    h.push(17u8);
    h.extend_from_slice(&u64v(1 + name_bytes.len() as u64));
    h.push(0);
    h.extend_from_slice(&name_bytes);
    h.push(0); // property list end
    h.push(0); // header end
    let data = assemble(content, &h);
    let reader = SevenZReader::new(data, Password::empty()).unwrap();
    assert!(reader.archive.files[0].is_directory());
    assert!(!reader.archive.files[0].has_stream);
    assert!(!reader.archive.files[1].is_directory());
    assert_eq!(reader.archive.files[1].size(), content.len() as u64);
    let contents = reader.read_all().unwrap();
    assert_eq!(contents[0], b"".to_vec());
    assert_eq!(contents[1], content.to_vec());
}

#[test]
fn sizes_above_one_byte_use_longer_variable_integers() {
    let content: Vec<u8> = (0..700u32).map(|i| (i * 13 % 256) as u8).collect();
    let data = copy_archive("big.bin", &content);
    let reader = SevenZReader::new(data, Password::empty()).unwrap();
    assert_eq!(reader.archive.files[0].size(), 700);
    let contents = reader.read_all().unwrap();
    assert_eq!(contents[0], content);
}

#[test]
fn bcj_x86_lzma2_chain_archive() {
    // stored form: x86 code whose E8 call targets the branch filter rewrites
    let encoded: Vec<u8> = vec![
        0xE8, 0x12, 0x00, 0x00, 0x00, 0x90, 0x90, 0xE8, 0x05, 0x00, 0x00, 0x00, 0x90, 0xC3, 0x31,
        0xC0, 0xC3, 0x00, 0xE8, 0xFF, 0xFF, 0xFF, 0xFF,
    ];
    let mut expected = encoded.clone();
    xeno::bcj::bcj_x86_decode(&mut expected);
    assert_ne!(expected, encoded, "the filter must rewrite the call targets");
    let mut stream = Vec::new();
    lzma_rs::lzma2_compress(&mut std::io::Cursor::new(&encoded[..]), &mut stream).unwrap();
    let mut header = vec![1u8];
    header.extend_from_slice(&main_streams_info(
        stream.len() as u64,
        &[(&[0x21], &[0x00]), (&[0x03, 0x03, 0x01, 0x03], &[])],
        &[(1, 0)],
        &[encoded.len() as u64, encoded.len() as u64],
        Some(crc32(&expected)),
        None,
    ));
    header.extend_from_slice(&files_info(&["prog.exe"]));
    header.push(0);
    let data = assemble(&stream, &header);
    let reader = SevenZReader::new(data, Password::empty()).unwrap();
    let contents = reader.read_all().unwrap();
    assert_eq!(contents[0], expected);
}
