//! Tests for the common entry models: the 7z adapter listing, the NTFS
//! attribute predicates, and the zip entry accessors.

use xeno::formats::{Entry, FileType};
use xeno::ntfs::{NtfsEntries, NtfsEntry};
use xeno::seven_zip::SevenZipArchive;
use xeno::zip::ZipEntry;

fn crc32(data: &[u8]) -> u32 {
    crc::Crc::<u32>::new(&crc::CRC_32_ISO_HDLC).checksum(data)
}

fn copy_archive_bytes(name: &str, content: &[u8]) -> Vec<u8> {
    let mut header = vec![1u8, 4u8, 6u8];
    header.push(0); // pack pos
    header.push(1); // one packed stream
    header.push(9u8);
    header.push(content.len() as u8);
    header.push(0u8);
    header.push(7u8);
    header.push(11u8);
    header.push(1);
    header.push(0u8);
    header.push(1);
    header.push(1u8); // copy coder
    header.push(0x00);
    header.push(12u8);
    header.push(content.len() as u8);
    header.push(0u8); // end unpack info
    header.push(8u8); // kSubStreamsInfo, defaulted
    header.push(0u8);
    header.push(0u8); // end streams info
    header.push(5u8);
    header.push(1);
    header.push(17u8);
    let nm: Vec<u8> = name.encode_utf16().flat_map(|u| u.to_le_bytes()).collect();
    header.push((1 + nm.len() + 2) as u8);
    header.push(0);
    header.extend_from_slice(&nm);
    header.extend_from_slice(&[0, 0]);
    header.push(0);
    header.push(0);
    let mut start_header = Vec::new();
    start_header.extend_from_slice(&(content.len() as u64).to_le_bytes());
    start_header.extend_from_slice(&(header.len() as u64).to_le_bytes());
    start_header.extend_from_slice(&crc32(&header).to_le_bytes());
    let mut data = vec![0x37u8, 0x7A, 0xBC, 0xAF, 0x27, 0x1C, 0, 4];
    data.extend_from_slice(&crc32(&start_header).to_le_bytes());
    data.extend_from_slice(&start_header);
    data.extend_from_slice(content);
    data.extend_from_slice(&header);
    data
}

#[test]
fn seven_zip_adapter_lists_and_unpacks() {
    let data = copy_archive_bytes("doc.txt", b"adapter payload");
    let archive = SevenZipArchive::create_with_reader(data, None).unwrap();
    let mut entries = archive.entries();
    let e = entries.next_entry().unwrap();
    assert_eq!(e.path_name(), "doc.txt");
    assert_eq!(e.size(), 15);
    assert_eq!(e.file_type(), FileType::RegularFile);
    assert!(entries.next_entry().is_none());
    let contents = archive.unpack_all().unwrap();
    assert_eq!(contents[0], b"adapter payload".to_vec());
}

fn sample_ntfs_entry(attr: u32) -> NtfsEntry {
    NtfsEntry {
        is_dir: false,
        is_file: true,
        size: 42,
        path: String::from("a/b.bin"),
        nt_creation_time: 0,
        nt_access_time: 0,
        nt_modification_time: 0,
        attr,
    }
}

#[test]
fn ntfs_attribute_predicates_follow_the_attribute_word() {
    let read_only = sample_ntfs_entry(0x0001);
    assert!(read_only.ntfs_readonly());
    assert!(!read_only.ntfs_hidden());
    assert!(!read_only.ntfs_system());
    let hidden = sample_ntfs_entry(0x0002);
    assert!(hidden.ntfs_hidden());
    assert!(!hidden.ntfs_readonly());
    let encrypted = sample_ntfs_entry(0x4000);
    assert!(encrypted.ntfs_encrypted());
    assert!(!encrypted.ntfs_readonly());
    assert!(!encrypted.ntfs_system());
    let many = sample_ntfs_entry(0x0224);
    assert!(many.ntfs_system());
    assert!(many.ntfs_archive());
    assert!(many.ntfs_sparse_file());
    assert!(!many.ntfs_compressed());
    assert_eq!(encrypted.file_type(), FileType::RegularFile);
    assert_eq!(encrypted.size(), 42);
    assert_eq!(encrypted.path_name(), "a/b.bin");
}

#[test]
fn ntfs_entries_walk_in_order() {
    let mut entries = NtfsEntries::new(vec![sample_ntfs_entry(0), sample_ntfs_entry(1)]);
    assert_eq!(entries.next_entry().unwrap().attr, 0);
    assert_eq!(entries.next_entry().unwrap().attr, 1);
    assert!(entries.next_entry().is_none());
}

#[test]
fn zip_entry_accessors() {
    let e = ZipEntry {
        index: 3,
        is_dir: true,
        is_file: false,
        size: 0,
        path: String::from("dir/"),
        mode: Some(0o755),
    };
    assert_eq!(e.unix_mode(), Some(0o755));
    assert_eq!(e.file_type(), FileType::Directory);
    assert!(e.hand_link().is_none());
    assert!(e.sym_link().is_none());
    assert!(e.gid().is_none());
    assert!(e.uid().is_none());
}
