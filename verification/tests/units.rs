//! Unit tests for the smaller pieces: the bounded reader, passwords,
//! memory estimates, and the error constructors.

use xeno::lzma_reader;
use xeno::lzma2_reader;
use xeno::password::Password;
use xeno::reader::BoundedReader;
use xeno::Error;

#[test]
fn bounded_reader_stops_at_its_bound() {
    let mut r = BoundedReader::new(vec![1, 2, 3, 4, 5], 3);
    let mut out = Vec::new();
    assert_eq!(r.read(&mut out, 2), 2);
    assert_eq!(r.read(&mut out, 10), 1);
    assert_eq!(r.read(&mut out, 10), 0);
    assert_eq!(out, vec![1, 2, 3]);
}

#[test]
fn bounded_reader_stops_at_the_buffer_end() {
    let mut r = BoundedReader::new(vec![9, 8], 100);
    let mut out = Vec::new();
    assert_eq!(r.read(&mut out, 5), 2);
    assert_eq!(r.read(&mut out, 5), 0);
    assert_eq!(out, vec![9, 8]);
}

#[test]
fn password_encodes_utf16le() {
    let p = Password::from_str("ab");
    assert_eq!(p.to_vec(), vec![0x61, 0, 0x62, 0]);
    assert!(Password::empty().to_vec().is_empty());
    assert_eq!(Password::new(vec![1, 2]).to_vec(), vec![1, 2]);
}

#[test]
fn lzma_memory_estimate_follows_the_formula() {
    // 10 + dict/1024 + (1536 << (lc + lp)) / 1024, dict floored at 4096
    assert_eq!(lzma_reader::get_memery_usage(1 << 20, 3, 0).unwrap(), 10 + 1024 + 12);
    assert_eq!(lzma_reader::get_memery_usage(0, 0, 0).unwrap(), 10 + 4 + 1);
    assert!(lzma_reader::get_memery_usage(1 << 20, 9, 0).is_err());
    assert!(lzma_reader::get_memery_usage_by_props(1 << 20, 225).is_err());
    assert_eq!(
        lzma_reader::get_memery_usage_by_props(1 << 20, 93).unwrap(),
        lzma_reader::get_memery_usage(1 << 20, 3, 0).unwrap()
    );
}

#[test]
fn lzma2_memory_estimate_follows_the_formula() {
    assert_eq!(lzma2_reader::get_memery_usage(1 << 20), 40 + 64 + 1024);
    assert_eq!(lzma2_reader::get_dict_size(17), 32);
}

#[test]
fn error_constructors_carry_their_messages() {
    match Error::other("abc") {
        Error::Other(m) => assert_eq!(m, "abc"),
        _ => unreachable!(),
    }
    match Error::io("def") {
        Error::Io(m) => assert_eq!(m, "def"),
        _ => unreachable!(),
    }
    match Error::corrupt("ghi") {
        Error::CorruptInput(m) => assert_eq!(m, "ghi"),
        _ => unreachable!(),
    }
}
