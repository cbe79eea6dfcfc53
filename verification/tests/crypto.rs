//! AES-256-SHA-256 stage tests: key derivation against a direct SHA-256
//! computation, CBC decryption against the cipher crates used directly,
//! a full encrypted archive, and the empty-password error.

use aes::cipher::{BlockModeEncrypt, KeyIvInit};
use sha2::Digest;
use xeno::aes256sha256::{cbc_decrypt_stream, derive_key, Aes256Sha256Decoder};
use xeno::reader::SevenZReader;
use xeno::Error;
use xeno::Password;

fn crc32(data: &[u8]) -> u32 {
    crc::Crc::<u32>::new(&crc::CRC_32_ISO_HDLC).checksum(data)
}

fn reference_key(salt: &[u8], password: &[u8], power: u8) -> Vec<u8> {
    let mut sha = sha2::Sha256::new();
    let mut extra = [0u8; 8];
    for _ in 0..(1u64 << power) {
        sha.update(salt);
        sha.update(password);
        sha.update(extra);
        for b in extra.iter_mut() {
            *b = b.wrapping_add(1);
            if *b != 0 {
                break;
            }
        }
    }
    sha.finalize().to_vec()
}

#[test]
fn key_derivation_matches_a_direct_computation() {
    let salt = b"saltysalt".to_vec();
    let password = b"p\0a\0s\0s\0".to_vec();
    for power in [0u8, 1, 3, 8] {
        let got = derive_key(&salt, &password, power).unwrap();
        assert_eq!(got, reference_key(&salt, &password, power));
    }
}

fn encrypt_blocks(key: &[u8], iv: &[u8], plain: &[u8]) -> Vec<u8> {
    let mut enc =
        cbc::Encryptor::<aes::Aes256>::new_from_slices(key, iv).unwrap();
    let mut out = Vec::new();
    for chunk in plain.chunks(16) {
        let mut arr = [0u8; 16];
        arr.copy_from_slice(chunk);
        let mut blk = aes::cipher::Array::from(arr);
        enc.encrypt_block(&mut blk);
        out.extend_from_slice(blk.as_slice());
    }
    out
}

#[test]
fn cbc_stream_decryption_inverts_encryption() {
    let key: Vec<u8> = (0u8..32).collect();
    let iv: Vec<u8> = (100u8..116).collect();
    let plain: Vec<u8> = (0..64u8).map(|i| i.wrapping_mul(37)).collect();
    let ct = encrypt_blocks(&key, &iv, &plain);
    let got = cbc_decrypt_stream(&key, &iv, &ct);
    assert_eq!(got, plain);
}

fn aes_props(power: u8, iv: &[u8; 16]) -> Vec<u8> {
    // bit 6 of byte 0 carries the 16th IV byte count; no salt
    let mut p = vec![power | 0x40, 0x0F];
    p.extend_from_slice(iv);
    p
}

#[test]
fn aes_decoder_decrypts_a_stream() {
    let password = Password::from_str("secret");
    let pw = password.to_vec();
    let power = 3u8;
    let key = reference_key(&[], &pw, power);
    let iv = [7u8; 16];
    let plain = b"0123456789abcdef0123456789abcdef".to_vec();
    let ct = encrypt_blocks(&key, &iv, &plain);
    let dec = Aes256Sha256Decoder::new(&ct, &aes_props(power, &iv), &pw).unwrap();
    assert_eq!(dec.into_output(), plain);
}

#[test]
fn empty_password_is_rejected_before_any_output() {
    let ct = vec![0u8; 16];
    let iv = [0u8; 16];
    match Aes256Sha256Decoder::new(&ct, &aes_props(1, &iv), &Vec::new()) {
        Err(Error::PasswordRequired) => {}
        other => panic!("expected PasswordRequired, got {:?}", other.err()),
    }
}

/// A full archive whose single folder is one AES-256-SHA-256 coder.
#[test]
fn encrypted_archive_end_to_end() {
    let content = b"sixteen byte txt".to_vec();
    let password = Password::from_str("pw");
    let pw = password.to_vec();
    let power = 2u8;
    let key = reference_key(&[], &pw, power);
    let iv = [3u8; 16];
    let ct = encrypt_blocks(&key, &iv, &content);
    let props = aes_props(power, &iv);

    fn u64v(v: u64) -> Vec<u8> {
        assert!(v < 0x80);
        vec![v as u8]
    }
    let mut header = vec![1u8, 4u8, 6u8]; // kHeader, kMainStreamsInfo, kPackInfo
    header.extend_from_slice(&u64v(0));
    header.extend_from_slice(&u64v(1));
    header.push(9u8);
    header.extend_from_slice(&u64v(ct.len() as u64));
    header.push(0u8);
    header.push(7u8); // kUnpackInfo
    header.push(11u8);
    header.extend_from_slice(&u64v(1));
    header.push(0u8);
    header.extend_from_slice(&u64v(1));
    header.push(4u8 | 0x20); // AES coder: 4 id bytes with properties
    header.extend_from_slice(&[0x06, 0xF1, 0x07, 0x01]);
    header.extend_from_slice(&u64v(props.len() as u64));
    header.extend_from_slice(&props);
    header.push(12u8); // kCodersUnpackSize
    header.extend_from_slice(&u64v(content.len() as u64));
    header.push(10u8); // folder CRC
    header.push(1u8);
    header.extend_from_slice(&crc32(&content).to_le_bytes());
    header.push(0u8); // end unpack info
    header.push(8u8); // kSubStreamsInfo, defaulted
    header.push(0u8);
    header.push(0u8); // end streams info
    // kFilesInfo: one file named "s.txt"
    header.push(5u8);
    header.extend_from_slice(&u64v(1));
    header.push(17u8);
    let name: Vec<u8> = "s.txt".encode_utf16().flat_map(|u| u.to_le_bytes()).collect();
    header.extend_from_slice(&u64v(1 + name.len() as u64 + 2));
    header.push(0);
    header.extend_from_slice(&name);
    header.extend_from_slice(&[0, 0]);
    header.push(0);
    header.push(0); // end of header

    let mut start_header = Vec::new();
    start_header.extend_from_slice(&(ct.len() as u64).to_le_bytes());
    start_header.extend_from_slice(&(header.len() as u64).to_le_bytes());
    start_header.extend_from_slice(&crc32(&header).to_le_bytes());
    let mut data = vec![0x37u8, 0x7A, 0xBC, 0xAF, 0x27, 0x1C, 0, 4];
    data.extend_from_slice(&crc32(&start_header).to_le_bytes());
    data.extend_from_slice(&start_header);
    data.extend_from_slice(&ct);
    data.extend_from_slice(&header);

    let reader = SevenZReader::new(data.clone(), password).unwrap();
    let contents = reader.read_all().unwrap();
    assert_eq!(contents[0], content);

    // the same archive without a password must ask for one
    let reader2 = SevenZReader::new(data, Password::empty()).unwrap();
    match reader2.read_all() {
        Err(Error::PasswordRequired) => {}
        other => panic!("expected PasswordRequired, got {:?}", other.err()),
    }
}

#[test]
fn unaligned_ciphertext_is_corrupt() {
    let iv = [0u8; 16];
    let ct = vec![0u8; 17];
    match Aes256Sha256Decoder::new(&ct, &aes_props(1, &iv), &vec![1u8, 2]) {
        Err(Error::CorruptInput(_)) => {}
        other => panic!("expected CorruptInput, got {:?}", other.err()),
    }
}
