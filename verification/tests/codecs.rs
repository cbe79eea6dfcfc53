//! Decoder-level tests: LZMA round trips through a reference encoder,
//! LZMA2 chunk framing, the Delta and BCJ filters, and the primitive
//! header reads.

use xeno::bytes;
use xeno::delta::delta_decode;
use xeno::lzma2_reader::LZMA2Reader;
use xeno::lzma_reader::LZMAReader;

fn lzma_raw(content: &[u8]) -> (u8, u32, Vec<u8>) {
    let mut compressed = Vec::new();
    lzma_rs::lzma_compress(&mut std::io::Cursor::new(content), &mut compressed).unwrap();
    let props = compressed[0];
    let dict = u32::from_le_bytes([compressed[1], compressed[2], compressed[3], compressed[4]]);
    (props, dict, compressed[13..].to_vec())
}

fn decode_lzma(content_len: usize, props: u8, dict: u32, stream: Vec<u8>) -> Vec<u8> {
    let mut reader =
        LZMAReader::new_with_props(stream, content_len as u64, props, dict, None).unwrap();
    let mut out = Vec::new();
    loop {
        let want = content_len - out.len();
        let n = reader.read(&mut out, want).unwrap();
        if n == 0 || out.len() == content_len {
            return out;
        }
    }
}

#[test]
fn lzma_round_trip_short_text() {
    let payload = b"this is a file\n".to_vec();
    let (props, dict, stream) = lzma_raw(&payload);
    assert_eq!(decode_lzma(payload.len(), props, dict, stream), payload);
}

#[test]
fn lzma_round_trip_repetitive_payload() {
    let mut payload = Vec::new();
    for i in 0..5000u32 {
        payload.extend_from_slice(b"abcabcabd");
        payload.push((i % 251) as u8);
    }
    let (props, dict, stream) = lzma_raw(&payload);
    assert_eq!(decode_lzma(payload.len(), props, dict, stream), payload);
}

#[test]
fn lzma_round_trip_empty_payload() {
    let payload = Vec::new();
    let (props, dict, stream) = lzma_raw(&payload);
    assert_eq!(decode_lzma(0, props, dict, stream), payload);
}

#[test]
fn lzma_round_trip_all_byte_values() {
    let mut payload = Vec::new();
    for i in 0..=255u8 {
        for _ in 0..7 {
            payload.push(i);
        }
    }
    let (props, dict, stream) = lzma_raw(&payload);
    assert_eq!(decode_lzma(payload.len(), props, dict, stream), payload);
}

fn decode_lzma2(stream: Vec<u8>, want: usize) -> Vec<u8> {
    let mut reader = LZMA2Reader::new(stream, 1 << 16, None);
    let mut out = Vec::new();
    loop {
        let ask = want + 1 - out.len();
        let n = reader.read(&mut out, ask).unwrap();
        if n == 0 {
            return out;
        }
    }
}

#[test]
fn lzma2_reference_stream_decodes() {
    let mut payload = Vec::new();
    for i in 0..40000u32 {
        payload.push((i % 256) as u8);
    }
    let mut stream = Vec::new();
    lzma_rs::lzma2_compress(&mut std::io::Cursor::new(&payload[..]), &mut stream).unwrap();
    assert_eq!(decode_lzma2(stream, payload.len()), payload);
}

/// One uncompressed chunk with a dictionary reset.
fn lzma2_uncompressed_chunk(data: &[u8]) -> Vec<u8> {
    let mut c = vec![0x01u8];
    c.extend_from_slice(&((data.len() - 1) as u16).to_be_bytes());
    c.extend_from_slice(data);
    c
}

#[test]
fn lzma2_chunk_concatenation_matches_chunkwise_decoding() {
    let a = b"hello ".to_vec();
    let b = b"world and more".to_vec();
    let mut whole = lzma2_uncompressed_chunk(&a);
    whole.extend_from_slice(&lzma2_uncompressed_chunk(&b));
    whole.push(0x00);
    let mut first = lzma2_uncompressed_chunk(&a);
    first.push(0x00);
    let mut second = lzma2_uncompressed_chunk(&b);
    second.push(0x00);
    let out_whole = decode_lzma2(whole, a.len() + b.len());
    let mut out_parts = decode_lzma2(first, a.len());
    out_parts.extend_from_slice(&decode_lzma2(second, b.len()));
    assert_eq!(out_whole, out_parts);
    assert_eq!(out_whole, [a, b].concat());
}

#[test]
fn lzma2_continuation_chunk_without_reset() {
    let a = b"abcd".to_vec();
    let b = b"efgh".to_vec();
    let mut stream = lzma2_uncompressed_chunk(&a);
    let mut cont = vec![0x02u8]; // uncompressed, no dictionary reset
    cont.extend_from_slice(&((b.len() - 1) as u16).to_be_bytes());
    cont.extend_from_slice(&b);
    stream.extend_from_slice(&cont);
    stream.push(0x00);
    assert_eq!(decode_lzma2(stream, 8), b"abcdefgh".to_vec());
}

#[test]
fn lzma2_rejects_reserved_control_bytes() {
    let stream = vec![0x03u8, 0, 0, 0];
    let mut reader = LZMA2Reader::new(stream, 1 << 16, None);
    let mut out = Vec::new();
    assert!(reader.read(&mut out, 4).is_err());
}

#[test]
fn lzma2_rejects_leading_continuation_chunk() {
    // the first chunk must reset the dictionary
    let mut stream = vec![0x02u8];
    stream.extend_from_slice(&0u16.to_be_bytes());
    stream.push(b'x');
    stream.push(0x00);
    let mut reader = LZMA2Reader::new(stream, 1 << 16, None);
    let mut out = Vec::new();
    assert!(reader.read(&mut out, 1).is_err());
}

#[test]
fn delta_decode_reverses_the_predictor() {
    // out[i] = in[i] + out[i - dist]
    let mut buf = vec![1u8, 1, 1, 1, 1];
    delta_decode(&mut buf, 1);
    assert_eq!(buf, vec![1, 2, 3, 4, 5]);

    let mut buf2 = vec![10u8, 20, 5, 250, 5, 10];
    delta_decode(&mut buf2, 2);
    assert_eq!(buf2, vec![10, 20, 15, 14, 20, 24]);
}

#[test]
fn delta_round_trip() {
    let original: Vec<u8> = (0..200u16).map(|i| (i * 7 % 256) as u8).collect();
    for dist in [1usize, 2, 3, 16] {
        let mut encoded = original.clone();
        for i in (0..encoded.len()).rev() {
            let prev = if i >= dist { original[i - dist] } else { 0 };
            encoded[i] = original[i].wrapping_sub(prev);
        }
        delta_decode(&mut encoded, dist);
        assert_eq!(encoded, original);
    }
}

/// The encoder direction of the x86 branch filter, mirroring the decoder
/// with the address added instead of subtracted.
fn bcj_x86_encode(buf: &mut [u8]) {
    fn test86(b: u8) -> bool {
        b == 0 || b == 0xFF
    }
    if buf.len() < 5 {
        return;
    }
    let size = buf.len() - 4;
    let ip: u32 = 5;
    let mut pos: usize = 0;
    let mut mask: u32 = 0;
    while pos < size {
        let mut p = pos;
        while p < size && (buf[p] & 0xFE) != 0xE8 {
            p += 1;
        }
        if p >= size {
            return;
        }
        let d = p - pos;
        pos = p;
        if d > 2 {
            mask = 0;
        } else {
            mask >>= d;
        }
        if mask != 0 {
            let test_idx = pos + ((mask >> 1) as usize) + 1;
            if mask > 4 || mask == 3 || test86(buf[test_idx]) {
                mask = (mask >> 1) | 4;
                pos += 1;
                continue;
            }
        }
        if test86(buf[pos + 4]) {
            let v0 = u32::from_le_bytes([buf[pos + 1], buf[pos + 2], buf[pos + 3], buf[pos + 4]]);
            let cur = ip.wrapping_add(pos as u32);
            let mut v = v0.wrapping_add(cur);
            if mask != 0 {
                let sh = (mask & 6) << 2;
                let b = (v >> sh) as u8;
                if test86(b) {
                    v ^= ((0x100u64 << sh) - 1) as u32;
                    v = v.wrapping_add(cur);
                }
                mask = 0;
            }
            buf[pos + 1] = v as u8;
            buf[pos + 2] = (v >> 8) as u8;
            buf[pos + 3] = (v >> 16) as u8;
            buf[pos + 4] = if (v >> 24) & 1 == 1 { 0xFF } else { 0 };
            pos += 5;
        } else {
            mask = (mask >> 1) | 4;
            pos += 1;
        }
    }
}

#[test]
fn bcj_x86_round_trip() {
    // a buffer sprinkled with CALL/JMP opcodes and convertible operands
    let mut original = Vec::new();
    for i in 0..600u32 {
        match i % 9 {
            0 => original.push(0xE8),
            1 => original.push(0xE9),
            4 => original.push(0x00),
            5 => original.push(0xFF),
            _ => original.push((i * 31 % 251) as u8),
        }
    }
    let mut transformed = original.clone();
    bcj_x86_encode(&mut transformed);
    let mut buf = transformed.clone();
    xeno::bcj::bcj_x86_decode(&mut buf);
    assert_eq!(buf, original);
}

#[test]
fn bcj_filters_preserve_length() {
    let data: Vec<u8> = (0..257u16).map(|i| (i % 256) as u8).collect();
    for f in [
        xeno::bcj::bcj_x86_decode,
        xeno::bcj::bcj_ppc_decode,
        xeno::bcj::bcj_arm_decode,
        xeno::bcj::bcj_armt_decode,
        xeno::bcj::bcj_sparc_decode,
        xeno::bcj::bcj_ia64_decode,
    ] {
        let mut buf = data.clone();
        f(&mut buf);
        assert_eq!(buf.len(), data.len());
    }
}

#[test]
fn bcj_arm_decode_rewrites_a_branch() {
    // BL with a known word offset, placed at position 0
    let mut buf = vec![0x04u8, 0x00, 0x00, 0xEB, 0, 0, 0, 0];
    xeno::bcj::bcj_arm_decode(&mut buf);
    // 4 << 2 = 16; 16 - (0 + 8) = 8; 8 >> 2 = 2
    assert_eq!(&buf[..4], &[0x02, 0x00, 0x00, 0xEB]);
}

#[test]
fn variable_length_integers_parse() {
    let cases: Vec<(Vec<u8>, u64)> = vec![
        (vec![0x00], 0),
        (vec![0x7F], 0x7F),
        (vec![0x80, 0x80], 0x80),
        (vec![0x81, 0x00], 0x100),
        (vec![0xC0, 0x34, 0x12], 0x1234),
        (vec![0xFF, 1, 2, 3, 4, 5, 6, 7, 8], 0x0807060504030201),
    ];
    for (bytes_in, expected) in cases {
        let mut pos = 0usize;
        let got = bytes::read_u64(&bytes_in, &mut pos).unwrap();
        assert_eq!(got, expected);
        assert_eq!(pos, bytes_in.len());
    }
}

#[test]
fn bitsets_parse_msb_first() {
    let data = vec![0b1010_0000u8];
    let mut pos = 0usize;
    let bits = bytes::read_bits(&data, &mut pos, 4).unwrap();
    assert!(bits.contains(0));
    assert!(!bits.contains(1));
    assert!(bits.contains(2));
    assert!(!bits.contains(3));
    assert_eq!(pos, 1);
}

#[test]
fn fixed_width_reads_are_little_endian() {
    let data = vec![0x78u8, 0x56, 0x34, 0x12, 0xEF, 0xCD, 0xAB, 0x89, 0x67, 0x45, 0x23, 0x01];
    let mut pos = 0usize;
    assert_eq!(bytes::read_u32(&data, &mut pos).unwrap(), 0x12345678);
    assert_eq!(bytes::read_u64le(&data, &mut pos).unwrap(), 0x0123456789ABCDEF);
}

#[test]
fn memory_cap_refuses_large_dictionaries() {
    let payload = b"capped payload".to_vec();
    let mut compressed = Vec::new();
    lzma_rs::lzma_compress(&mut std::io::Cursor::new(&payload[..]), &mut compressed).unwrap();
    // the 13-byte front matter stays attached for this interface
    match LZMAReader::new_mem_limit(compressed.clone(), 1, None) {
        Err(xeno::Error::MaxMemLimited { max_kb: 1, .. }) => {}
        other => panic!("expected MaxMemLimited, got {:?}", other.err()),
    }
    let mut reader = LZMAReader::new_mem_limit(compressed, 1 << 20, None).unwrap();
    let mut out = Vec::new();
    loop {
        let want = payload.len() - out.len();
        let n = reader.read(&mut out, want).unwrap();
        if n == 0 || out.len() == payload.len() {
            break;
        }
    }
    assert_eq!(out, payload);
}

#[test]
fn lzma_stream_must_start_with_a_zero_byte() {
    let stream = vec![1u8, 0, 0, 0, 0, 0, 0];
    match LZMAReader::new_with_props(stream, 4, 93, 1 << 16, None) {
        Err(xeno::Error::CorruptInput(_)) => {}
        other => panic!("expected CorruptInput, got {:?}", other.err()),
    }
    match LZMAReader::new_with_props(vec![0u8, 1], 4, 93, 1 << 16, None) {
        Err(xeno::Error::CorruptInput(_)) => {}
        other => panic!("expected CorruptInput, got {:?}", other.err()),
    }
    match LZMAReader::new_with_props(vec![0u8, 1, 2, 3, 4], 4, 225, 1 << 16, None) {
        Err(xeno::Error::CorruptInput(_)) => {}
        other => panic!("expected an error for a bad props byte, got {:?}", other.err()),
    }
}

#[test]
fn truncated_variable_integers_are_rejected() {
    // 0xC0 announces two payload bytes; only one is present
    let data = vec![0xC0u8, 0x34];
    let mut pos = 0usize;
    assert!(bytes::read_u64(&data, &mut pos).is_err());
    let empty: Vec<u8> = Vec::new();
    let mut pos2 = 0usize;
    assert!(bytes::read_u64(&empty, &mut pos2).is_err());
}

#[test]
fn bcj_arm_rewrites_bl_offsets() {
    // word 0: BL with stored target 4 bytes at address 0 -> offset (16-8)/4 = 2 words
    // word 1: BL whose target wraps below the instruction address
    let mut buf = vec![0x04, 0x00, 0x00, 0xEB, 0x01, 0x00, 0x00, 0xEB, 0x90, 0x90, 0x90, 0x90];
    xeno::bcj::bcj_arm_decode(&mut buf);
    assert_eq!(
        buf,
        vec![0x02, 0x00, 0x00, 0xEB, 0xFE, 0xFF, 0xFF, 0xEB, 0x90, 0x90, 0x90, 0x90]
    );
}
