//! Decoder pipeline assembly: turns one folder's packed bytes into its
//! decompressed output by running the coder chain in execution order.
//!
//! Every stage checks that it produced exactly the declared unpack size,
//! so a truncated pack region surfaces as `CorruptInput` rather than a
//! short read; a declared folder CRC is verified over the final bytes.

use vstd::prelude::*;
use vstd::string::StringExecFns;

use crate::aes256sha256::Aes256Sha256Decoder;
use crate::archive::{is_unpack_size, folder_wf, Coder, Folder};
use crate::crc32::{crc32_cksum, crc32_of};
use crate::error::Error;
use crate::lzma2_reader::LZMA2Reader;
use crate::lzma_reader::LZMAReader;

verus! {

/// The memory cap handed to the LZMA stages, in KiB; effectively
/// unbounded, as the reader accepts any dictionary the format allows.
pub const MAX_MEM_LIMIT_KB: usize = usize::MAX / 1024;

/// True when the coder's method id equals the given bytes.
pub open spec fn id_is(c: Coder, id: Seq<u8>) -> bool {
    c.id@ == id
}

/// The six branch-filter method ids (x86, PowerPC, IA-64, ARM,
/// ARM-Thumb, SPARC).
pub open spec fn is_branch_filter_id(id: Seq<u8>) -> bool {
    id.len() == 4 && id[0] == 0x03 && id[1] == 0x03 && ((id[2] == 0x01 && id[3] == 0x03) || (id[2]
        == 0x02 && id[3] == 0x05) || (id[2] == 0x03 && id[3] == 0x01) || (id[2] == 0x05 && id[3]
        == 0x01) || (id[2] == 0x07 && id[3] == 0x01) || (id[2] == 0x08 && id[3] == 0x05))
}

fn id_is1(coder: &Coder, b0: u8) -> (r: bool)
    ensures
        r == (coder.id@.len() == 1 && coder.id@[0] == b0),
{
    coder.id.len() == 1 && coder.id[0] == b0
}

fn id_is3(coder: &Coder, b0: u8, b1: u8, b2: u8) -> (r: bool)
    ensures
        r == (coder.id@.len() == 3 && coder.id@[0] == b0 && coder.id@[1] == b1 && coder.id@[2]
            == b2),
{
    coder.id.len() == 3 && coder.id[0] == b0 && coder.id[1] == b1 && coder.id[2] == b2
}

fn id_is4(coder: &Coder, b0: u8, b1: u8, b2: u8, b3: u8) -> (r: bool)
    ensures
        r == (coder.id@.len() == 4 && coder.id@[0] == b0 && coder.id@[1] == b1 && coder.id@[2]
            == b2 && coder.id@[3] == b3),
{
    coder.id.len() == 4 && coder.id[0] == b0 && coder.id[1] == b1 && coder.id[2] == b2
        && coder.id[3] == b3
}

/// Reads `want` bytes out of an LZMA reader, failing with `CorruptInput`
/// if the stream ends early.
fn drain_lzma(reader: &mut LZMAReader, want: usize) -> (r: Result<Vec<u8>, Error>)
    requires
        old(reader).wf(),
    ensures
        r matches Ok(v) ==> v@.len() == want,
{
    let mut out: Vec<u8> = Vec::new();
    while out.len() < want
        invariant
            reader.wf(),
            out@.len() <= want,
        decreases want - out@.len(),
    {
        let need = want - out.len();
        let got = reader.read(&mut out, need)?;
        if got == 0 {
            return Err(Error::corrupt("LZMA stream ended early"));
        }
    }
    Ok(out)
}

/// Reads `want` bytes out of an LZMA2 reader, failing with `CorruptInput`
/// if the stream ends early.
fn drain_lzma2(reader: &mut LZMA2Reader, want: usize) -> (r: Result<Vec<u8>, Error>)
    requires
        old(reader).wf(),
    ensures
        r matches Ok(v) ==> v@.len() == want,
{
    let mut out: Vec<u8> = Vec::new();
    while out.len() < want
        invariant
            reader.wf(),
            out@.len() <= want,
        decreases want - out@.len(),
    {
        let need = want - out.len();
        let got = reader.read(&mut out, need)?;
        if got == 0 {
            return Err(Error::corrupt("LZMA2 stream ended early"));
        }
    }
    Ok(out)
}

fn truncate_to(mut v: Vec<u8>, want: usize) -> (r: Result<Vec<u8>, Error>)
    ensures
        r matches Ok(w) ==> w@.len() == want && w@ == v@.subrange(0, want as int),
        r is Err <==> v@.len() < want,
{
    if v.len() < want {
        return Err(Error::corrupt("stream shorter than its declared size"));
    }
    v.truncate(want);
    Ok(v)
}

/// Runs one coder over its whole input, producing exactly
/// `uncompressed_len` bytes, as `add_decoder` stacks a stage per coder.
pub fn decode_coder(
    coder: &Coder,
    input: Vec<u8>,
    uncompressed_len: usize,
    password: &Vec<u8>,
) -> (r: Result<Vec<u8>, Error>)
    ensures
        r matches Ok(v) ==> v@.len() == uncompressed_len,
        r matches Ok(v) ==> coder.id@.len() == 1 && coder.id@[0] == 0x00 ==> v@ == input@.subrange(
            0,
            uncompressed_len as int,
        ),
        coder.id@.len() == 1 && coder.id@[0] == 0x00 && input@.len() >= uncompressed_len ==> r
            is Ok,
        coder.id@.len() == 1 && coder.id@[0] == 0x03 && coder.properties@.len() >= 1
            && input@.len() >= uncompressed_len ==> r is Ok,
        is_branch_filter_id(coder.id@) && input@.len() >= uncompressed_len ==> r is Ok,
        r matches Ok(v) ==> coder.id@.len() == 1 && coder.id@[0] == 0x03
            && coder.properties@.len() >= 1 ==> forall|i: int|
            0 <= i < uncompressed_len ==> #[trigger] v@[i] == ((input@[i] + (if i
                >= coder.properties@[0] + 1 {
                v@[i - (coder.properties@[0] + 1)] as int
            } else {
                0int
            })) % 256),
{
    if id_is1(coder, 0x00) {
        // Copy
        let r = truncate_to(input, uncompressed_len)?;
        Ok(r)
    } else if id_is1(coder, 0x21) {
        // LZMA2
        if coder.properties.len() < 1 {
            return Err(Error::corrupt("missing LZMA2 properties"));
        }
        let p = coder.properties[0];
        if p > 40 {
            return Err(Error::corrupt("invalid LZMA2 dictionary size"));
        }
        let dict_size: u32 = if p == 40 {
            0xFFFF_FFF0u32
        } else {
            (2u32 | ((p as u32) & 1)) << (((p as u32) / 2) + 11)
        };
        proof {
            let d = dict_size;
            assert((d & 0xFFFF_FFF0u32) <= 0xFFFF_FFF0u32) by (bit_vector);
        }
        let need = crate::lzma2_reader::get_memery_usage(dict_size & 0xFFFF_FFF0u32);
        if need as usize > MAX_MEM_LIMIT_KB {
            return Err(Error::MaxMemLimited { max_kb: MAX_MEM_LIMIT_KB, actaul_kb: need as usize });
        }
        let mut reader = LZMA2Reader::new(input, dict_size & 0xFFFF_FFF0u32, None);
        let r = drain_lzma2(&mut reader, uncompressed_len)?;
        Ok(r)
    } else if id_is3(coder, 0x03, 0x01, 0x01) {
        // LZMA
        if coder.properties.len() < 5 {
            return Err(Error::corrupt("missing LZMA properties"));
        }
        let props = coder.properties[0];
        let dict_size: u32 = (coder.properties[1] as u32) + (coder.properties[2] as u32) * 0x100 + (
        coder.properties[3] as u32) * 0x1_0000 + (coder.properties[4] as u32) * 0x100_0000;
        let need = crate::lzma_reader::get_memery_usage_by_props(dict_size, props)?;
        if need as usize > MAX_MEM_LIMIT_KB {
            return Err(Error::MaxMemLimited { max_kb: MAX_MEM_LIMIT_KB, actaul_kb: need as usize });
        }
        let mut reader = LZMAReader::new_with_props(
            input,
            uncompressed_len as u64,
            props,
            dict_size,
            None,
        )?;
        let r = drain_lzma(&mut reader, uncompressed_len)?;
        Ok(r)
    } else if id_is1(coder, 0x03) {
        // Delta
        if coder.properties.len() < 1 {
            return Err(Error::corrupt("missing delta distance"));
        }
        let dist = (coder.properties[0] as usize) + 1;
        let mut data = input;
        crate::delta::delta_decode(&mut data, dist);
        let ghost full = data@;
        let r = truncate_to(data, uncompressed_len)?;
        proof {
            let d = coder.properties@[0] + 1;
            assert forall|i: int|
                0 <= i < uncompressed_len implies #[trigger] r@[i] == ((input@[i] + (if i >= d {
                r@[i - d] as int
            } else {
                0int
            })) % 256) by {
                assert(r@[i] == full[i]);
                if i >= d {
                    assert(r@[i - d] == full[i - d]);
                }
            }
        }
        Ok(r)
    } else if id_is4(coder, 0x03, 0x03, 0x01, 0x03) {
        let mut data = input;
        crate::bcj::bcj_x86_decode(&mut data);
        let r = truncate_to(data, uncompressed_len)?;
        Ok(r)
    } else if id_is4(coder, 0x03, 0x03, 0x02, 0x05) {
        let mut data = input;
        crate::bcj::bcj_ppc_decode(&mut data);
        let r = truncate_to(data, uncompressed_len)?;
        Ok(r)
    } else if id_is4(coder, 0x03, 0x03, 0x03, 0x01) {
        let mut data = input;
        crate::bcj::bcj_ia64_decode(&mut data);
        let r = truncate_to(data, uncompressed_len)?;
        Ok(r)
    } else if id_is4(coder, 0x03, 0x03, 0x05, 0x01) {
        let mut data = input;
        crate::bcj::bcj_arm_decode(&mut data);
        let r = truncate_to(data, uncompressed_len)?;
        Ok(r)
    } else if id_is4(coder, 0x03, 0x03, 0x07, 0x01) {
        let mut data = input;
        crate::bcj::bcj_armt_decode(&mut data);
        let r = truncate_to(data, uncompressed_len)?;
        Ok(r)
    } else if id_is4(coder, 0x03, 0x03, 0x08, 0x05) {
        let mut data = input;
        crate::bcj::bcj_sparc_decode(&mut data);
        let r = truncate_to(data, uncompressed_len)?;
        Ok(r)
    } else if id_is4(coder, 0x06, 0xF1, 0x07, 0x01) {
        let dec = Aes256Sha256Decoder::new(&input, &coder.properties, password)?;
        let r = truncate_to(dec.into_output(), uncompressed_len)?;
        Ok(r)
    } else {
        Err(Error::UnsupportedCompressionMethod(method_name(coder)))
    }
}

fn method_name(coder: &Coder) -> (r: String) {
    let mut s = String::new();
    let mut i: usize = 0;
    while i < coder.id.len()
        decreases coder.id@.len() - i,
    {
        let b = coder.id[i];
        s.append(hex_digit_str(b / 16));
        s.append(hex_digit_str(b % 16));
        i += 1;
    }
    s
}

fn hex_digit_str(d: u8) -> (r: &'static str)
    requires
        d < 16,
{
    if d == 0 {
        "0"
    } else if d == 1 {
        "1"
    } else if d == 2 {
        "2"
    } else if d == 3 {
        "3"
    } else if d == 4 {
        "4"
    } else if d == 5 {
        "5"
    } else if d == 6 {
        "6"
    } else if d == 7 {
        "7"
    } else if d == 8 {
        "8"
    } else if d == 9 {
        "9"
    } else if d == 10 {
        "a"
    } else if d == 11 {
        "b"
    } else if d == 12 {
        "c"
    } else if d == 13 {
        "d"
    } else if d == 14 {
        "e"
    } else {
        "f"
    }
}

/// Decodes one folder: bounds the packed region, walks the coder chain in
/// execution order (rejecting multi-stream coders), checks the final size
/// against the folder's unpack size, and verifies a declared CRC.
pub fn decode_folder(
    data: &Vec<u8>,
    folder: &Folder,
    base_offset: u64,
    pack_size: u64,
    password: &Vec<u8>,
) -> (r: Result<Vec<u8>, Error>)
    requires
        folder_wf(*folder),
    ensures
        r matches Ok(v) ==> is_unpack_size(*folder, v@.len() as int) && (folder.has_crc
            ==> folder.crc == crc32_of(v@) as u64),
{
    if base_offset > usize::MAX as u64 || pack_size > usize::MAX as u64 {
        return Err(Error::corrupt("pack region outside the addressable range"));
    }
    let base = base_offset as usize;
    let psize = pack_size as usize;
    if base > data.len() || psize > data.len() - base {
        return Err(Error::corrupt("pack region reaches past the end of the archive"));
    }
    let mut pos: usize = base;
    let mut current = crate::bytes::read_exact(data, &mut pos, psize)?;
    let order = folder.ordered_coder_indices()?;
    let mut k: usize = 0;
    while k < order.len()
        invariant
            folder_wf(*folder),
            k <= order@.len(),
            forall|j: int| 0 <= j < order@.len() ==> 0 <= #[trigger] order@[j]
                < folder.coders@.len(),
        decreases order@.len() - k,
    {
        let idx = order[k];
        let coder = &folder.coders[idx];
        if coder.num_in_streams != 1 || coder.num_out_streams != 1 {
            return Err(
                Error::UnsupportedCompressionMethod(
                    "Multi input/output stream coders are not yet supported".to_owned(),
                ),
            );
        }
        let us = folder.get_unpack_size_at_index(idx);
        if us > usize::MAX as u64 {
            return Err(Error::corrupt("unpack size outside the addressable range"));
        }
        current = decode_coder(coder, current, us as usize, password)?;
        k += 1;
    }
    let total = folder.get_unpack_size();
    if current.len() as u64 != total {
        return Err(Error::corrupt("folder produced the wrong number of bytes"));
    }
    if folder.has_crc {
        let c = crc32_cksum(&current);
        if c as u64 != folder.crc {
            return Err(Error::ChecksumVerificationFailed);
        }
    }
    Ok(current)
}

} // verus!
