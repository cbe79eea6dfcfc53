//! Reader for a raw LZMA stream with known properties: owns the range
//! decoder, the window, and the symbol decoder, and hands out decompressed
//! bytes up to the declared uncompressed size.

use vstd::prelude::*;

use crate::error::Error;
use crate::lz::LZDecoder;
use crate::lzma::{DICT_SIZE_MAX};
use crate::lzma_decoder::LZMADecoder;
use crate::range_codec::RangeDecoder;

verus! {

/// The declared dictionary size, raised to at least 4096 and rounded up to
/// a multiple of 16.
pub open spec fn spec_dict_size(d: u32) -> u32 {
    (((if d < 4096 {
        4096u32
    } else {
        d
    }) + 15) as u32) & 0xFFFF_FFF0u32
}

proof fn lemma_dict_size_bound(d: u32)
    ensures
        spec_dict_size(d) <= 0xFFFF_FFF0u32,
{
    let b: u32 = if d < 4096 {
        4096
    } else {
        d
    };
    let w: u32 = ((b + 15) as u32);
    assert((w & 0xFFFF_FFF0u32) <= 0xFFFF_FFF0u32) by (bit_vector);
}

pub fn get_dict_size(dict_size: u32) -> (r: Result<u32, Error>)
    ensures
        match r {
            Ok(v) => dict_size <= DICT_SIZE_MAX && v == spec_dict_size(dict_size),
            Err(_) => dict_size > DICT_SIZE_MAX,
        },
{
    if dict_size > DICT_SIZE_MAX {
        return Err(Error::corrupt("dict size too large"));
    }
    let base: u32 = if dict_size < 4096 {
        4096
    } else {
        dict_size
    };
    Ok((base + 15) & 0xFFFF_FFF0u32)
}

/// The memory estimate of the original interface: a fixed overhead plus
/// the rounded dictionary and the literal-table size, in KiB.
pub fn get_memery_usage(dict_size: u32, lc: u32, lp: u32) -> (r: Result<u32, Error>)
    ensures
        match r {
            Ok(v) => lc <= 8 && lp <= 4 && dict_size <= DICT_SIZE_MAX && v == 10 + spec_dict_size(
                dict_size,
            ) / 1024 + ((1536u32 << ((lc + lp) as u32)) / 1024),
            Err(_) => lc > 8 || lp > 4 || dict_size > DICT_SIZE_MAX,
        },
{
    if lc > 8 || lp > 4 {
        return Err(Error::corrupt("Invalid lc or lp"));
    }
    let ds = get_dict_size(dict_size)?;
    proof {
        let c = lc;
        let p = lp;
        assert((1536u32 << ((c + p) as u32)) <= 0x600000) by (bit_vector)
            requires
                c <= 8,
                p <= 4,
        ;
    }
    Ok(10 + ds / 1024 + (1536u32 << (lc + lp)) / 1024)
}

/// Decodes the packed properties byte (pb * 45 + lp * 9 + lc) and
/// estimates memory as `get_memery_usage` does.
pub fn get_memery_usage_by_props(dict_size: u32, props_byte: u8) -> (r: Result<u32, Error>)
    ensures
        r is Err <==> dict_size > DICT_SIZE_MAX || props_byte > 224,
        r matches Ok(v) ==> v == 10 + spec_dict_size(dict_size) / 1024 + ((1536u32 << (((
        props_byte % 45) % 9 + (props_byte % 45) / 9) as u32)) / 1024),
{
    if dict_size > DICT_SIZE_MAX {
        return Err(Error::corrupt("dict size too large"));
    }
    if props_byte > 224 {
        return Err(Error::corrupt("Invalid props byte"));
    }
    let props = props_byte % 45;
    let lp = props / 9;
    let lc = props % 9;
    get_memery_usage(dict_size, lc as u32, lp as u32)
}

pub struct LZMAReader {
    pub lz: LZDecoder,
    pub rc: RangeDecoder,
    pub lzma: LZMADecoder,
    pub end_reached: bool,
    pub relaxed_end_cond: bool,
    pub remaining_size: u64,
}

impl LZMAReader {
    pub open spec fn wf(self) -> bool {
        &&& self.lz.wf()
        &&& self.rc.wf()
        &&& self.lzma.wf()
        &&& self.lz.start == self.lz.buf@.len()
    }

    fn construct(
        input: Vec<u8>,
        uncomp_size: u64,
        lc: u32,
        lp: u32,
        pb: u32,
        dict_size: u32,
        preset_dict: Option<&Vec<u8>>,
    ) -> (r: Result<LZMAReader, Error>)
        ensures
            r matches Ok(rd) ==> rd.wf() && rd.remaining_size == uncomp_size && !rd.end_reached
                && rd.rc.buf == input && rd.rc.pos == 5 && rd.rc.range == 0xFFFF_FFFFu32
                && rd.rc.code == input@[1] * 0x100_0000 + input@[2] * 0x1_0000 + input@[3] * 0x100
                + input@[4] && rd.lzma.coder.pos_mask == (1u32 << pb) - 1
                && rd.lzma.literal_decoder.coder.lc == lc
                && rd.lzma.literal_decoder.coder.literal_pos_mask == (1u32 << lp) - 1,
            r is Err <==> lc > 8 || lp > 4 || pb > 4 || dict_size > DICT_SIZE_MAX || input@.len()
                < 5 || (input@.len() >= 5 && input@[0] != 0),
    {
        if lc > 8 || lp > 4 || pb > 4 {
            return Err(Error::corrupt("Invalid lc or lp or pb"));
        }
        let mut ds = get_dict_size(dict_size)?;
        proof {
            lemma_dict_size_bound(dict_size);
        }
        if uncomp_size <= u64::MAX / 2 && (ds as u64) > uncomp_size {
            ds = get_dict_size(uncomp_size as u32)?;
            proof {
                lemma_dict_size_bound(uncomp_size as u32);
            }
        }
        let rc = RangeDecoder::new(input)?;
        let ds2 = get_dict_size(ds)?;
        let lz = LZDecoder::new(ds2 as usize, preset_dict);
        let lzma = LZMADecoder::new(lc, lp, pb);
        Ok(
            LZMAReader {
                lz,
                rc,
                lzma,
                end_reached: false,
                relaxed_end_cond: true,
                remaining_size: uncomp_size,
            },
        )
    }

    /// Builds a reader from a packed properties byte.
    pub fn new_with_props(
        input: Vec<u8>,
        uncomp_size: u64,
        props: u8,
        dict_size: u32,
        preset_dict: Option<&Vec<u8>>,
    ) -> (r: Result<LZMAReader, Error>)
        ensures
            r matches Ok(rd) ==> rd.wf() && rd.remaining_size == uncomp_size && !rd.end_reached
                && rd.rc.buf == input && rd.rc.pos == 5 && rd.rc.range == 0xFFFF_FFFFu32
                && rd.rc.code == input@[1] * 0x100_0000 + input@[2] * 0x1_0000 + input@[3] * 0x100
                + input@[4] && rd.lzma.coder.pos_mask == (1u32 << ((props / 45) as u32)) - 1
                && rd.lzma.literal_decoder.coder.lc == ((props % 45) % 9) as u32
                && rd.lzma.literal_decoder.coder.literal_pos_mask == (1u32 << (((props % 45)
                / 9) as u32)) - 1,
            r is Err <==> props > 224 || dict_size > DICT_SIZE_MAX || input@.len() < 5 || (
            input@.len() >= 5 && input@[0] != 0),
    {
        if props > 224 {
            return Err(Error::corrupt("Invalid props byte"));
        }
        let pb = props / 45;
        let rest = props % 45;
        let lp = rest / 9;
        let lc = rest % 9;
        Self::construct(input, uncomp_size, lc as u32, lp as u32, pb as u32, dict_size, preset_dict)
    }

    /// Builds a reader from a raw stream with its 13-byte front matter
    /// (properties byte, dictionary size, uncompressed size), refusing
    /// streams whose estimated memory need exceeds the given cap.
    pub fn new_mem_limit(
        input: Vec<u8>,
        mem_limit_kb: u32,
        preset_dict: Option<&Vec<u8>>,
    ) -> (r: Result<LZMAReader, Error>)
        ensures
            r matches Ok(rd) ==> rd.wf() && rd.remaining_size == crate::bytes::u64_le_at(
                input@,
                5,
            ) as u64,
            input@.len() < 13 ==> r is Err,
    {
        let mut pos: usize = 0;
        let props = crate::bytes::read_u8(&input, &mut pos)?;
        let dict_size = crate::bytes::read_u32(&input, &mut pos)?;
        let uncomp_size = crate::bytes::read_u64le(&input, &mut pos)?;
        let need = get_memery_usage_by_props(dict_size, props)?;
        if need > mem_limit_kb {
            return Err(
                Error::MaxMemLimited { max_kb: mem_limit_kb as usize, actaul_kb: need as usize },
            );
        }
        let rest = input.len() - 13;
        let stream = crate::bytes::read_exact(&input, &mut pos, rest)?;
        Self::new_with_props(stream, uncomp_size, props, dict_size, preset_dict)
    }

    /// Builds a reader from explicit `lc`, `lp`, `pb` parameters.
    pub fn new(
        input: Vec<u8>,
        uncomp_size: u64,
        lc: u32,
        lp: u32,
        pb: u32,
        dict_size: u32,
        preset_dict: Option<&Vec<u8>>,
    ) -> (r: Result<LZMAReader, Error>)
        ensures
            r matches Ok(rd) ==> rd.wf() && rd.remaining_size == uncomp_size && !rd.end_reached
                && rd.rc.buf == input && rd.rc.pos == 5 && rd.rc.range == 0xFFFF_FFFFu32
                && rd.rc.code == input@[1] * 0x100_0000 + input@[2] * 0x1_0000 + input@[3] * 0x100
                + input@[4] && rd.lzma.coder.pos_mask == (1u32 << pb) - 1
                && rd.lzma.literal_decoder.coder.lc == lc
                && rd.lzma.literal_decoder.coder.literal_pos_mask == (1u32 << lp) - 1,
            r is Err <==> lc > 8 || lp > 4 || pb > 4 || dict_size > DICT_SIZE_MAX || input@.len()
                < 5 || (input@.len() >= 5 && input@[0] != 0),
    {
        Self::construct(input, uncomp_size, lc, lp, pb, dict_size, preset_dict)
    }

    /// Appends up to `len` decompressed bytes to `out`; returns how many
    /// were produced (0 at the end of the stream).
    pub fn read(&mut self, out: &mut Vec<u8>, len: usize) -> (r: Result<usize, Error>)
        requires
            old(self).wf(),
        ensures
            old(out)@.is_prefix_of(final(out)@),
            r matches Ok(n) ==> final(self).wf() && n <= len && final(out)@.len() == old(out)@.len()
                + n,
            r matches Ok(n) ==> n == 0 ==> len == 0 || final(self).end_reached,
            old(self).end_reached || len == 0 ==> (r matches Ok(n) && n == 0 && *final(self)
                == *old(self)),
    {
        if len == 0 {
            return Ok(0);
        }
        if self.end_reached {
            return Ok(0);
        }
        let mut size: usize = 0;
        while size < len
            invariant
                self.wf(),
                size <= len,
                len > 0,
                !old(self).end_reached,
                old(out)@.is_prefix_of(out@),
                out@.len() == old(out)@.len() + size,
            decreases len - size,
        {
            let mut copy_size_max: u64 = (len - size) as u64;
            if self.remaining_size <= u64::MAX / 2 && self.remaining_size < copy_size_max {
                copy_size_max = self.remaining_size;
            }
            if copy_size_max > (usize::MAX - self.lz.buf.len()) as u64 {
                return Err(Error::corrupt("output limit overflow"));
            }
            let climit = copy_size_max as usize;
            self.lz.set_limit(climit);
            let ghost pre_len = self.lz.buf@.len() as int;
            match self.lzma.decode(&mut self.lz, &mut self.rc) {
                Ok(_) => {},
                Err(e) => {
                    if self.remaining_size != u64::MAX || !self.lzma.end_marker_detected() {
                        return Err(e);
                    }
                    self.end_reached = true;
                    self.rc.normalize()?;
                },
            }
            let copied = self.lz.flush_into(out);
            proof {
                assert(copied <= climit);
            }
            size += copied;
            if self.remaining_size <= u64::MAX / 2 {
                self.remaining_size = self.remaining_size - copied as u64;
                if self.remaining_size == 0 {
                    self.end_reached = true;
                }
            }
            if self.end_reached {
                if self.lz.has_pending() || (!self.relaxed_end_cond
                    && !self.rc.is_stream_finished()) {
                    return Err(Error::corrupt("end reached but stream not finished"));
                }
                return Ok(size);
            }
        }
        Ok(size)
    }
}

} // verus!
