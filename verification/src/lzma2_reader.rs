//! Reader for the LZMA2 chunk framing: an envelope over LZMA with
//! uncompressed chunks, dictionary resets, state resets, and per-chunk
//! properties.
//!
//! Each chunk begins with a control byte: 0x00 ends the stream; 0x01 and
//! 0x02 introduce an uncompressed block (with and without dictionary
//! reset); 0x80 and above carry an LZMA-compressed chunk whose control
//! bits select property and state resets; everything else is corrupt.

use vstd::prelude::*;

use crate::error::Error;
use crate::lz::LZDecoder;
use crate::lzma_decoder::LZMADecoder;
use crate::range_codec::RangeDecoder;

verus! {

pub const COMPRESSED_SIZE_MAX: u32 = 0x10000;

/// The declared dictionary size rounded up to a multiple of 16.
pub fn get_dict_size(dict_size: u32) -> (r: u32)
    requires
        dict_size <= 0xFFFF_FFF0u32,
    ensures
        r == ((dict_size + 15) as u32) & 0xFFFF_FFF0u32,
{
    (dict_size + 15) & 0xFFFF_FFF0u32
}

/// Memory estimate of the original interface, in KiB.
pub fn get_memery_usage(dict_size: u32) -> (r: u32)
    requires
        dict_size <= 0xFFFF_FFF0u32,
    ensures
        r == 40 + COMPRESSED_SIZE_MAX / 1024 + (((dict_size + 15) as u32) & 0xFFFF_FFF0u32) / 1024,
{
    40 + COMPRESSED_SIZE_MAX / 1024 + get_dict_size(dict_size) / 1024
}

pub struct LZMA2Reader {
    /// The chunk stream and the read position within it.
    pub inner: Vec<u8>,
    pub pos: usize,
    pub lz: LZDecoder,
    pub rc: RangeDecoder,
    pub lzma: Option<LZMADecoder>,
    /// Bytes of the current chunk not yet handed out.
    pub uncompressed_size: usize,
    pub is_lzma_chunk: bool,
    pub need_dict_reset: bool,
    pub need_props: bool,
    pub end_reached: bool,
}

impl LZMA2Reader {
    pub open spec fn wf(self) -> bool {
        &&& self.pos <= self.inner@.len()
        &&& self.lz.wf()
        &&& self.rc.wf()
        &&& (self.lzma matches Some(l) ==> l.wf())
        &&& self.lz.start == self.lz.buf@.len()
    }

    pub fn new(inner: Vec<u8>, dict_size: u32, preset_dict: Option<&Vec<u8>>) -> (r: LZMA2Reader)
        requires
            dict_size <= 0xFFFF_FFF0u32,
        ensures
            r.wf(),
            r.inner == inner,
            r.pos == 0,
            !r.end_reached,
            r.lzma is None,
            r.uncompressed_size == 0,
            r.need_props,
            r.need_dict_reset == (match preset_dict {
                Some(d) => d@.len() == 0,
                None => true,
            }),
    {
        let has_preset = match preset_dict {
            Some(d) => d.len() > 0,
            None => false,
        };
        let lz = LZDecoder::new(get_dict_size(dict_size) as usize, preset_dict);
        let rc = RangeDecoder::new_buffer(COMPRESSED_SIZE_MAX as usize);
        LZMA2Reader {
            inner,
            pos: 0,
            lz,
            rc,
            lzma: None,
            uncompressed_size: 0,
            is_lzma_chunk: false,
            need_dict_reset: !has_preset,
            need_props: true,
            end_reached: false,
        }
    }

    /// Reads one properties byte and rebuilds the LZMA decoder from it.
    fn decode_props(&mut self) -> (r: Result<(), Error>)
        requires
            old(self).wf(),
        ensures
            final(self).wf(),
            final(self).inner == old(self).inner,
            old(self).pos <= final(self).pos,
            final(self).lz == old(self).lz,
            final(self).uncompressed_size == old(self).uncompressed_size,
            final(self).end_reached == old(self).end_reached,
            final(self).is_lzma_chunk == old(self).is_lzma_chunk,
            r is Ok ==> final(self).lzma is Some,
    {
        let props = crate::bytes::read_u8(&self.inner, &mut self.pos)?;
        if props > 224 {
            return Err(Error::corrupt("Corrupted input data (LZMA2:3)"));
        }
        let pb = props / 45;
        let rest = props % 45;
        let lp = rest / 9;
        let lc = rest % 9;
        if lc + lp > 4 {
            return Err(Error::corrupt("Corrupted input data (LZMA2:4)"));
        }
        self.lzma = Some(LZMADecoder::new(lc as u32, lp as u32, pb as u32));
        Ok(())
    }

    /// Parses the next control byte and prepares the chunk it announces.
    fn decode_chunk_header(&mut self) -> (r: Result<(), Error>)
        requires
            old(self).wf(),
        ensures
            final(self).wf(),
            final(self).inner == old(self).inner,
            old(self).pos <= final(self).pos,
            old(self).lz.buf@.len() == final(self).lz.buf@.len() || final(self).lz.buf@.len() == 0,
            final(self).lz.start == final(self).lz.buf@.len(),
            r is Ok && !final(self).end_reached ==> final(self).uncompressed_size >= 1,
    {
        let control = crate::bytes::read_u8(&self.inner, &mut self.pos)?;
        if control == 0x00 {
            self.end_reached = true;
            return Ok(());
        }
        if control >= 0xE0 || control == 0x01 {
            self.need_props = true;
            self.need_dict_reset = false;
            self.lz.reset();
        } else if self.need_dict_reset {
            return Err(Error::corrupt("Corrupted input data (LZMA2:0)"));
        }
        if control >= 0x80 {
            self.is_lzma_chunk = true;
            let hi = crate::bytes::read_u8(&self.inner, &mut self.pos)? as u32;
            let lo = crate::bytes::read_u8(&self.inner, &mut self.pos)? as u32;
            let us: u32 = ((control & 0x1F) as u32) * 0x1_0000 + hi * 0x100 + lo + 1;
            self.uncompressed_size = us as usize;
            let ch = crate::bytes::read_u8(&self.inner, &mut self.pos)? as u32;
            let cl = crate::bytes::read_u8(&self.inner, &mut self.pos)? as u32;
            let compressed_size: u32 = ch * 0x100 + cl + 1;
            if control >= 0xC0 {
                self.need_props = false;
                self.decode_props()?;
            } else if self.need_props {
                return Err(Error::corrupt("Corrupted input data (LZMA2:1)"));
            } else if control >= 0xA0 {
                match &mut self.lzma {
                    Some(l) => {
                        l.reset();
                    },
                    None => {},
                }
            }
            if self.lzma.is_none() {
                return Err(Error::corrupt("LZMA chunk without properties"));
            }
            self.rc.prepare(&self.inner, &mut self.pos, compressed_size as usize)?;
        } else if control > 0x02 {
            return Err(Error::corrupt("Corrupted input data (LZMA2:2)"));
        } else {
            self.is_lzma_chunk = false;
            let hi = crate::bytes::read_u8(&self.inner, &mut self.pos)? as u32;
            let lo = crate::bytes::read_u8(&self.inner, &mut self.pos)? as u32;
            self.uncompressed_size = (hi * 0x100 + lo + 1) as usize;
        }
        Ok(())
    }

    /// Appends up to `len` decompressed bytes to `out`; returns how many
    /// were produced (0 at the end of the stream).
    pub fn read(&mut self, out: &mut Vec<u8>, len: usize) -> (r: Result<usize, Error>)
        requires
            old(self).wf(),
        ensures
            old(out)@.is_prefix_of(final(out)@),
            r matches Ok(n) ==> final(self).wf() && n <= len && final(out)@.len() == old(out)@.len()
                + n,
            r matches Ok(n) ==> n == 0 ==> len == 0 || final(self).end_reached,
            old(self).end_reached || len == 0 ==> (r matches Ok(n) && n == 0 && *final(self)
                == *old(self)),
    {
        if len == 0 {
            return Ok(0);
        }
        if self.end_reached {
            return Ok(0);
        }
        let mut size: usize = 0;
        while size < len
            invariant
                self.wf(),
                size <= len,
                len > 0,
                !old(self).end_reached,
                old(out)@.is_prefix_of(out@),
                out@.len() == old(out)@.len() + size,
                !self.end_reached,
            decreases len - size,
        {
            if self.uncompressed_size == 0 {
                self.decode_chunk_header()?;
                if self.end_reached {
                    return Ok(size);
                }
            }
            let rem = len - size;
            let copy_size_max = if self.uncompressed_size < rem {
                self.uncompressed_size
            } else {
                rem
            };
            let copied: usize;
            if !self.is_lzma_chunk {
                self.lz.copy_uncompressed(&self.inner, &mut self.pos, copy_size_max)?;
                copied = self.lz.flush_into(out);
            } else {
                if copy_size_max > usize::MAX - self.lz.buf.len() {
                    return Err(Error::corrupt("output limit overflow"));
                }
                self.lz.set_limit(copy_size_max);
                match &mut self.lzma {
                    Some(l) => {
                        l.decode(&mut self.lz, &mut self.rc)?;
                    },
                    None => {
                        return Err(Error::corrupt("LZMA chunk without properties"));
                    },
                }
                copied = self.lz.flush_into(out);
            }
            size += copied;
            self.uncompressed_size -= copied;
            if self.uncompressed_size == 0 {
                if !self.rc.is_finished() || self.lz.has_pending() {
                    return Err(Error::corrupt("rc not finished or lz has pending"));
                }
            }
        }
        Ok(size)
    }
}

} // verus!
