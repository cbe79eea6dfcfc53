//! The LZMA symbol decoder: literals, matches, and rep-matches, driven by
//! a range decoder and writing into an LZ window.
//!
//! The decoder owns every probability table (the coder tables, the literal
//! sub-coders, and the two length coders); the window and the range
//! decoder are passed in as explicit mutable references, so no
//! back-references between the parts are needed.

use vstd::prelude::*;

use crate::error::Error;
use crate::lz::LZDecoder;
use crate::lzma::{new_probs2d, probs2d_init, LZMACoder, LengthCoder, LiteralCoder};
use crate::range_codec::{probs_wf, RangeDecoder};

verus! {

/// Literal probabilities: one 0x300-entry table per sub-coder.
pub struct LiteralDecoder {
    pub coder: LiteralCoder,
    pub sub: Vec<Vec<u16>>,
}

impl LiteralDecoder {
    pub open spec fn wf(self) -> bool {
        &&& self.coder.wf()
        &&& self.sub@.len() == (self.coder.literal_pos_mask << self.coder.lc) + (1u32 << self.coder.lc)
        &&& forall|i: int|
            0 <= i < self.sub@.len() ==> (#[trigger] self.sub@[i])@.len() == 0x300 && probs_wf(
                self.sub@[i]@,
            )
    }

    pub fn new(lc: u32, lp: u32) -> (r: LiteralDecoder)
        requires
            lc <= 8,
            lp <= 4,
        ensures
            r.wf(),
            probs2d_init(r.sub@),
            r.coder.lc == lc,
            r.coder.literal_pos_mask == (1u32 << lp) - 1,
    {
        let coder = LiteralCoder::new(lc, lp);
        proof {
            let c = lc;
            let m = coder.literal_pos_mask;
            assert((m << c) + (1u32 << c) <= 0x1000) by (bit_vector)
                requires
                    c <= 8,
                    m <= 15,
            ;
        }
        let n = ((coder.literal_pos_mask << coder.lc) + (1u32 << coder.lc)) as usize;
        let sub = new_probs2d(n, 0x300);
        LiteralDecoder { coder, sub }
    }

    pub fn reset(&mut self)
        requires
            old(self).wf(),
        ensures
            final(self).wf(),
            final(self).coder == old(self).coder,
            probs2d_init(final(self).sub@),
    {
        proof {
            let c = self.coder.lc;
            let m = self.coder.literal_pos_mask;
            assert((m << c) + (1u32 << c) <= 0x1000) by (bit_vector)
                requires
                    c <= 8,
                    m <= 15,
            ;
        }
        let n = ((self.coder.literal_pos_mask << self.coder.lc) + (1u32 << self.coder.lc)) as usize;
        self.sub = new_probs2d(n, 0x300);
    }
}

/// The complete LZMA decoder state.
pub struct LZMADecoder {
    pub coder: LZMACoder,
    pub literal_decoder: LiteralDecoder,
    pub match_len_decoder: LengthCoder,
    pub rep_len_decoder: LengthCoder,
}

impl LZMADecoder {
    pub open spec fn wf(self) -> bool {
        &&& self.coder.wf()
        &&& self.literal_decoder.wf()
        &&& self.match_len_decoder.wf()
        &&& self.rep_len_decoder.wf()
    }

    pub fn new(lc: u32, lp: u32, pb: u32) -> (r: LZMADecoder)
        requires
            lc <= 8,
            lp <= 4,
            pb <= 4,
        ensures
            r.wf(),
            r.coder.pos_mask == (1u32 << pb) - 1,
            r.coder.rep0 == 0 && r.coder.state.value == 0,
            r.coder.tables_init(),
            r.literal_decoder.coder.lc == lc,
            r.literal_decoder.coder.literal_pos_mask == (1u32 << lp) - 1,
            probs2d_init(r.literal_decoder.sub@),
            r.match_len_decoder.tables_init(),
            r.rep_len_decoder.tables_init(),
    {
        LZMADecoder {
            coder: LZMACoder::new(pb),
            literal_decoder: LiteralDecoder::new(lc, lp),
            match_len_decoder: LengthCoder::new(),
            rep_len_decoder: LengthCoder::new(),
        }
    }

    /// Restores the probability model for a state reset (LZMA2) while the
    /// window keeps its contents.
    pub fn reset(&mut self)
        requires
            old(self).wf(),
        ensures
            final(self).wf(),
            final(self).coder.tables_init(),
            final(self).coder.rep0 == 0 && final(self).coder.rep1 == 0,
            final(self).coder.rep2 == 0 && final(self).coder.rep3 == 0,
            final(self).coder.state.value == 0,
            probs2d_init(final(self).literal_decoder.sub@),
            final(self).match_len_decoder.tables_init(),
            final(self).rep_len_decoder.tables_init(),
    {
        self.coder.reset();
        self.literal_decoder.reset();
        self.match_len_decoder.reset();
        self.rep_len_decoder.reset();
    }

    /// The distance register holds the end-of-stream marker (all ones,
    /// the -1 of the format description).
    pub fn end_marker_detected(&self) -> (r: bool)
        ensures
            r == (self.coder.rep0 == 0xFFFF_FFFFu32),
    {
        self.coder.rep0 == 0xFFFF_FFFFu32
    }

    /// Decodes symbols until the window reaches its output limit.
    pub fn decode(&mut self, lz: &mut LZDecoder, rc: &mut RangeDecoder) -> (r: Result<(), Error>)
        requires
            old(self).wf(),
            old(lz).wf(),
            old(rc).wf(),
        ensures
            final(self).wf(),
            final(lz).wf(),
            final(rc).wf(),
            final(rc).buf == old(rc).buf,
            final(rc).end == old(rc).end,
            old(lz).buf@.is_prefix_of(final(lz).buf@),
            final(lz).start == old(lz).start,
            final(lz).buf_size == old(lz).buf_size,
            final(lz).limit == old(lz).limit,
            final(lz).buf@.len() <= if old(lz).limit > old(lz).buf@.len() {
                old(lz).limit as int
            } else {
                old(lz).buf@.len() as int
            },
            r is Ok ==> final(lz).buf@.len() == if old(lz).limit > old(lz).buf@.len() {
                old(lz).limit as int
            } else {
                old(lz).buf@.len() as int
            },
    {
        lz.repeat_pending()?;
        let mut cont = lz.has_space();
        while cont
            invariant
                self.wf(),
                lz.wf(),
                rc.wf(),
                rc.buf == old(rc).buf,
                rc.end == old(rc).end,
                old(lz).buf@.is_prefix_of(lz.buf@),
                lz.start == old(lz).start,
                lz.buf_size == old(lz).buf_size,
                lz.limit == old(lz).limit,
                lz.buf@.len() >= old(lz).buf@.len(),
                lz.buf@.len() <= lz.limit || lz.buf@.len() == old(lz).buf@.len(),
                cont == (lz.buf@.len() < lz.limit),
            decreases lz.limit - lz.buf@.len(),
        {
            let pp: u64 = lz.get_pos() as u64;
            let mm: u64 = self.coder.pos_mask as u64;
            proof {
                let a = pp;
                let b = mm;
                assert((a & b) <= b) by (bit_vector);
            }
            let pos_state = (pp & mm) as usize;
            let st = self.coder.state.get() as usize;
            let bit = rc.decode_bit(&mut self.coder.is_match[st], pos_state)?;
            if bit == 0 {
                self.decode_literal(lz, rc)?;
            } else {
                let st2 = self.coder.state.get() as usize;
                let len = if rc.decode_bit(&mut self.coder.is_rep, st2)? == 0 {
                    self.decode_match(pos_state, rc)?
                } else {
                    self.decode_rep_match(pos_state, rc)?
                };
                lz.repeat(self.coder.rep0 as usize, len as usize)?;
            }
            cont = lz.has_space();
        }
        rc.normalize()?;
        Ok(())
    }

    fn decode_literal(&mut self, lz: &mut LZDecoder, rc: &mut RangeDecoder) -> (r: Result<
        (),
        Error,
    >)
        requires
            old(self).wf(),
            old(lz).wf(),
            old(rc).wf(),
        ensures
            final(self).wf(),
            final(lz).wf(),
            final(rc).wf(),
            final(rc).buf == old(rc).buf,
            final(rc).end == old(rc).end,
            old(lz).buf@.is_prefix_of(final(lz).buf@),
            final(lz).start == old(lz).start,
            final(lz).buf_size == old(lz).buf_size,
            final(lz).limit == old(lz).limit,
            r is Ok ==> final(lz).buf@.len() == old(lz).buf@.len() + 1,
            r is Ok ==> final(self).coder.state.value < 7,
            r is Err ==> final(lz).buf@ == old(lz).buf@,
    {
        let prev = lz.get_byte(0) as u32;
        let pos = #[verifier::truncate] (lz.get_pos() as u32);
        let i = self.literal_decoder.coder.get_sub_coder_index(prev, pos) as usize;
        let mut symbol: usize = 1;
        if self.coder.state.is_literal() {
            loop
                invariant_except_break
                    1 <= symbol < 0x100,
                invariant
                    self.wf(),
                    lz.wf(),
                    rc.wf(),
                    rc.buf == old(rc).buf,
                    rc.end == old(rc).end,
                    lz == old(lz),
                    i < self.literal_decoder.sub@.len(),
                decreases 0x100 - symbol,
            {
                let bit = rc.decode_bit(&mut self.literal_decoder.sub[i], symbol)?;
                symbol = symbol * 2 + bit as usize;
                if symbol >= 0x100 {
                    break ;
                }
            }
        } else {
            let r0 = self.coder.rep0 as usize;
            let mut match_byte = lz.get_byte(r0) as u32;
            let mut offset: u32 = 0x100;
            loop
                invariant_except_break
                    1 <= symbol < 0x100,
                invariant
                    self.wf(),
                    lz.wf(),
                    rc.wf(),
                    rc.buf == old(rc).buf,
                    rc.end == old(rc).end,
                    lz == old(lz),
                    offset == 0 || offset == 0x100,
                    i < self.literal_decoder.sub@.len(),
                decreases 0x100 - symbol,
            {
                match_byte = match_byte << 1u32;
                let match_bit = match_byte & offset;
                proof {
                    let mb = match_byte;
                    let of = offset;
                    assert((of == 0 || of == 0x100) ==> (mb & of) <= 0x100) by (bit_vector);
                }
                let idx = (offset + match_bit) as usize + symbol;
                let bit = rc.decode_bit(&mut self.literal_decoder.sub[i], idx)?;
                symbol = symbol * 2 + bit as usize;
                let t: u32 = if bit == 1 {
                    0xFFFF_FFFFu32
                } else {
                    0u32
                };
                proof {
                    let of = offset;
                    let x = t ^ !match_bit;
                    assert((of == 0 || of == 0x100) ==> ((of & x) == 0 || (of & x) == 0x100))
                        by (bit_vector);
                }
                offset = offset & (t ^ !match_bit);
                if symbol >= 0x100 {
                    break ;
                }
            }
        }
        lz.put_byte(#[verifier::truncate] (symbol as u8));
        self.coder.state.update_literal();
        Ok(())
    }

    /// Decodes a new match: length, then a distance from the slot tree and
    /// the per-slot extra bits.  A distance of all ones is the end marker.
    fn decode_match(&mut self, pos_state: usize, rc: &mut RangeDecoder) -> (r: Result<u32, Error>)
        requires
            old(self).wf(),
            old(rc).wf(),
            pos_state < 16,
        ensures
            final(self).wf(),
            final(rc).wf(),
            final(rc).buf == old(rc).buf,
            final(rc).end == old(rc).end,
            r matches Ok(v) ==> 2 <= v <= 273,
    {
        self.coder.state.update_match();
        self.coder.rep3 = self.coder.rep2;
        self.coder.rep2 = self.coder.rep1;
        self.coder.rep1 = self.coder.rep0;
        let len = self.match_len_decoder.decode(pos_state, rc)?;
        let dist_state: usize = if len < 6 {
            (len - 2) as usize
        } else {
            3
        };
        let dist_slot = rc.decode_bit_tree(&mut self.coder.dist_slots[dist_state])?;
        if dist_slot < 4 {
            self.coder.rep0 = dist_slot;
        } else {
            proof {
                let ds = dist_slot;
                assert(2 <= (ds >> 1u32) && (ds >> 1u32) <= 31 && (14 <= ds ==> 7 <= (ds
                    >> 1u32))) by (bit_vector)
                    requires
                        4 <= ds < 64,
                ;
            }
            let limit = (dist_slot >> 1u32) - 1;
            self.coder.rep0 = (2 | (dist_slot & 1)) << limit;
            if dist_slot < 14 {
                let idx = (dist_slot - 4) as usize;
                let sub = rc.decode_reverse_bit_tree(&mut self.coder.dist_special[idx])?;
                self.coder.rep0 = self.coder.rep0 | sub;
            } else {
                let direct = rc.decode_direct_bits(limit - 4)?;
                self.coder.rep0 = self.coder.rep0 | (direct << 4u32);
                let align = rc.decode_reverse_bit_tree(&mut self.coder.dist_align)?;
                self.coder.rep0 = self.coder.rep0 | align;
            }
        }
        Ok(len)
    }

    /// Decodes a rep-match: either a length-1 short rep on `rep0`, or a
    /// promoted distance from the rep registers with a fresh length.
    fn decode_rep_match(&mut self, pos_state: usize, rc: &mut RangeDecoder) -> (r: Result<
        u32,
        Error,
    >)
        requires
            old(self).wf(),
            old(rc).wf(),
            pos_state < 16,
        ensures
            final(self).wf(),
            final(rc).wf(),
            final(rc).buf == old(rc).buf,
            final(rc).end == old(rc).end,
            r matches Ok(v) ==> 1 <= v <= 273,
    {
        let st = self.coder.state.get() as usize;
        if rc.decode_bit(&mut self.coder.is_rep0, st)? == 0 {
            if rc.decode_bit(&mut self.coder.is_rep0_long[st], pos_state)? == 0 {
                self.coder.state.update_short_rep();
                return Ok(1);
            }
        } else {
            let tmp: u32;
            if rc.decode_bit(&mut self.coder.is_rep1, st)? == 0 {
                tmp = self.coder.rep1;
            } else {
                if rc.decode_bit(&mut self.coder.is_rep2, st)? == 0 {
                    tmp = self.coder.rep2;
                } else {
                    tmp = self.coder.rep3;
                    self.coder.rep3 = self.coder.rep2;
                }
                self.coder.rep2 = self.coder.rep1;
            }
            self.coder.rep1 = self.coder.rep0;
            self.coder.rep0 = tmp;
        }
        self.coder.state.update_long_rep();
        let len = self.rep_len_decoder.decode(pos_state, rc)?;
        Ok(len)
    }
}

} // verus!
