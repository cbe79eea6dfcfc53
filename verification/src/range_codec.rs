//! Binary arithmetic decoder over an in-memory byte stream.
//!
//! Holds a 32-bit `range` and `code`.  Initialization consumes one marker
//! byte that must be zero and four big-endian bytes into `code`.  The
//! buffered form (`new_buffer` / `prepare`) is refilled per LZMA2 chunk
//! from a known compressed length and must be fully drained at chunk end.

use vstd::prelude::*;

use crate::error::Error;

verus! {

/// Every probability stays below 2048 (the bit-model total); decoding
/// updates preserve this.
pub open spec fn probs_wf(s: Seq<u16>) -> bool {
    forall|i: int| 0 <= i < s.len() ==> s[i] < 2048
}

pub struct RangeDecoder {
    pub buf: Vec<u8>,
    pub pos: usize,
    pub end: usize,
    pub range: u32,
    pub code: u32,
}

/// The bit-tree walk as a function of the state: from `symbol`, decode a
/// bit and descend until the symbol leaves the table; the result is the
/// leaf index.  The fuel bounds the depth; one unit is spent per bit.
pub open spec fn spec_tree_walk(rd: RangeDecoder, probs: Seq<u16>, symbol: int, fuel: nat) -> Option<
    (RangeDecoder, Seq<u16>, int),
>
    decreases fuel,
{
    if symbol >= probs.len() {
        Some((rd, probs, symbol - probs.len()))
    } else if fuel == 0 {
        None
    } else {
        match spec_bit_step(rd, probs, symbol) {
            None => None,
            Some(s) => spec_tree_walk(s.0, s.1, 2 * symbol + s.2, (fuel - 1) as nat),
        }
    }
}

/// The reverse bit-tree walk: as `spec_tree_walk`, but the result gathers
/// the decoded bits LSB-first into `acc`.
pub open spec fn spec_reverse_walk(
    rd: RangeDecoder,
    probs: Seq<u16>,
    symbol: int,
    acc: int,
    bit_pos: nat,
    fuel: nat,
) -> Option<(RangeDecoder, Seq<u16>, int)>
    decreases fuel,
{
    if symbol >= probs.len() {
        Some((rd, probs, acc))
    } else if fuel == 0 {
        None
    } else {
        match spec_bit_step(rd, probs, symbol) {
            None => None,
            Some(s) => spec_reverse_walk(
                s.0,
                s.1,
                2 * symbol + s.2,
                acc + s.2 * vstd::arithmetic::power2::pow2(bit_pos),
                (bit_pos + 1) as nat,
                (fuel - 1) as nat,
            ),
        }
    }
}

/// One uniformly distributed bit: normalize, halve the range, and take
/// the conditional-subtract branch.
pub open spec fn spec_direct_step(rd: RangeDecoder) -> Option<(RangeDecoder, u32)> {
    if rd.refill_blocked() {
        None
    } else {
        let n = rd.spec_normalized();
        let half = n.range >> 1u32;
        if n.code >= half {
            Some((RangeDecoder { range: half, code: (n.code - half) as u32, ..n }, 1u32))
        } else {
            Some((RangeDecoder { range: half, ..n }, 0u32))
        }
    }
}

/// `count` direct bits, MSB-first into `acc`.
pub open spec fn spec_direct_bits(rd: RangeDecoder, count: nat, acc: int) -> Option<
    (RangeDecoder, int),
>
    decreases count,
{
    if count == 0 {
        Some((rd, acc))
    } else {
        match spec_direct_step(rd) {
            None => None,
            Some(s) => spec_direct_bits(s.0, (count - 1) as nat, 2 * acc + s.1),
        }
    }
}

impl RangeDecoder {
    pub open spec fn wf(self) -> bool {
        self.pos <= self.end <= self.buf@.len()
    }

    /// Starts a stream decoder over `buf`: one zero marker byte, then four
    /// big-endian bytes of `code`.
    pub fn new(buf: Vec<u8>) -> (r: Result<RangeDecoder, Error>)
        ensures
            r matches Ok(rd) ==> rd.wf() && rd.buf == buf && rd.pos == 5 && rd.end == buf@.len()
                && rd.range == 0xFFFF_FFFFu32 && rd.code == buf@[1] * 0x100_0000 + buf@[2]
                * 0x1_0000 + buf@[3] * 0x100 + buf@[4],
            r is Err <==> buf@.len() < 5 || buf@[0] != 0,
    {
        if buf.len() < 5 {
            return Err(Error::corrupt("range decoder input too short"));
        }
        if buf[0] != 0 {
            return Err(Error::corrupt("first range decoder byte is not 0"));
        }
        let code = (buf[1] as u32) * 0x100_0000 + (buf[2] as u32) * 0x1_0000 + (buf[3] as u32)
            * 0x100 + (buf[4] as u32);
        let end = buf.len();
        Ok(RangeDecoder { buf, pos: 5, end, range: 0xFFFF_FFFFu32, code })
    }

    /// An empty, fully drained chunk decoder; `prepare` refills it.
    pub fn new_buffer(len: usize) -> (r: RangeDecoder)
        ensures
            r.wf(),
            r.is_finished_spec(),
    {
        let buf: Vec<u8> = Vec::with_capacity(
            if len >= 5 {
                len - 5
            } else {
                0
            },
        );
        RangeDecoder { buf, pos: 0, end: 0, range: 0, code: 0 }
    }

    /// Loads one LZMA2 chunk of `len` compressed bytes from `data`: the
    /// zero marker, four code bytes, and `len - 5` payload bytes.
    pub fn prepare(&mut self, data: &Vec<u8>, pos: &mut usize, len: usize) -> (r: Result<
        (),
        Error,
    >)
        requires
            old(self).wf(),
            *old(pos) <= data@.len(),
        ensures
            final(self).wf(),
            *old(pos) <= *final(pos) <= data@.len(),
            r matches Ok(_) ==> *final(pos) == *old(pos) + len && data@[*old(pos) as int] == 0
                && final(self).buf@ == data@.subrange(*old(pos) + 5, *old(pos) + len),
            r matches Ok(_) ==> final(self).pos == 0 && final(self).end == len - 5 && final(self).range == 0xFFFF_FFFFu32
                && final(self).code == data@[*old(pos) + 1] * 0x100_0000 + data@[*old(pos) + 2]
                * 0x1_0000 + data@[*old(pos) + 3] * 0x100 + data@[*old(pos) + 4],
            r is Err <==> len < 5 || *old(pos) + len > data@.len() || (*old(pos) < data@.len()
                && data@[*old(pos) as int] != 0),
    {
        if len < 5 {
            return Err(Error::corrupt("chunk len must be >= 5"));
        }
        let marker = crate::bytes::read_u8(data, pos)?;
        if marker != 0 {
            return Err(Error::corrupt("first chunk byte is not 0"));
        }
        let b1 = crate::bytes::read_u8(data, pos)?;
        let b2 = crate::bytes::read_u8(data, pos)?;
        let b3 = crate::bytes::read_u8(data, pos)?;
        let b4 = crate::bytes::read_u8(data, pos)?;
        self.code = (b1 as u32) * 0x100_0000 + (b2 as u32) * 0x1_0000 + (b3 as u32) * 0x100 + (
        b4 as u32);
        self.range = 0xFFFF_FFFFu32;
        self.buf = crate::bytes::read_exact(data, pos, len - 5)?;
        self.pos = 0;
        self.end = self.buf.len();
        Ok(())
    }

    pub open spec fn is_finished_spec(self) -> bool {
        self.pos == self.end && self.code == 0
    }

    /// The top byte of `range` is clear, so a source byte must be shifted
    /// into `code` before the next decision.
    pub open spec fn needs_refill(self) -> bool {
        self.range & 0xFF00_0000u32 == 0
    }

    /// Refilling fails: a byte is needed but the source is exhausted.
    pub open spec fn refill_blocked(self) -> bool {
        self.needs_refill() && self.pos >= self.end
    }

    /// The state after normalization: `code` picks up the next source
    /// byte and `range` is scaled by 256; a full range is left alone.
    pub open spec fn spec_normalized(self) -> RangeDecoder {
        if self.needs_refill() {
            RangeDecoder {
                pos: (self.pos + 1) as usize,
                code: (self.code << 8u32) | self.buf@[self.pos as int] as u32,
                range: self.range << 8u32,
                ..self
            }
        } else {
            self
        }
    }
}

/// One bit decision as a function of the state: normalize, compare `code`
/// against `bound = (range >> 11) * probs[i]`, scale the range to the
/// chosen side, and move the probability towards the decoded bit; `None`
/// when the source is exhausted.
pub open spec fn spec_bit_step(rd: RangeDecoder, probs: Seq<u16>, i: int) -> Option<
    (RangeDecoder, Seq<u16>, u32),
> {
    if rd.refill_blocked() {
        None
    } else {
        let n = rd.spec_normalized();
        let p = probs[i];
        let bound = (n.range >> 11u32) * p;
        if n.code < bound {
            Some(
                (
                    RangeDecoder { range: bound as u32, ..n },
                    probs.update(i, (p + (2048 - p) / 32) as u16),
                    0u32,
                ),
            )
        } else {
            Some(
                (
                    RangeDecoder { range: (n.range - bound) as u32, code: (n.code - bound) as u32, ..n },
                    probs.update(i, (p - p / 32) as u16),
                    1u32,
                ),
            )
        }
    }
}

impl RangeDecoder {

    /// At a chunk boundary the buffer must be fully consumed and the code
    /// drained to zero.
    pub fn is_finished(&self) -> (r: bool)
        ensures
            r == self.is_finished_spec(),
    {
        self.pos == self.end && self.code == 0
    }

    /// A whole LZMA stream ends normalized with `code == 0`.
    pub fn is_stream_finished(&self) -> (r: bool)
        ensures
            r == (self.code == 0),
    {
        self.code == 0
    }

    fn next_byte(&mut self) -> (r: Result<u8, Error>)
        requires
            old(self).wf(),
        ensures
            final(self).wf(),
            final(self).buf == old(self).buf,
            final(self).end == old(self).end,
            final(self).range == old(self).range,
            final(self).code == old(self).code,
            r matches Ok(b) ==> final(self).pos == old(self).pos + 1 && b == old(self).buf@[
                old(self).pos as int
            ],
            r is Err <==> old(self).pos >= old(self).end,
            r is Err ==> *final(self) == *old(self),
    {
        if self.pos < self.end {
            let b = self.buf[self.pos];
            self.pos += 1;
            Ok(b)
        } else {
            Err(Error::corrupt("range decoder exhausted"))
        }
    }

    /// If the top byte of `range` is zero, shifts one source byte into
    /// `code` and scales `range` up by 256.
    pub fn normalize(&mut self) -> (r: Result<(), Error>)
        requires
            old(self).wf(),
        ensures
            final(self).wf(),
            final(self).buf == old(self).buf,
            final(self).end == old(self).end,
            old(self).pos <= final(self).pos,
            r is Err <==> old(self).refill_blocked(),
            r is Ok ==> *final(self) == old(self).spec_normalized(),
            r is Err ==> *final(self) == *old(self),
    {
        if self.range & 0xFF00_0000u32 == 0 {
            let b = self.next_byte()?;
            self.code = (self.code << 8u32) | (b as u32);
            self.range = self.range << 8u32;
        }
        Ok(())
    }

    /// Decodes one bit against `probs[index]`, moving the probability
    /// towards the decoded value.
    pub fn decode_bit(&mut self, probs: &mut Vec<u16>, index: usize) -> (r: Result<u32, Error>)
        requires
            old(self).wf(),
            index < old(probs)@.len(),
            probs_wf(old(probs)@),
        ensures
            final(self).wf(),
            final(self).buf == old(self).buf,
            final(self).end == old(self).end,
            old(self).pos <= final(self).pos,
            final(probs)@.len() == old(probs)@.len(),
            probs_wf(final(probs)@),
            forall|j: int|
                0 <= j < old(probs)@.len() && j != index ==> final(probs)@[j] == old(probs)@[j],
            r matches Ok(b) ==> b <= 1,
            r is Err <==> spec_bit_step(*old(self), old(probs)@, index as int) is None,
            r matches Ok(b) ==> (spec_bit_step(*old(self), old(probs)@, index as int) matches Some(
                s,
            ) && *final(self) == s.0 && final(probs)@ == s.1 && b == s.2),
    {
        self.normalize()?;
        let prob = probs[index] as u32;
        proof {
            let rg = self.range;
            assert((rg >> 11u32) < 0x200000 && ((rg >> 11u32) * 2048) <= rg) by (bit_vector);
            let h = (rg >> 11u32) as int;
            assert(h * prob <= h * 2048) by (nonlinear_arith)
                requires
                    0 <= h,
                    prob <= 2048,
            ;
        }
        let bound = (self.range >> 11u32) * prob;
        if self.code < bound {
            self.range = bound;
            let inc = (2048 - prob) / 32;
            probs.set(index, (prob + inc) as u16);
            Ok(0)
        } else {
            self.range = self.range - bound;
            self.code = self.code - bound;
            let dec = prob / 32;
            probs.set(index, (prob - dec) as u16);
            Ok(1)
        }
    }

    /// Walks a balanced bit tree; the result is the reached leaf, in
    /// `[0, probs.len())`, exactly as the functional walk decodes it.
    pub fn decode_bit_tree(&mut self, probs: &mut Vec<u16>) -> (r: Result<u32, Error>)
        requires
            old(self).wf(),
            2 <= old(probs)@.len() <= 0x10000,
            probs_wf(old(probs)@),
        ensures
            final(self).wf(),
            final(self).buf == old(self).buf,
            final(self).end == old(self).end,
            old(self).pos <= final(self).pos,
            final(probs)@.len() == old(probs)@.len(),
            probs_wf(final(probs)@),
            r matches Ok(v) ==> v < old(probs)@.len(),
            r is Err <==> spec_tree_walk(
                *old(self),
                old(probs)@,
                1,
                old(probs)@.len() as nat,
            ) is None,
            r matches Ok(v) ==> (spec_tree_walk(
                *old(self),
                old(probs)@,
                1,
                old(probs)@.len() as nat,
            ) matches Some(s) && *final(self) == s.0 && final(probs)@ == s.1 && v == s.2),
    {
        let mut symbol: usize = 1;
        let ghost mut it: int = 0;
        loop
            invariant
                self.wf(),
                self.buf == old(self).buf,
                self.end == old(self).end,
                old(self).pos <= self.pos,
                1 <= symbol < probs@.len(),
                probs@.len() == old(probs)@.len(),
                2 <= probs@.len() <= 0x10000,
                probs_wf(probs@),
                0 <= it && it + 1 <= symbol,
                spec_tree_walk(*old(self), old(probs)@, 1, old(probs)@.len() as nat)
                    == spec_tree_walk(*self, probs@, symbol as int, (old(probs)@.len() - it) as nat),
            decreases probs@.len() - symbol,
        {
            let ghost pre_rd = *self;
            let ghost pre_probs = probs@;
            let ghost fuel = (old(probs)@.len() - it) as nat;
            let bit = match self.decode_bit(probs, symbol) {
                Ok(b) => b,
                Err(e) => {
                    proof {
                        assert(spec_tree_walk(pre_rd, pre_probs, symbol as int, fuel) is None);
                    }
                    return Err(e);
                },
            };
            proof {
                assert(spec_tree_walk(pre_rd, pre_probs, symbol as int, fuel) == spec_tree_walk(
                    *self,
                    probs@,
                    2 * symbol + bit,
                    (fuel - 1) as nat,
                ));
                it = it + 1;
            }
            symbol = symbol * 2 + (bit as usize);
            if symbol >= probs.len() {
                proof {
                    assert(spec_tree_walk(*self, probs@, symbol as int, (fuel - 1) as nat)
                        == Some((*self, probs@, symbol - probs@.len())));
                }
                return Ok((symbol - probs.len()) as u32);
            }
        }
    }

    /// Like `decode_bit_tree`, but yields the decoded bits LSB-first,
    /// exactly as the functional reverse walk gathers them.
    pub fn decode_reverse_bit_tree(&mut self, probs: &mut Vec<u16>) -> (r: Result<u32, Error>)
        requires
            old(self).wf(),
            2 <= old(probs)@.len() <= 0x10000,
            probs_wf(old(probs)@),
        ensures
            final(self).wf(),
            final(self).buf == old(self).buf,
            final(self).end == old(self).end,
            old(self).pos <= final(self).pos,
            final(probs)@.len() == old(probs)@.len(),
            probs_wf(final(probs)@),
            r is Err <==> spec_reverse_walk(
                *old(self),
                old(probs)@,
                1,
                0,
                0,
                old(probs)@.len() as nat,
            ) is None,
            r matches Ok(v) ==> (spec_reverse_walk(
                *old(self),
                old(probs)@,
                1,
                0,
                0,
                old(probs)@.len() as nat,
            ) matches Some(s) && *final(self) == s.0 && final(probs)@ == s.1 && v == s.2),
    {
        let mut symbol: usize = 1;
        let mut i: u32 = 0;
        let mut result: u32 = 0;
        let ghost mut it: int = 0;
        proof {
            vstd::arithmetic::power2::lemma2_to64();
        }
        loop
            invariant
                self.wf(),
                self.buf == old(self).buf,
                self.end == old(self).end,
                old(self).pos <= self.pos,
                1 <= symbol < probs@.len(),
                probs@.len() == old(probs)@.len(),
                2 <= probs@.len() <= 0x10000,
                probs_wf(probs@),
                vstd::arithmetic::power2::pow2(i as nat) <= symbol,
                result < vstd::arithmetic::power2::pow2(i as nat),
                0 <= it && it + 1 <= symbol,
                spec_reverse_walk(*old(self), old(probs)@, 1, 0, 0, old(probs)@.len() as nat)
                    == spec_reverse_walk(
                    *self,
                    probs@,
                    symbol as int,
                    result as int,
                    i as nat,
                    (old(probs)@.len() - it) as nat,
                ),
            decreases probs@.len() - symbol,
        {
            proof {
                vstd::arithmetic::power2::lemma2_to64();
                if i >= 16 {
                    vstd::arithmetic::power2::lemma_pow2_strictly_increases(16, i as nat);
                }
                assert(i < 16);
                assert(vstd::arithmetic::power2::pow2((i + 1) as nat) == 2
                    * vstd::arithmetic::power2::pow2(i as nat)) by {
                    vstd::arithmetic::power2::lemma_pow2_unfold((i + 1) as nat);
                }
            }
            let ghost pre_rd = *self;
            let ghost pre_probs = probs@;
            let ghost fuel = (old(probs)@.len() - it) as nat;
            let bit = match self.decode_bit(probs, symbol) {
                Ok(b) => b,
                Err(e) => {
                    proof {
                        assert(spec_reverse_walk(
                            pre_rd,
                            pre_probs,
                            symbol as int,
                            result as int,
                            i as nat,
                            fuel,
                        ) is None);
                    }
                    return Err(e);
                },
            };
            proof {
                assert(spec_reverse_walk(
                    pre_rd,
                    pre_probs,
                    symbol as int,
                    result as int,
                    i as nat,
                    fuel,
                ) == spec_reverse_walk(
                    *self,
                    probs@,
                    2 * symbol + bit,
                    result + bit * vstd::arithmetic::power2::pow2(i as nat),
                    (i + 1) as nat,
                    (fuel - 1) as nat,
                ));
                it = it + 1;
                let rr = result;
                let bb = bit;
                let ii = i;
                let p = vstd::arithmetic::power2::pow2(i as nat);
                vstd::bits::lemma_u64_pow2_no_overflow(i as nat);
                assert(bb * p <= p) by (nonlinear_arith)
                    requires
                        bb <= 1 && p >= 0,
                ;
                vstd::bits::lemma_u32_shl_is_mul(bb, ii);
                vstd::bits::lemma_u32_shl_is_mul(1u32, ii);
                assert(rr & (bb << ii) == 0) by (bit_vector)
                    requires
                        ii < 32 && rr < (1u32 << ii),
                ;
                assert(rr | (bb << ii) == rr + (bb << ii)) by (bit_vector)
                    requires
                        rr & (bb << ii) == 0,
                ;
            }
            symbol = symbol * 2 + (bit as usize);
            result = result | (bit << i);
            i += 1;
            if symbol >= probs.len() {
                proof {
                    assert(spec_reverse_walk(
                        *self,
                        probs@,
                        symbol as int,
                        result as int,
                        i as nat,
                        (fuel - 1) as nat,
                    ) == Some((*self, probs@, result as int)));
                }
                return Ok(result);
            }
        }
    }

    /// Decodes `count` uniformly distributed bits, MSB-first, exactly as
    /// the functional step sequence produces them.
    pub fn decode_direct_bits(&mut self, count: u32) -> (r: Result<u32, Error>)
        requires
            old(self).wf(),
            1 <= count <= 30,
        ensures
            final(self).wf(),
            final(self).buf == old(self).buf,
            final(self).end == old(self).end,
            old(self).pos <= final(self).pos,
            r is Err <==> spec_direct_bits(*old(self), count as nat, 0) is None,
            r matches Ok(v) ==> (spec_direct_bits(*old(self), count as nat, 0) matches Some(s)
                && *final(self) == s.0 && v == s.1),
    {
        let mut result: u32 = 0;
        let mut left: u32 = count;
        proof {
            vstd::arithmetic::power2::lemma2_to64();
        }
        while left > 0
            invariant
                self.wf(),
                self.buf == old(self).buf,
                self.end == old(self).end,
                old(self).pos <= self.pos,
                left <= count <= 30,
                result < vstd::arithmetic::power2::pow2((count - left) as nat),
                spec_direct_bits(*old(self), count as nat, 0) == spec_direct_bits(
                    *self,
                    left as nat,
                    result as int,
                ),
            decreases left,
        {
            proof {
                vstd::arithmetic::power2::lemma2_to64();
                vstd::arithmetic::power2::lemma_pow2_unfold((count - left + 1) as nat);
                if ((count - left) as nat) < 29 {
                    vstd::arithmetic::power2::lemma_pow2_strictly_increases(
                        (count - left) as nat,
                        29,
                    );
                }
            }
            let ghost pre_rd = *self;
            match self.normalize() {
                Ok(_) => {},
                Err(e) => {
                    proof {
                        assert(spec_direct_bits(pre_rd, left as nat, result as int) is None);
                    }
                    return Err(e);
                },
            }
            self.range = self.range >> 1u32;
            let bit: u32;
            if self.code >= self.range {
                self.code = self.code - self.range;
                bit = 1;
            } else {
                bit = 0;
            }
            proof {
                assert(spec_direct_step(pre_rd) == Some((*self, bit)));
                assert(spec_direct_bits(pre_rd, left as nat, result as int) == spec_direct_bits(
                    *self,
                    (left - 1) as nat,
                    2 * result + bit,
                ));
            }
            result = result * 2 + bit;
            left -= 1;
        }
        Ok(result)
    }
}

} // verus!
