//! LZMA probability model: the 12-state machine, the shared probability
//! tables, the literal sub-coder selector, and the match/rep length coder.
//!
//! All probabilities are reset to 1024 (half of the 2048 bit-model total).

use vstd::prelude::*;

use crate::error::Error;
use crate::range_codec::{probs_wf, RangeDecoder};

verus! {

pub const DICT_SIZE_MIN: u32 = 4096;

pub const DICT_SIZE_MAX: u32 = 0xFFFF_FFF0u32;

pub const MATCH_LEN_MIN: u32 = 2;

pub const MATCH_LEN_MAX: u32 = 273;

/// Every probability of the table is at its initial value, half the
/// 2048 bit-model total.
pub open spec fn probs_init(s: Seq<u16>) -> bool {
    forall|i: int| 0 <= i < s.len() ==> s[i] == 1024
}

/// Every row of the table is at its initial value.
pub open spec fn probs2d_init(s: Seq<Vec<u16>>) -> bool {
    forall|i: int| 0 <= i < s.len() ==> probs_init((#[trigger] s[i])@)
}

/// A vector of `n` probabilities, all initialized to 1024.
pub fn new_probs(n: usize) -> (r: Vec<u16>)
    ensures
        r@.len() == n,
        probs_wf(r@),
        probs_init(r@),
{
    let mut v: Vec<u16> = Vec::new();
    let mut i: usize = 0;
    while i < n
        invariant
            i <= n,
            v@.len() == i,
            probs_wf(v@),
            probs_init(v@),
        decreases n - i,
    {
        v.push(1024);
        i += 1;
    }
    v
}

/// `rows` probability vectors of `cols` entries each, all 1024.
pub fn new_probs2d(rows: usize, cols: usize) -> (r: Vec<Vec<u16>>)
    ensures
        r@.len() == rows,
        forall|i: int|
            0 <= i < rows ==> (#[trigger] r@[i])@.len() == cols && probs_wf(r@[i]@),
        probs2d_init(r@),
{
    let mut v: Vec<Vec<u16>> = Vec::new();
    let mut i: usize = 0;
    while i < rows
        invariant
            i <= rows,
            v@.len() == i,
            forall|j: int|
                0 <= j < i ==> (#[trigger] v@[j])@.len() == cols && probs_wf(v@[j]@),
            probs2d_init(v@),
        decreases rows - i,
    {
        v.push(new_probs(cols));
        i += 1;
    }
    v
}

/// The LZMA state machine: 12 states tracking the shape of recent symbols
/// (literal runs, matches, rep-matches, short reps).
pub struct State {
    pub value: u8,
}

impl State {
    pub open spec fn wf(self) -> bool {
        self.value < 12
    }

    pub fn new() -> (r: State)
        ensures
            r.wf(),
            r.value == 0,
    {
        State { value: 0 }
    }

    pub fn reset(&mut self)
        ensures
            final(self).wf(),
            final(self).value == 0,
    {
        self.value = 0;
    }

    pub fn get(&self) -> (r: u8)
        ensures
            r == self.value,
    {
        self.value
    }

    /// States below 7 follow a literal.
    pub fn is_literal(&self) -> (r: bool)
        ensures
            r == (self.value < 7),
    {
        self.value < 7
    }

    pub fn update_literal(&mut self)
        requires
            old(self).wf(),
        ensures
            final(self).wf(),
            final(self).value < 7,
    {
        if self.value <= 3 {
            self.value = 0;
        } else if self.value <= 9 {
            self.value = self.value - 3;
        } else {
            self.value = self.value - 6;
        }
    }

    pub fn update_match(&mut self)
        requires
            old(self).wf(),
        ensures
            final(self).wf(),
            final(self).value == if old(self).value < 7 {
                7u8
            } else {
                10u8
            },
    {
        self.value = if self.value < 7 {
            7
        } else {
            10
        };
    }

    pub fn update_long_rep(&mut self)
        requires
            old(self).wf(),
        ensures
            final(self).wf(),
            final(self).value == if old(self).value < 7 {
                8u8
            } else {
                11u8
            },
    {
        self.value = if self.value < 7 {
            8
        } else {
            11
        };
    }

    pub fn update_short_rep(&mut self)
        requires
            old(self).wf(),
        ensures
            final(self).wf(),
            final(self).value == if old(self).value < 7 {
                9u8
            } else {
                11u8
            },
    {
        self.value = if self.value < 7 {
            9
        } else {
            11
        };
    }
}

/// Row length of the grouped distance-slot probabilities for slots 4..13.
pub open spec fn dist_special_size(i: int) -> int {
    if i < 2 {
        2
    } else if i < 4 {
        4
    } else if i < 6 {
        8
    } else if i < 8 {
        16
    } else {
        32
    }
}

/// The probability tables and repeated-distance registers shared by the
/// match, rep-match, and literal paths of the decoder.
pub struct LZMACoder {
    pub pos_mask: u32,
    pub rep0: u32,
    pub rep1: u32,
    pub rep2: u32,
    pub rep3: u32,
    pub state: State,
    pub is_match: Vec<Vec<u16>>,
    pub is_rep: Vec<u16>,
    pub is_rep0: Vec<u16>,
    pub is_rep1: Vec<u16>,
    pub is_rep2: Vec<u16>,
    pub is_rep0_long: Vec<Vec<u16>>,
    pub dist_slots: Vec<Vec<u16>>,
    pub dist_special: Vec<Vec<u16>>,
    pub dist_align: Vec<u16>,
}

impl LZMACoder {
    /// Every probability table of the coder is at its initial 1024 value.
    pub open spec fn tables_init(self) -> bool {
        &&& probs2d_init(self.is_match@)
        &&& probs_init(self.is_rep@)
        &&& probs_init(self.is_rep0@)
        &&& probs_init(self.is_rep1@)
        &&& probs_init(self.is_rep2@)
        &&& probs2d_init(self.is_rep0_long@)
        &&& probs2d_init(self.dist_slots@)
        &&& probs2d_init(self.dist_special@)
        &&& probs_init(self.dist_align@)
    }

    pub open spec fn wf(self) -> bool {
        &&& self.pos_mask <= 15
        &&& self.state.wf()
        &&& self.is_match@.len() == 12
        &&& forall|i: int|
            0 <= i < 12 ==> (#[trigger] self.is_match@[i])@.len() == 16 && probs_wf(
                self.is_match@[i]@,
            )
        &&& self.is_rep@.len() == 12 && probs_wf(self.is_rep@)
        &&& self.is_rep0@.len() == 12 && probs_wf(self.is_rep0@)
        &&& self.is_rep1@.len() == 12 && probs_wf(self.is_rep1@)
        &&& self.is_rep2@.len() == 12 && probs_wf(self.is_rep2@)
        &&& self.is_rep0_long@.len() == 12
        &&& forall|i: int|
            0 <= i < 12 ==> (#[trigger] self.is_rep0_long@[i])@.len() == 16 && probs_wf(
                self.is_rep0_long@[i]@,
            )
        &&& self.dist_slots@.len() == 4
        &&& forall|i: int|
            0 <= i < 4 ==> (#[trigger] self.dist_slots@[i])@.len() == 64 && probs_wf(
                self.dist_slots@[i]@,
            )
        &&& self.dist_special@.len() == 10
        &&& forall|i: int|
            0 <= i < 10 ==> (#[trigger] self.dist_special@[i])@.len() == dist_special_size(i)
                && probs_wf(self.dist_special@[i]@)
        &&& self.dist_align@.len() == 16 && probs_wf(self.dist_align@)
    }

    pub fn new(pb: u32) -> (r: LZMACoder)
        requires
            pb <= 4,
        ensures
            r.wf(),
            r.pos_mask == (1u32 << pb) - 1,
            r.rep0 == 0 && r.rep1 == 0 && r.rep2 == 0 && r.rep3 == 0,
            r.state.value == 0,
            r.tables_init(),
    {
        proof {
            let p = pb;
            assert((1u32 << p) >= 1 && (1u32 << p) - 1 <= 15) by (bit_vector)
                requires
                    p <= 4,
            ;
        }
        let mask: u32 = (1u32 << pb) - 1;
        let mut c = LZMACoder {
            pos_mask: mask,
            rep0: 0,
            rep1: 0,
            rep2: 0,
            rep3: 0,
            state: State::new(),
            is_match: Vec::new(),
            is_rep: Vec::new(),
            is_rep0: Vec::new(),
            is_rep1: Vec::new(),
            is_rep2: Vec::new(),
            is_rep0_long: Vec::new(),
            dist_slots: Vec::new(),
            dist_special: Vec::new(),
            dist_align: Vec::new(),
        };
        c.reset();
        c
    }

    /// Restores every probability to 1024, the reps to 0, and the state to
    /// "literal just seen".
    pub fn reset(&mut self)
        requires
            old(self).pos_mask <= 15,
        ensures
            final(self).wf(),
            final(self).pos_mask == old(self).pos_mask,
            final(self).rep0 == 0 && final(self).rep1 == 0,
            final(self).rep2 == 0 && final(self).rep3 == 0,
            final(self).state.value == 0,
            final(self).tables_init(),
    {
        self.rep0 = 0;
        self.rep1 = 0;
        self.rep2 = 0;
        self.rep3 = 0;
        self.state.reset();
        self.is_match = new_probs2d(12, 16);
        self.is_rep = new_probs(12);
        self.is_rep0 = new_probs(12);
        self.is_rep1 = new_probs(12);
        self.is_rep2 = new_probs(12);
        self.is_rep0_long = new_probs2d(12, 16);
        self.dist_slots = new_probs2d(4, 64);
        let mut ds: Vec<Vec<u16>> = Vec::new();
        let mut i: usize = 0;
        while i < 10
            invariant
                i <= 10,
                ds@.len() == i,
                forall|j: int|
                    0 <= j < i ==> (#[trigger] ds@[j])@.len() == dist_special_size(j) && probs_wf(
                        ds@[j]@,
                    ),
                probs2d_init(ds@),
            decreases 10 - i,
        {
            let n: usize = if i < 2 {
                2
            } else if i < 4 {
                4
            } else if i < 6 {
                8
            } else if i < 8 {
                16
            } else {
                32
            };
            ds.push(new_probs(n));
            i += 1;
        }
        self.dist_special = ds;
        self.dist_align = new_probs(16);
    }
}

/// Selects the literal sub-coder from the previous byte's top bits and the
/// position's low bits.
pub struct LiteralCoder {
    pub lc: u32,
    pub literal_pos_mask: u32,
}

impl LiteralCoder {
    pub open spec fn wf(self) -> bool {
        self.lc <= 8 && self.literal_pos_mask <= 15
    }

    pub fn new(lc: u32, lp: u32) -> (r: LiteralCoder)
        requires
            lc <= 8,
            lp <= 4,
        ensures
            r.wf(),
            r.lc == lc,
            r.literal_pos_mask == (1u32 << lp) - 1,
    {
        proof {
            let p = lp;
            assert((1u32 << p) >= 1 && (1u32 << p) - 1 <= 15) by (bit_vector)
                requires
                    p <= 4,
            ;
        }
        LiteralCoder { lc, literal_pos_mask: (1u32 << lp) - 1 }
    }

    /// `(prev_byte >> (8 - lc)) + ((pos & pos_mask) << lc)`, always below
    /// the number of sub-coders.
    pub fn get_sub_coder_index(&self, prev_byte: u32, pos: u32) -> (r: u32)
        requires
            self.wf(),
            prev_byte <= 255,
        ensures
            r < (self.literal_pos_mask << self.lc) + (1u32 << self.lc),
            r == (prev_byte >> ((8 - self.lc) as u32)) + ((pos & self.literal_pos_mask)
                << self.lc),
    {
        let sh: u32 = 8 - self.lc;
        let low = prev_byte >> sh;
        let high = (pos & self.literal_pos_mask) << self.lc;
        proof {
            let p = prev_byte;
            let s2 = sh;
            let q = pos;
            let c = self.lc;
            let m = self.literal_pos_mask;
            assert((p >> s2) < (1u32 << c)) by (bit_vector)
                requires
                    p <= 255,
                    s2 == 8u32 - c,
                    c <= 8,
            ;
            assert(((q & m) << c) <= (m << c) && (m << c) <= 3840 && (1u32 << c) <= 256)
                by (bit_vector)
                requires
                    c <= 8,
                    m <= 15,
            ;
        }
        low + high
    }
}

/// Match/rep length decoder: two choice bits select the low `[2,9]`,
/// mid `[10,17]`, or high `[18,273]` bit-tree range.
pub struct LengthCoder {
    pub choice: Vec<u16>,
    pub low: Vec<Vec<u16>>,
    pub mid: Vec<Vec<u16>>,
    pub high: Vec<u16>,
}

impl LengthCoder {
    /// Every table of the length coder is at its initial 1024 value.
    pub open spec fn tables_init(self) -> bool {
        &&& probs_init(self.choice@)
        &&& probs2d_init(self.low@)
        &&& probs2d_init(self.mid@)
        &&& probs_init(self.high@)
    }

    pub open spec fn wf(self) -> bool {
        &&& self.choice@.len() == 2 && probs_wf(self.choice@)
        &&& self.low@.len() == 16
        &&& forall|i: int|
            0 <= i < 16 ==> (#[trigger] self.low@[i])@.len() == 8 && probs_wf(self.low@[i]@)
        &&& self.mid@.len() == 16
        &&& forall|i: int|
            0 <= i < 16 ==> (#[trigger] self.mid@[i])@.len() == 8 && probs_wf(self.mid@[i]@)
        &&& self.high@.len() == 256 && probs_wf(self.high@)
    }

    pub fn new() -> (r: LengthCoder)
        ensures
            r.wf(),
            r.tables_init(),
    {
        LengthCoder {
            choice: new_probs(2),
            low: new_probs2d(16, 8),
            mid: new_probs2d(16, 8),
            high: new_probs(256),
        }
    }

    pub fn reset(&mut self)
        ensures
            final(self).wf(),
            final(self).tables_init(),
    {
        self.choice = new_probs(2);
        self.low = new_probs2d(16, 8);
        self.mid = new_probs2d(16, 8);
        self.high = new_probs(256);
    }

    /// Decodes a length in `[2, 273]`.
    pub fn decode(&mut self, pos_state: usize, rc: &mut RangeDecoder) -> (r: Result<u32, Error>)
        requires
            old(self).wf(),
            old(rc).wf(),
            pos_state < 16,
        ensures
            final(self).wf(),
            final(rc).wf(),
            final(rc).buf == old(rc).buf,
            final(rc).end == old(rc).end,
            r matches Ok(v) ==> 2 <= v <= 273,
    {
        if rc.decode_bit(&mut self.choice, 0)? == 0 {
            let v = rc.decode_bit_tree(&mut self.low[pos_state])?;
            return Ok(v + 2);
        }
        if rc.decode_bit(&mut self.choice, 1)? == 0 {
            let v = rc.decode_bit_tree(&mut self.mid[pos_state])?;
            return Ok(v + 10);
        }
        let v = rc.decode_bit_tree(&mut self.high)?;
        Ok(v + 18)
    }
}

} // verus!
