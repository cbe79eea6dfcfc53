//! BCJ branch filters: reversible transforms that turn the absolute
//! branch targets produced by the encoder side back into the relative
//! offsets of the original machine code.  Decoding subtracts the current
//! instruction address from the stored target.
//!
//! Each decoder rewrites the whole buffer in place, starting at
//! instruction address 0, and leaves the length unchanged.

use vstd::prelude::*;

verus! {

/// A branch target byte that the x86 filter treats as convertible.
pub open spec fn test86_byte(b: u8) -> bool {
    b == 0 || b == 0xFF
}

fn test86(b: u8) -> (r: bool)
    ensures
        r == test86_byte(b),
{
    b == 0 || b == 0xFF
}

/// x86 BCJ decoder: rewrites the 32-bit operands of CALL (0xE8) and JMP
/// (0xE9) instructions, tracking a small mask of recently seen opcodes to
/// skip over bytes the encoder also skipped.
pub fn bcj_x86_decode(buf: &mut Vec<u8>)
    ensures
        final(buf)@.len() == old(buf)@.len(),
{
    if buf.len() < 5 {
        return ;
    }
    let size = buf.len() - 4;
    let ip: u32 = 5;
    let mut pos: usize = 0;
    let mut mask: u32 = 0;
    while pos < size
        invariant
            buf@.len() == old(buf)@.len(),
            buf@.len() <= usize::MAX,
            size + 4 == buf@.len(),
            mask <= 7,
        decreases buf@.len() - pos,
    {
        let mut p = pos;
        while p < size && (buf[p] & 0xFE) != 0xE8
            invariant
                pos <= p <= size,
                size + 4 == buf@.len(),
            decreases size - p,
        {
            p += 1;
        }
        if p >= size {
            return ;
        }
        let d = p - pos;
        pos = p;
        if d > 2 {
            mask = 0;
        } else {
            proof {
                let m = mask;
                let dd = d as u32;
                assert((m >> dd) <= 7) by (bit_vector)
                    requires
                        m <= 7,
                ;
            }
            mask = mask >> (d as u32);
        }
        if mask != 0 {
            proof {
                let m = mask;
                assert((m >> 1u32) <= 3 && ((m >> 1u32) | 4) <= 7) by (bit_vector)
                    requires
                        m <= 7,
                ;
            }
            let test_idx = pos + ((mask >> 1u32) as usize) + 1;
            if mask > 4 || mask == 3 || test86(buf[test_idx]) {
                mask = (mask >> 1u32) | 4;
                pos += 1;
                continue ;
            }
        }
        if test86(buf[pos + 4]) {
            let v0: u32 = (buf[pos + 4] as u32) * 0x100_0000 + (buf[pos + 3] as u32) * 0x1_0000 + (
            buf[pos + 2] as u32) * 0x100 + (buf[pos + 1] as u32);
            let cur: u32 = ip.wrapping_add(#[verifier::truncate] (pos as u32));
            let mut v: u32 = v0.wrapping_sub(cur);
            if mask != 0 {
                proof {
                    let m = mask;
                    assert(((m & 6) << 2u32) <= 24) by (bit_vector)
                        requires
                            m <= 7,
                    ;
                }
                let sh: u32 = (mask & 6) << 2u32;
                let b: u8 = #[verifier::truncate] ((v >> sh) as u8);
                if test86(b) {
                    proof {
                        let s2 = sh;
                        assert((0x100u64 << s2) >= 1) by (bit_vector)
                            requires
                                s2 <= 24,
                        ;
                    }
                    let m64: u64 = (0x100u64 << sh) - 1;
                    v = v ^ (#[verifier::truncate] (m64 as u32));
                    v = v.wrapping_sub(cur);
                }
                mask = 0;
            }
            buf.set(pos + 1, #[verifier::truncate] (v as u8));
            buf.set(pos + 2, #[verifier::truncate] ((v >> 8u32) as u8));
            buf.set(pos + 3, #[verifier::truncate] ((v >> 16u32) as u8));
            let top: u8 = if (v >> 24u32) & 1 == 1 {
                0xFF
            } else {
                0
            };
            buf.set(pos + 4, top);
            pos += 5;
        } else {
            proof {
                let m = mask;
                assert(((m >> 1u32) | 4) <= 7) by (bit_vector)
                    requires
                        m <= 7,
                ;
            }
            mask = (mask >> 1u32) | 4;
            pos += 1;
        }
    }
}

/// PowerPC BCJ decoder: 4-byte aligned `bl` instructions (major opcode 18
/// with the link bit) carry a 24-bit big-endian word offset.
pub fn bcj_ppc_decode(buf: &mut Vec<u8>)
    ensures
        final(buf)@.len() == old(buf)@.len(),
{
    if buf.len() < 4 {
        return ;
    }
    let size = buf.len() - 3;
    let mut pos: usize = 0;
    while pos < size
        invariant
            buf@.len() == old(buf)@.len(),
            buf@.len() <= usize::MAX,
            size + 3 == buf@.len(),
        decreases buf@.len() - pos,
    {
        if (buf[pos] & 0xFC) == 0x48 && (buf[pos + 3] & 3) == 1 {
            let v: u32 = ((buf[pos] & 3) as u32) * 0x100_0000 + (buf[pos + 1] as u32) * 0x1_0000 + (
            buf[pos + 2] as u32) * 0x100 + ((buf[pos + 3] & 0xFC) as u32);
            let v = v.wrapping_sub(#[verifier::truncate] (pos as u32));
            buf.set(pos, 0x48 | (#[verifier::truncate] ((v >> 24u32) as u8) & 3));
            buf.set(pos + 1, #[verifier::truncate] ((v >> 16u32) as u8));
            buf.set(pos + 2, #[verifier::truncate] ((v >> 8u32) as u8));
            let low = buf[pos + 3] & 3;
            buf.set(pos + 3, (#[verifier::truncate] (v as u8) & 0xFC) | low);
        }
        pos += 4;
    }
}

/// The decoded word offset of the `BL` whose instruction starts at byte
/// `p`: the stored little-endian 24-bit target in bytes, minus the
/// instruction address `p + 8`, in the 32-bit space, back in words.
pub open spec fn arm_dest(b: Seq<u8>, p: int) -> int {
    ((b[p + 2] * 0x1_0000 + b[p + 1] * 0x100 + b[p]) * 4 - (p + 8)) % 0x1_0000_0000 / 4
}

/// ARM BCJ decoder: 4-byte aligned `BL` instructions (0xEB in the last
/// byte) carry a little-endian 24-bit word offset, biased by 8.
#[verifier::rlimit(100)]
pub fn bcj_arm_decode(buf: &mut Vec<u8>)
    ensures
        final(buf)@.len() == old(buf)@.len(),
        old(buf)@.len() <= 0xFFFF_FFFF ==> (forall|p: int|
            0 <= p && p % 4 == 0 && p + 4 <= old(buf)@.len() && old(buf)@[p + 3] == 0xEB ==> ({
                &&& #[trigger] final(buf)@[p] == arm_dest(old(buf)@, p) % 0x100
                &&& final(buf)@[p + 1] == arm_dest(old(buf)@, p) / 0x100 % 0x100
                &&& final(buf)@[p + 2] == arm_dest(old(buf)@, p) / 0x1_0000 % 0x100
            })),
        forall|i: int|
            0 <= i < old(buf)@.len() && !(4 * (i / 4) + 4 <= old(buf)@.len() && i % 4 != 3
                && old(buf)@[4 * (i / 4) + 3] == 0xEB) ==> #[trigger] final(buf)@[i] == old(
                buf,
            )@[i],
{
    if buf.len() < 4 {
        return ;
    }
    let size = buf.len() - 3;
    let mut pos: usize = 0;
    while pos < size
        invariant
            buf@.len() == old(buf)@.len(),
            buf@.len() <= usize::MAX,
            size + 3 == buf@.len(),
            pos % 4 == 0,
            forall|i: int| pos <= i < buf@.len() ==> #[trigger] buf@[i] == old(buf)@[i],
            buf@.len() <= 0xFFFF_FFFF ==> (forall|p: int|
                0 <= p && p % 4 == 0 && p + 4 <= pos && old(buf)@[p + 3] == 0xEB ==> ({
                    &&& #[trigger] buf@[p] == arm_dest(old(buf)@, p) % 0x100
                    &&& buf@[p + 1] == arm_dest(old(buf)@, p) / 0x100 % 0x100
                    &&& buf@[p + 2] == arm_dest(old(buf)@, p) / 0x1_0000 % 0x100
                })),
            forall|i: int|
                0 <= i < pos && !(i % 4 != 3 && old(buf)@[4 * (i / 4) + 3] == 0xEB)
                    ==> #[trigger] buf@[i] == old(buf)@[i],
            pos <= size + 3,
        decreases buf@.len() - pos,
    {
        if buf[pos + 3] == 0xEB {
            let v0: u32 = (buf[pos + 2] as u32) * 0x1_0000 + (buf[pos + 1] as u32) * 0x100 + (
            buf[pos] as u32);
            let v1 = v0 << 2u32;
            let w = (#[verifier::truncate] (pos as u32)).wrapping_add(8);
            let v2 = v1.wrapping_sub(w);
            let v3 = v2 >> 2u32;
            proof {
                vstd::arithmetic::power2::lemma2_to64();
                vstd::bits::lemma_u32_shl_is_mul(v0, 2);
                vstd::bits::lemma_u32_shr_is_div(v2, 2);
                if buf@.len() <= 0xFFFF_FFFF {
                    let r: int = 0x1_0000_0000;
                    let pi = pos as int;
                    assert(pos as u32 == pos);
                    // the wrapped instruction address is (pos + 8) % 2^32
                    if pi + 8 < r {
                        vstd::arithmetic::div_mod::lemma_small_mod((pi + 8) as nat, r as nat);
                    } else {
                        vstd::arithmetic::div_mod::lemma_mod_sub_multiples_vanish(pi + 8, r);
                        vstd::arithmetic::div_mod::lemma_small_mod((pi + 8 - r) as nat, r as nat);
                    }
                    assert(w == (pi + 8) % r);
                    // the wrapped difference is (stored - (pos + 8)) % 2^32
                    vstd::arithmetic::div_mod::lemma_sub_mod_noop(v1 as int, pi + 8, r);
                    vstd::arithmetic::div_mod::lemma_small_mod(v1 as nat, r as nat);
                    if v1 as int - w < 0 {
                        vstd::arithmetic::div_mod::lemma_mod_add_multiples_vanish(
                            v1 as int - w,
                            r,
                        );
                        vstd::arithmetic::div_mod::lemma_small_mod(
                            (v1 as int - w + r) as nat,
                            r as nat,
                        );
                    } else {
                        vstd::arithmetic::div_mod::lemma_small_mod((v1 as int - w) as nat, r as nat);
                    }
                    assert(v2 == (v1 as int - (pi + 8)) % r);
                    assert(v3 == arm_dest(old(buf)@, pi));
                    let y3 = v3;
                    assert(((y3 >> 16u32) as u8) == (y3 / 0x1_0000) % 0x100 && ((y3 >> 8u32) as u8)
                        == (y3 / 0x100) % 0x100 && (y3 as u8) == y3 % 0x100) by (bit_vector);
                }
            }
            buf.set(pos + 2, #[verifier::truncate] ((v3 >> 16u32) as u8));
            buf.set(pos + 1, #[verifier::truncate] ((v3 >> 8u32) as u8));
            buf.set(pos, #[verifier::truncate] (v3 as u8));
        }
        proof {
            if buf@.len() <= 0xFFFF_FFFF {
                assert forall|p: int|
                    0 <= p && p % 4 == 0 && p + 4 <= pos + 4 && old(buf)@[p + 3]
                        == 0xEB implies ({
                    &&& #[trigger] buf@[p] == arm_dest(old(buf)@, p) % 0x100
                    &&& buf@[p + 1] == arm_dest(old(buf)@, p) / 0x100 % 0x100
                    &&& buf@[p + 2] == arm_dest(old(buf)@, p) / 0x1_0000 % 0x100
                }) by {
                    assert(buf@[p] == arm_dest(old(buf)@, p) % 0x100);
                    assert(buf@[p + 1] == arm_dest(old(buf)@, p) / 0x100 % 0x100);
                    assert(buf@[p + 2] == arm_dest(old(buf)@, p) / 0x1_0000 % 0x100);
                }
            }
        }
        pos += 4;
    }
    proof {
        if buf@.len() <= 0xFFFF_FFFF {
            assert forall|p: int|
                0 <= p && p % 4 == 0 && p + 4 <= old(buf)@.len() && old(buf)@[p + 3]
                    == 0xEB implies ({
                &&& #[trigger] buf@[p] == arm_dest(old(buf)@, p) % 0x100
                &&& buf@[p + 1] == arm_dest(old(buf)@, p) / 0x100 % 0x100
                &&& buf@[p + 2] == arm_dest(old(buf)@, p) / 0x1_0000 % 0x100
            }) by {
                assert(p < pos && (pos - p) % 4 == 0);
                assert(p + 4 <= pos);
                assert(buf@[p] == arm_dest(old(buf)@, p) % 0x100);
                assert(buf@[p + 1] == arm_dest(old(buf)@, p) / 0x100 % 0x100);
                assert(buf@[p + 2] == arm_dest(old(buf)@, p) / 0x1_0000 % 0x100);
            }
        }
        assert forall|i: int|
            0 <= i < old(buf)@.len() && !(4 * (i / 4) + 4 <= old(buf)@.len() && i % 4 != 3
                && old(buf)@[4 * (i / 4) + 3] == 0xEB) implies #[trigger] buf@[i] == old(
            buf,
        )@[i] by {
            if i < pos {
                assert(4 * (i / 4) + 4 <= pos);
            }
        }
    }
}

/// ARM-Thumb BCJ decoder: 2-byte aligned BL instruction pairs carry a
/// 22-bit offset split over two half-words, biased by 4.
pub fn bcj_armt_decode(buf: &mut Vec<u8>)
    ensures
        final(buf)@.len() == old(buf)@.len(),
{
    if buf.len() < 4 {
        return ;
    }
    let size = buf.len() - 3;
    let mut pos: usize = 0;
    while pos < size
        invariant
            buf@.len() == old(buf)@.len(),
            buf@.len() <= usize::MAX,
            size + 3 == buf@.len(),
        decreases buf@.len() - pos,
    {
        if (buf[pos + 1] & 0xF8) == 0xF0 && (buf[pos + 3] & 0xF8) == 0xF8 {
            let v: u32 = ((buf[pos + 1] & 7) as u32) * 0x8_0000 + (buf[pos] as u32) * 0x800 + ((
            buf[pos + 3] & 7) as u32) * 0x100 + (buf[pos + 2] as u32);
            let v = v << 1u32;
            let v = v.wrapping_sub((#[verifier::truncate] (pos as u32)).wrapping_add(4));
            let v = v >> 1u32;
            buf.set(pos + 1, 0xF0 | (#[verifier::truncate] ((v >> 19u32) as u8) & 7));
            buf.set(pos, #[verifier::truncate] ((v >> 11u32) as u8));
            buf.set(pos + 3, 0xF8 | (#[verifier::truncate] ((v >> 8u32) as u8) & 7));
            buf.set(pos + 2, #[verifier::truncate] (v as u8));
            pos += 2;
        }
        pos += 2;
    }
}

/// SPARC BCJ decoder: 4-byte aligned CALL instructions (top bits 01) carry
/// a 30-bit big-endian word offset.
pub fn bcj_sparc_decode(buf: &mut Vec<u8>)
    ensures
        final(buf)@.len() == old(buf)@.len(),
{
    if buf.len() < 4 {
        return ;
    }
    let size = buf.len() - 3;
    let mut pos: usize = 0;
    while pos < size
        invariant
            buf@.len() == old(buf)@.len(),
            buf@.len() <= usize::MAX,
            size + 3 == buf@.len(),
        decreases buf@.len() - pos,
    {
        if (buf[pos] == 0x40 && (buf[pos + 1] & 0xC0) == 0) || (buf[pos] == 0x7F && (buf[pos + 1]
            & 0xC0) == 0xC0) {
            let v0: u32 = (buf[pos] as u32) * 0x100_0000 + (buf[pos + 1] as u32) * 0x1_0000 + (
            buf[pos + 2] as u32) * 0x100 + (buf[pos + 3] as u32);
            let v = v0 << 2u32;
            let v = v.wrapping_sub(#[verifier::truncate] (pos as u32));
            let v = v >> 2u32;
            let v = ((0x4000_0000u32.wrapping_sub(v & 0x40_0000)) | 0x4000_0000) | (v & 0x3F_FFFF);
            buf.set(pos, #[verifier::truncate] ((v >> 24u32) as u8));
            buf.set(pos + 1, #[verifier::truncate] ((v >> 16u32) as u8));
            buf.set(pos + 2, #[verifier::truncate] ((v >> 8u32) as u8));
            buf.set(pos + 3, #[verifier::truncate] (v as u8));
        }
        pos += 4;
    }
}

/// Which slots of an IA-64 bundle hold branch instructions, by template.
fn ia64_branch_slots(template: u8) -> (r: u8)
    requires
        template < 32,
    ensures
        r <= 7,
{
    let t = template;
    if t < 16 {
        0
    } else if t < 18 {
        4
    } else if t < 20 {
        6
    } else if t < 22 {
        0
    } else if t < 24 {
        7
    } else if t < 26 {
        4
    } else if t < 28 {
        0
    } else if t < 30 {
        4
    } else {
        0
    }
}

/// IA-64 BCJ decoder: walks 16-byte bundles and rewrites the 21-bit
/// branch targets of slots that the bundle template marks as branches.
pub fn bcj_ia64_decode(buf: &mut Vec<u8>)
    ensures
        final(buf)@.len() == old(buf)@.len(),
{
    if buf.len() < 16 {
        return ;
    }
    let size = buf.len() - 15;
    let mut pos: usize = 0;
    while pos < size
        invariant
            buf@.len() == old(buf)@.len(),
            buf@.len() <= usize::MAX,
            size + 15 == buf@.len(),
        decreases buf@.len() - pos,
    {
        let template = buf[pos] & 0x1F;
        proof {
            let b = buf@[pos as int];
            assert((b & 0x1F) < 32) by (bit_vector);
        }
        let m = ia64_branch_slots(template);
        let mut slot: u32 = 0;
        while slot < 3
            invariant
                buf@.len() == old(buf)@.len(),
                buf@.len() <= usize::MAX,
                size + 15 == buf@.len(),
                pos < size,
                slot <= 3,
            decreases 3 - slot,
        {
            if (m >> slot) & 1 == 1 {
                let bit_pos: u32 = 5 + slot * 41;
                let byte_pos: usize = (bit_pos >> 3u32) as usize;
                let bit_res: u32 = bit_pos & 7;
                proof {
                    let s: u32 = bit_pos;
                    assert((s >> 3u32) <= 10 && (s & 7) <= 7) by (bit_vector)
                        requires
                            s <= 87,
                    ;
                }
                let mut instruction: u64 = 0;
                let mut j: usize = 0;
                while j < 6
                    invariant
                        buf@.len() == old(buf)@.len(),
                        buf@.len() <= usize::MAX,
                        size + 15 == buf@.len(),
                        pos < size,
                        byte_pos <= 10,
                        j <= 6,
                    decreases 6 - j,
                {
                    instruction = instruction | ((buf[pos + byte_pos + j] as u64) << ((8 * (
                    j as u32)) as u32));
                    j += 1;
                }
                let inst_norm: u64 = instruction >> bit_res;
                if ((inst_norm >> 37u32) & 0xF) == 5 && ((inst_norm >> 9u32) & 0x7FF_FFFF) == 0 {
                    let src32: u32 = #[verifier::truncate] (((inst_norm >> 13u32)
                        & 0xFFFFF) as u32);
                    let src: u32 = src32 | ((#[verifier::truncate] (((inst_norm >> 36u32)
                        & 1) as u32)) << 20u32);
                    let src = src << 4u32;
                    let dest = src.wrapping_sub(#[verifier::truncate] (pos as u32));
                    let dest = dest >> 4u32;
                    let mut inst2: u64 = inst_norm & (!(0x8FFFFFu64 << 13u32));
                    inst2 = inst2 | (((dest & 0xFFFFF) as u64) << 13u32);
                    inst2 = inst2 | ((((dest & 0x10_0000) >> 20u32) as u64) << 36u32);
                    proof {
                        let br = bit_res;
                        assert((1u64 << br) >= 1) by (bit_vector)
                            requires
                                br <= 7,
                        ;
                    }
                    let keep_mask: u64 = (1u64 << bit_res) - 1;
                    let mut inst3: u64 = instruction & keep_mask;
                    inst3 = inst3 | (inst2 << bit_res);
                    let mut j2: usize = 0;
                    while j2 < 6
                        invariant
                            buf@.len() == old(buf)@.len(),
                            buf@.len() <= usize::MAX,
                            size + 15 == buf@.len(),
                            pos < size,
                            byte_pos <= 10,
                            j2 <= 6,
                        decreases 6 - j2,
                    {
                        buf.set(
                            pos + byte_pos + j2,
                            #[verifier::truncate] ((inst3 >> ((8 * (j2 as u32)) as u32)) as u8),
                        );
                        j2 += 1;
                    }
                }
            }
            slot += 1;
        }
        pos += 16;
    }
}

} // verus!
