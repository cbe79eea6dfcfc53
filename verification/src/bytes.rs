//! Primitive reads over an in-memory byte buffer.
//!
//! Every header structure of the container is decoded through these
//! functions: fixed-width little-endian integers, the 7z variable-length
//! integer (a unary count of payload bytes in the first byte), and packed
//! bitsets (MSB-first within each byte, with an "all set" short form).
//!
//! A cursor is a position into the buffer; reads advance it and fail with
//! `CorruptInput` when the buffer is exhausted.

use vstd::prelude::*;

use crate::bitset::{bits_of, Bits};
use crate::error::Error;

verus! {

/// The little-endian value of the 4 bytes at `i`.
pub open spec fn u32_le_at(data: Seq<u8>, i: int) -> int {
    data[i] + data[i + 1] * 0x100 + data[i + 2] * 0x1_0000 + data[i + 3] * 0x100_0000
}

/// The little-endian value of the 8 bytes at `i`.
pub open spec fn u64_le_at(data: Seq<u8>, i: int) -> int {
    data[i] + data[i + 1] * 0x100 + data[i + 2] * 0x1_0000 + data[i + 3] * 0x100_0000 + data[i + 4]
        * 0x1_0000_0000 + data[i + 5] * 0x100_0000_0000 + data[i + 6] * 0x1_0000_0000_0000 + data[i
        + 7] * 0x100_0000_0000_0000
}

/// Bit `i` (MSB-first over the whole stream) of the bytes starting at `start`.
pub open spec fn stream_bit(data: Seq<u8>, start: int, i: int) -> bool {
    data[start + i / 8] & (0x80u8 >> ((i % 8) as u8)) != 0
}

pub fn read_u8(data: &Vec<u8>, pos: &mut usize) -> (r: Result<u8, Error>)
    requires
        *old(pos) <= data@.len(),
    ensures
        match r {
            Ok(b) => *old(pos) < data@.len() && b == data@[*old(pos) as int] && *final(pos) == *old(pos) + 1,
            Err(_) => *old(pos) == data@.len() && *final(pos) == *old(pos),
        },
{
    if *pos < data.len() {
        let b = data[*pos];
        *pos += 1;
        Ok(b)
    } else {
        Err(Error::corrupt("unexpected end of input"))
    }
}

pub fn read_u32(data: &Vec<u8>, pos: &mut usize) -> (r: Result<u32, Error>)
    requires
        *old(pos) <= data@.len(),
    ensures
        match r {
            Ok(v) => *old(pos) + 4 <= data@.len() && v == u32_le_at(data@, *old(pos) as int) && *final(pos) == *old(pos) + 4,
            Err(_) => *old(pos) + 4 > data@.len() && *final(pos) == *old(pos),
        },
{
    if data.len() - *pos >= 4 {
        let b0 = data[*pos] as u32;
        let b1 = data[*pos + 1] as u32;
        let b2 = data[*pos + 2] as u32;
        let b3 = data[*pos + 3] as u32;
        *pos += 4;
        Ok(b0 + b1 * 0x100 + b2 * 0x1_0000 + b3 * 0x100_0000)
    } else {
        Err(Error::corrupt("unexpected end of input"))
    }
}

pub fn read_u64le(data: &Vec<u8>, pos: &mut usize) -> (r: Result<u64, Error>)
    requires
        *old(pos) <= data@.len(),
    ensures
        match r {
            Ok(v) => *old(pos) + 8 <= data@.len() && v == u64_le_at(data@, *old(pos) as int) && *final(pos) == *old(pos) + 8,
            Err(_) => *old(pos) + 8 > data@.len() && *final(pos) == *old(pos),
        },
{
    if data.len() - *pos >= 8 {
        let b0 = data[*pos] as u64;
        let b1 = data[*pos + 1] as u64;
        let b2 = data[*pos + 2] as u64;
        let b3 = data[*pos + 3] as u64;
        let b4 = data[*pos + 4] as u64;
        let b5 = data[*pos + 5] as u64;
        let b6 = data[*pos + 6] as u64;
        let b7 = data[*pos + 7] as u64;
        *pos += 8;
        Ok(b0 + b1 * 0x100 + b2 * 0x1_0000 + b3 * 0x100_0000 + b4 * 0x1_0000_0000 + b5
            * 0x100_0000_0000 + b6 * 0x1_0000_0000_0000 + b7 * 0x100_0000_0000_0000)
    } else {
        Err(Error::corrupt("unexpected end of input"))
    }
}

/// The little-endian value of `n` bytes at `i`.
pub open spec fn le_at(data: Seq<u8>, i: int, n: int) -> int
    decreases n,
{
    if n <= 0 {
        0
    } else {
        data[i] + 0x100 * le_at(data, i + 1, n - 1)
    }
}

/// The count of leading one bits of `first` from bit position `k` on: the
/// unary payload-byte count of the variable-length integer.
pub open spec fn leading_ones_from(first: u8, k: int) -> int
    decreases 8 - k,
{
    if k >= 8 {
        8
    } else if first & (0x80u8 >> (k as u8)) == 0 {
        k
    } else {
        leading_ones_from(first, k + 1)
    }
}

proof fn lemma_leading_ones_range(f: u8, k: int)
    requires
        0 <= k <= 8,
    ensures
        k <= leading_ones_from(f, k) <= 8,
    decreases 8 - k,
{
    if k < 8 && f & (0x80u8 >> (k as u8)) != 0 {
        lemma_leading_ones_range(f, k + 1);
    }
}

/// The bits of the first byte below the unary marker, which become the
/// top bits of the value.
pub open spec fn u64v_high(first: u8, n: int) -> int {
    if n >= 8 {
        0
    } else {
        (first & (((0x80u8 >> (n as u8)) - 1) as u8)) as int
    }
}

/// The value of the variable-length integer whose first byte announces
/// `n` payload bytes.
pub open spec fn u64v_value(data: Seq<u8>, i: int) -> int {
    let n = leading_ones_from(data[i], 0);
    le_at(data, i + 1, n) + u64v_high(data[i], n) * vstd::arithmetic::power2::pow2((8 * n) as nat)
}

proof fn lemma_le_at_append(data: Seq<u8>, i: int, n: int)
    requires
        0 <= n,
    ensures
        le_at(data, i, n + 1) == le_at(data, i, n) + data[i + n]
            * vstd::arithmetic::power2::pow2((8 * n) as nat),
    decreases n,
{
    vstd::arithmetic::power2::lemma2_to64();
    if n == 0 {
        assert(le_at(data, i, 1) == data[i] + 0x100 * le_at(data, i + 1, 0));
        assert(data[i] * vstd::arithmetic::power2::pow2(0) == data[i]) by (nonlinear_arith)
            requires
                vstd::arithmetic::power2::pow2(0) == 1,
        ;
    } else {
        lemma_le_at_append(data, i + 1, n - 1);
        vstd::arithmetic::power2::lemma_pow2_adds(8, (8 * (n - 1)) as nat);
        let b = data[i + n];
        let cap = vstd::arithmetic::power2::pow2((8 * (n - 1)) as nat) as int;
        assert(vstd::arithmetic::power2::pow2((8 * n) as nat) == 0x100 * cap);
        assert(le_at(data, i, n + 1) == data[i] + 0x100 * le_at(data, i + 1, n));
        assert(le_at(data, i, n) == data[i] + 0x100 * le_at(data, i + 1, n - 1));
        assert(0x100 * (le_at(data, i + 1, n - 1) + b * cap) == 0x100 * le_at(data, i + 1, n - 1)
            + b * (0x100 * cap)) by (nonlinear_arith);
        assert(le_at(data, i, n + 1) == le_at(data, i, n) + b * (0x100 * cap));
        assert(b * (0x100 * cap) == b * (vstd::arithmetic::power2::pow2((8 * n) as nat) as int))
            by (nonlinear_arith)
            requires
                0x100 * cap == vstd::arithmetic::power2::pow2((8 * n) as nat),
        ;
        assert(le_at(data, i, n + 1) == le_at(data, i, n) + data[i + n]
            * vstd::arithmetic::power2::pow2((8 * n) as nat));
    }
}

proof fn lemma_pow2_byte_shift_fits(e: nat)
    requires
        e <= 56,
    ensures
        vstd::arithmetic::power2::pow2(e) <= 0x100_0000_0000_0000,
        255 * vstd::arithmetic::power2::pow2(e) <= u64::MAX,
{
    vstd::arithmetic::power2::lemma2_to64();
    vstd::arithmetic::power2::lemma2_to64_rest();
    if e < 56 {
        vstd::arithmetic::power2::lemma_pow2_strictly_increases(e, 56);
    }
    let p = vstd::arithmetic::power2::pow2(e) as int;
    assert(255 * p <= 255 * 0x100_0000_0000_0000) by (nonlinear_arith)
        requires
            p <= 0x100_0000_0000_0000,
    ;
}

/// Reads the 7z variable-length integer: the first byte carries a unary
/// count of payload bytes (leading ones under masks 0x80, 0x40, ...); the
/// payload is little-endian, and the first byte's bits below the stopped
/// mask become the bits above the payload.
pub fn read_u64(data: &Vec<u8>, pos: &mut usize) -> (r: Result<u64, Error>)
    requires
        *old(pos) <= data@.len(),
    ensures
        *old(pos) <= *final(pos) <= data@.len(),
        r.is_ok() ==> *old(pos) < *final(pos) <= *old(pos) + 9,
        r.is_err() ==> *final(pos) == data@.len(),
        r is Err <==> *old(pos) + 1 + leading_ones_from(data@[*old(pos) as int], 0) > data@.len(),
        r matches Ok(v) ==> {
            let n = leading_ones_from(data@[*old(pos) as int], 0);
            &&& *final(pos) == *old(pos) + 1 + n
            &&& v == u64v_value(data@, *old(pos) as int)
        },
{
    let ghost start = *pos as int;
    proof {
        lemma_leading_ones_range(data@[start], 0);
    }
    let first8 = read_u8(data, pos)?;
    let first = first8 as u64;
    let mut value: u64 = 0;
    let mut i: usize = 0;
    proof {
        vstd::arithmetic::power2::lemma2_to64();
    }
    while i < 8
        invariant
            0 <= i <= 8,
            first == first8,
            first8 == data@[start],
            *pos <= data@.len(),
            *pos == start + 1 + i,
            start == *old(pos),
            leading_ones_from(first8, 0) == leading_ones_from(first8, i as int),
            value == le_at(data@, start + 1, i as int),
            value < vstd::arithmetic::power2::pow2((8 * i) as nat),
        decreases 8 - i,
    {
        let mask: u64 = 0x80u64 >> (i as u64);
        proof {
            let iu = i as u64;
            assert(1 <= (0x80u64 >> iu) && (0x80u64 >> iu) <= 0x80) by (bit_vector)
                requires
                    iu < 8,
            ;
            let f8 = first8;
            assert(((f8 as u64) & (0x80u64 >> iu) == 0) == (f8 & (0x80u8 >> (iu as u8)) == 0)
                && (f8 as u64) & (((0x80u64 >> iu) - 1) as u64) == ((f8 & (((0x80u8 >> (iu as u8))
                - 1) as u8)) as u64)) by (bit_vector)
                requires
                    iu < 8,
            ;
        }
        if first & mask == 0 {
            let low: u64 = first & (mask - 1);
            let sh: u64 = (8 * i) as u64;
            let ghost p = vstd::arithmetic::power2::pow2((8 * i) as nat);
            proof {
                // the low bits of the first byte land above the payload
                assert(leading_ones_from(first8, i as int) == i);
                lemma_pow2_byte_shift_fits((8 * i) as nat);
                let lo = low;
                assert(lo <= 255) by (bit_vector)
                    requires
                        lo == (first8 as u64) & (((0x80u64 >> ((i as u64) as u64)) - 1) as u64)
                            && first8 <= 255,
                ;
                assert(low * p <= 255 * p) by (nonlinear_arith)
                    requires
                        low <= 255 && p > 0,
                ;
                vstd::bits::lemma_u64_shl_is_mul(low, sh);
                vstd::bits::lemma_u64_shl_is_mul(1u64, sh);
                let v = value;
                let lo2 = low;
                assert(v & (lo2 << sh) == 0) by (bit_vector)
                    requires
                        sh < 64 && v < (1u64 << sh),
                ;
                let x = low << sh;
                assert(v | x == v + x) by (bit_vector)
                    requires
                        v & x == 0,
                ;
            }
            let r: u64 = value | (low << sh);
            return Ok(r);
        }
        proof {
            assert(leading_ones_from(first8, i as int) == leading_ones_from(first8, i + 1));
            lemma_leading_ones_range(first8, i + 1);
        }
        let b = read_u8(data, pos)? as u64;
        let sh: u64 = (8 * i) as u64;
        proof {
            vstd::arithmetic::power2::lemma2_to64();
            let bb = b;
            let v = value;
            let p = vstd::arithmetic::power2::pow2((8 * i) as nat);
            lemma_pow2_byte_shift_fits((8 * i) as nat);
            assert(bb * p <= 255 * p) by (nonlinear_arith)
                requires
                    bb <= 255 && p > 0,
            ;
            vstd::arithmetic::power2::lemma_pow2_adds(8, (8 * i) as nat);
            vstd::bits::lemma_u64_shl_is_mul(bb as u64, sh);
            vstd::bits::lemma_u64_shl_is_mul(1u64, sh);
            assert(v & (bb << sh) == 0) by (bit_vector)
                requires
                    sh < 64 && v < (1u64 << sh),
            ;
            let x = bb << sh;
            assert(v | x == v + x) by (bit_vector)
                requires
                    v & x == 0,
            ;
            lemma_le_at_append(data@, start + 1, i as int);
            assert(value + bb * p < p * 0x100) by (nonlinear_arith)
                requires
                    value < p && bb <= 255 && p > 0,
            ;
            vstd::arithmetic::power2::lemma_pow2_adds(8, (8 * i) as nat);
            assert(vstd::arithmetic::power2::pow2((8 * (i + 1)) as nat) == 0x100 * p);
        }
        value = value | (b << sh);
        i += 1;
    }
    proof {
        assert(leading_ones_from(first8, 8) == 8);
    }
    Ok(value)
}

pub fn read_usize(data: &Vec<u8>, pos: &mut usize, field: &str) -> (r: Result<usize, Error>)
    requires
        *old(pos) <= data@.len(),
    ensures
        *old(pos) <= *final(pos) <= data@.len(),
        r is Err <==> *old(pos) + 1 + leading_ones_from(data@[*old(pos) as int], 0) > data@.len()
            || u64v_value(data@, *old(pos) as int) > usize::MAX,
        r matches Ok(v) ==> v == u64v_value(data@, *old(pos) as int) && *final(pos) == *old(pos)
            + 1 + leading_ones_from(data@[*old(pos) as int], 0),
{
    let v = read_u64(data, pos)?;
    if v > usize::MAX as u64 {
        return Err(Error::other(field));
    }
    Ok(v as usize)
}

/// Copies the next `n` bytes out of the buffer.
pub fn read_exact(data: &Vec<u8>, pos: &mut usize, n: usize) -> (r: Result<Vec<u8>, Error>)
    requires
        *old(pos) <= data@.len(),
    ensures
        match r {
            Ok(v) => *old(pos) + n <= data@.len() && v@ == data@.subrange(
                *old(pos) as int,
                *old(pos) + n,
            ) && *final(pos) == *old(pos) + n,
            Err(_) => *old(pos) + n > data@.len() && *final(pos) == *old(pos),
        },
{
    if data.len() - *pos >= n {
        let ghost start = *pos as int;
        let mut v: Vec<u8> = Vec::new();
        let mut i: usize = 0;
        while i < n
            invariant
                0 <= i <= n,
                *pos == start,
                start + n <= data@.len(),
                data@.len() <= usize::MAX,
                v@ == data@.subrange(start, start + i),
            decreases n - i,
        {
            v.push(data[*pos + i]);
            proof {
                assert(v@ =~= data@.subrange(start, start + i + 1));
            }
            i += 1;
        }
        *pos += n;
        Ok(v)
    } else {
        Err(Error::corrupt("unexpected end of input"))
    }
}

/// Reads `size` bits, MSB-first within each byte, into a bit set.
pub fn read_bits(data: &Vec<u8>, pos: &mut usize, size: usize) -> (r: Result<
    Bits,
    Error,
>)
    requires
        *old(pos) <= data@.len(),
    ensures
        *old(pos) <= *final(pos) <= data@.len(),
        match r {
            Ok(s) => *final(pos) == *old(pos) + (size + 7) / 8 && (forall|i: int|
                0 <= i < size ==> #[trigger] bits_of(s).contains(i) == stream_bit(
                    data@,
                    *old(pos) as int,
                    i,
                )) && (forall|i: int| bits_of(s).contains(i) ==> 0 <= i < size),
            Err(_) => *old(pos) + (size + 7) / 8 > data@.len() && *final(pos) == *old(pos),
        },
{
    let need: usize = if size % 8 == 0 {
        size / 8
    } else {
        size / 8 + 1
    };
    proof {
        assert(need == (size + 7) / 8);
    }
    if (data.len() - *pos) < need {
        return Err(Error::corrupt("unexpected end of input"));
    }
    let ghost start = *pos as int;
    let mut bits = Bits::with_capacity(size);
    let mut cache: u8 = 0;
    let mut i: usize = 0;
    while i < size
        invariant
            0 <= i <= size,
            start == *old(pos),
            start + (size + 7) / 8 <= data@.len(),
            i % 8 == 0 ==> *pos == start + i / 8,
            i % 8 != 0 ==> *pos == start + i / 8 + 1 && cache == data@[start + i / 8],
            forall|j: int|
                0 <= j < i ==> #[trigger] bits_of(bits).contains(j) == stream_bit(data@, start, j),
            forall|j: int| bits_of(bits).contains(j) ==> 0 <= j < i,
        decreases size - i,
    {
        if i % 8 == 0 {
            proof {
                assert(i / 8 + 1 <= (size + 7) / 8);
            }
            cache = match read_u8(data, pos) {
                Ok(b) => b,
                Err(e) => { return Err(e) },
            };
        }
        let mask: u8 = 0x80u8 >> ((i % 8) as u8);
        if cache & mask != 0 {
            bits.insert(i);
        }
        i += 1;
    }
    proof {
        assert(size % 8 == 0 ==> size / 8 == (size + 7) / 8);
        assert(size % 8 != 0 ==> size / 8 + 1 == (size + 7) / 8);
    }
    Ok(bits)
}

/// Reads either the "all set" short form (a nonzero lead byte) or a packed
/// bitset of `size` bits.
pub fn read_all_or_bits(data: &Vec<u8>, pos: &mut usize, size: usize) -> (r: Result<
    Bits,
    Error,
>)
    requires
        *old(pos) <= data@.len(),
    ensures
        *old(pos) <= *final(pos) <= data@.len(),
        r matches Ok(s) ==> forall|j: int| bits_of(s).contains(j) ==> 0 <= j < size,
        r matches Ok(s) ==> data@[*old(pos) as int] != 0 ==> forall|j: int|
            0 <= j < size ==> #[trigger] bits_of(s).contains(j),
{
    let all = read_u8(data, pos)?;
    if all != 0 {
        let mut bits = Bits::with_capacity(size);
        let mut i: usize = 0;
        while i < size
            invariant
                0 <= i <= size,
                forall|j: int| 0 <= j < i ==> #[trigger] bits_of(bits).contains(j),
                forall|j: int| bits_of(bits).contains(j) ==> 0 <= j < i,
            decreases size - i,
        {
            bits.insert(i);
            i += 1;
        }
        Ok(bits)
    } else {
        let r = read_bits(data, pos, size)?;
        Ok(r)
    }
}

} // verus!
