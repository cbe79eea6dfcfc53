//! Archive passwords, held as the UTF-16LE byte string that the 7z key
//! derivation consumes.

use vstd::prelude::*;

verus! {

/// The UTF-16 code units of a string, as `str::encode_utf16` yields them.
pub uninterp spec fn utf16_units(s: Seq<char>) -> Seq<u16>;

/// Relies on str::encode_utf16: the units depend on the characters alone.
#[verifier::external_body]
fn encode_utf16_units(s: &str) -> (r: Vec<u16>)
    ensures
        r@ == utf16_units(s@),
{
    s.encode_utf16().collect()
}

/// A password as the byte string handed to the AES key derivation.
pub struct Password {
    pub bytes: Vec<u8>,
}

impl Password {
    /// The empty password (no encryption expected).
    pub fn empty() -> (r: Password)
        ensures
            r.bytes@.len() == 0,
    {
        Password { bytes: Vec::new() }
    }

    pub fn new(bytes: Vec<u8>) -> (r: Password)
        ensures
            r.bytes == bytes,
    {
        Password { bytes }
    }

    /// Encodes a password string as UTF-16LE, the 7z convention: each
    /// unit contributes its low byte, then its high byte.
    pub fn from_str(s: &str) -> (r: Password)
        ensures
            r.bytes@.len() == 2 * utf16_units(s@).len(),
            forall|k: int|
                0 <= k < r.bytes@.len() ==> #[trigger] r.bytes@[k] == (if k % 2 == 0 {
                    utf16_units(s@)[k / 2] as u8
                } else {
                    (utf16_units(s@)[k / 2] / 256) as u8
                }),
    {
        let units = encode_utf16_units(s);
        let mut bytes: Vec<u8> = Vec::new();
        let mut i: usize = 0;
        while i < units.len()
            invariant
                i <= units@.len(),
                units@ == utf16_units(s@),
                bytes@.len() == 2 * i,
                forall|k: int|
                    0 <= k < bytes@.len() ==> #[trigger] bytes@[k] == (if k % 2 == 0 {
                        units@[k / 2] as u8
                    } else {
                        (units@[k / 2] / 256) as u8
                    }),
            decreases units@.len() - i,
        {
            let u = units[i];
            bytes.push(#[verifier::truncate] (u as u8));
            bytes.push((u / 256) as u8);
            proof {
                assert(bytes@[2 * (i as int)] == u as u8);
                assert(bytes@[2 * (i as int) + 1] == (u / 256) as u8);
            }
            i += 1;
        }
        Password { bytes }
    }

    /// The raw bytes of the password.
    pub fn to_vec(&self) -> (r: Vec<u8>)
        ensures
            r@ == self.bytes@,
    {
        let mut v: Vec<u8> = Vec::new();
        let mut i: usize = 0;
        while i < self.bytes.len()
            invariant
                i <= self.bytes@.len(),
                v@ == self.bytes@.subrange(0, i as int),
            decreases self.bytes@.len() - i,
        {
            v.push(self.bytes[i]);
            proof {
                assert(v@ =~= self.bytes@.subrange(0, i + 1));
            }
            i += 1;
        }
        proof {
            assert(self.bytes@.subrange(0, self.bytes@.len() as int) =~= self.bytes@);
        }
        v
    }
}

} // verus!
