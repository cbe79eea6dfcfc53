//! AES-256-CBC decryption stage with the 7z SHA-256 key derivation.
//!
//! The coder properties carry the iteration power, salt, and IV.  The key
//! is either `salt || password` padded to 32 bytes (power 0x3F) or the
//! SHA-256 digest of `(1 << power)` rounds of `salt || password ||
//! counter`.  Decryption proceeds block by block, each ciphertext block
//! serving as the next block's IV; both primitives come from outside
//! crates and are named, so the chaining itself is verified.

use vstd::prelude::*;

use sha2::Digest;
use aes::cipher::BlockModeDecrypt;
use aes::cipher::KeyIvInit;

use crate::error::Error;

verus! {

#[verifier::external_type_specification]
#[verifier::external_body]
pub struct ExSha256(sha2::Sha256);

/// The SHA-256 digest of a byte sequence.
pub uninterp spec fn sha256_of(data: Seq<u8>) -> Seq<u8>;

/// The bytes absorbed by a hasher so far.
pub uninterp spec fn sha_fed(h: sha2::Sha256) -> Seq<u8>;

/// Relies on sha2::Sha256::new: a fresh hasher has absorbed nothing.
#[verifier::external_body]
fn sha256_new() -> (h: sha2::Sha256)
    ensures
        sha_fed(h) == Seq::<u8>::empty(),
{
    sha2::Sha256::new()
}

/// Relies on sha2::Sha256::update: absorbing appends to the hashed input.
#[verifier::external_body]
fn sha256_update(h: &mut sha2::Sha256, data: &Vec<u8>)
    ensures
        sha_fed(*final(h)) == sha_fed(*old(h)) + data@,
{
    h.update(data.as_slice());
}

/// Relies on sha2::Sha256::finalize: the digest of everything absorbed.
#[verifier::external_body]
fn sha256_finish(h: sha2::Sha256) -> (r: Vec<u8>)
    ensures
        r@ == sha256_of(sha_fed(h)),
        r@.len() == 32,
{
    h.finalize().to_vec()
}

/// One block of AES-256-CBC decryption: the AES decryption of `ct` xored
/// with `iv`, a function of the three arguments alone.
pub uninterp spec fn aes256_cbc_block(key: Seq<u8>, iv: Seq<u8>, ct: Seq<u8>) -> Seq<u8>;

/// Relies on cbc::Decryptor over aes::Aes256: decrypts a single 16-byte
/// block under the given key and IV.
#[verifier::external_body]
fn aes256_cbc_decrypt_block(key: &Vec<u8>, iv: &Vec<u8>, block: &Vec<u8>) -> (r: Vec<u8>)
    requires
        key@.len() == 32,
        iv@.len() == 16,
        block@.len() == 16,
    ensures
        r@ == aes256_cbc_block(key@, iv@, block@),
        r@.len() == 16,
{
    let dec = cbc::Decryptor::<aes::Aes256>::new_from_slices(key.as_slice(), iv.as_slice());
    let mut dec = match dec {
        Ok(d) => d,
        Err(_) => return Vec::new(),
    };
    let mut arr = [0u8; 16];
    arr.copy_from_slice(block.as_slice());
    let mut blk = aes::cipher::Array::from(arr);
    dec.decrypt_block(&mut blk);
    blk.as_slice().to_vec()
}

/// The 8-byte little-endian counter fed to the derivation rounds.
pub open spec fn counter_bytes(k: u64) -> Seq<u8> {
    seq![
        k as u8,
        (k >> 8u64) as u8,
        (k >> 16u64) as u8,
        (k >> 24u64) as u8,
        (k >> 32u64) as u8,
        (k >> 40u64) as u8,
        (k >> 48u64) as u8,
        (k >> 56u64) as u8,
    ]
}

/// Everything absorbed after `n` derivation rounds.
pub open spec fn derivation_input(salt: Seq<u8>, password: Seq<u8>, n: u64) -> Seq<u8>
    decreases n,
{
    if n == 0 {
        Seq::<u8>::empty()
    } else {
        derivation_input(salt, password, (n - 1) as u64) + salt + password + counter_bytes(
            (n - 1) as u64,
        )
    }
}

fn counter_vec(k: u64) -> (r: Vec<u8>)
    ensures
        r@ == counter_bytes(k),
{
    let mut v: Vec<u8> = Vec::new();
    v.push(#[verifier::truncate] (k as u8));
    v.push(#[verifier::truncate] ((k >> 8u64) as u8));
    v.push(#[verifier::truncate] ((k >> 16u64) as u8));
    v.push(#[verifier::truncate] ((k >> 24u64) as u8));
    v.push(#[verifier::truncate] ((k >> 32u64) as u8));
    v.push(#[verifier::truncate] ((k >> 40u64) as u8));
    v.push(#[verifier::truncate] ((k >> 48u64) as u8));
    v.push(#[verifier::truncate] ((k >> 56u64) as u8));
    proof {
        assert(v@ =~= counter_bytes(k));
    }
    v
}

/// Derives the AES key: the digest of `(1 << power)` rounds of
/// `salt || password || counter` (the plain concatenation for power 0x3F
/// is handled by the caller).
pub fn derive_key(salt: &Vec<u8>, password: &Vec<u8>, power: u8) -> (r: Result<Vec<u8>, Error>)
    ensures
        r matches Ok(k) ==> power < 32 && k@.len() == 32 && k@ == sha256_of(
            derivation_input(salt@, password@, (1u64 << power as u64) as u64),
        ),
        r is Err ==> power >= 32,
{
    if power >= 32 {
        return Err(Error::corrupt("unsupported iteration power"));
    }
    let rounds: u64 = 1u64 << (power as u64);
    let mut h = sha256_new();
    let mut i: u64 = 0;
    while i < rounds
        invariant
            i <= rounds,
            sha_fed(h) == derivation_input(salt@, password@, i),
        decreases rounds - i,
    {
        sha256_update(&mut h, salt);
        sha256_update(&mut h, password);
        let c = counter_vec(i);
        sha256_update(&mut h, &c);
        i += 1;
    }
    Ok(sha256_finish(h))
}

/// Decrypts whole 16-byte blocks under CBC chaining: block `b` of the
/// result is the block decryption of ciphertext block `b` with the
/// previous ciphertext block (or the IV) as its chaining value.  Trailing
/// bytes that do not fill a block are dropped, as the streaming decoder
/// leaves them buffered.
pub fn cbc_decrypt_stream(key: &Vec<u8>, iv: &Vec<u8>, input: &Vec<u8>) -> (r: Vec<u8>)
    requires
        key@.len() == 32,
        iv@.len() == 16,
    ensures
        r@.len() == 16 * (input@.len() / 16),
        forall|b: int|
            0 <= b < input@.len() / 16 ==> #[trigger] r@.subrange(16 * b, 16 * b + 16)
                == aes256_cbc_block(
                key@,
                if b == 0 {
                    iv@
                } else {
                    input@.subrange(16 * (b - 1), 16 * b)
                },
                input@.subrange(16 * b, 16 * b + 16),
            ),
{
    let nblocks = input.len() / 16;
    let mut out: Vec<u8> = Vec::new();
    let mut prev: Vec<u8> = Vec::new();
    prev.extend_from_slice(iv.as_slice());
    proof {
        assert(prev@ =~= iv@);
    }
    let mut b: usize = 0;
    while b < nblocks
        invariant
            key@.len() == 32,
            iv@.len() == 16,
            nblocks == input@.len() / 16,
            16 * nblocks <= input@.len(),
            input@.len() <= usize::MAX,
            b <= nblocks,
            out@.len() == 16 * b,
            prev@.len() == 16,
            prev@ == if b == 0 {
                iv@
            } else {
                input@.subrange(16 * (b - 1), 16 * b as int)
            },
            forall|j: int|
                0 <= j < b ==> #[trigger] out@.subrange(16 * j, 16 * j + 16) == aes256_cbc_block(
                    key@,
                    if j == 0 {
                        iv@
                    } else {
                        input@.subrange(16 * (j - 1), 16 * j)
                    },
                    input@.subrange(16 * j, 16 * j + 16),
                ),
        decreases nblocks - b,
    {
        let mut block: Vec<u8> = Vec::new();
        let mut k: usize = 0;
        while k < 16
            invariant
                k <= 16,
                b < nblocks,
                nblocks == input@.len() / 16,
                16 * nblocks <= input@.len(),
                input@.len() <= usize::MAX,
                block@ == input@.subrange(16 * b as int, 16 * b + k),
            decreases 16 - k,
        {
            block.push(input[16 * b + k]);
            proof {
                assert(block@ =~= input@.subrange(16 * b as int, 16 * b + k + 1));
            }
            k += 1;
        }
        let plain = aes256_cbc_decrypt_block(key, &prev, &block);
        let ghost out_before = out@;
        out.extend_from_slice(plain.as_slice());
        proof {
            assert(out@ == out_before + plain@);
            assert(out@.subrange(16 * b as int, 16 * b + 16) =~= plain@);
            assert(forall|j: int|
                0 <= j < b ==> #[trigger] out@.subrange(16 * j, 16 * j + 16) =~= out_before
                    .subrange(16 * j, 16 * j + 16));
        }
        prev = block;
        b += 1;
    }
    out
}

/// The salt length announced by the property bytes.
pub open spec fn spec_salt_size(properties: Seq<u8>) -> int {
    (properties[0] >> 7) + (properties[1] >> 4)
}

/// The IV length announced by the property bytes.
pub open spec fn spec_iv_size(properties: Seq<u8>) -> int {
    ((properties[0] >> 6) & 1) + (properties[1] & 15)
}

/// The salt bytes of the properties.
pub open spec fn spec_salt(properties: Seq<u8>) -> Seq<u8> {
    properties.subrange(2, 2 + spec_salt_size(properties))
}

/// The IV of the properties, zero-padded to 16 bytes.
pub open spec fn spec_iv(properties: Seq<u8>) -> Seq<u8> {
    properties.subrange(
        2 + spec_salt_size(properties),
        2 + spec_salt_size(properties) + spec_iv_size(properties),
    ) + Seq::new((16 - spec_iv_size(properties)) as nat, |k: int| 0u8)
}

/// The AES key of the stage: `salt || password` truncated or zero-padded
/// to 32 bytes for the plain-key power 0x3F, else the digest of the
/// derivation rounds.
pub open spec fn spec_aes_key(salt: Seq<u8>, password: Seq<u8>, power: u8) -> Seq<u8> {
    if power == 0x3F {
        if salt.len() + password.len() >= 32 {
            (salt + password).subrange(0, 32)
        } else {
            salt + password + Seq::new((32 - salt.len() - password.len()) as nat, |k: int| 0u8)
        }
    } else {
        sha256_of(derivation_input(salt, password, 1u64 << ((power as u64) as u64)))
    }
}

/// The parsed AES coder properties: the iteration power, the salt, and
/// the zero-padded IV.
pub struct AesCoderProps {
    pub num_cycles_power: u8,
    pub salt: Vec<u8>,
    pub iv: Vec<u8>,
}

/// Parses the AES coder properties: byte 0 holds the power and the high
/// bits of the salt and IV sizes, byte 1 their low bits; the salt and IV
/// bytes follow, and the IV is zero-padded to 16 bytes.
pub fn parse_aes_props(properties: &Vec<u8>) -> (r: Result<AesCoderProps, Error>)
    ensures
        r matches Ok(p) ==> properties@.len() >= 2 && p.iv@.len() == 16 && p.salt@.len() <= 16,
        r matches Ok(p) ==> p.num_cycles_power == properties@[0] & 63 && p.salt@ == spec_salt(
            properties@,
        ) && p.iv@ == spec_iv(properties@),
        r is Err <==> properties@.len() < 2 || 2 + spec_salt_size(properties@) + spec_iv_size(
            properties@,
        ) > properties@.len(),
        r matches Err(e) ==> e is Other,
{
    if properties.len() < 2 {
        return Err(Error::other("AES256 properties too short"));
    }
    let b0 = properties[0];
    let b1 = properties[1];
    let num_cycles_power = b0 & 63;
    proof {
        let x0 = b0;
        let x1 = b1;
        assert(((x0 >> 6) & 1) <= 1 && (x1 & 15) <= 15 && (x0 >> 7) <= 1 && (x1 >> 4) <= 15)
            by (bit_vector);
    }
    let iv_size: usize = (((b0 >> 6) & 1) as usize) + ((b1 & 15) as usize);
    let salt_size: usize = ((b0 >> 7) as usize) + ((b1 >> 4) as usize);
    if 2 + salt_size + iv_size > properties.len() {
        return Err(Error::other("Salt size + IV size too long"));
    }
    let mut salt: Vec<u8> = Vec::new();
    let mut i: usize = 0;
    while i < salt_size
        invariant
            i <= salt_size,
            2 + salt_size + iv_size <= properties@.len(),
            properties@.len() <= usize::MAX,
            salt@ == properties@.subrange(2, 2 + i),
        decreases salt_size - i,
    {
        salt.push(properties[2 + i]);
        proof {
            assert(salt@ =~= properties@.subrange(2, 2 + i + 1));
        }
        i += 1;
    }
    let mut iv: Vec<u8> = Vec::new();
    let mut j: usize = 0;
    while j < iv_size
        invariant
            j <= iv_size,
            iv_size <= 16,
            2 + salt_size + iv_size <= properties@.len(),
            properties@.len() <= usize::MAX,
            iv@ == properties@.subrange(2 + salt_size as int, 2 + salt_size + j),
        decreases iv_size - j,
    {
        iv.push(properties[2 + salt_size + j]);
        proof {
            assert(iv@ =~= properties@.subrange(2 + salt_size as int, 2 + salt_size + j + 1));
        }
        j += 1;
    }
    while j < 16
        invariant
            j <= 16,
            iv_size <= j,
            iv@ == properties@.subrange(2 + salt_size as int, 2 + salt_size + iv_size as int)
                + Seq::new((j - iv_size) as nat, |k: int| 0u8),
        decreases 16 - j,
    {
        iv.push(0);
        proof {
            assert(iv@ =~= properties@.subrange(2 + salt_size as int, 2 + salt_size + iv_size)
                + Seq::new((j + 1 - iv_size) as nat, |k: int| 0u8));
        }
        j += 1;
    }
    proof {
        assert(salt@ =~= spec_salt(properties@));
        assert(iv@ =~= spec_iv(properties@));
    }
    Ok(AesCoderProps { num_cycles_power, salt, iv })
}

/// The AES-256-SHA-256 stage: parses the properties, derives the key from
/// the password, and holds the decrypted stream.
pub struct Aes256Sha256Decoder {
    pub output: Vec<u8>,
}

impl Aes256Sha256Decoder {
    /// Builds the stage and decrypts the blocks of `input` under the key
    /// derived from the password: block `b` of the output is the CBC
    /// block decryption of ciphertext block `b` chained on its
    /// predecessor (or the parsed IV).  An empty password fails with
    /// `PasswordRequired` up front; a trailing partial block is corrupt.
    pub fn new(input: &Vec<u8>, properties: &Vec<u8>, password: &Vec<u8>) -> (r: Result<
        Aes256Sha256Decoder,
        Error,
    >)
        ensures
            r matches Ok(d) ==> d.output@.len() == input@.len(),
            r matches Ok(_) ==> password@.len() > 0,
            r is Err <==> properties@.len() < 2 || 2 + spec_salt_size(properties@) + spec_iv_size(
                properties@,
            ) > properties@.len() || password@.len() == 0 || ((properties@[0] & 63) >= 32 && (
            properties@[0] & 63) != 0x3F) || input@.len() % 16 != 0,
            r matches Ok(d) ==> ({
                let key = spec_aes_key(
                    spec_salt(properties@),
                    password@,
                    (properties@[0] & 63) as u8,
                );
                forall|b: int|
                    0 <= b < input@.len() / 16 ==> #[trigger] d.output@.subrange(
                        16 * b,
                        16 * b + 16,
                    ) == aes256_cbc_block(
                        key,
                        if b == 0 {
                            spec_iv(properties@)
                        } else {
                            input@.subrange(16 * (b - 1), 16 * b)
                        },
                        input@.subrange(16 * b, 16 * b + 16),
                    )
            }),
    {
        let props = parse_aes_props(properties)?;
        if password.len() == 0 {
            return Err(Error::PasswordRequired);
        }
        if input.len() % 16 != 0 {
            return Err(Error::corrupt("encrypted stream is not block aligned"));
        }
        let key: Vec<u8>;
        if props.num_cycles_power == 0x3F {
            let mut k: Vec<u8> = Vec::new();
            k.extend_from_slice(props.salt.as_slice());
            proof {
                assert(k@ =~= props.salt@);
            }
            let mut i: usize = 0;
            while i < password.len() && k.len() < 32
                invariant
                    i <= password@.len(),
                    k@.len() <= 32,
                    k@ == props.salt@ + password@.subrange(0, i as int),
                decreases password@.len() - i,
            {
                k.push(password[i]);
                proof {
                    assert(k@ =~= props.salt@ + password@.subrange(0, i + 1));
                }
                i += 1;
            }
            let ghost filled = k@;
            while k.len() < 32
                invariant
                    k@.len() <= 32,
                    filled.len() <= 32,
                    k@ == filled + Seq::new((k@.len() - filled.len()) as nat, |q: int| 0u8),
                decreases 32 - k@.len(),
            {
                k.push(0);
                proof {
                    assert(k@ =~= filled + Seq::new(
                        (k@.len() - filled.len()) as nat,
                        |q: int| 0u8,
                    ));
                }
            }
            proof {
                let salt = props.salt@;
                let pw = password@;
                if salt.len() + pw.len() >= 32 {
                    assert(pw.subrange(0, i as int) =~= pw.subrange(0, i as int));
                    assert(k@ =~= (salt + pw).subrange(0, 32));
                } else {
                    assert(pw.subrange(0, i as int) =~= pw);
                    assert(k@ =~= salt + pw + Seq::new(
                        (32 - salt.len() - pw.len()) as nat,
                        |q: int| 0u8,
                    ));
                }
                assert(k@ =~= spec_aes_key(salt, pw, 0x3F));
            }
            key = k;
        } else {
            key = derive_key(&props.salt, password, props.num_cycles_power)?;
        }
        let output = cbc_decrypt_stream(&key, &props.iv, input);
        proof {
            assert(16 * (input@.len() / 16) == input@.len());
        }
        Ok(Aes256Sha256Decoder { output })
    }

    pub fn into_output(self) -> (r: Vec<u8>)
        ensures
            r == self.output,
    {
        self.output
    }
}

} // verus!
