//! Deterministic, non-cryptographic string hashes used to compress
//! variable-length strings into fixed-size identifier fields.
use vstd::prelude::*;
use vstd::string::StringSliceAdditionalSpecFns;

verus! {

/// Seed of the multiplicative accumulator.
pub const HASH_SEED: u32 = 5381;

/// One accumulation step: `h * 33 + byte`, modulo 2^32.
pub open spec fn hash_step(h: u32, byte: u8) -> u32 {
    ((h as int * 33 + byte as int) % 0x1_0000_0000) as u32
}

/// The 32-bit hash of a byte sequence.
pub open spec fn hash32_spec(bytes: Seq<u8>) -> u32
    decreases bytes.len(),
{
    if bytes.len() == 0 {
        HASH_SEED
    } else {
        hash_step(hash32_spec(bytes.drop_last()), bytes.last())
    }
}

/// The 16-bit hash: the 32-bit hash with its two halves folded by XOR.
pub open spec fn hash16_spec(bytes: Seq<u8>) -> u16 {
    let h = hash32_spec(bytes);
    (h ^ (h >> 16)) as u16
}

proof fn lemma_shl5(h: u32)
    ensures
        (h << 5u32) as int == (h as int * 32) % 0x1_0000_0000,
{
    let low = h & 0x7ff_ffffu32;
    assert((h << 5u32) == ((h & 0x7ff_ffffu32) << 5u32)) by (bit_vector);
    assert((h & 0x7ff_ffffu32) == h % 0x800_0000u32) by (bit_vector);
    assert(low << 5u32 == low * 32) by (bit_vector)
        requires
            low < 0x800_0000u32,
    ;
    let q = h as int / 0x800_0000;
    assert(h as int == 0x800_0000 * q + low) by {
        vstd::arithmetic::div_mod::lemma_fundamental_div_mod(h as int, 0x800_0000);
    }
    assert(h as int * 32 == 0x1_0000_0000 * q + low * 32);
    vstd::arithmetic::div_mod::lemma_mod_multiples_vanish(q, low * 32, 0x1_0000_0000);
    vstd::arithmetic::div_mod::lemma_small_mod((low * 32) as nat, 0x1_0000_0000);
}

fn accumulate(hash: u32, byte: u8) -> (r: u32)
    ensures
        r == hash_step(hash, byte),
{
    proof {
        lemma_shl5(hash);
    }
    (hash << 5).wrapping_add(hash).wrapping_add(byte as u32)
}

fn hash_bytes(bytes: &[u8]) -> (r: u32)
    ensures
        r == hash32_spec(bytes@),
{
    let mut hash: u32 = HASH_SEED;
    let mut i: usize = 0;
    while i < bytes.len()
        invariant
            i <= bytes@.len(),
            hash == hash32_spec(bytes@.subrange(0, i as int)),
        decreases bytes@.len() - i,
    {
        assert(bytes@.subrange(0, i + 1).drop_last() =~= bytes@.subrange(0, i as int));
        hash = accumulate(hash, bytes[i]);
        i += 1;
    }
    assert(bytes@.subrange(0, i as int) =~= bytes@);
    hash
}

/// Hashes the UTF-8 bytes of `input` to 32 bits.
pub fn hash_to_u32(input: &str) -> (r: u32)
    ensures
        r == hash32_spec(input.spec_bytes()),
{
    hash_bytes(input.as_bytes())
}

/// Hashes the UTF-8 bytes of `input` to 16 bits.
pub fn hash_to_u16(input: &str) -> (r: u16)
    ensures
        r == hash16_spec(input.spec_bytes()),
{
    let hash = hash_to_u32(input);
    (hash ^ (hash >> 16)) as u16
}

} // verus!
