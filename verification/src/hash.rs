//! The 64-bit FNV-1a hash that names cache entries.
use vstd::prelude::*;
use crate::text::{hex_width, push_hex};

verus! {

/// FNV-1a 64-bit offset basis.
pub const FNV_OFFSET: u64 = 0xcbf29ce484222325;

/// FNV-1a 64-bit prime.
pub const FNV_PRIME: u64 = 0x100000001b3;

/// FNV-1a over `bytes`: start from the offset basis, and for each byte in
/// order xor it in and multiply by the prime, wrapping at 2^64.
pub open spec fn fnv1a64(bytes: Seq<u8>) -> u64
    decreases bytes.len(),
{
    if bytes.len() == 0 {
        FNV_OFFSET
    } else {
        (fnv1a64(bytes.drop_last()) ^ (bytes.last() as u64)).wrapping_mul(FNV_PRIME)
    }
}

/// The cache key text of `bytes`: its FNV-1a hash as sixteen lowercase
/// hexadecimal digits.
pub open spec fn fnv1a64_key(bytes: Seq<u8>) -> Seq<char> {
    hex_width(fnv1a64(bytes) as nat, 16)
}

/// Hashes `bytes` with FNV-1a (64 bit) and renders the hash as sixteen
/// zero-padded lowercase hexadecimal digits.
pub fn fnv1a64_hex(bytes: &[u8]) -> (r: String)
    ensures
        r@ == fnv1a64_key(bytes@),
{
    let mut hash: u64 = FNV_OFFSET;
    let n = bytes.len();
    for i in 0..n
        invariant
            n == bytes@.len(),
            hash == fnv1a64(bytes@.take(i as int)),
    {
        proof {
            assert(bytes@.take(i + 1).drop_last() =~= bytes@.take(i as int));
        }
        hash = (hash ^ (bytes[i] as u64)).wrapping_mul(FNV_PRIME);
    }
    proof {
        assert(bytes@.take(n as int) =~= bytes@);
    }
    let mut out = String::new();
    push_hex(&mut out, hash, 16);
    proof {
        assert(out@ =~= hex_width(hash as nat, 16));
    }
    out
}

} // verus!

verus! {

/// Sixteen to the power `w`.
pub open spec fn pow16(w: nat) -> nat
    decreases w,
{
    if w == 0 {
        1
    } else {
        16 * pow16((w - 1) as nat)
    }
}

proof fn lemma_hex_width_reads_back(n: nat, w: nat)
    requires
        n < pow16(w),
    ensures
        crate::json::hex_value(crate::text::hex_width(n, w)) == n,
    decreases w,
{
    let h = crate::text::hex_width(n, w);
    if w > 0 {
        assert(h.drop_last() =~= crate::text::hex_width(n / 16, (w - 1) as nat));
        crate::json::lemma_hex_digit_value(n % 16);
        lemma_hex_width_reads_back(n / 16, (w - 1) as nat);
    } else {
        assert(h =~= Seq::<char>::empty());
    }
}

/// FNV-1a steps: the hash of no bytes is the offset basis
/// 0xcbf29ce484222325, and one more byte is xored in as its unsigned value
/// (0 to 255, touching only the low eight bits) before multiplying by the
/// prime 0x100000001b3, wrapping at 2^64.
pub proof fn law_fnv1a64_steps(bytes: Seq<u8>, b: u8)
    ensures
        fnv1a64(Seq::empty()) == 0xcbf29ce484222325u64,
        fnv1a64(bytes.push(b)) == (fnv1a64(bytes) ^ (b as u64)).wrapping_mul(0x100000001b3u64),
        (b as u64) < 256,
        (fnv1a64(bytes) ^ (b as u64)) >> 8u64 == fnv1a64(bytes) >> 8u64,
{
    assert(bytes.push(b).drop_last() =~= bytes);
    let h = fnv1a64(bytes);
    let x = b as u64;
    assert(x < 256 ==> (h ^ x) >> 8u64 == h >> 8u64) by (bit_vector);
}

/// The cache key spells the hash: read back as a hexadecimal number, the
/// sixteen digits of the key are the FNV-1a hash of the bytes.
pub proof fn law_key_spells_the_hash(bytes: Seq<u8>)
    ensures
        crate::json::hex_value(fnv1a64_key(bytes)) == fnv1a64(bytes) as nat,
{
    reveal_with_fuel(pow16, 17);
    assert(pow16(16) == 0x10000000000000000nat);
    lemma_hex_width_reads_back(fnv1a64(bytes) as nat, 16);
}

} // verus!
