//! 64-bit FNV-1a fingerprints used to key hints and windows.

use vstd::prelude::*;

verus! {

pub const FNV_OFFSET_BASIS: u64 = 14695981039346656037;
pub const FNV_PRIME: u64 = 1099511628211;

/// One FNV-1a step: xor the byte in, multiply by the prime (mod 2^64).
pub open spec fn fnv_step(h: u64, b: u8) -> u64 {
    (h ^ (b as u64)).wrapping_mul(FNV_PRIME)
}

/// FNV-1a of a byte sequence.
pub open spec fn fnv1a(bytes: Seq<u8>) -> u64
    decreases bytes.len(),
{
    if bytes.len() == 0 {
        FNV_OFFSET_BASIS
    } else {
        fnv_step(fnv1a(bytes.drop_last()), bytes.last())
    }
}

/// Little-endian bytes of a 32-bit value.
pub open spec fn le_bytes_u32(v: u32) -> Seq<u8> {
    seq![(v % 256) as u8, ((v / 256) % 256) as u8, ((v / 65536) % 256) as u8, (v / 16777216) as u8]
}

/// Little-endian bytes of a 16-bit value.
pub open spec fn le_bytes_u16(v: u16) -> Seq<u8> {
    seq![(v % 256) as u8, (v / 256) as u8]
}

/// Concatenated little-endian bytes of the parts.
pub open spec fn i32_parts_bytes(parts: Seq<i32>) -> Seq<u8>
    decreases parts.len(),
{
    if parts.len() == 0 {
        Seq::empty()
    } else {
        i32_parts_bytes(parts.drop_last()) + le_bytes_u32(parts.last() as u32)
    }
}

/// Concatenated little-endian bytes of UTF-16 code units.
pub open spec fn u16_units_bytes(units: Seq<u16>) -> Seq<u8>
    decreases units.len(),
{
    if units.len() == 0 {
        Seq::empty()
    } else {
        u16_units_bytes(units.drop_last()) + le_bytes_u16(units.last())
    }
}

proof fn lemma_fnv1a_push(bytes: Seq<u8>, b: u8)
    ensures
        fnv1a(bytes.push(b)) == fnv_step(fnv1a(bytes), b),
{
    assert(bytes.push(b).drop_last() =~= bytes);
}

/// FNV-1a over a byte slice.
pub fn fnv1a_bytes(bytes: &[u8]) -> (h: u64)
    ensures
        h == fnv1a(bytes@),
{
    let mut h: u64 = FNV_OFFSET_BASIS;
    let mut i: usize = 0;
    while i < bytes.len()
        invariant
            i <= bytes@.len(),
            h == fnv1a(bytes@.take(i as int)),
        decreases bytes@.len() - i,
    {
        proof {
            assert(bytes@.take(i as int + 1) =~= bytes@.take(i as int).push(bytes@[i as int]));
            lemma_fnv1a_push(bytes@.take(i as int), bytes@[i as int]);
        }
        h ^= bytes[i] as u64;
        h = h.wrapping_mul(FNV_PRIME);
        i += 1;
    }
    assert(bytes@.take(i as int) =~= bytes@);
    h
}

/// Hash UIA runtime id parts (little-endian bytes of each part) for deduplication.
pub fn fnv1a_hash_i32_slice(parts: &[i32]) -> (h: u64)
    ensures
        h == fnv1a(i32_parts_bytes(parts@)),
{
    let mut h: u64 = FNV_OFFSET_BASIS;
    let mut i: usize = 0;
    while i < parts.len()
        invariant
            i <= parts@.len(),
            h == fnv1a(i32_parts_bytes(parts@.take(i as int))),
        decreases parts@.len() - i,
    {
        let ghost prev = i32_parts_bytes(parts@.take(i as int));
        let v = parts[i] as u32;
        let b0 = (v % 256) as u8;
        let b1 = ((v / 256) % 256) as u8;
        let b2 = ((v / 65536) % 256) as u8;
        let b3 = (v / 16777216) as u8;
        proof {
            assert(parts@.take(i as int + 1).drop_last() =~= parts@.take(i as int));
            assert(le_bytes_u32(v) =~= seq![b0, b1, b2, b3]);
            let s0 = prev.push(b0);
            let s1 = s0.push(b1);
            let s2 = s1.push(b2);
            let s3 = s2.push(b3);
            assert(i32_parts_bytes(parts@.take(i as int + 1)) =~= s3);
            lemma_fnv1a_push(prev, b0);
            lemma_fnv1a_push(s0, b1);
            lemma_fnv1a_push(s1, b2);
            lemma_fnv1a_push(s2, b3);
        }
        h = (h ^ b0 as u64).wrapping_mul(FNV_PRIME);
        h = (h ^ b1 as u64).wrapping_mul(FNV_PRIME);
        h = (h ^ b2 as u64).wrapping_mul(FNV_PRIME);
        h = (h ^ b3 as u64).wrapping_mul(FNV_PRIME);
        i += 1;
    }
    assert(parts@.take(i as int) =~= parts@);
    h
}

/// FNV-1a over the little-endian bytes of UTF-16 code units (window title fingerprint).
pub fn fnv1a_utf16(s: &[u16]) -> (h: u64)
    ensures
        h == fnv1a(u16_units_bytes(s@)),
{
    let mut h: u64 = FNV_OFFSET_BASIS;
    let mut i: usize = 0;
    while i < s.len()
        invariant
            i <= s@.len(),
            h == fnv1a(u16_units_bytes(s@.take(i as int))),
        decreases s@.len() - i,
    {
        let ghost prev = u16_units_bytes(s@.take(i as int));
        let u = s[i];
        let b0 = (u % 256) as u8;
        let b1 = (u / 256) as u8;
        proof {
            assert(s@.take(i as int + 1).drop_last() =~= s@.take(i as int));
            assert(le_bytes_u16(u) =~= seq![b0, b1]);
            let s0 = prev.push(b0);
            let s1 = s0.push(b1);
            assert(u16_units_bytes(s@.take(i as int + 1)) =~= s1);
            lemma_fnv1a_push(prev, b0);
            lemma_fnv1a_push(s0, b1);
        }
        h = (h ^ b0 as u64).wrapping_mul(FNV_PRIME);
        h = (h ^ b1 as u64).wrapping_mul(FNV_PRIME);
        i += 1;
    }
    assert(s@.take(i as int) =~= s@);
    h
}

} // verus!
