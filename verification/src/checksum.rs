//! CRC-32 checksums.

use vstd::prelude::*;

verus! {

/// A remainder shifted right by one bit, and reduced if that bit was set.
pub open spec fn crc32_shift(c: u32) -> u32 {
    if c & 1 == 1 {
        (c >> 1) ^ 0xEDB8_8320
    } else {
        c >> 1
    }
}

/// A remainder shifted by `n` bits.
pub open spec fn crc32_shifted(c: u32, n: nat) -> u32
    decreases n,
{
    if n == 0 {
        c
    } else {
        crc32_shift(crc32_shifted(c, (n - 1) as nat))
    }
}

/// The CRC-32 of a text that goes on with `byte`, where `crc` is the CRC-32 of
/// what comes before.
pub open spec fn crc32_byte(crc: u32, byte: u8) -> u32 {
    !crc32_shifted(!crc ^ byte as u32, 8)
}

/// The CRC-32 of a text that goes on with `bytes`, where `crc` is the CRC-32
/// of what comes before.
pub open spec fn crc32_from(crc: u32, bytes: Seq<u8>) -> u32
    decreases bytes.len(),
{
    if bytes.len() == 0 {
        crc
    } else {
        crc32_byte(crc32_from(crc, bytes.drop_last()), bytes.last())
    }
}

/// The CRC-32 of a byte string.
pub open spec fn crc32_of(bytes: Seq<u8>) -> u32 {
    crc32_from(0, bytes)
}

/// Calls `crc32fast::Hasher`: `new_with_initial`, `update` and `finalize`.
/// Claimed of it: the result is the CRC-32 by the reflected IEEE polynomial,
/// continued from the initial value over the bytes, one after the other.
#[verifier::external_body]
pub(crate) fn crc32_update(crc: u32, bytes: &[u8]) -> (r: u32)
    ensures
        r == crc32_from(crc, bytes@),
{
    let mut hasher = crc32fast::Hasher::new_with_initial(crc);
    hasher.update(bytes);
    hasher.finalize()
}

/// The CRC-32 of a byte string.
pub fn crc32(bytes: &[u8]) -> (r: u32)
    ensures
        r == crc32_of(bytes@),
{
    crc32_update(0, bytes)
}

/// A checksum can be taken in parts: the CRC-32 of a text is that of its
/// second part, continued from that of its first.
pub proof fn lemma_crc32_append(crc: u32, a: Seq<u8>, b: Seq<u8>)
    ensures
        crc32_from(crc, a + b) == crc32_from(crc32_from(crc, a), b),
    decreases b.len(),
{
    if b.len() == 0 {
        assert(a + b =~= a);
    } else {
        lemma_crc32_append(crc, a, b.drop_last());
        assert((a + b).drop_last() =~= a + b.drop_last());
    }
}

} // verus!
