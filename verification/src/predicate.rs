//! The acceptance predicate: does a digest satisfy the difficulty mask?

use vstd::prelude::*;

verus! {

/// The first four bytes of a digest, read as a big-endian unsigned 32-bit
/// integer.
pub open spec fn be32_of(s: Seq<u8>) -> u32
    recommends
        s.len() >= 4,
{
    (((s[0] as u32) << 24) | ((s[1] as u32) << 16) | ((s[2] as u32) << 8) | (s[3] as u32)) as u32
}

/// A digest is accepted when it has at least four bytes and every bit that is
/// zero in the mask is also zero in the digest's big-endian 32-bit prefix.
/// A mask bit set to one is a "don't care"; a mask bit set to zero demands a
/// zero digest bit, so a denser mask of zero bits makes acceptance rarer.
pub open spec fn accepts(digest: Seq<u8>, mask: u32) -> bool {
    &&& digest.len() >= 4
    &&& be32_of(digest) & !mask == 0
}

/// Decides whether a digest clears the difficulty mask: true exactly when the
/// input holds at least four bytes and their big-endian 32-bit value, ANDed
/// with the complement of the mask, is zero. Inputs shorter than four bytes
/// are always rejected.
pub fn hash_structure_good(hash: &[u8], difficulty_mask: u32) -> (good: bool)
    ensures
        good == accepts(hash@, difficulty_mask),
        hash@.len() < 4 ==> !good,
{
    if hash.len() < 4 {
        return false;
    }
    let hash_prefix: u32 = ((hash[0] as u32) << 24u32) | ((hash[1] as u32) << 16u32)
        | ((hash[2] as u32) << 8u32) | (hash[3] as u32);
    assert(hash_prefix == be32_of(hash@));
    (hash_prefix & !difficulty_mask) == 0
}

} // verus!
