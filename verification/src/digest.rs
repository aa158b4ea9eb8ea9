//! The digest function: a 32-byte BLAKE2b hash of the preimage bytes.

use vstd::prelude::*;
use blake2::Blake2bVar;
use blake2::digest::{Update, VariableOutput};

verus! {

/// The 32-byte BLAKE2b digest of a byte sequence. The algorithm is fixed by
/// the protocol this client speaks; here only its name is stated, together
/// with the output length, and everything the library proves about digests
/// goes through this name.
pub uninterp spec fn blake2b_32_of(input: Seq<u8>) -> Seq<u8>;

/// Relies on blake2::Blake2bVar with a 32-byte output: the digest is an
/// unkeyed hash, a function of the input bytes alone, and fills exactly the
/// 32 bytes asked for. Blake2bVar::new accepts any output size from 1 to 64
/// bytes, and finalize_variable succeeds when the buffer length equals the
/// output size, so neither call fails here.
#[verifier::external_body]
pub(crate) fn blake2b_32(input: &[u8]) -> (digest: Vec<u8>)
    ensures
        digest@ == blake2b_32_of(input@),
        digest@.len() == 32,
{
    let mut hasher = Blake2bVar::new(32).unwrap();
    hasher.update(input);
    let mut out = vec![0u8; 32];
    hasher.finalize_variable(&mut out).unwrap();
    out
}

} // verus!
