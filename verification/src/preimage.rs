//! Building the preimage: the zero-padded 16-digit lowercase hex encoding of
//! the nonce, followed by the challenge suffix, with no separators.

use vstd::prelude::*;

verus! {

/// The hex digit of `nonce` at position `j` of its 16-digit big-endian
/// rendering, as a value below 16.
pub open spec fn nibble_of(nonce: u64, j: int) -> u64
    recommends
        0 <= j < 16,
{
    (nonce >> (((15 - j) * 4) as u64)) & 0xf
}

/// The ASCII byte of a single lowercase hex digit.
pub open spec fn hex_digit(v: u64) -> u8
    recommends
        v < 16,
{
    if v < 10 {
        (0x30 + v) as u8
    } else {
        (0x57 + v) as u8
    }
}

/// The 16 ASCII bytes of the zero-padded lowercase hex rendering of a nonce.
pub open spec fn nonce_hex_spec(nonce: u64) -> Seq<u8> {
    Seq::new(16, |j: int| hex_digit(nibble_of(nonce, j)))
}

/// The preimage fed to the digest: hex nonce, then the suffix, nothing else.
pub open spec fn preimage_spec(nonce: u64, suffix: Seq<u8>) -> Seq<u8> {
    nonce_hex_spec(nonce) + suffix
}

/// Renders a nonce as exactly 16 lowercase hex digits with leading zeros.
pub fn nonce_hex(nonce: u64) -> (out: Vec<u8>)
    ensures
        out@ == nonce_hex_spec(nonce),
{
    let mut out: Vec<u8> = Vec::new();
    let mut j: usize = 0;
    while j < 16
        invariant
            j <= 16,
            out@.len() == j,
            forall|i: int| 0 <= i < j ==> out@[i] == hex_digit(nibble_of(nonce, i)),
        decreases 16 - j,
    {
        let shift: u64 = ((15 - j) * 4) as u64;
        let nib: u64 = (nonce >> shift) & 0xf;
        assert((nonce >> shift) & 0xf < 16) by (bit_vector);
        let d: u8 = if nib < 10 {
            (0x30 + nib) as u8
        } else {
            (0x57 + nib) as u8
        };
        assert(d == hex_digit(nibble_of(nonce, j as int)));
        out.push(d);
        j += 1;
    }
    assert(out@ =~= nonce_hex_spec(nonce));
    out
}

/// Builds the preimage for one candidate: the 16 hex digits of the nonce
/// immediately followed by the suffix bytes. Deterministic and pure; the
/// exact layout is part of the protocol, so nothing may be added or
/// reordered.
pub fn build(nonce: u64, suffix: &[u8]) -> (preimage: Vec<u8>)
    ensures
        preimage@ == preimage_spec(nonce, suffix@),
{
    let mut preimage = nonce_hex(nonce);
    let mut i: usize = 0;
    while i < suffix.len()
        invariant
            i <= suffix@.len(),
            preimage@ == nonce_hex_spec(nonce) + suffix@.subrange(0, i as int),
        decreases suffix@.len() - i,
    {
        preimage.push(suffix[i]);
        assert(preimage@ =~= nonce_hex_spec(nonce) + suffix@.subrange(0, i as int + 1));
        i += 1;
    }
    assert(preimage@ =~= preimage_spec(nonce, suffix@));
    preimage
}

/// Appends every byte of `part` to `out`.
fn append_bytes(out: &mut Vec<u8>, part: &[u8])
    ensures
        final(out)@ == old(out)@ + part@,
{
    let mut i: usize = 0;
    while i < part.len()
        invariant
            i <= part@.len(),
            out@ == old(out)@ + part@.subrange(0, i as int),
        decreases part@.len() - i,
    {
        out.push(part[i]);
        assert(out@ =~= old(out)@ + part@.subrange(0, i as int + 1));
        i += 1;
    }
    assert(out@ =~= old(out)@ + part@);
}

/// Builds the challenge suffix: the six challenge fields concatenated in this
/// exact order with no separators. The difficulty field is the raw hex string
/// as supplied, not the parsed mask.
pub fn build_suffix(
    address: &[u8],
    challenge_id: &[u8],
    difficulty: &[u8],
    no_pre_mine: &[u8],
    latest_submission: &[u8],
    no_pre_mine_hour: &[u8],
) -> (suffix: Vec<u8>)
    ensures
        suffix@ == address@ + challenge_id@ + difficulty@ + no_pre_mine@ + latest_submission@
            + no_pre_mine_hour@,
{
    let mut suffix: Vec<u8> = Vec::new();
    append_bytes(&mut suffix, address);
    append_bytes(&mut suffix, challenge_id);
    append_bytes(&mut suffix, difficulty);
    append_bytes(&mut suffix, no_pre_mine);
    append_bytes(&mut suffix, latest_submission);
    append_bytes(&mut suffix, no_pre_mine_hour);
    suffix
}

/// Building the preimage is deterministic: any two results computed from the
/// same nonce and the same suffix are byte-identical.
pub proof fn lemma_build_deterministic(nonce: u64, suffix: Seq<u8>, r1: Seq<u8>, r2: Seq<u8>)
    requires
        r1 == preimage_spec(nonce, suffix),
        r2 == preimage_spec(nonce, suffix),
    ensures
        r1 == r2,
{
}

proof fn lemma_hex_digit_injective(a: u64, b: u64)
    requires
        a < 16,
        b < 16,
        hex_digit(a) == hex_digit(b),
    ensures
        a == b,
{
}

/// Two nonces with the same 16-digit hex rendering are equal.
pub proof fn lemma_nonce_hex_injective(n1: u64, n2: u64)
    requires
        nonce_hex_spec(n1) == nonce_hex_spec(n2),
    ensures
        n1 == n2,
{
    assert forall|j: int| 0 <= j < 16 implies nibble_of(n1, j) == nibble_of(n2, j) by {
        let s: u64 = ((15 - j) * 4) as u64;
        assert((n1 >> s) & 0xf < 16) by (bit_vector);
        assert((n2 >> s) & 0xf < 16) by (bit_vector);
        assert(nonce_hex_spec(n1)[j] == hex_digit(nibble_of(n1, j)));
        assert(nonce_hex_spec(n2)[j] == hex_digit(nibble_of(n2, j)));
        assert(nonce_hex_spec(n1)[j] == nonce_hex_spec(n2)[j]);
        lemma_hex_digit_injective(nibble_of(n1, j), nibble_of(n2, j));
    }
    assert(nibble_of(n1, 0) == nibble_of(n2, 0));
    assert(nibble_of(n1, 1) == nibble_of(n2, 1));
    assert(nibble_of(n1, 2) == nibble_of(n2, 2));
    assert(nibble_of(n1, 3) == nibble_of(n2, 3));
    assert(nibble_of(n1, 4) == nibble_of(n2, 4));
    assert(nibble_of(n1, 5) == nibble_of(n2, 5));
    assert(nibble_of(n1, 6) == nibble_of(n2, 6));
    assert(nibble_of(n1, 7) == nibble_of(n2, 7));
    assert(nibble_of(n1, 8) == nibble_of(n2, 8));
    assert(nibble_of(n1, 9) == nibble_of(n2, 9));
    assert(nibble_of(n1, 10) == nibble_of(n2, 10));
    assert(nibble_of(n1, 11) == nibble_of(n2, 11));
    assert(nibble_of(n1, 12) == nibble_of(n2, 12));
    assert(nibble_of(n1, 13) == nibble_of(n2, 13));
    assert(nibble_of(n1, 14) == nibble_of(n2, 14));
    assert(nibble_of(n1, 15) == nibble_of(n2, 15));
    assert(n1 == n2) by (bit_vector)
        requires
            (n1 >> 60u64) & 0xf == (n2 >> 60u64) & 0xf,
            (n1 >> 56u64) & 0xf == (n2 >> 56u64) & 0xf,
            (n1 >> 52u64) & 0xf == (n2 >> 52u64) & 0xf,
            (n1 >> 48u64) & 0xf == (n2 >> 48u64) & 0xf,
            (n1 >> 44u64) & 0xf == (n2 >> 44u64) & 0xf,
            (n1 >> 40u64) & 0xf == (n2 >> 40u64) & 0xf,
            (n1 >> 36u64) & 0xf == (n2 >> 36u64) & 0xf,
            (n1 >> 32u64) & 0xf == (n2 >> 32u64) & 0xf,
            (n1 >> 28u64) & 0xf == (n2 >> 28u64) & 0xf,
            (n1 >> 24u64) & 0xf == (n2 >> 24u64) & 0xf,
            (n1 >> 20u64) & 0xf == (n2 >> 20u64) & 0xf,
            (n1 >> 16u64) & 0xf == (n2 >> 16u64) & 0xf,
            (n1 >> 12u64) & 0xf == (n2 >> 12u64) & 0xf,
            (n1 >> 8u64) & 0xf == (n2 >> 8u64) & 0xf,
            (n1 >> 4u64) & 0xf == (n2 >> 4u64) & 0xf,
            (n1 >> 0u64) & 0xf == (n2 >> 0u64) & 0xf,
    ;
}

/// Distinct nonces give distinct preimages over any common suffix, already
/// before digesting: the hex renderings differ in some digit.
pub proof fn lemma_preimage_injective(n1: u64, n2: u64, suffix: Seq<u8>)
    requires
        n1 != n2,
    ensures
        preimage_spec(n1, suffix) != preimage_spec(n2, suffix),
{
    if preimage_spec(n1, suffix) == preimage_spec(n2, suffix) {
        assert(nonce_hex_spec(n1) =~= nonce_hex_spec(n2)) by {
            assert forall|j: int| 0 <= j < 16 implies nonce_hex_spec(n1)[j] == nonce_hex_spec(
                n2,
            )[j] by {
                assert(preimage_spec(n1, suffix)[j] == preimage_spec(n2, suffix)[j]);
            }
        }
        lemma_nonce_hex_injective(n1, n2);
    }
}

} // verus!
