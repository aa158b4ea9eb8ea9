//! The search engine: stride partitioning of the nonce space, the per-worker
//! search loop, and the coordinator that publishes the first winning nonce.

use vstd::prelude::*;
use vstd::arithmetic::div_mod::{
    lemma_fundamental_div_mod, lemma_fundamental_div_mod_converse_mod,
};
use vstd::arithmetic::mul::lemma_mul_inequality;
use crate::digest::{blake2b_32, blake2b_32_of};
use crate::predicate::{accepts, hash_structure_good};
use crate::preimage::{build, preimage_spec};

verus! {

/// The nonce clears the difficulty: the digest of its preimage over this
/// suffix is accepted under this mask.
pub open spec fn candidate_ok(nonce: u64, suffix: Seq<u8>, mask: u32) -> bool {
    accepts(blake2b_32_of(preimage_spec(nonce, suffix)), mask)
}

/// The nonce lies on the arithmetic sequence that starts at `start` and
/// steps by `stride`.
pub open spec fn on_stride(start: u64, stride: u64, nonce: u64) -> bool {
    exists|k: int| 0 <= k && nonce == start + #[trigger] (k * stride)
}

/// Stride partitioning covers the whole nonce space with no overlap: every
/// 64-bit nonce lies on the sequence of exactly one of the `workers` workers,
/// namely the one whose index is the nonce's residue modulo the worker count.
pub proof fn lemma_partition_complete(workers: u64, nonce: u64)
    requires
        1 <= workers,
    ensures
        exists|i: u64| i < workers && #[trigger] on_stride(i, workers, nonce),
        forall|i1: u64, i2: u64|
            i1 < workers && i2 < workers && #[trigger] on_stride(i1, workers, nonce)
                && #[trigger] on_stride(i2, workers, nonce) ==> i1 == i2,
{
    let w = workers as int;
    let n = nonce as int;
    lemma_fundamental_div_mod(n, w);
    let r = (n % w) as u64;
    let q = n / w;
    assert(0 <= q) by {
        assert(n >= 0 && w >= 1);
    }
    assert(nonce == r + q * workers) by {
        assert(n == w * q + n % w);
        assert(w * q == q * w) by (nonlinear_arith);
    }
    assert(on_stride(r, workers, nonce));
    assert forall|i1: u64, i2: u64|
        i1 < workers && i2 < workers && #[trigger] on_stride(i1, workers, nonce)
            && #[trigger] on_stride(i2, workers, nonce) implies i1 == i2 by {
        let k1 = choose|k: int| 0 <= k && nonce == i1 + #[trigger] (k * workers);
        let k2 = choose|k: int| 0 <= k && nonce == i2 + #[trigger] (k * workers);
        lemma_fundamental_div_mod_converse_mod(n, w, k1, i1 as int);
        lemma_fundamental_div_mod_converse_mod(n, w, k2, i2 as int);
    }
}

/// The index of the worker whose sequence contains a given nonce.
pub fn worker_of(nonce: u64, workers: u64) -> (i: u64)
    requires
        1 <= workers,
    ensures
        i < workers,
        on_stride(i, workers, nonce),
        forall|j: u64| j < workers && #[trigger] on_stride(j, workers, nonce) ==> j == i,
{
    proof {
        lemma_partition_complete(workers, nonce);
        lemma_fundamental_div_mod(nonce as int, workers as int);
        assert(nonce == (nonce as int % workers as int) + (nonce as int / workers as int)
            * workers) by {
            assert(workers as int * (nonce as int / workers as int) == (nonce as int
                / workers as int) * workers as int) by (nonlinear_arith);
        }
        assert(0 <= nonce as int / workers as int);
        assert(on_stride((nonce % workers) as u64, workers, nonce));
    }
    nonce % workers
}

/// Tests one candidate: builds the preimage from the nonce and suffix,
/// digests it, and applies the difficulty predicate.
pub fn candidate_accepted(nonce: u64, suffix: &[u8], mask: u32) -> (good: bool)
    ensures
        good == candidate_ok(nonce, suffix@, mask),
{
    let preimage = build(nonce, suffix);
    let digest = blake2b_32(preimage.as_slice());
    hash_structure_good(digest.as_slice(), mask)
}

/// Runs one worker's search over up to `max_iters` candidates: the nonces
/// `start`, `start + stride`, `start + 2 * stride`, and so on. Returns the
/// first candidate in that order whose digest clears the mask, or `None`
/// when none of the examined candidates does. A worker that should search
/// until told to stop calls this repeatedly with a fresh `start`.
pub fn search_range(start: u64, stride: u64, suffix: &[u8], mask: u32, max_iters: u64) -> (found:
    Option<u64>)
    requires
        1 <= stride,
        max_iters >= 1 ==> start as int + (max_iters as int - 1) * stride as int
            <= u64::MAX as int,
    ensures
        match found {
            Some(nonce) => exists|k: int|
                {
                    &&& 0 <= k < max_iters
                    &&& nonce == start + #[trigger] (k * stride)
                    &&& candidate_ok(nonce, suffix@, mask)
                    &&& forall|j: int|
                        0 <= j < k ==> !#[trigger] candidate_ok((start + j * stride) as u64, suffix@, mask)
                },
            None => forall|k: int|
                0 <= k < max_iters ==> !#[trigger] candidate_ok((start + k * stride) as u64, suffix@, mask),
        },
{
    let mut k: u64 = 0;
    let mut nonce: u64 = start;
    while k < max_iters
        invariant
            1 <= stride,
            k <= max_iters,
            max_iters >= 1 ==> start as int + (max_iters as int - 1) * stride as int
                <= u64::MAX as int,
            k < max_iters ==> nonce == start + k as int * stride,
            forall|j: int|
                0 <= j < k ==> !#[trigger] candidate_ok((start + j * stride) as u64, suffix@, mask),
        decreases max_iters - k,
    {
        if candidate_accepted(nonce, suffix, mask) {
            assert({
                let kk = k as int;
                &&& 0 <= kk < max_iters
                &&& nonce == start + kk * stride
                &&& candidate_ok(nonce, suffix@, mask)
                &&& forall|j: int|
                    0 <= j < kk ==> !#[trigger] candidate_ok((start + j * stride) as u64, suffix@, mask)
            });
            return Some(nonce);
        }
        assert((start + k as int * stride) as u64 == nonce);
        k = k + 1;
        if k < max_iters {
            proof {
                lemma_mul_inequality(k as int, max_iters as int - 1, stride as int);
                assert((k as int) * stride == (k as int - 1) * stride + stride)
                    by (nonlinear_arith);
            }
            nonce = nonce + stride;
        }
    }
    None
}

/// The shared result slot: a found flag and the winning nonce, together with
/// the run's fixed suffix and mask. The first publication wins; the stored
/// nonce is only meaningful once the flag is set, and then it always clears
/// the mask.
pub struct Coordinator {
    mask: u32,
    suffix: Vec<u8>,
    found: bool,
    nonce: u64,
}

impl Coordinator {
    pub closed spec fn mask_spec(self) -> u32 {
        self.mask
    }

    pub closed spec fn suffix_spec(self) -> Seq<u8> {
        self.suffix@
    }

    pub closed spec fn found_spec(self) -> bool {
        self.found
    }

    pub closed spec fn nonce_spec(self) -> u64 {
        self.nonce
    }

    /// Consistency: whenever the found flag is set, the stored nonce is a
    /// genuine winner for the stored suffix and mask.
    pub open spec fn wf(self) -> bool {
        self.found_spec() ==> candidate_ok(self.nonce_spec(), self.suffix_spec(), self.mask_spec())
    }

    pub fn new(mask: u32, suffix: Vec<u8>) -> (c: Coordinator)
        ensures
            c.wf(),
            !c.found_spec(),
            c.mask_spec() == mask,
            c.suffix_spec() == suffix@,
    {
        Coordinator { mask, suffix, found: false, nonce: 0 }
    }

    /// Publishes a winning nonce. Write-once-wins: a publication after the
    /// first keeps the already published result, so simultaneous winners
    /// never leave an inconsistent pair behind.
    pub fn publish(&mut self, nonce: u64)
        requires
            old(self).wf(),
            candidate_ok(nonce, old(self).suffix_spec(), old(self).mask_spec()),
        ensures
            final(self).wf(),
            final(self).found_spec(),
            final(self).mask_spec() == old(self).mask_spec(),
            final(self).suffix_spec() == old(self).suffix_spec(),
            final(self).nonce_spec() == if old(self).found_spec() {
                old(self).nonce_spec()
            } else {
                nonce
            },
    {
        if !self.found {
            self.nonce = nonce;
            self.found = true;
        }
    }

    /// A worker's step on a candidate it believes has won: the candidate is
    /// re-tested against the stored suffix and mask, and published only when
    /// it really clears them. Returns whether it did.
    pub fn try_publish(&mut self, nonce: u64) -> (good: bool)
        requires
            old(self).wf(),
        ensures
            final(self).wf(),
            good == candidate_ok(nonce, old(self).suffix_spec(), old(self).mask_spec()),
            final(self).mask_spec() == old(self).mask_spec(),
            final(self).suffix_spec() == old(self).suffix_spec(),
            good ==> final(self).found_spec(),
            good ==> final(self).nonce_spec() == if old(self).found_spec() {
                old(self).nonce_spec()
            } else {
                nonce
            },
            !good ==> final(self).found_spec() == old(self).found_spec(),
            !good ==> final(self).nonce_spec() == old(self).nonce_spec(),
    {
        let good = candidate_accepted(nonce, self.suffix.as_slice(), self.mask);
        if good {
            self.publish(nonce);
        }
        good
    }

    /// Reads the published result. `Some` comes exactly when a nonce has
    /// been published, and any nonce handed out clears the mask.
    pub fn result(&self) -> (r: Option<u64>)
        requires
            self.wf(),
        ensures
            match r {
                Some(nonce) => {
                    &&& self.found_spec()
                    &&& nonce == self.nonce_spec()
                    &&& candidate_ok(nonce, self.suffix_spec(), self.mask_spec())
                },
                None => !self.found_spec(),
            },
    {
        if self.found {
            Some(self.nonce)
        } else {
            None
        }
    }
}

} // verus!
