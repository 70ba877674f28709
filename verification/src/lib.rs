//! An inner-product-argument (IPA) polynomial commitment engine.
//!
//! The crate proves that a committed vector of field elements, read as the
//! coefficients of a multilinear polynomial, evaluates to a claimed value at
//! a public point. The core is a Bulletproofs-style logarithmic-size
//! argument: the prover folds the witness, the public vector and the
//! generator key in lock-step for `log2(n)` rounds, and the verifier replays
//! the Fiat-Shamir transcript and reconstructs the expected final commitment
//! in `O(n)` work through a tensor weight vector.

pub mod field;
pub mod transcript;
pub mod commitment;
pub mod eq_poly;
pub mod ipa;
pub mod engine;
pub mod codec;

use vstd::prelude::*;
use vstd::arithmetic::power2::{pow2, lemma_pow2_unfold, lemma_pow2_pos, lemma_pow2_strictly_increases, lemma2_to64};

verus! {

/// The two terminal failures of a proof call: a shape or degeneracy error
/// (mismatched lengths, a round count inconsistent with `n`, a degenerate
/// batch inversion), and the failure of the final verification equality.
#[derive(Clone, Copy, Debug, PartialEq, Eq, Structural)]
pub enum IpaError {
    /// The inputs have inconsistent shapes, or an inversion degenerated.
    InvalidInputLength,
    /// The final commitment equality did not hold.
    InvalidIPA,
}

/// Whether `n` is a power of two, by repeated halving.
pub open spec fn spec_is_pow2(n: nat) -> bool
    decreases n,
{
    if n == 0 {
        false
    } else if n == 1 {
        true
    } else {
        n % 2 == 0 && spec_is_pow2(n / 2)
    }
}

/// The base-two logarithm, exact on powers of two.
pub open spec fn spec_log2(n: nat) -> nat
    decreases n,
{
    if n <= 1 {
        0
    } else {
        1 + spec_log2(n / 2)
    }
}

/// `pow2(k)` is a power of two and `spec_log2` recovers `k` from it.
pub proof fn lemma_pow2_shape(k: nat)
    ensures
        spec_is_pow2(pow2(k)),
        spec_log2(pow2(k)) == k,
    decreases k,
{
    if k == 0 {
        lemma2_to64();
    } else {
        lemma_pow2_shape((k - 1) as nat);
        lemma_pow2_unfold(k);
        lemma_pow2_pos((k - 1) as nat);
    }
}

/// `2^k`, executable.
pub fn pow2_usize(k: usize) -> (r: usize)
    requires
        k < 32,
    ensures
        r == pow2(k as nat),
{
    let mut r: usize = 1;
    let mut i: usize = 0;
    proof {
        lemma2_to64();
    }
    while i < k
        invariant
            i <= k < 32,
            r == pow2(i as nat),
        decreases k - i,
    {
        proof {
            lemma_pow2_strictly_increases(i as nat, 31);
            lemma2_to64();
            lemma_pow2_unfold((i + 1) as nat);
        }
        r = r * 2;
        i = i + 1;
    }
    r
}

} // verus!
