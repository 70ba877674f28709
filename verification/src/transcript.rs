//! The Fiat-Shamir transcript: an ordered, label-delimited absorb /
//! derive-challenge state machine.
//!
//! The internal mixing function is a stand-in permutation (a 64-bit affine
//! step), deliberately simple: the protocol only needs an exclusively owned,
//! strictly ordered and fully deterministic history, and every contract here
//! pins the state exactly through `spec_mix`. Challenges are never zero.

use vstd::prelude::*;
use crate::field::{Scalar, MODULUS, sc_wf};
use crate::commitment::{Commitment, CompressedCommitment};

verus! {

/// The multiplier of the affine mixing step.
pub const MIX_MULT: u64 = 6364136223846793005;

/// One mixing step: the state is multiplied and the new word added, all
/// truncated to 64 bits.
pub open spec fn spec_mix(s: u64, x: u64) -> u64 {
    ((s * MIX_MULT + x) % 0x1_0000_0000_0000_0000) as u64
}

/// The scalar a challenge derives from a state: always in `[1, MODULUS)`.
pub open spec fn spec_chal(s: u64) -> u64 {
    ((s as int) % ((MODULUS - 1) as int) + 1) as u64
}

/// The Fiat-Shamir state machine. The handle is exclusively owned by one
/// in-progress proof; every absorb and challenge is strictly ordered.
#[derive(Clone, Copy, Debug, PartialEq, Eq, Structural)]
pub struct TranscriptEngine {
    pub state: u64,
}

/// One mixing step, executable.
pub(crate) fn mix(s: u64, x: u64) -> (r: u64)
    ensures
        r == spec_mix(s, x),
{
    proof {
        vstd::arithmetic::mul::lemma_mul_upper_bound(
            s as int,
            0xffff_ffff_ffff_ffff,
            MIX_MULT as int,
            0xffff_ffff_ffff_ffff,
        );
    }
    let wide: u128 = (s as u128) * (MIX_MULT as u128) + (x as u128);
    let red: u128 = wide % 0x1_0000_0000_0000_0000u128;
    red as u64
}

impl TranscriptEngine {
    /// A fresh transcript whose history starts at `seed`; two transcripts
    /// agree on all later challenges iff they are fed the same seed and the
    /// same ordered absorbs.
    pub fn new(seed: u64) -> (r: TranscriptEngine)
        ensures
            r.state == seed,
    {
        TranscriptEngine { state: seed }
    }

    /// Absorbs one labelled word into the history.
    pub fn absorb_u64(&mut self, label: u64, x: u64)
        ensures
            final(self).state == spec_mix(spec_mix(old(self).state, label), x),
    {
        let s1: u64 = mix(self.state, label);
        self.state = mix(s1, x);
    }

    /// Absorbs one labelled scalar.
    pub fn absorb_scalar(&mut self, label: u64, s: &Scalar)
        ensures
            final(self).state == spec_mix(spec_mix(old(self).state, label), s.v),
    {
        self.absorb_u64(label, s.v);
    }

    /// Absorbs one labelled commitment.
    pub fn absorb_commitment(&mut self, label: u64, c: &Commitment)
        ensures
            final(self).state == spec_mix(spec_mix(old(self).state, label), c.g.v),
    {
        self.absorb_u64(label, c.g.v);
    }

    /// Absorbs one labelled compressed commitment.
    pub fn absorb_compressed(&mut self, label: u64, c: &CompressedCommitment)
        ensures
            final(self).state == spec_mix(spec_mix(old(self).state, label), c.v),
    {
        self.absorb_u64(label, c.v);
    }

    /// Derives one labelled challenge scalar and advances the history.
    /// The result is pinned by the state and is never zero.
    pub fn challenge(&mut self, label: u64) -> (r: Scalar)
        ensures
            final(self).state == spec_mix(old(self).state, label),
            r.v == spec_chal(final(self).state),
            sc_wf(r),
            r.v != 0,
    {
        let s1: u64 = mix(self.state, label);
        self.state = s1;
        Scalar { v: s1 % (MODULUS - 1) + 1 }
    }
}

} // verus!
