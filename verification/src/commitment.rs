//! The commitment collaborator: generators, the linear commit operation,
//! and the key manipulations the protocol folds with.
//!
//! The group is modelled concretely: a generator is a field element, a
//! commitment is the linear combination `sum key_i * scalar_i`, and the
//! compressed form is the canonical representative itself, so compression
//! is injective by construction. Every operation returns a new key; none
//! mutates in place.

use vstd::prelude::*;
use crate::field::{Scalar, MODULUS, sc_wf, seq_wf, svals, f_add, f_mul};
use crate::transcript::spec_mix;
use crate::IpaError;

verus! {

/// The domain-separation seed for deterministic generator derivation.
pub const KEY_DERIVE_SEED: u64 = 0x6970612d67656e73;

/// The representative of generator `i` of the key derived from `label`:
/// nothing-up-my-sleeve, a pure function of the label and the index.
pub open spec fn spec_key_gen(label: u64, i: u64) -> u64 {
    ((spec_mix(spec_mix(KEY_DERIVE_SEED, label), i) as int) % (MODULUS as int)) as u64
}

/// A group element: the result of a linear commitment.
#[derive(Clone, Copy, Debug, PartialEq, Eq, Structural)]
pub struct Commitment {
    pub g: Scalar,
}

/// The canonical, injective encoding of a commitment.
#[derive(Clone, Copy, Debug, PartialEq, Eq, Structural)]
pub struct CompressedCommitment {
    pub v: u64,
}

/// Well-formedness of a commitment.
pub open spec fn comm_wf(c: Commitment) -> bool {
    sc_wf(c.g)
}

/// Well-formedness of a compressed commitment.
pub open spec fn comp_wf(c: CompressedCommitment) -> bool {
    c.v < MODULUS
}

/// Well-formedness of a sequence of compressed commitments.
pub open spec fn cseq_wf(s: Seq<CompressedCommitment>) -> bool {
    forall|i: int| 0 <= i < s.len() ==> comp_wf(#[trigger] s[i])
}

/// The encoded words of a sequence of compressed commitments.
pub open spec fn cvals(s: Seq<CompressedCommitment>) -> Seq<u64> {
    s.map_values(|x: CompressedCommitment| x.v)
}

/// The linear combination `sum a_i * b_i` over the field, the meaning of
/// both `commit` and `inner_product`.
pub open spec fn spec_ip(a: Seq<u64>, b: Seq<u64>) -> u64
    decreases a.len(),
{
    if a.len() == 0 {
        0
    } else {
        f_add(spec_ip(a.drop_last(), b.drop_last()), f_mul(a.last(), b.last()))
    }
}

impl Commitment {
    /// The group operation.
    pub fn add(&self, other: &Commitment) -> (r: Commitment)
        requires
            comm_wf(*self),
            comm_wf(*other),
        ensures
            comm_wf(r),
            r.g.v == f_add(self.g.v, other.g.v),
    {
        Commitment { g: self.g.add(&other.g) }
    }

    /// The canonical byte-for-byte encoding; equal encodings mean equal
    /// commitments and conversely.
    pub fn compress(&self) -> (r: CompressedCommitment)
        ensures
            r.v == self.g.v,
    {
        CompressedCommitment { v: self.g.v }
    }
}

/// An ordered sequence of generators defining a linear commitment.
#[derive(Debug, PartialEq, Eq)]
pub struct CommitmentKey {
    pub gens: Vec<Scalar>,
}

/// Well-formedness of a commitment key.
pub open spec fn key_wf(ck: CommitmentKey) -> bool {
    seq_wf(ck.gens@)
}

/// `Commit(key, scalars) = sum key_i * scalar_i`, linear in `scalars`.
pub fn commit(ck: &CommitmentKey, scalars: &Vec<Scalar>) -> (r: Commitment)
    requires
        ck.gens@.len() == scalars@.len(),
        key_wf(*ck),
        seq_wf(scalars@),
    ensures
        comm_wf(r),
        r.g.v == spec_ip(svals(ck.gens@), svals(scalars@)),
{
    let ghost ga = svals(ck.gens@);
    let ghost sa = svals(scalars@);
    let mut acc: Scalar = Scalar::zero();
    let mut i: usize = 0;
    while i < scalars.len()
        invariant
            i <= scalars.len(),
            ck.gens@.len() == scalars@.len(),
            key_wf(*ck),
            seq_wf(scalars@),
            sc_wf(acc),
            ga == svals(ck.gens@),
            sa == svals(scalars@),
            acc.v == spec_ip(ga.take(i as int), sa.take(i as int)),
        decreases scalars.len() - i,
    {
        let term: Scalar = ck.gens[i].mul(&scalars[i]);
        acc = acc.add(&term);
        proof {
            assert(ga.take(i + 1).drop_last() =~= ga.take(i as int));
            assert(sa.take(i + 1).drop_last() =~= sa.take(i as int));
            assert(ga.take(i + 1).last() == ck.gens@[i as int].v);
            assert(sa.take(i + 1).last() == scalars@[i as int].v);
        }
        i = i + 1;
    }
    proof {
        assert(ga.take(scalars@.len() as int) =~= ga);
        assert(sa.take(scalars@.len() as int) =~= sa);
    }
    Commitment { g: acc }
}

impl CommitmentKey {
    /// Deterministically derives `n` generators from a label.
    pub fn new(label: u64, n: usize) -> (r: CommitmentKey)
        ensures
            r.gens@.len() == n,
            key_wf(r),
            forall|i: int| 0 <= i < n ==> #[trigger] r.gens@[i].v == spec_key_gen(label, i as u64),
    {
        let mut gens: Vec<Scalar> = Vec::new();
        let mut i: usize = 0;
        while i < n
            invariant
                i <= n,
                gens@.len() == i,
                forall|j: int| 0 <= j < i ==> #[trigger] gens@[j].v == spec_key_gen(label, j as u64),
                forall|j: int| 0 <= j < i ==> sc_wf(#[trigger] gens@[j]),
            decreases n - i,
        {
            let mixed: u64 = crate::transcript::mix(crate::transcript::mix(KEY_DERIVE_SEED, label), i as u64);
            gens.push(Scalar { v: mixed % MODULUS });
            i = i + 1;
        }
        CommitmentKey { gens }
    }

    /// Splits the generators at `mid` into a left key and a right key.
    pub fn split_at(&self, mid: usize) -> (r: (CommitmentKey, CommitmentKey))
        requires
            mid <= self.gens@.len(),
        ensures
            r.0.gens@ == self.gens@.take(mid as int),
            r.1.gens@ == self.gens@.skip(mid as int),
    {
        let mut left: Vec<Scalar> = Vec::new();
        let mut right: Vec<Scalar> = Vec::new();
        let mut i: usize = 0;
        while i < mid
            invariant
                i <= mid <= self.gens@.len(),
                left@ == self.gens@.take(i as int),
            decreases mid - i,
        {
            left.push(self.gens[i]);
            proof {
                assert(left@ =~= self.gens@.take(i + 1));
            }
            i = i + 1;
        }
        let mut j: usize = mid;
        while j < self.gens.len()
            invariant
                mid <= j <= self.gens@.len(),
                right@ == self.gens@.subrange(mid as int, j as int),
            decreases self.gens@.len() - j,
        {
            right.push(self.gens[j]);
            proof {
                assert(right@ =~= self.gens@.subrange(mid as int, j + 1));
            }
            j = j + 1;
        }
        proof {
            assert(right@ =~= self.gens@.skip(mid as int));
        }
        (CommitmentKey { gens: left }, CommitmentKey { gens: right })
    }

    /// Concatenates two generator sequences.
    pub fn combine(&self, other: &CommitmentKey) -> (r: CommitmentKey)
        ensures
            r.gens@ == self.gens@ + other.gens@,
    {
        let mut gens: Vec<Scalar> = crate::field::copy_scalars(&self.gens);
        let mut i: usize = 0;
        while i < other.gens.len()
            invariant
                i <= other.gens@.len(),
                gens@ == self.gens@ + other.gens@.take(i as int),
            decreases other.gens@.len() - i,
        {
            gens.push(other.gens[i]);
            proof {
                assert(gens@ =~= self.gens@ + other.gens@.take(i + 1));
            }
            i = i + 1;
        }
        proof {
            assert(self.gens@ + other.gens@.take(other.gens@.len() as int) =~= self.gens@ + other.gens@);
            assert(self.gens@ + other.gens@.take(0) =~= self.gens@);
        }
        CommitmentKey { gens }
    }

    /// Multiplies every generator by `s`, producing a new key.
    pub fn scale(&self, s: &Scalar) -> (r: CommitmentKey)
        requires
            key_wf(*self),
            sc_wf(*s),
        ensures
            key_wf(r),
            r.gens@.len() == self.gens@.len(),
            forall|i: int| 0 <= i < self.gens@.len()
                ==> #[trigger] r.gens@[i].v == f_mul(self.gens@[i].v, s.v),
    {
        let mut gens: Vec<Scalar> = Vec::new();
        let mut i: usize = 0;
        while i < self.gens.len()
            invariant
                i <= self.gens@.len(),
                key_wf(*self),
                sc_wf(*s),
                gens@.len() == i,
                forall|j: int| 0 <= j < i ==> #[trigger] gens@[j].v == f_mul(self.gens@[j].v, s.v),
                forall|j: int| 0 <= j < i ==> sc_wf(#[trigger] gens@[j]),
            decreases self.gens@.len() - i,
        {
            gens.push(self.gens[i].mul(s));
            i = i + 1;
        }
        CommitmentKey { gens }
    }

    /// Pairwise weighted folding of the two halves of the key:
    /// `r_i = w1 * left_i + w2 * right_i`, halving the length.
    pub fn fold(&self, w1: &Scalar, w2: &Scalar) -> (r: CommitmentKey)
        requires
            key_wf(*self),
            sc_wf(*w1),
            sc_wf(*w2),
            self.gens@.len() % 2 == 0,
        ensures
            key_wf(r),
            r.gens@.len() == self.gens@.len() / 2,
            forall|i: int| 0 <= i < self.gens@.len() / 2
                ==> #[trigger] r.gens@[i].v == f_add(
                    f_mul(w1.v, self.gens@[i].v),
                    f_mul(w2.v, self.gens@[self.gens@.len() / 2 + i].v),
                ),
    {
        let n: usize = self.gens.len();
        let mid: usize = n / 2;
        let mut gens: Vec<Scalar> = Vec::new();
        let mut i: usize = 0;
        while i < mid
            invariant
                i <= mid,
                n == self.gens@.len(),
                mid == self.gens@.len() / 2,
                self.gens@.len() % 2 == 0,
                key_wf(*self),
                sc_wf(*w1),
                sc_wf(*w2),
                gens@.len() == i,
                forall|j: int| 0 <= j < i ==> #[trigger] gens@[j].v == f_add(
                    f_mul(w1.v, self.gens@[j].v),
                    f_mul(w2.v, self.gens@[mid + j].v),
                ),
                forall|j: int| 0 <= j < i ==> sc_wf(#[trigger] gens@[j]),
            decreases mid - i,
        {
            let l: Scalar = w1.mul(&self.gens[i]);
            let h: Scalar = w2.mul(&self.gens[mid + i]);
            gens.push(l.add(&h));
            i = i + 1;
        }
        CommitmentKey { gens }
    }

    /// Reinterprets a sequence of compressed commitments as fresh
    /// generators; rejects any encoding that is not canonical.
    pub fn reinterpret_commitments_as_ck(cs: &Vec<CompressedCommitment>) -> (r: Result<
        CommitmentKey,
        IpaError,
    >)
        ensures
            r matches Ok(ck) ==> {
                &&& key_wf(ck)
                &&& ck.gens@.len() == cs@.len()
                &&& forall|i: int| 0 <= i < cs@.len() ==> #[trigger] ck.gens@[i].v == cs@[i].v
            },
            r is Ok <==> cseq_wf(cs@),
    {
        let mut gens: Vec<Scalar> = Vec::new();
        let mut i: usize = 0;
        while i < cs.len()
            invariant
                i <= cs@.len(),
                gens@.len() == i,
                forall|j: int| 0 <= j < i ==> #[trigger] gens@[j].v == cs@[j].v,
                forall|j: int| 0 <= j < i ==> sc_wf(#[trigger] gens@[j]),
                forall|j: int| 0 <= j < i ==> comp_wf(#[trigger] cs@[j]),
            decreases cs@.len() - i,
        {
            if cs[i].v >= MODULUS {
                return Err(IpaError::InvalidInputLength);
            }
            gens.push(Scalar { v: cs[i].v });
            i = i + 1;
        }
        Ok(CommitmentKey { gens })
    }
}

} // verus!
