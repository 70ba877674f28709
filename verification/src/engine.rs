//! The evaluation engine: a thin orchestration of the inner product
//! argument into a polynomial evaluation argument. The public vector is
//! the multilinear equality-polynomial basis of the evaluation point, so a
//! committed coefficient vector of length `2^k` is proven to evaluate to
//! the claimed value at a `k`-coordinate point.

use vstd::prelude::*;
use vstd::arithmetic::power2::pow2;
use crate::field::{Scalar, sc_wf, seq_wf, svals, copy_scalars, lemma_svals_take};
use crate::commitment::{Commitment, CommitmentKey, comm_wf, cvals, key_wf, spec_key_gen};
use crate::eq_poly::{EqPolynomial, spec_eq_evals};
use crate::ipa::{
    InnerProductArgument, InnerProductInstance, InnerProductWitness, arg_wf, inst_wf,
    spec_prove_rel, spec_verify_rel,
};
use crate::transcript::TranscriptEngine;
use crate::{IpaError, lemma_pow2_shape, pow2_usize};

verus! {

/// The label from which the auxiliary single-generator key is derived.
pub const KEY_LABEL_IPA: u64 = 0x697061;

/// The prover's key: the auxiliary generator binding the claimed product
/// into the vector commitment.
pub struct ProverKey {
    pub ck_s: CommitmentKey,
}

/// The verifier's key: the original vector key and the same auxiliary
/// generator.
pub struct VerifierKey {
    pub ck_v: CommitmentKey,
    pub ck_s: CommitmentKey,
}

/// The externally visible artifact: one inner product argument.
#[derive(Debug, PartialEq, Eq)]
pub struct EvaluationArgument {
    pub ipa: InnerProductArgument,
}

/// The polynomial evaluation engine.
pub struct EvaluationEngine {}

impl EvaluationEngine {
    /// Deterministically derives the auxiliary single-generator key; the
    /// verifier keeps the caller's vector key unchanged. A pure function
    /// of `ck`, with no randomness.
    pub fn setup(ck: &CommitmentKey) -> (r: (ProverKey, VerifierKey))
        ensures
            r.0.ck_s.gens@.len() == 1,
            key_wf(r.0.ck_s),
            r.0.ck_s.gens@[0].v == spec_key_gen(KEY_LABEL_IPA, 0),
            r.1.ck_s.gens@.len() == 1,
            key_wf(r.1.ck_s),
            r.1.ck_s.gens@[0].v == spec_key_gen(KEY_LABEL_IPA, 0),
            r.1.ck_v.gens@ == ck.gens@,
    {
        let pk = ProverKey { ck_s: CommitmentKey::new(KEY_LABEL_IPA, 1) };
        let vk = VerifierKey {
            ck_v: CommitmentKey { gens: copy_scalars(&ck.gens) },
            ck_s: CommitmentKey::new(KEY_LABEL_IPA, 1),
        };
        (pk, vk)
    }

    /// Proves that the committed coefficient vector `poly` evaluates to
    /// `eval` at `point`: builds the equality-polynomial basis vector,
    /// the instance and the witness, and runs the argument. A coefficient
    /// vector whose length is not `2^{point length}` is rejected with a
    /// shape error; a produced argument has exactly `point length` rounds.
    pub fn prove(
        ck: &CommitmentKey,
        pk: &ProverKey,
        transcript: &mut TranscriptEngine,
        comm: &Commitment,
        poly: &Vec<Scalar>,
        point: &Vec<Scalar>,
        eval: &Scalar,
    ) -> (r: Result<EvaluationArgument, IpaError>)
        requires
            point@.len() < 32,
            ck.gens@.len() >= pow2(point@.len()),
            pk.ck_s.gens@.len() == 1,
            key_wf(*ck),
            key_wf(pk.ck_s),
            comm_wf(*comm),
            seq_wf(poly@),
            seq_wf(point@),
            sc_wf(*eval),
        ensures
            spec_prove_rel(
                svals(ck.gens@).take(pow2(point@.len()) as int),
                pk.ck_s.gens@[0].v,
                comm.g.v,
                eval.v,
                svals(poly@),
                spec_eq_evals(svals(point@)),
                old(transcript).state,
                match r {
                    Ok(arg) => Ok::<InnerProductArgument, IpaError>(arg.ipa),
                    Err(e) => Err(e),
                },
                final(transcript).state,
            ),
            poly@.len() != pow2(point@.len()) ==> r == Err::<EvaluationArgument, IpaError>(
                IpaError::InvalidInputLength,
            ),
            r matches Ok(arg) ==> {
                &&& arg_wf(arg.ipa)
                &&& poly@.len() == pow2(point@.len())
                &&& arg.ipa.L_vec@.len() == point@.len()
                &&& arg.ipa.R_vec@.len() == point@.len()
            },
    {
        let b_vec: Vec<Scalar> = EqPolynomial::new(copy_scalars(point)).evals();
        let u: InnerProductInstance = InnerProductInstance::new(comm, &b_vec, eval);
        let w: InnerProductWitness = InnerProductWitness::new(poly);
        let n: usize = pow2_usize(point.len());
        let (ck_front, _ck_rest) = ck.split_at(n);
        proof {
            lemma_pow2_shape(point@.len());
            assert(inst_wf(u));
            assert(seq_wf(ck_front.gens@));
            lemma_svals_take(ck.gens@, n as int);
        }
        match InnerProductArgument::prove(&ck_front, &pk.ck_s, &u, &w, transcript) {
            Ok(ipa) => Ok(EvaluationArgument { ipa }),
            Err(e) => Err(e),
        }
    }

    /// Verifies a purported evaluation: rebuilds the same instance and
    /// checks the argument with `n = 2^{point length}`. An argument whose
    /// round count does not match the point is rejected with a shape
    /// error.
    pub fn verify(
        vk: &VerifierKey,
        transcript: &mut TranscriptEngine,
        comm: &Commitment,
        point: &Vec<Scalar>,
        eval: &Scalar,
        arg: &EvaluationArgument,
    ) -> (r: Result<(), IpaError>)
        requires
            point@.len() < 32,
            vk.ck_v.gens@.len() >= pow2(point@.len()),
            vk.ck_s.gens@.len() == 1,
            key_wf(vk.ck_v),
            key_wf(vk.ck_s),
            comm_wf(*comm),
            seq_wf(point@),
            sc_wf(*eval),
        ensures
            spec_verify_rel(
                svals(vk.ck_v.gens@),
                vk.ck_s.gens@[0].v,
                pow2(point@.len()),
                comm.g.v,
                eval.v,
                spec_eq_evals(svals(point@)),
                cvals(arg.ipa.L_vec@),
                cvals(arg.ipa.R_vec@),
                arg.ipa.a_hat.v,
                old(transcript).state,
                r,
                final(transcript).state,
            ),
    {
        let b_vec: Vec<Scalar> = EqPolynomial::new(copy_scalars(point)).evals();
        let u: InnerProductInstance = InnerProductInstance::new(comm, &b_vec, eval);
        let n: usize = pow2_usize(point.len());
        arg.ipa.verify(&vk.ck_v, &vk.ck_s, n, &u, transcript)
    }
}

} // verus!
