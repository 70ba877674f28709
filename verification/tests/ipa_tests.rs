use ipa_pc::IpaError;
use ipa_pc::codec::{decode, encode};
use ipa_pc::commitment::{commit, Commitment, CommitmentKey, CompressedCommitment};
use ipa_pc::engine::{EvaluationArgument, EvaluationEngine, ProverKey, VerifierKey};
use ipa_pc::eq_poly::EqPolynomial;
use ipa_pc::field::{Scalar, MODULUS};
use ipa_pc::ipa::{batch_invert, inner_product, InnerProductArgument};
use ipa_pc::transcript::TranscriptEngine;

const SEED: u64 = 0xfeed;
const KEY_LABEL: u64 = 42;

fn scalars(vals: &[u64]) -> Vec<Scalar> {
    vals.iter().map(|&v| Scalar::from_u64(v)).collect()
}

struct Scenario {
    ck: CommitmentKey,
    pk: ProverKey,
    vk: VerifierKey,
    comm: Commitment,
    poly: Vec<Scalar>,
    point: Vec<Scalar>,
    eval: Scalar,
}

fn scenario(poly_vals: &[u64], point_vals: &[u64]) -> Scenario {
    assert_eq!(poly_vals.len(), 1usize << point_vals.len());
    let ck = CommitmentKey::new(KEY_LABEL, poly_vals.len());
    let (pk, vk) = EvaluationEngine::setup(&ck);
    let poly = scalars(poly_vals);
    let point = scalars(point_vals);
    let b_vec = EqPolynomial::new(scalars(point_vals)).evals();
    let eval = inner_product(&poly, &b_vec);
    let comm = commit(&ck, &poly);
    Scenario { ck, pk, vk, comm, poly, point, eval }
}

fn prove_argument(s: &Scenario) -> EvaluationArgument {
    let mut transcript = TranscriptEngine::new(SEED);
    EvaluationEngine::prove(&s.ck, &s.pk, &mut transcript, &s.comm, &s.poly, &s.point, &s.eval)
        .expect("honest proving must succeed")
}

fn verify_argument(s: &Scenario, arg: &EvaluationArgument, seed: u64) -> Result<(), IpaError> {
    let mut transcript = TranscriptEngine::new(seed);
    EvaluationEngine::verify(&s.vk, &mut transcript, &s.comm, &s.point, &s.eval, arg)
}

#[test]
fn completeness_boundary_n1() {
    let s = scenario(&[9], &[]);
    let arg = prove_argument(&s);
    assert_eq!(arg.ipa.L_vec.len(), 0);
    assert_eq!(arg.ipa.R_vec.len(), 0);
    assert_eq!(arg.ipa.a_hat, s.poly[0]);
    assert!(verify_argument(&s, &arg, SEED).is_ok());
}

#[test]
fn completeness_n2() {
    let s = scenario(&[3, 8], &[11]);
    let arg = prove_argument(&s);
    assert!(verify_argument(&s, &arg, SEED).is_ok());
}

#[test]
fn completeness_n4() {
    let s = scenario(&[5, 0, 2, 7], &[13, 400]);
    let arg = prove_argument(&s);
    assert!(verify_argument(&s, &arg, SEED).is_ok());
}

#[test]
fn completeness_n8() {
    let s = scenario(&[1, 2, 3, 4, 5, 6, 7, 8], &[21, 34, 55]);
    let arg = prove_argument(&s);
    assert!(verify_argument(&s, &arg, SEED).is_ok());
}

#[test]
fn size_laws_produced_argument() {
    let s = scenario(&[1, 2, 3, 4, 5, 6, 7, 8], &[2, 3, 4]);
    let arg = prove_argument(&s);
    assert_eq!(arg.ipa.L_vec.len(), 3);
    assert_eq!(arg.ipa.R_vec.len(), 3);
}

#[test]
fn size_laws_wrong_n_rejected() {
    let s = scenario(&[5, 6, 2, 9], &[7, 8]);
    let arg = prove_argument(&s);
    // Check the same argument against n = 8 instead of n = 4.
    let big_ck = CommitmentKey::new(KEY_LABEL, 8);
    let point3 = scalars(&[7, 8, 9]);
    let b_vec = EqPolynomial::new(scalars(&[7, 8, 9])).evals();
    let eval = Scalar::from_u64(1);
    let u = ipa_pc::ipa::InnerProductInstance::new(&s.comm, &b_vec, &eval);
    let mut transcript = TranscriptEngine::new(SEED);
    assert_eq!(point3.len(), 3);
    let res = arg.ipa.verify(&big_ck, &s.vk.ck_s, 8, &u, &mut transcript);
    assert_eq!(res, Err(IpaError::InvalidInputLength));
}

#[test]
fn soundness_mutated_witness_rejected() {
    let s = scenario(&[5, 0, 2, 7], &[13, 400]);
    // Keep the stated commitment and claim, but prove over a mutated vector.
    let mut bad_poly = s.poly.clone();
    bad_poly[1] = bad_poly[1].add(&Scalar::from_u64(1));
    let mut transcript = TranscriptEngine::new(SEED);
    let arg = EvaluationEngine::prove(
        &s.ck,
        &s.pk,
        &mut transcript,
        &s.comm,
        &bad_poly,
        &s.point,
        &s.eval,
    )
    .expect("the prover algorithm itself runs");
    assert!(verify_argument(&s, &arg, SEED).is_err());
}

#[test]
fn soundness_flipped_l_rejected() {
    let s = scenario(&[5, 0, 2, 7], &[13, 400]);
    let arg = prove_argument(&s);
    let mut l_vec = arg.ipa.L_vec.clone();
    l_vec[0] = CompressedCommitment { v: l_vec[0].v ^ 1 };
    let bad = EvaluationArgument {
        ipa: InnerProductArgument { L_vec: l_vec, R_vec: arg.ipa.R_vec.clone(), a_hat: arg.ipa.a_hat },
    };
    assert!(verify_argument(&s, &bad, SEED).is_err());
}

#[test]
fn soundness_flipped_r_rejected() {
    let s = scenario(&[5, 0, 2, 7], &[13, 400]);
    let arg = prove_argument(&s);
    let mut r_vec = arg.ipa.R_vec.clone();
    r_vec[1] = CompressedCommitment { v: r_vec[1].v ^ 1 };
    let bad = EvaluationArgument {
        ipa: InnerProductArgument { L_vec: arg.ipa.L_vec.clone(), R_vec: r_vec, a_hat: arg.ipa.a_hat },
    };
    assert!(verify_argument(&s, &bad, SEED).is_err());
}

#[test]
fn soundness_flipped_a_hat_rejected() {
    let s = scenario(&[5, 0, 2, 7], &[13, 400]);
    let arg = prove_argument(&s);
    let bad = EvaluationArgument {
        ipa: InnerProductArgument {
            L_vec: arg.ipa.L_vec.clone(),
            R_vec: arg.ipa.R_vec.clone(),
            a_hat: Scalar { v: arg.ipa.a_hat.v ^ 1 },
        },
    };
    let res = verify_argument(&s, &bad, SEED);
    assert_eq!(res, Err(IpaError::InvalidIPA));
}

#[test]
fn transcript_binding_different_seed_rejected() {
    let s = scenario(&[5, 0, 2, 7], &[13, 400]);
    let arg = prove_argument(&s);
    // A transcript with different prior absorbed context desynchronizes
    // every derived challenge.
    assert!(verify_argument(&s, &arg, SEED + 1).is_err());
}

#[test]
fn round_trip_encode_decode() {
    let s = scenario(&[1, 2, 3, 4, 5, 6, 7, 8], &[2, 3, 4]);
    let arg = prove_argument(&s);
    let words = encode(&arg);
    assert_eq!(words.len(), 2 * 3 + 2);
    let back = decode(&words).expect("a canonical encoding decodes");
    assert_eq!(back, arg);
    assert_eq!(verify_argument(&s, &back, SEED), verify_argument(&s, &arg, SEED));
    assert!(verify_argument(&s, &back, SEED).is_ok());
}

#[test]
fn round_trip_rejected_argument_keeps_outcome() {
    let s = scenario(&[5, 0, 2, 7], &[13, 400]);
    let arg = prove_argument(&s);
    let bad = EvaluationArgument {
        ipa: InnerProductArgument {
            L_vec: arg.ipa.L_vec.clone(),
            R_vec: arg.ipa.R_vec.clone(),
            a_hat: Scalar { v: arg.ipa.a_hat.v ^ 1 },
        },
    };
    let back = decode(&encode(&bad)).expect("a canonical encoding decodes");
    assert_eq!(verify_argument(&s, &back, SEED), verify_argument(&s, &bad, SEED));
    assert_eq!(verify_argument(&s, &back, SEED), Err(IpaError::InvalidIPA));
}

#[test]
fn decode_rejects_malformed_words() {
    assert_eq!(decode(&vec![]), Err(IpaError::InvalidInputLength));
    assert_eq!(decode(&vec![1, 2, 3]), Err(IpaError::InvalidInputLength));
    // Round count out of bounds.
    assert_eq!(decode(&vec![32, 0, 0]), Err(IpaError::InvalidInputLength));
    // A non-canonical scalar.
    assert_eq!(decode(&vec![0, MODULUS]), Err(IpaError::InvalidInputLength));
    // The boundary case: zero rounds, a bare opening.
    let ok = decode(&vec![0, 17]).expect("a bare opening decodes");
    assert_eq!(ok.ipa.L_vec.len(), 0);
    assert_eq!(ok.ipa.a_hat, Scalar::from_u64(17));
}

#[test]
fn concrete_scenario_n4() {
    let s = scenario(&[1, 2, 3, 4], &[6, 10]);
    // The equality-polynomial basis always sums to one.
    let b_vec = EqPolynomial::new(scalars(&[6, 10])).evals();
    let mut sum = Scalar::from_u64(0);
    for b in &b_vec {
        sum = sum.add(b);
    }
    assert_eq!(sum, Scalar::from_u64(1));
    assert_eq!(s.eval, inner_product(&s.poly, &b_vec));
    let arg = prove_argument(&s);
    assert!(verify_argument(&s, &arg, SEED).is_ok());
    // Flipping one bit of the claimed value must be rejected.
    let bad_eval = Scalar { v: s.eval.v ^ 1 };
    let mut transcript = TranscriptEngine::new(SEED);
    let res =
        EvaluationEngine::verify(&s.vk, &mut transcript, &s.comm, &s.point, &bad_eval, &arg);
    assert!(res.is_err());
}

#[test]
fn adversarial_bound_32_rounds_rejected() {
    let l_vec: Vec<CompressedCommitment> =
        (0..32).map(|i| CompressedCommitment { v: i + 1 }).collect();
    let r_vec = l_vec.clone();
    let oversized = EvaluationArgument {
        ipa: InnerProductArgument { L_vec: l_vec, R_vec: r_vec, a_hat: Scalar::from_u64(1) },
    };
    let ck = CommitmentKey::new(KEY_LABEL, 32);
    let (_pk, vk) = EvaluationEngine::setup(&ck);
    let point = scalars(&[1, 2, 3, 4, 5]);
    let comm = Commitment { g: Scalar::from_u64(5) };
    let eval = Scalar::from_u64(0);
    let mut transcript = TranscriptEngine::new(SEED);
    let res = EvaluationEngine::verify(&vk, &mut transcript, &comm, &point, &eval, &oversized);
    assert_eq!(res, Err(IpaError::InvalidInputLength));
}

#[test]
fn eq_polynomial_exact_values() {
    // Empty point: the single value one.
    assert_eq!(EqPolynomial::new(vec![]).evals(), scalars(&[1]));
    // One coordinate x: (1 - x, x).
    let x = 100u64;
    let e1 = EqPolynomial::new(scalars(&[x])).evals();
    assert_eq!(e1[0], Scalar::from_u64(1).sub(&Scalar::from_u64(x)));
    assert_eq!(e1[1], Scalar::from_u64(x));
    // Two coordinates: the tensor product, second coordinate outermost.
    let y = 9u64;
    let e2 = EqPolynomial::new(scalars(&[x, y])).evals();
    let sy = Scalar::from_u64(y);
    let one = Scalar::from_u64(1);
    assert_eq!(e2.len(), 4);
    assert_eq!(e2[0], e1[0].mul(&one.sub(&sy)));
    assert_eq!(e2[1], e1[1].mul(&one.sub(&sy)));
    assert_eq!(e2[2], e1[0].mul(&sy));
    assert_eq!(e2[3], e1[1].mul(&sy));
}

#[test]
fn inner_product_exact_value() {
    let a = scalars(&[1, 2, 3]);
    let b = scalars(&[4, 5, 6]);
    assert_eq!(inner_product(&a, &b), Scalar::from_u64(32));
}

#[test]
fn scalar_inversion() {
    let two = Scalar::from_u64(2);
    let inv = two.invert().expect("two is invertible");
    assert_eq!(two.mul(&inv), Scalar::from_u64(1));
    assert_eq!((MODULUS + 1) / 2, inv.v);
    assert!(Scalar::from_u64(0).invert().is_none());
}

#[test]
fn batch_inversion_exact_and_degenerate() {
    let v = scalars(&[2, 3, 4, 5]);
    let inv = batch_invert(&v).expect("nonzero scalars invert");
    assert_eq!(inv.len(), v.len());
    for (x, y) in v.iter().zip(inv.iter()) {
        assert_eq!(x.mul(y), Scalar::from_u64(1));
    }
    // A zero entry makes the total product zero and is rejected.
    let z = scalars(&[2, 0, 4]);
    assert_eq!(batch_invert(&z), Err(IpaError::InvalidInputLength));
}

#[test]
fn transcript_is_deterministic_and_seed_sensitive() {
    let mut t1 = TranscriptEngine::new(7);
    let mut t2 = TranscriptEngine::new(7);
    t1.absorb_u64(1, 99);
    t2.absorb_u64(1, 99);
    let c1 = t1.challenge(2);
    let c2 = t2.challenge(2);
    assert_eq!(c1, c2);
    assert_ne!(c1.v, 0);
    let mut t3 = TranscriptEngine::new(8);
    t3.absorb_u64(1, 99);
    let c3 = t3.challenge(2);
    assert_ne!(c1, c3);
}

#[test]
fn prove_round_folds_to_half_length() {
    let ck = CommitmentKey::new(KEY_LABEL, 4);
    let ck_c = CommitmentKey::new(KEY_LABEL + 1, 1);
    let a = scalars(&[1, 2, 3, 4]);
    let b = scalars(&[5, 6, 7, 8]);
    let mut transcript = TranscriptEngine::new(SEED);
    let (l, r, a2, b2, ck2) =
        ipa_pc::ipa::prove_round(&a, &b, &ck, &ck_c, &mut transcript).expect("one round runs");
    assert_eq!(a2.len(), 2);
    assert_eq!(b2.len(), 2);
    assert_eq!(ck2.gens.len(), 2);
    assert!(l.v < MODULUS);
    assert!(r.v < MODULUS);
    // The left commitment really is the stated linear combination.
    let opening = vec![a[0], a[1], inner_product(&scalars(&[1, 2]), &scalars(&[7, 8]))];
    let mut gens = ck.gens[2..4].to_vec();
    gens.push(ck_c.gens[0]);
    let expect = commit(&CommitmentKey { gens }, &opening);
    assert_eq!(l.v, expect.g.v);
}

#[test]
fn prove_rejects_length_mismatch() {
    let ck = CommitmentKey::new(KEY_LABEL, 4);
    let (pk, _vk) = EvaluationEngine::setup(&ck);
    let poly = scalars(&[1, 2, 3]);
    let point = scalars(&[5, 6]);
    let comm = Commitment { g: Scalar::from_u64(1) };
    let eval = Scalar::from_u64(0);
    let mut transcript = TranscriptEngine::new(SEED);
    let res = EvaluationEngine::prove(&ck, &pk, &mut transcript, &comm, &poly, &point, &eval);
    assert_eq!(res, Err(IpaError::InvalidInputLength));
}

#[test]
fn setup_is_deterministic() {
    let ck = CommitmentKey::new(KEY_LABEL, 4);
    let (pk1, vk1) = EvaluationEngine::setup(&ck);
    let (pk2, vk2) = EvaluationEngine::setup(&ck);
    assert_eq!(pk1.ck_s.gens, pk2.ck_s.gens);
    assert_eq!(vk1.ck_s.gens, vk2.ck_s.gens);
    assert_eq!(vk1.ck_v.gens, ck.gens);
    assert_eq!(vk2.ck_v.gens, ck.gens);
    assert_eq!(pk1.ck_s.gens.len(), 1);
}

#[test]
fn malformed_argument_rejected() {
    // A non-canonical recorded commitment or opening is a shape error,
    // with no well-formedness asked of the caller.
    let s = scenario(&[5, 0, 2, 7], &[13, 400]);
    let arg = prove_argument(&s);
    let mut l_vec = arg.ipa.L_vec.clone();
    l_vec[0] = CompressedCommitment { v: MODULUS };
    let bad = EvaluationArgument {
        ipa: InnerProductArgument {
            L_vec: l_vec,
            R_vec: arg.ipa.R_vec.clone(),
            a_hat: arg.ipa.a_hat,
        },
    };
    assert_eq!(verify_argument(&s, &bad, SEED), Err(IpaError::InvalidInputLength));
    let bad_hat = EvaluationArgument {
        ipa: InnerProductArgument {
            L_vec: arg.ipa.L_vec.clone(),
            R_vec: arg.ipa.R_vec.clone(),
            a_hat: Scalar { v: u64::MAX },
        },
    };
    assert_eq!(verify_argument(&s, &bad_hat, SEED), Err(IpaError::InvalidInputLength));
}

#[test]
fn oversized_key_accepted_for_proving() {
    // The commitment key may be larger than the instance; only its front
    // generators are used, consistently by prover and verifier.
    let big_ck = CommitmentKey::new(KEY_LABEL, 16);
    let (pk, vk) = EvaluationEngine::setup(&big_ck);
    let poly = scalars(&[4, 9, 1, 6]);
    let point = scalars(&[3, 8]);
    let b_vec = EqPolynomial::new(scalars(&[3, 8])).evals();
    let eval = inner_product(&poly, &b_vec);
    let front = CommitmentKey { gens: big_ck.gens[..4].to_vec() };
    let comm = commit(&front, &poly);
    let mut tp = TranscriptEngine::new(SEED);
    let arg = EvaluationEngine::prove(&big_ck, &pk, &mut tp, &comm, &poly, &point, &eval)
        .expect("proving with an oversized key succeeds");
    let mut tv = TranscriptEngine::new(SEED);
    assert!(EvaluationEngine::verify(&vk, &mut tv, &comm, &point, &eval, &arg).is_ok());
}
