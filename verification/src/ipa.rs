//! The inner product argument: a logarithmic-size argument of knowledge of
//! a vector `a` with `Commit(ck, a) = comm_a_vec` and `<a, b_vec> = c`.
//!
//! `prove` folds the witness, the public vector and the generator key in
//! lock-step for `log2(n)` rounds; `verify` replays the transcript,
//! re-derives every challenge, batch-inverts them, and reconstructs the
//! expected final commitment in `O(n)` work through a tensor weight vector.

use vstd::prelude::*;
use vstd::arithmetic::power2::{pow2, lemma_pow2_unfold, lemma_pow2_strictly_increases, lemma2_to64};
use crate::field::{
    Scalar, MODULUS, sc_wf, seq_wf, svals, f_add, f_mul, copy_scalars, split_scalars, lemma_f_mul_assoc,
    lemma_f_mul_comm, spec_invert, spec_inv_val, lemma_inv_val_is, lemma_svals_concat,
    lemma_svals_take, lemma_svals_skip,
};
use crate::commitment::{
    Commitment, CompressedCommitment, CommitmentKey, commit, comm_wf, comp_wf, cseq_wf, cvals,
    key_wf, spec_ip,
};
use crate::transcript::{TranscriptEngine, spec_mix, spec_chal};
use crate::{IpaError, spec_is_pow2, spec_log2, pow2_usize};

verus! {

/// The transcript label announcing the protocol.
pub const LABEL_PROTOCOL_NAME: u64 = 0x70726f746f636f6c;

/// The protocol's domain separator.
pub const PROTOCOL_NAME: u64 = 0x696e6e657270726f;

/// The label under which the instance commitment is absorbed.
pub const LABEL_COMM_A_VEC: u64 = 0x636f6d6d5f615f76;

/// The label under which the claimed product is absorbed.
pub const LABEL_C: u64 = 0x63;

/// The label of the base-merging challenge.
pub const LABEL_R: u64 = 0x72;

/// The label under which each round's left commitment is absorbed.
pub const LABEL_L: u64 = 0x4c;

/// The label under which each round's right commitment is absorbed.
pub const LABEL_R_COMM: u64 = 0x52;

/// The label of each round's folding challenge.
pub const LABEL_CHALLENGE_R: u64 = 0x6368616c6c5f72;

/// The public instance: a commitment to a hidden vector `a`, a public
/// vector `b_vec`, and the claim that `<a, b_vec> = c`.
pub struct InnerProductInstance {
    pub comm_a_vec: Commitment,
    pub b_vec: Vec<Scalar>,
    pub c: Scalar,
}

/// Well-formedness of an instance.
pub open spec fn inst_wf(u: InnerProductInstance) -> bool {
    comm_wf(u.comm_a_vec) && seq_wf(u.b_vec@) && sc_wf(u.c)
}

impl InnerProductInstance {
    /// Builds the instance from its parts.
    pub fn new(comm_a_vec: &Commitment, b_vec: &Vec<Scalar>, c: &Scalar) -> (u:
        InnerProductInstance)
        ensures
            u.comm_a_vec == *comm_a_vec,
            u.b_vec@ == b_vec@,
            u.c == *c,
    {
        InnerProductInstance {
            comm_a_vec: *comm_a_vec,
            b_vec: copy_scalars(b_vec),
            c: *c,
        }
    }
}

/// The private witness: the opening of `comm_a_vec`.
pub struct InnerProductWitness {
    pub a_vec: Vec<Scalar>,
}

impl InnerProductWitness {
    /// Wraps the private vector.
    pub fn new(a_vec: &Vec<Scalar>) -> (w: InnerProductWitness)
        ensures
            w.a_vec@ == a_vec@,
    {
        InnerProductWitness { a_vec: copy_scalars(a_vec) }
    }
}

/// The complete proof: one left and one right commitment per round and the
/// final folded opening. Its size is `O(log n)`, independent of `n`.
#[derive(Debug, PartialEq, Eq)]
pub struct InnerProductArgument {
    pub L_vec: Vec<CompressedCommitment>,
    pub R_vec: Vec<CompressedCommitment>,
    pub a_hat: Scalar,
}

/// Well-formedness of an argument.
pub open spec fn arg_wf(a: InnerProductArgument) -> bool {
    cseq_wf(a.L_vec@) && cseq_wf(a.R_vec@) && sc_wf(a.a_hat)
}

/// `<a, b>` over the field.
pub fn inner_product(a: &Vec<Scalar>, b: &Vec<Scalar>) -> (r: Scalar)
    requires
        a@.len() == b@.len(),
        seq_wf(a@),
        seq_wf(b@),
    ensures
        sc_wf(r),
        r.v == spec_ip(svals(a@), svals(b@)),
{
    let ghost aa = svals(a@);
    let ghost bb = svals(b@);
    let mut acc: Scalar = Scalar::zero();
    let mut i: usize = 0;
    while i < a.len()
        invariant
            i <= a@.len(),
            a@.len() == b@.len(),
            seq_wf(a@),
            seq_wf(b@),
            sc_wf(acc),
            aa == svals(a@),
            bb == svals(b@),
            acc.v == spec_ip(aa.take(i as int), bb.take(i as int)),
        decreases a@.len() - i,
    {
        let term: Scalar = a[i].mul(&b[i]);
        acc = acc.add(&term);
        proof {
            assert(aa.take(i + 1).drop_last() =~= aa.take(i as int));
            assert(bb.take(i + 1).drop_last() =~= bb.take(i as int));
            assert(aa.take(i + 1).last() == a@[i as int].v);
            assert(bb.take(i + 1).last() == b@[i as int].v);
        }
        i = i + 1;
    }
    proof {
        assert(aa.take(a@.len() as int) =~= aa);
        assert(bb.take(b@.len() as int) =~= bb);
    }
    acc
}

/// Pairwise weighted fold of two equal-length vectors:
/// `r_i = x_i * wx + y_i * wy`.
pub fn fold_scalars(x: &Vec<Scalar>, y: &Vec<Scalar>, wx: &Scalar, wy: &Scalar) -> (r: Vec<Scalar>)
    requires
        x@.len() == y@.len(),
        seq_wf(x@),
        seq_wf(y@),
        sc_wf(*wx),
        sc_wf(*wy),
    ensures
        r@.len() == x@.len(),
        seq_wf(r@),
        forall|i: int| 0 <= i < x@.len() ==> #[trigger] r@[i].v == f_add(
            f_mul(x@[i].v, wx.v),
            f_mul(y@[i].v, wy.v),
        ),
{
    let mut r: Vec<Scalar> = Vec::new();
    let mut i: usize = 0;
    while i < x.len()
        invariant
            i <= x@.len(),
            x@.len() == y@.len(),
            seq_wf(x@),
            seq_wf(y@),
            sc_wf(*wx),
            sc_wf(*wy),
            r@.len() == i,
            forall|j: int| 0 <= j < i ==> #[trigger] r@[j].v == f_add(
                f_mul(x@[j].v, wx.v),
                f_mul(y@[j].v, wy.v),
            ),
            forall|j: int| 0 <= j < i ==> sc_wf(#[trigger] r@[j]),
        decreases x@.len() - i,
    {
        let l: Scalar = x[i].mul(wx);
        let h: Scalar = y[i].mul(wy);
        r.push(l.add(&h));
        i = i + 1;
    }
    r
}

/// The running product of a sequence of representatives.
pub open spec fn spec_prod(s: Seq<u64>) -> u64
    decreases s.len(),
{
    if s.len() == 0 {
        1
    } else {
        f_mul(spec_prod(s.drop_last()), s.last())
    }
}

/// Batch inversion by the prefix-product and unwind trick: one field
/// inversion for the whole vector. `Ok(inv)` holds exact elementwise
/// inverses; a vector holding zero is always rejected, since its total
/// product has no inverse.
pub fn batch_invert(v: &Vec<Scalar>) -> (r: Result<Vec<Scalar>, IpaError>)
    requires
        seq_wf(v@),
    ensures
        r matches Ok(inv) ==> {
            &&& inv@.len() == v@.len()
            &&& seq_wf(inv@)
            &&& forall|i: int| 0 <= i < v@.len() ==> f_mul(
                v@[i].v,
                #[trigger] inv@[i].v,
            ) == 1
            &&& forall|i: int| 0 <= i < v@.len() ==> #[trigger] inv@[i].v == spec_inv_val(
                v@[i].v,
            )
        },
        r is Ok <==> spec_invert(spec_prod(svals(v@))) is Some,
        r is Err ==> r == Err::<Vec<Scalar>, IpaError>(IpaError::InvalidInputLength),
        (exists|i: int| 0 <= i < v@.len() && #[trigger] v@[i].v == 0) ==> r is Err,
{
    let ghost sv = svals(v@);
    let len: usize = v.len();
    let mut products: Vec<Scalar> = Vec::new();
    let mut acc: Scalar = Scalar::one();
    let mut i: usize = 0;
    while i < len
        invariant
            i <= len == v@.len(),
            seq_wf(v@),
            sv == svals(v@),
            sc_wf(acc),
            products@.len() == i,
            acc.v == spec_prod(sv.take(i as int)),
            forall|j: int| 0 <= j < i ==> #[trigger] products@[j].v == spec_prod(sv.take(j)),
            forall|j: int| 0 <= j < i ==> sc_wf(#[trigger] products@[j]),
            (exists|j: int| 0 <= j < i && #[trigger] sv[j] == 0) ==> acc.v == 0,
        decreases len - i,
    {
        products.push(acc);
        let ghost old_acc = acc;
        acc = acc.mul(&v[i]);
        proof {
            assert(sv.take(i + 1).drop_last() =~= sv.take(i as int));
            assert(sv.take(i + 1).last() == v@[i as int].v);
            vstd::arithmetic::mul::lemma_mul_basics(old_acc.v as int);
            vstd::arithmetic::mul::lemma_mul_basics(v@[i as int].v as int);
        }
        i = i + 1;
    }
    proof {
        assert(sv.take(len as int) =~= sv);
    }
    if acc.v == 0 {
        proof {
            reveal(spec_invert);
            vstd::arithmetic::mul::lemma_mul_basics(
                crate::field::spec_pow_loop(1, 0, (MODULUS - 2) as u64) as int,
            );
        }
        return Err(IpaError::InvalidInputLength);
    }
    let total_inv: Scalar = match acc.invert() {
        Some(t) => t,
        None => {
            return Err(IpaError::InvalidInputLength);
        },
    };
    // Unwind: walk backwards, peeling one factor off the inverted total
    // product per step.
    let mut back: Vec<Scalar> = Vec::new();
    let mut racc: Scalar = total_inv;
    let mut t: usize = 0;
    while t < len
        invariant
            t <= len == v@.len(),
            seq_wf(v@),
            sv == svals(v@),
            sc_wf(racc),
            products@.len() == len,
            forall|j: int| 0 <= j < len ==> #[trigger] products@[j].v == spec_prod(sv.take(j)),
            forall|j: int| 0 <= j < len ==> sc_wf(#[trigger] products@[j]),
            f_mul(spec_prod(sv.take(len - t)), racc.v) == 1,
            back@.len() == t,
            forall|j: int| 0 <= j < t ==> f_mul(
                sv[len - 1 - j],
                #[trigger] back@[j].v,
            ) == 1,
            forall|j: int| 0 <= j < t ==> sc_wf(#[trigger] back@[j]),
        decreases len - t,
    {
        let j: usize = len - 1 - t;
        let tmp: Scalar = racc.mul(&v[j]);
        let inv_j: Scalar = products[j].mul(&racc);
        proof {
            let pj = spec_prod(sv.take(j as int));
            assert(sv.take(j + 1).drop_last() =~= sv.take(j as int));
            assert(sv.take(j + 1).last() == v@[j as int].v);
            assert(spec_prod(sv.take(j + 1)) == f_mul(pj, sv[j as int]));
            // v_j * (p_j * racc) == (p_j * v_j) * racc == 1
            lemma_f_mul_assoc(sv[j as int], pj, racc.v);
            lemma_f_mul_comm(sv[j as int], pj);
            assert(f_mul(sv[j as int], inv_j.v) == 1);
            // p_j * (racc * v_j) == (p_j * v_j) * racc == 1
            lemma_f_mul_comm(racc.v, sv[j as int]);
            lemma_f_mul_assoc(pj, sv[j as int], racc.v);
            assert(f_mul(pj, tmp.v) == 1);
        }
        back.push(inv_j);
        racc = tmp;
        t = t + 1;
    }
    // Reverse into index order.
    let mut inv: Vec<Scalar> = Vec::new();
    let mut u: usize = 0;
    while u < len
        invariant
            u <= len == v@.len(),
            sv == svals(v@),
            back@.len() == len,
            forall|j: int| 0 <= j < len ==> f_mul(sv[len - 1 - j], #[trigger] back@[j].v) == 1,
            forall|j: int| 0 <= j < len ==> sc_wf(#[trigger] back@[j]),
            inv@.len() == u,
            forall|j: int| 0 <= j < u ==> f_mul(sv[j], #[trigger] inv@[j].v) == 1,
            forall|j: int| 0 <= j < u ==> sc_wf(#[trigger] inv@[j]),
        decreases len - u,
    {
        inv.push(back[len - 1 - u]);
        proof {
            assert(f_mul(sv[len - 1 - (len - 1 - u)], back@[len - 1 - (u as int)].v) == 1);
        }
        u = u + 1;
    }
    proof {
        if exists|j: int| 0 <= j < v@.len() && #[trigger] v@[j].v == 0 {
            let j = choose|j: int| 0 <= j < v@.len() && #[trigger] v@[j].v == 0;
            assert(sv[j] == 0);
            assert(false);
        }
        assert forall|j: int| 0 <= j < v@.len() implies #[trigger] inv@[j].v == spec_inv_val(
            v@[j].v,
        ) by {
            lemma_inv_val_is(v@[j].v, inv@[j].v);
        }
    }
    Ok(inv)
}

/// The replay of the recorded round commitments: the challenge drawn after
/// absorbing each `L_i, R_i` pair in order, and the transcript state left
/// behind.
#[verifier::opaque]
pub open spec fn spec_replay(lv: Seq<u64>, rv: Seq<u64>, t: u64) -> (Seq<u64>, u64)
    decreases lv.len(),
{
    if lv.len() == 0 {
        (Seq::<u64>::empty(), t)
    } else {
        let t2 = spec_round_state(t, lv[0], rv[0]);
        let rest = spec_replay(lv.skip(1), rv.skip(1), t2);
        (seq![spec_chal(t2)] + rest.0, rest.1)
    }
}

/// The per-round transcript replay: absorbs each recorded `L_i, R_i` pair
/// in order and draws one challenge per round, exactly mirroring the
/// prover's order; the challenges and the final transcript state are
/// pinned by `spec_replay`.
fn derive_round_challenges(
    l_vec: &Vec<CompressedCommitment>,
    r_vec: &Vec<CompressedCommitment>,
    transcript: &mut TranscriptEngine,
) -> (r: Vec<Scalar>)
    requires
        l_vec@.len() == r_vec@.len(),
    ensures
        r@.len() == l_vec@.len(),
        seq_wf(r@),
        forall|i: int| 0 <= i < r@.len() ==> #[trigger] r@[i].v != 0,
        svals(r@) == spec_replay(cvals(l_vec@), cvals(r_vec@), old(transcript).state).0,
        final(transcript).state == spec_replay(
            cvals(l_vec@),
            cvals(r_vec@),
            old(transcript).state,
        ).1,
{
    let k: usize = l_vec.len();
    let ghost lv = cvals(l_vec@);
    let ghost rv = cvals(r_vec@);
    let ghost whole = spec_replay(lv, rv, transcript.state);
    let mut out: Vec<Scalar> = Vec::new();
    let mut i: usize = 0;
    proof {
        reveal(spec_replay);
        assert(lv.skip(0) =~= lv);
        assert(rv.skip(0) =~= rv);
        assert(svals(out@) + spec_replay(lv.skip(0), rv.skip(0), transcript.state).0
            =~= spec_replay(lv, rv, transcript.state).0);
    }
    while i < k
        invariant
            i <= k,
            k == l_vec@.len(),
            k == r_vec@.len(),
            lv == cvals(l_vec@),
            rv == cvals(r_vec@),
            out@.len() == i,
            seq_wf(out@),
            forall|j: int| 0 <= j < i ==> #[trigger] out@[j].v != 0,
            whole.0 == svals(out@) + spec_replay(lv.skip(i as int), rv.skip(i as int), transcript.state).0,
            whole.1 == spec_replay(lv.skip(i as int), rv.skip(i as int), transcript.state).1,
        decreases k - i,
    {
        let ghost t_cur = transcript.state;
        transcript.absorb_compressed(LABEL_L, &l_vec[i]);
        transcript.absorb_compressed(LABEL_R_COMM, &r_vec[i]);
        let ch: Scalar = transcript.challenge(LABEL_CHALLENGE_R);
        out.push(ch);
        proof {
            reveal(spec_replay);
            assert(lv.skip(i as int).len() == k - i);
            assert(lv.skip(i as int)[0] == lv[i as int]);
            assert(rv.skip(i as int)[0] == rv[i as int]);
            assert(lv.skip(i as int).skip(1) =~= lv.skip(i + 1));
            assert(rv.skip(i as int).skip(1) =~= rv.skip(i + 1));
            assert(transcript.state == spec_round_state(t_cur, lv[i as int], rv[i as int]));
            let rest = spec_replay(lv.skip(i + 1), rv.skip(i + 1), transcript.state);
            assert(spec_replay(lv.skip(i as int), rv.skip(i as int), t_cur).0 == seq![
                spec_chal(transcript.state),
            ] + rest.0);
            assert(svals(out@) =~= svals(out@.drop_last()) + seq![ch.v]);
            assert((svals(out@.drop_last()) + seq![ch.v]) + rest.0 =~= svals(out@.drop_last())
                + (seq![ch.v] + rest.0));
        }
        i = i + 1;
    }
    proof {
        reveal(spec_replay);
        assert(lv.skip(k as int).len() == 0);
        assert(svals(out@) + spec_replay(lv.skip(k as int), rv.skip(k as int), transcript.state).0
            =~= svals(out@));
    }
    out
}

/// Squares every entry.
fn square_all(v: &Vec<Scalar>) -> (r: Vec<Scalar>)
    requires
        seq_wf(v@),
    ensures
        r@.len() == v@.len(),
        seq_wf(r@),
        forall|i: int| 0 <= i < v@.len() ==> #[trigger] r@[i].v == f_mul(v@[i].v, v@[i].v),
{
    let mut out: Vec<Scalar> = Vec::new();
    let mut i: usize = 0;
    while i < v.len()
        invariant
            i <= v@.len(),
            seq_wf(v@),
            out@.len() == i,
            seq_wf(out@),
            forall|j: int| 0 <= j < i ==> #[trigger] out@[j].v == f_mul(v@[j].v, v@[j].v),
        decreases v@.len() - i,
    {
        out.push(v[i].square());
        i = i + 1;
    }
    out
}

/// The product of all entries.
fn product_all(v: &Vec<Scalar>) -> (r: Scalar)
    requires
        seq_wf(v@),
    ensures
        sc_wf(r),
        r.v == spec_prod(svals(v@)),
{
    let ghost sv = svals(v@);
    let mut acc: Scalar = Scalar::one();
    let mut i: usize = 0;
    while i < v.len()
        invariant
            i <= v@.len(),
            seq_wf(v@),
            sv == svals(v@),
            sc_wf(acc),
            acc.v == spec_prod(sv.take(i as int)),
        decreases v@.len() - i,
    {
        acc = acc.mul(&v[i]);
        proof {
            assert(sv.take(i + 1).drop_last() =~= sv.take(i as int));
            assert(sv.take(i + 1).last() == v@[i as int].v);
        }
        i = i + 1;
    }
    proof {
        assert(sv.take(v@.len() as int) =~= sv);
    }
    acc
}

/// The tensor recurrence of the weight vector, one entry at a time: the
/// counters track the highest set bit of the next index (`cur = 2^pos`,
/// `nxt = 2^{pos+1}`), and each new entry reuses the entry with that bit
/// cleared, scaled by the matching squared challenge.
#[verifier::opaque]
pub open spec fn spec_tensor_from(
    rsq: Seq<u64>,
    s: Seq<u64>,
    pos: nat,
    cur: nat,
    nxt: nat,
    n: nat,
) -> Seq<u64>
    decreases n - s.len(),
{
    if s.len() >= n {
        s
    } else {
        let i = s.len() as int;
        let pos2: nat = if i == nxt { pos + 1 } else { pos };
        let cur2: nat = if i == nxt { nxt } else { cur };
        let nxt2: nat = if i == nxt { 2 * nxt } else { nxt };
        let v = f_mul(s[i - cur2], rsq[rsq.len() - 1 - pos2]);
        spec_tensor_from(rsq, s.push(v), pos2, cur2, nxt2, n)
    }
}

/// The tensor weight vector of length `n`, grown from `s[0] = s0`.
pub open spec fn spec_tensor(rsq: Seq<u64>, s0: u64, n: nat) -> Seq<u64> {
    spec_tensor_from(rsq, seq![s0], 0, 1, 2, n)
}

/// The tensor weight vector `s` of length `n = 2^k`: `s[0]` is the given
/// product of all inverse challenges, and every later entry reuses the
/// entry with its highest set bit cleared, scaled by the matching squared
/// challenge — `O(n)` work in place of the naive `O(n k)`.
fn tensor_weights(s0: Scalar, r_square: &Vec<Scalar>, n: usize, k: usize) -> (s: Vec<Scalar>)
    requires
        sc_wf(s0),
        seq_wf(r_square@),
        r_square@.len() == k,
        k < 32,
        n >= 1,
        n == pow2(k as nat),
    ensures
        s@.len() == n,
        seq_wf(s@),
        svals(s@) == spec_tensor(svals(r_square@), s0.v, n as nat),
{
    proof {
        lemma2_to64();
        if k < 31 {
            lemma_pow2_strictly_increases(k as nat, 31);
        }
    }
    let ghost rsq = svals(r_square@);
    let ghost target = spec_tensor(rsq, s0.v, n as nat);
    let mut s: Vec<Scalar> = Vec::new();
    s.push(s0);
    proof {
        assert(svals(s@) =~= seq![s0.v]);
    }
    let mut idx: usize = 1;
    let mut pos: usize = 0;
    let mut cur_pow: usize = 1;
    let mut next_pow: usize = 2;
    while idx < n
        invariant
            1 <= idx <= n,
            n == pow2(k as nat),
            k < 32,
            k == r_square@.len(),
            rsq == svals(r_square@),
            seq_wf(r_square@),
            s@.len() == idx,
            seq_wf(s@),
            cur_pow == pow2(pos as nat),
            next_pow == 2 * cur_pow,
            cur_pow <= idx,
            idx <= next_pow,
            n <= 0x8000_0000,
            n > 1 ==> pos < k,
            target == spec_tensor_from(
                rsq,
                svals(s@),
                pos as nat,
                cur_pow as nat,
                next_pow as nat,
                n as nat,
            ),
        decreases n - idx,
    {
        let ghost pos0 = pos;
        let ghost cur0 = cur_pow;
        let ghost nxt0 = next_pow;
        let ghost s_pre = svals(s@);
        if idx == next_pow {
            proof {
                lemma_pow2_unfold((pos + 1) as nat);
                if pos + 1 >= k {
                    if pos + 1 > k {
                        lemma_pow2_strictly_increases(k as nat, (pos + 1) as nat);
                    }
                    assert(false);
                }
            }
            pos = pos + 1;
            cur_pow = next_pow;
            next_pow = next_pow * 2;
        }
        let sv: Scalar = s[idx - cur_pow].mul(&r_square[k - 1 - pos]);
        s.push(sv);
        proof {
            reveal(spec_tensor_from);
            assert(svals(s@) =~= s_pre.push(sv.v));
            assert(rsq[k - 1 - pos] == r_square@[k - 1 - pos].v);
            assert(sv.v == f_mul(s_pre[idx - cur_pow], rsq[k - 1 - pos]));
            assert(s_pre.len() == idx < n);
            assert(spec_tensor_from(rsq, s_pre, pos0 as nat, cur0 as nat, nxt0 as nat, n as nat)
                == spec_tensor_from(
                rsq,
                s_pre.push(sv.v),
                pos as nat,
                cur_pow as nat,
                next_pow as nat,
                n as nat,
            ));
        }
        idx = idx + 1;
    }
    proof {
        reveal(spec_tensor_from);
    }
    s
}

/// Concatenates two scalar vectors into a copy.
fn concat_scalars(x: &Vec<Scalar>, y: &Vec<Scalar>) -> (r: Vec<Scalar>)
    ensures
        r@ == x@ + y@,
{
    let mut out: Vec<Scalar> = copy_scalars(x);
    let mut i: usize = 0;
    while i < y.len()
        invariant
            i <= y@.len(),
            out@ == x@ + y@.take(i as int),
        decreases y@.len() - i,
    {
        out.push(y[i]);
        proof {
            assert(out@ =~= x@ + y@.take(i + 1));
        }
        i = i + 1;
    }
    proof {
        assert(x@ + y@.take(y@.len() as int) =~= x@ + y@);
        assert(x@ + y@.take(0) =~= x@);
    }
    out
}

/// Pairwise weighted fold of two equal-length sequences:
/// `r_i = x_i * wx + y_i * wy`.
pub open spec fn spec_fold(x: Seq<u64>, y: Seq<u64>, wx: u64, wy: u64) -> Seq<u64> {
    Seq::new(x.len(), |i: int| f_add(f_mul(x[i], wx), f_mul(y[i], wy)))
}

/// The left cross commitment of one round: the left half of the witness
/// and the cross product `<a_left, b_right>`, committed under the right
/// half of the key and the merged claim generator.
#[verifier::opaque]
pub open spec fn spec_round_l(a: Seq<u64>, b: Seq<u64>, g: Seq<u64>, gc: u64) -> u64 {
    let mid = (a.len() / 2) as int;
    spec_ip(g.skip(mid) + seq![gc], a.take(mid) + seq![spec_ip(a.take(mid), b.skip(mid))])
}

/// The right cross commitment of one round, the mirror image of the left.
#[verifier::opaque]
pub open spec fn spec_round_r(a: Seq<u64>, b: Seq<u64>, g: Seq<u64>, gc: u64) -> u64 {
    let mid = (a.len() / 2) as int;
    spec_ip(g.take(mid) + seq![gc], a.skip(mid) + seq![spec_ip(a.skip(mid), b.take(mid))])
}

/// The transcript state after one round's two absorbs and challenge draw.
pub open spec fn spec_round_state(t: u64, l: u64, rr: u64) -> u64 {
    spec_mix(
        spec_mix(spec_mix(spec_mix(spec_mix(t, LABEL_L), l), LABEL_R_COMM), rr),
        LABEL_CHALLENGE_R,
    )
}

/// Exactly what one prover round does, over the representatives of its
/// inputs: the two cross commitments, the transcript evolution, and —
/// when the round challenge has an inverse — the three folded outputs;
/// otherwise a shape error.
pub open spec fn spec_round_post(
    a0: Seq<u64>,
    b0: Seq<u64>,
    g0: Seq<u64>,
    gc: u64,
    t0: u64,
    r: Result<
        (CompressedCommitment, CompressedCommitment, Vec<Scalar>, Vec<Scalar>, CommitmentKey),
        IpaError,
    >,
    t_end: u64,
) -> bool {
    let mid = (a0.len() / 2) as int;
    let l = spec_round_l(a0, b0, g0, gc);
    let rr = spec_round_r(a0, b0, g0, gc);
    let t3 = spec_round_state(t0, l, rr);
    let ch = spec_chal(t3);
    &&& t_end == t3
    &&& match spec_invert(ch) {
        Some(ci) => {
            &&& r is Ok
            &&& (r matches Ok(out) ==> {
                &&& out.0.v == l
                &&& out.1.v == rr
                &&& svals(out.2@) == spec_fold(a0.take(mid), a0.skip(mid), ch, ci)
                &&& svals(out.3@) == spec_fold(b0.take(mid), b0.skip(mid), ci, ch)
                &&& svals(out.4.gens@) == spec_fold(g0.take(mid), g0.skip(mid), ci, ch)
            })
        },
        None => r == Err::<
            (CompressedCommitment, CompressedCommitment, Vec<Scalar>, Vec<Scalar>, CommitmentKey),
            IpaError,
        >(IpaError::InvalidInputLength),
    }
}

/// One folding round of the prover: splits the working vectors and key at
/// the midpoint, commits to the two cross terms, absorbs both commitments,
/// draws the round challenge, and returns the two commitments together
/// with the folded vectors and key, each of half the length.
#[verifier::rlimit(100)]
#[allow(non_snake_case)]
pub fn prove_round(
    a_vec: &Vec<Scalar>,
    b_vec: &Vec<Scalar>,
    ck: &CommitmentKey,
    ck_c: &CommitmentKey,
    transcript: &mut TranscriptEngine,
) -> (r: Result<
    (CompressedCommitment, CompressedCommitment, Vec<Scalar>, Vec<Scalar>, CommitmentKey),
    IpaError,
>)
    requires
        a_vec@.len() == b_vec@.len(),
        a_vec@.len() == ck.gens@.len(),
        a_vec@.len() >= 2,
        a_vec@.len() % 2 == 0,
        ck_c.gens@.len() == 1,
        seq_wf(a_vec@),
        seq_wf(b_vec@),
        key_wf(*ck),
        key_wf(*ck_c),
    ensures
        r matches Ok(t) ==> {
            &&& comp_wf(t.0)
            &&& comp_wf(t.1)
            &&& t.2@.len() == a_vec@.len() / 2
            &&& seq_wf(t.2@)
            &&& t.3@.len() == a_vec@.len() / 2
            &&& seq_wf(t.3@)
            &&& t.4.gens@.len() == a_vec@.len() / 2
            &&& key_wf(t.4)
        },
        spec_round_post(
            svals(a_vec@),
            svals(b_vec@),
            svals(ck.gens@),
            ck_c.gens@[0].v,
            old(transcript).state,
            r,
            final(transcript).state,
        ),
{
    let n_cur: usize = a_vec.len();
    let mid: usize = n_cur / 2;
    let ghost a0 = svals(a_vec@);
    let ghost b0 = svals(b_vec@);
    let ghost g0 = svals(ck.gens@);
    let ghost gc = ck_c.gens@[0].v;

    let (ck_l, ck_r) = ck.split_at(mid);
    let (a_left, a_right) = split_scalars(a_vec, mid);
    let (b_left, b_right) = split_scalars(b_vec, mid);
    proof {
        assert(seq_wf(a_left@));
        assert(seq_wf(a_right@));
        assert(seq_wf(b_left@));
        assert(seq_wf(b_right@));
        assert(seq_wf(ck_l.gens@));
        assert(seq_wf(ck_r.gens@));
    }

    let c_left: Scalar = inner_product(&a_left, &b_right);
    let c_right: Scalar = inner_product(&a_right, &b_left);

    let mut left_open: Vec<Scalar> = copy_scalars(&a_left);
    left_open.push(c_left);
    let gens_left: CommitmentKey = ck_r.combine(ck_c);
    proof {
        assert(seq_wf(gens_left.gens@));
        assert(seq_wf(left_open@));
    }
    let cl: CompressedCommitment = commit(&gens_left, &left_open).compress();

    let mut right_open: Vec<Scalar> = copy_scalars(&a_right);
    right_open.push(c_right);
    let gens_right: CommitmentKey = ck_l.combine(ck_c);
    proof {
        assert(seq_wf(gens_right.gens@));
        assert(seq_wf(right_open@));
    }
    let cr: CompressedCommitment = commit(&gens_right, &right_open).compress();

    proof {
        reveal(spec_round_l);
        reveal(spec_round_r);
        lemma_svals_take(a_vec@, mid as int);
        lemma_svals_skip(a_vec@, mid as int);
        lemma_svals_take(b_vec@, mid as int);
        lemma_svals_skip(b_vec@, mid as int);
        lemma_svals_take(ck.gens@, mid as int);
        lemma_svals_skip(ck.gens@, mid as int);
        lemma_svals_concat(ck_r.gens@, ck_c.gens@);
        lemma_svals_concat(ck_l.gens@, ck_c.gens@);
        assert(svals(ck_c.gens@) =~= seq![gc]);
        assert(left_open@ =~= a_left@ + seq![c_left]);
        assert(right_open@ =~= a_right@ + seq![c_right]);
        lemma_svals_concat(a_left@, seq![c_left]);
        lemma_svals_concat(a_right@, seq![c_right]);
        assert(svals(seq![c_left]) =~= seq![c_left.v]);
        assert(svals(seq![c_right]) =~= seq![c_right.v]);
        assert(cl.v == spec_round_l(a0, b0, g0, gc));
        assert(cr.v == spec_round_r(a0, b0, g0, gc));
    }

    transcript.absorb_compressed(LABEL_L, &cl);
    transcript.absorb_compressed(LABEL_R_COMM, &cr);

    let r_round: Scalar = transcript.challenge(LABEL_CHALLENGE_R);
    let r_inverse: Scalar = match r_round.invert() {
        Some(ri) => ri,
        None => {
            return Err(IpaError::InvalidInputLength);
        },
    };

    let a_folded: Vec<Scalar> = fold_scalars(&a_left, &a_right, &r_round, &r_inverse);
    let b_folded: Vec<Scalar> = fold_scalars(&b_left, &b_right, &r_inverse, &r_round);
    let ck_folded: CommitmentKey = ck.fold(&r_inverse, &r_round);

    proof {
        let ch = r_round.v;
        let ci = r_inverse.v;
        assert(svals(a_folded@) =~= spec_fold(a0.take(mid as int), a0.skip(mid as int), ch, ci));
        assert(svals(b_folded@) =~= spec_fold(b0.take(mid as int), b0.skip(mid as int), ci, ch));
        assert forall|i: int| 0 <= i < mid implies svals(ck_folded.gens@)[i] == spec_fold(
            g0.take(mid as int),
            g0.skip(mid as int),
            ci,
            ch,
        )[i] by {
            lemma_f_mul_comm(ci, ck.gens@[i].v);
            lemma_f_mul_comm(ch, ck.gens@[mid + i].v);
        }
        assert(svals(ck_folded.gens@) =~= spec_fold(
            g0.take(mid as int),
            g0.skip(mid as int),
            ci,
            ch,
        ));
    }

    Ok((cl, cr, a_folded, b_folded, ck_folded))
}

/// The verifier's decision after the challenges are replayed: reject with
/// a shape error when the challenge product has no inverse, otherwise
/// accept exactly when the reconstructed commitment equals the final
/// opening's commitment.
#[verifier::opaque]
pub open spec fn spec_verify_finish(
    lv: Seq<u64>,
    rv: Seq<u64>,
    a_hat: u64,
    g: Seq<u64>,
    gc: u64,
    p: u64,
    b: Seq<u64>,
    chals: Seq<u64>,
    n: nat,
    r: Result<(), IpaError>,
) -> bool {
    if spec_invert(spec_prod(chals)) is None {
        r == Err::<(), IpaError>(IpaError::InvalidInputLength)
    } else {
        let k = chals.len() as int;
        let inv = Seq::new(k as nat, |i: int| spec_inv_val(chals[i]));
        let rsq = Seq::new(k as nat, |i: int| f_mul(chals[i], chals[i]));
        let risq = Seq::new(k as nat, |i: int| f_mul(inv[i], inv[i]));
        let s = spec_tensor(rsq, spec_prod(inv), n);
        let ck_hat = spec_ip(g, s);
        let b_hat = spec_ip(b, s);
        let p_hat = spec_ip(lv + rv + seq![p], rsq + risq + seq![1u64]);
        let rhs = spec_ip(seq![ck_hat, gc], seq![a_hat, f_mul(a_hat, b_hat)]);
        if p_hat == rhs {
            r == Ok::<(), IpaError>(())
        } else {
            r == Err::<(), IpaError>(IpaError::InvalidIPA)
        }
    }
}

/// The shape and canonical-form conditions on an argument: matching
/// counts, fewer than 32 rounds, `n = 2^k`, and every recorded value in
/// canonical reduced form.
pub open spec fn spec_arg_ok(b_len: nat, n: nat, lv: Seq<u64>, rv: Seq<u64>, a_hat: u64) -> bool {
    &&& b_len == n
    &&& lv.len() == rv.len()
    &&& lv.len() < 32
    &&& n == pow2(lv.len())
    &&& a_hat < MODULUS
    &&& (forall|i: int| 0 <= i < lv.len() ==> #[trigger] lv[i] < MODULUS)
    &&& (forall|i: int| 0 <= i < rv.len() ==> #[trigger] rv[i] < MODULUS)
}

/// Exactly what `verify` decides and does to the transcript, over the
/// representatives of its inputs: a malformed or mis-shaped argument is
/// rejected with a shape error right after the domain separator;
/// otherwise the instance absorbs, the base-merging challenge, the replay
/// of the recorded commitments and the final decision follow, with the
/// transcript state pinned throughout.
pub open spec fn spec_verify_rel(
    g: Seq<u64>,
    gc0: u64,
    n: nat,
    comm: u64,
    c: u64,
    b: Seq<u64>,
    lv: Seq<u64>,
    rv: Seq<u64>,
    a_hat: u64,
    t0: u64,
    r: Result<(), IpaError>,
    t1: u64,
) -> bool {
    let t_proto = spec_mix(spec_mix(t0, LABEL_PROTOCOL_NAME), PROTOCOL_NAME);
    if !spec_arg_ok(b.len(), n, lv, rv, a_hat) {
        r == Err::<(), IpaError>(IpaError::InvalidInputLength) && t1 == t_proto
    } else {
        spec_verify_main(g, gc0, n, comm, c, b, lv, rv, a_hat, t_proto, r, t1)
    }
}

/// The verifier's main phase, from the instance absorbs on: the
/// base-merging challenge, the merged claim commitment, the replay of the
/// recorded round commitments, and the final decision.
#[verifier::opaque]
pub open spec fn spec_verify_main(
    g: Seq<u64>,
    gc0: u64,
    n: nat,
    comm: u64,
    c: u64,
    b: Seq<u64>,
    lv: Seq<u64>,
    rv: Seq<u64>,
    a_hat: u64,
    t_in: u64,
    r: Result<(), IpaError>,
    t_out: u64,
) -> bool {
    let t2 = spec_mix(spec_mix(t_in, LABEL_COMM_A_VEC), comm);
    let t3 = spec_mix(spec_mix(t2, LABEL_C), c);
    let t4 = spec_mix(t3, LABEL_R);
    let gcs = f_mul(gc0, spec_chal(t4));
    let p = f_add(comm, spec_ip(seq![gcs], seq![c]));
    let rep = spec_replay(lv, rv, t4);
    &&& t_out == rep.1
    &&& spec_verify_finish(lv, rv, a_hat, g.take(n as int), gcs, p, b, rep.0, n, r)
}

/// The verifier's tail: batch inversion, the tensor weight vector, the
/// reconstruction of the expected final commitment and the decision.
#[verifier::rlimit(100)]
fn verify_finish(
    ck_l: &CommitmentKey,
    ck_r: &CommitmentKey,
    a_hat: Scalar,
    ck_front: &CommitmentKey,
    ck_c: &CommitmentKey,
    p: Commitment,
    b_vec: &Vec<Scalar>,
    chals: &Vec<Scalar>,
    n: usize,
    k: usize,
) -> (r: Result<(), IpaError>)
    requires
        ck_l.gens@.len() == k,
        ck_r.gens@.len() == k,
        chals@.len() == k,
        ck_front.gens@.len() == n,
        b_vec@.len() == n,
        ck_c.gens@.len() == 1,
        n == pow2(k as nat),
        k < 32,
        n >= 1,
        key_wf(*ck_l),
        key_wf(*ck_r),
        key_wf(*ck_front),
        key_wf(*ck_c),
        sc_wf(a_hat),
        comm_wf(p),
        seq_wf(b_vec@),
        seq_wf(chals@),
    ensures
        spec_verify_finish(
            svals(ck_l.gens@),
            svals(ck_r.gens@),
            a_hat.v,
            svals(ck_front.gens@),
            ck_c.gens@[0].v,
            p.g.v,
            svals(b_vec@),
            svals(chals@),
            n as nat,
            r,
        ),
{
    let r_square: Vec<Scalar> = square_all(chals);
    let r_inverse: Vec<Scalar> = match batch_invert(chals) {
        Ok(v) => v,
        Err(e) => {
            proof {
                reveal(spec_verify_finish);
            }
            return Err(e);
        },
    };
    let r_inverse_square: Vec<Scalar> = square_all(&r_inverse);
    let s0: Scalar = product_all(&r_inverse);
    let s: Vec<Scalar> = tensor_weights(s0, &r_square, n, k);

    let ghost cs = svals(chals@);
    let ghost inv_spec = Seq::new(k as nat, |i: int| spec_inv_val(cs[i]));
    let ghost rsq_spec = Seq::new(k as nat, |i: int| f_mul(cs[i], cs[i]));
    let ghost risq_spec = Seq::new(k as nat, |i: int| f_mul(inv_spec[i], inv_spec[i]));
    proof {
        assert(svals(r_inverse@) =~= inv_spec);
        assert(svals(r_square@) =~= rsq_spec);
        assert(svals(r_inverse_square@) =~= risq_spec);
    }

    let ck_hat_comm: Commitment = commit(ck_front, &s);
    let b_hat: Scalar = inner_product(b_vec, &s);

    let ck_folded: CommitmentKey = ck_l.combine(ck_r);
    let mut p_gens: Vec<Scalar> = copy_scalars(&ck_folded.gens);
    p_gens.push(p.g);
    let ck_all: CommitmentKey = CommitmentKey { gens: p_gens };

    let mut weights: Vec<Scalar> = concat_scalars(&r_square, &r_inverse_square);
    weights.push(Scalar::one());
    proof {
        assert(seq_wf(ck_all.gens@));
        assert(seq_wf(weights@));
        assert(ck_all.gens@.len() == 2 * k + 1);
        assert(weights@.len() == 2 * k + 1);
    }
    let p_hat: Commitment = commit(&ck_all, &weights);

    let mut rhs_gens: Vec<Scalar> = Vec::new();
    rhs_gens.push(Scalar { v: ck_hat_comm.g.v });
    rhs_gens.push(ck_c.gens[0]);
    let mut final_open: Vec<Scalar> = Vec::new();
    final_open.push(a_hat);
    final_open.push(a_hat.mul(&b_hat));
    let rhs: Commitment = commit(&CommitmentKey { gens: rhs_gens }, &final_open);

    proof {
        reveal(spec_verify_finish);
        let lv = svals(ck_l.gens@);
        let rv = svals(ck_r.gens@);
        assert(svals(ck_folded.gens@) =~= lv + rv);
        assert(svals(ck_all.gens@) =~= (lv + rv) + seq![p.g.v]);
        assert(svals(weights@) =~= (rsq_spec + risq_spec) + seq![1u64]);
        assert((lv + rv) + seq![p.g.v] =~= lv + rv + seq![p.g.v]);
        assert((rsq_spec + risq_spec) + seq![1u64] =~= rsq_spec + risq_spec + seq![1u64]);
        assert(svals(rhs_gens@) =~= seq![ck_hat_comm.g.v, ck_c.gens@[0].v]);
        assert(svals(final_open@) =~= seq![a_hat.v, f_mul(a_hat.v, b_hat.v)]);
        assert(s0.v == spec_prod(inv_spec));
        assert(svals(s@) == spec_tensor(rsq_spec, spec_prod(inv_spec), n as nat));
    }
    if p_hat == rhs {
        Ok(())
    } else {
        Err(IpaError::InvalidIPA)
    }
}

/// The executable main phase of verification, pinned by
/// `spec_verify_main`.
#[allow(non_snake_case)]
#[verifier::rlimit(100)]
fn verify_main(
    l_vec: &Vec<CompressedCommitment>,
    r_vec: &Vec<CompressedCommitment>,
    ck_l: &CommitmentKey,
    ck_r: &CommitmentKey,
    a_hat: Scalar,
    ck: &CommitmentKey,
    ck_c: &CommitmentKey,
    n: usize,
    k: usize,
    U: &InnerProductInstance,
    transcript: &mut TranscriptEngine,
) -> (r: Result<(), IpaError>)
    requires
        l_vec@.len() == k,
        r_vec@.len() == k,
        ck_l.gens@.len() == k,
        ck_r.gens@.len() == k,
        svals(ck_l.gens@) == cvals(l_vec@),
        svals(ck_r.gens@) == cvals(r_vec@),
        key_wf(*ck_l),
        key_wf(*ck_r),
        U.b_vec@.len() == n,
        n == pow2(k as nat),
        k < 32,
        n >= 1,
        ck.gens@.len() >= n,
        ck_c.gens@.len() == 1,
        key_wf(*ck),
        key_wf(*ck_c),
        inst_wf(*U),
        sc_wf(a_hat),
    ensures
        spec_verify_main(
            svals(ck.gens@),
            ck_c.gens@[0].v,
            n as nat,
            U.comm_a_vec.g.v,
            U.c.v,
            svals(U.b_vec@),
            cvals(l_vec@),
            cvals(r_vec@),
            a_hat.v,
            old(transcript).state,
            r,
            final(transcript).state,
        ),
{
    transcript.absorb_commitment(LABEL_COMM_A_VEC, &U.comm_a_vec);
    transcript.absorb_scalar(LABEL_C, &U.c);

    let r_merge: Scalar = transcript.challenge(LABEL_R);
    let ck_c = ck_c.scale(&r_merge);

    let mut c_open: Vec<Scalar> = Vec::new();
    c_open.push(U.c);
    let c_term: Commitment = commit(&ck_c, &c_open);
    let P: Commitment = U.comm_a_vec.add(&c_term);
    proof {
        assert(svals(ck_c.gens@) =~= seq![ck_c.gens@[0].v]);
        assert(svals(c_open@) =~= seq![U.c.v]);
    }

    let chals: Vec<Scalar> = derive_round_challenges(l_vec, r_vec, transcript);

    let (ck_front, _ck_rest) = ck.split_at(n);
    proof {
        assert(seq_wf(ck_front.gens@));
        lemma_svals_take(ck.gens@, n as int);
    }
    let res: Result<(), IpaError> = verify_finish(
        ck_l,
        ck_r,
        a_hat,
        &ck_front,
        &ck_c,
        P,
        &U.b_vec,
        &chals,
        n,
        k,
    );
    proof {
        reveal(spec_verify_main);
    }
    res
}

/// The mirror of the prover's whole folding phase: the emitted left and
/// right commitments, the final opening and the final transcript state,
/// or nothing where a round challenge had no inverse.
#[verifier::opaque]
pub open spec fn spec_prove_rounds(a: Seq<u64>, b: Seq<u64>, g: Seq<u64>, gc: u64, t: u64) -> Option<
    (Seq<u64>, Seq<u64>, u64, u64),
>
    decreases a.len(),
{
    if a.len() <= 1 {
        Some(
            (
                Seq::<u64>::empty(),
                Seq::<u64>::empty(),
                if a.len() == 1 {
                    a[0]
                } else {
                    0
                },
                t,
            ),
        )
    } else if a.len() % 2 != 0 {
        None
    } else {
        let mid = (a.len() / 2) as int;
        let l = spec_round_l(a, b, g, gc);
        let rr = spec_round_r(a, b, g, gc);
        let t3 = spec_round_state(t, l, rr);
        let ch = spec_chal(t3);
        match spec_invert(ch) {
            None => None,
            Some(ci) => match spec_prove_rounds(
                spec_fold(a.take(mid), a.skip(mid), ch, ci),
                spec_fold(b.take(mid), b.skip(mid), ci, ch),
                spec_fold(g.take(mid), g.skip(mid), ci, ch),
                gc,
                t3,
            ) {
                None => None,
                Some(rest) => Some((seq![l] + rest.0, seq![rr] + rest.1, rest.2, rest.3)),
            },
        }
    }
}

/// Exactly what `prove` does, over the representatives of its inputs: a
/// length mismatch is rejected right after the domain separator; otherwise
/// the instance absorbs, the base-merging challenge and the folding rounds
/// follow, the produced argument and the transcript pinned throughout. An
/// error in the folding phase is possible only where a round challenge has
/// no inverse.
pub open spec fn spec_prove_rel(
    g: Seq<u64>,
    gc0: u64,
    comm: u64,
    c: u64,
    a: Seq<u64>,
    b: Seq<u64>,
    t0: u64,
    r: Result<InnerProductArgument, IpaError>,
    t1: u64,
) -> bool {
    let t_proto = spec_mix(spec_mix(t0, LABEL_PROTOCOL_NAME), PROTOCOL_NAME);
    if a.len() != b.len() {
        r == Err::<InnerProductArgument, IpaError>(IpaError::InvalidInputLength) && t1 == t_proto
    } else {
        let t2 = spec_mix(spec_mix(t_proto, LABEL_COMM_A_VEC), comm);
        let t3 = spec_mix(spec_mix(t2, LABEL_C), c);
        let t4 = spec_mix(t3, LABEL_R);
        let gcs = f_mul(gc0, spec_chal(t4));
        match spec_prove_rounds(a, b, g, gcs, t4) {
            Some(out) => {
                &&& r is Ok
                &&& (r matches Ok(arg) ==> cvals(arg.L_vec@) == out.0 && cvals(arg.R_vec@)
                    == out.1 && arg.a_hat.v == out.2 && t1 == out.3)
            },
            None => r == Err::<InnerProductArgument, IpaError>(IpaError::InvalidInputLength),
        }
    }
}

/// The prover's loop relation: the whole folding outcome equals the
/// already-emitted commitment prefixes followed by whatever the remaining
/// rounds on the current state produce.
#[verifier::opaque]
pub open spec fn spec_prove_inv(
    a: Seq<u64>,
    b: Seq<u64>,
    g: Seq<u64>,
    gc: u64,
    t: u64,
    whole: Option<(Seq<u64>, Seq<u64>, u64, u64)>,
    lp: Seq<u64>,
    rp: Seq<u64>,
) -> bool {
    match spec_prove_rounds(a, b, g, gc, t) {
        Some(rest) => whole == Some((lp + rest.0, rp + rest.1, rest.2, rest.3)),
        None => whole is None,
    }
}

/// One unfolding step of `spec_prove_rounds`, packaged for the prover's
/// loop: carrying the already-emitted prefixes `lp, rp` forward across one
/// round preserves the relation to the whole outcome.
proof fn lemma_prove_invariant_step(
    a_pre: Seq<u64>,
    b_pre: Seq<u64>,
    g_pre: Seq<u64>,
    gc: u64,
    t_pre: u64,
    whole: Option<(Seq<u64>, Seq<u64>, u64, u64)>,
    lp: Seq<u64>,
    rp: Seq<u64>,
    ci: u64,
    t_post: u64,
    a_new: Seq<u64>,
    b_new: Seq<u64>,
    g_new: Seq<u64>,
)
    requires
        a_pre.len() > 1,
        a_pre.len() % 2 == 0,
        spec_prove_inv(a_pre, b_pre, g_pre, gc, t_pre, whole, lp, rp),
        t_post == spec_round_state(
            t_pre,
            spec_round_l(a_pre, b_pre, g_pre, gc),
            spec_round_r(a_pre, b_pre, g_pre, gc),
        ),
        spec_invert(spec_chal(t_post)) == Some(ci),
        a_new == spec_fold(
            a_pre.take((a_pre.len() / 2) as int),
            a_pre.skip((a_pre.len() / 2) as int),
            spec_chal(t_post),
            ci,
        ),
        b_new == spec_fold(
            b_pre.take((b_pre.len() / 2) as int),
            b_pre.skip((b_pre.len() / 2) as int),
            ci,
            spec_chal(t_post),
        ),
        g_new == spec_fold(
            g_pre.take((g_pre.len() / 2) as int),
            g_pre.skip((g_pre.len() / 2) as int),
            ci,
            spec_chal(t_post),
        ),
        b_pre.len() == a_pre.len(),
        g_pre.len() == a_pre.len(),
    ensures
        spec_prove_inv(
            a_new,
            b_new,
            g_new,
            gc,
            t_post,
            whole,
            lp + seq![spec_round_l(a_pre, b_pre, g_pre, gc)],
            rp + seq![spec_round_r(a_pre, b_pre, g_pre, gc)],
        ),
{
    reveal(spec_prove_inv);
    reveal(spec_prove_rounds);
    let l = spec_round_l(a_pre, b_pre, g_pre, gc);
    let rr = spec_round_r(a_pre, b_pre, g_pre, gc);
    if let Some(rest) = spec_prove_rounds(a_new, b_new, g_new, gc, t_post) {
        assert(spec_prove_rounds(a_pre, b_pre, g_pre, gc, t_pre) == Some(
            (seq![l] + rest.0, seq![rr] + rest.1, rest.2, rest.3),
        ));
        assert(lp + (seq![l] + rest.0) =~= (lp + seq![l]) + rest.0);
        assert(rp + (seq![rr] + rest.1) =~= (rp + seq![rr]) + rest.1);
    }
}

/// One full iteration of the prover's loop: runs a round, records the two
/// cross commitments, and hands back the folded vectors and key. The
/// relation between the already-emitted commitments and the whole folding
/// outcome `whole` is carried across the step.
#[verifier::rlimit(100)]
#[allow(non_snake_case)]
fn prove_step(
    a_vec: Vec<Scalar>,
    b_vec: Vec<Scalar>,
    ck_cur: CommitmentKey,
    ck_c: &CommitmentKey,
    transcript: &mut TranscriptEngine,
    L_vec: &mut Vec<CompressedCommitment>,
    R_vec: &mut Vec<CompressedCommitment>,
    Ghost(whole): Ghost<Option<(Seq<u64>, Seq<u64>, u64, u64)>>,
) -> (r: Result<(Vec<Scalar>, Vec<Scalar>, CommitmentKey), IpaError>)
    requires
        a_vec@.len() == b_vec@.len(),
        a_vec@.len() == ck_cur.gens@.len(),
        a_vec@.len() >= 2,
        a_vec@.len() % 2 == 0,
        ck_c.gens@.len() == 1,
        seq_wf(a_vec@),
        seq_wf(b_vec@),
        key_wf(ck_cur),
        key_wf(*ck_c),
        old(L_vec)@.len() == old(R_vec)@.len(),
        cseq_wf(old(L_vec)@),
        cseq_wf(old(R_vec)@),
        spec_prove_inv(
            svals(a_vec@),
            svals(b_vec@),
            svals(ck_cur.gens@),
            ck_c.gens@[0].v,
            old(transcript).state,
            whole,
            cvals(old(L_vec)@),
            cvals(old(R_vec)@),
        ),
    ensures
        final(L_vec)@.len() == final(R_vec)@.len(),
        cseq_wf(final(L_vec)@),
        cseq_wf(final(R_vec)@),
        r matches Ok(t) ==> {
            &&& final(L_vec)@.len() == old(L_vec)@.len() + 1
            &&& t.0@.len() == a_vec@.len() / 2
            &&& seq_wf(t.0@)
            &&& t.1@.len() == a_vec@.len() / 2
            &&& seq_wf(t.1@)
            &&& t.2.gens@.len() == a_vec@.len() / 2
            &&& key_wf(t.2)
            &&& spec_prove_inv(
                svals(t.0@),
                svals(t.1@),
                svals(t.2.gens@),
                ck_c.gens@[0].v,
                final(transcript).state,
                whole,
                cvals(final(L_vec)@),
                cvals(final(R_vec)@),
            )
        },
        r is Err ==> r == Err::<(Vec<Scalar>, Vec<Scalar>, CommitmentKey), IpaError>(
            IpaError::InvalidInputLength,
        ) && whole is None && final(L_vec)@ == old(L_vec)@ && final(R_vec)@ == old(R_vec)@,
{
    let ghost a_pre = svals(a_vec@);
    let ghost b_pre = svals(b_vec@);
    let ghost g_pre = svals(ck_cur.gens@);
    let ghost t_pre = transcript.state;
    let ghost l_pre = cvals(L_vec@);
    let ghost r_pre = cvals(R_vec@);
    let ghost gcs = ck_c.gens@[0].v;
    let (cl, cr, a_folded, b_folded, ck_folded) = match prove_round(
        &a_vec,
        &b_vec,
        &ck_cur,
        ck_c,
        transcript,
    ) {
        Ok(t) => t,
        Err(e) => {
            proof {
                reveal(spec_prove_inv);
                reveal(spec_prove_rounds);
            }
            return Err(e);
        },
    };
    L_vec.push(cl);
    R_vec.push(cr);
    proof {
        let l = spec_round_l(a_pre, b_pre, g_pre, gcs);
        let rr = spec_round_r(a_pre, b_pre, g_pre, gcs);
        let ch = spec_chal(transcript.state);
        if let Some(ci) = spec_invert(ch) {
            lemma_prove_invariant_step(
                a_pre,
                b_pre,
                g_pre,
                gcs,
                t_pre,
                whole,
                l_pre,
                r_pre,
                ci,
                transcript.state,
                svals(a_folded@),
                svals(b_folded@),
                svals(ck_folded.gens@),
            );
        } else {
            assert(false);
        }
        assert(cvals(L_vec@) =~= l_pre + seq![l]);
        assert(cvals(R_vec@) =~= r_pre + seq![rr]);
    }
    Ok((a_folded, b_folded, ck_folded))
}

/// The prover's whole folding phase, executable: `log2(n)` rounds, the
/// emitted commitments and the final opening, pinned by
/// `spec_prove_rounds`.
#[verifier::rlimit(100)]
fn prove_rounds(
    a_vec0: &Vec<Scalar>,
    b_vec0: &Vec<Scalar>,
    ck0: &CommitmentKey,
    ck_c: &CommitmentKey,
    transcript: &mut TranscriptEngine,
) -> (r: Result<(Vec<CompressedCommitment>, Vec<CompressedCommitment>, Scalar), IpaError>)
    requires
        spec_is_pow2(a_vec0@.len()),
        a_vec0@.len() == b_vec0@.len(),
        a_vec0@.len() == ck0.gens@.len(),
        ck_c.gens@.len() == 1,
        seq_wf(a_vec0@),
        seq_wf(b_vec0@),
        key_wf(*ck0),
        key_wf(*ck_c),
    ensures
        match spec_prove_rounds(
            svals(a_vec0@),
            svals(b_vec0@),
            svals(ck0.gens@),
            ck_c.gens@[0].v,
            old(transcript).state,
        ) {
            Some(out) => {
                &&& r is Ok
                &&& (r matches Ok(t) ==> {
                    &&& cvals(t.0@) == out.0
                    &&& cvals(t.1@) == out.1
                    &&& t.2.v == out.2
                    &&& final(transcript).state == out.3
                })
            },
            None => r == Err::<(Vec<CompressedCommitment>, Vec<CompressedCommitment>, Scalar), IpaError>(
                IpaError::InvalidInputLength,
            ),
        },
        r matches Ok(t) ==> {
            &&& t.0@.len() == spec_log2(a_vec0@.len())
            &&& t.1@.len() == spec_log2(a_vec0@.len())
            &&& cseq_wf(t.0@)
            &&& cseq_wf(t.1@)
            &&& sc_wf(t.2)
        },
        a_vec0@.len() == 1 ==> (r matches Ok(t) && t.0@.len() == 0 && t.1@.len() == 0 && t.2
            == a_vec0@[0]),
{
    let ghost n0 = a_vec0@.len();
    let ghost gcs = ck_c.gens@[0].v;
    let ghost a0 = svals(a_vec0@);
    let ghost b0 = svals(b_vec0@);
    let ghost g0 = svals(ck0.gens@);
    let ghost t_start = transcript.state;
    let ghost whole = spec_prove_rounds(a0, b0, g0, gcs, t_start);
    let mut L_vec: Vec<CompressedCommitment> = Vec::new();
    let mut R_vec: Vec<CompressedCommitment> = Vec::new();
    let mut a_vec: Vec<Scalar> = copy_scalars(a_vec0);
    let mut b_vec: Vec<Scalar> = copy_scalars(b_vec0);
    let mut ck_cur: CommitmentKey = CommitmentKey { gens: copy_scalars(&ck0.gens) };
    proof {
        reveal(spec_prove_inv);
        if let Some(rest) = spec_prove_rounds(
            svals(a_vec@),
            svals(b_vec@),
            svals(ck_cur.gens@),
            gcs,
            transcript.state,
        ) {
            assert(cvals(L_vec@) + rest.0 =~= rest.0);
            assert(cvals(R_vec@) + rest.1 =~= rest.1);
        }
        assert(spec_prove_inv(
            svals(a_vec@),
            svals(b_vec@),
            svals(ck_cur.gens@),
            gcs,
            transcript.state,
            whole,
            cvals(L_vec@),
            cvals(R_vec@),
        ));
    }

    while a_vec.len() > 1
        invariant
            a_vec@.len() == b_vec@.len(),
            a_vec@.len() == ck_cur.gens@.len(),
            spec_is_pow2(a_vec@.len()),
            seq_wf(a_vec@),
            seq_wf(b_vec@),
            key_wf(ck_cur),
            key_wf(*ck_c),
            ck_c.gens@.len() == 1,
            gcs == ck_c.gens@[0].v,
            L_vec@.len() == R_vec@.len(),
            cseq_wf(L_vec@),
            cseq_wf(R_vec@),
            L_vec@.len() + spec_log2(a_vec@.len()) == spec_log2(n0),
            n0 == 1 ==> (a_vec@.len() == 1 && L_vec@.len() == 0),
            n0 == a0.len(),
            a0 == svals(a_vec0@),
            b0 == svals(b_vec0@),
            g0 == svals(ck0.gens@),
            t_start == old(transcript).state,
            whole == spec_prove_rounds(a0, b0, g0, gcs, t_start),
            spec_prove_inv(
                svals(a_vec@),
                svals(b_vec@),
                svals(ck_cur.gens@),
                gcs,
                transcript.state,
                whole,
                cvals(L_vec@),
                cvals(R_vec@),
            ),
        decreases a_vec@.len(),
    {
        let ghost n_cur = a_vec@.len();
        let step = prove_step(
            a_vec,
            b_vec,
            ck_cur,
            ck_c,
            transcript,
            &mut L_vec,
            &mut R_vec,
            Ghost(whole),
        );
        match step {
            Ok(t) => {
                a_vec = t.0;
                b_vec = t.1;
                ck_cur = t.2;
            },
            Err(e) => {
                return Err(e);
            },
        }
        proof {
            assert(spec_log2(n_cur) == 1 + spec_log2(n_cur / 2));
        }
    }

    proof {
        reveal(spec_prove_inv);
        reveal(spec_prove_rounds);
        assert(a_vec@.len() == 1);
        let rest = spec_prove_rounds(
            svals(a_vec@),
            svals(b_vec@),
            svals(ck_cur.gens@),
            gcs,
            transcript.state,
        );
        assert(rest matches Some(out) && out.2 == svals(a_vec@)[0] && out.3 == transcript.state);
        if let Some(out) = rest {
            assert(cvals(L_vec@) + out.0 =~= cvals(L_vec@));
            assert(cvals(R_vec@) + out.1 =~= cvals(R_vec@));
        }
    }
    let a_hat: Scalar = a_vec[0];
    Ok((L_vec, R_vec, a_hat))
}

impl InnerProductArgument {
    /// The protocol's domain separator.
    pub fn protocol_name() -> (r: u64)
        ensures
            r == PROTOCOL_NAME,
    {
        PROTOCOL_NAME
    }

    /// Produces the argument: `log2(n)` rounds, each emitting the two cross
    /// commitments of the halves and folding witness, public vector and key
    /// by the round challenge. The whole computation — the absorbs, the
    /// challenges, the emitted commitments, the final opening and the
    /// transcript — is pinned by `spec_prove_rel`; an error is possible
    /// only on a length mismatch or where a round challenge has no
    /// inverse. For `n = 1` the argument is the bare opening
    /// `a_hat = a_vec[0]`, produced unconditionally.
    #[allow(non_snake_case)]
    #[verifier::rlimit(100)]
    pub fn prove(
        ck: &CommitmentKey,
        ck_c: &CommitmentKey,
        U: &InnerProductInstance,
        W: &InnerProductWitness,
        transcript: &mut TranscriptEngine,
    ) -> (r: Result<InnerProductArgument, IpaError>)
        requires
            spec_is_pow2(U.b_vec@.len()),
            ck.gens@.len() == U.b_vec@.len(),
            ck_c.gens@.len() == 1,
            inst_wf(*U),
            key_wf(*ck),
            key_wf(*ck_c),
            seq_wf(W.a_vec@),
        ensures
            spec_prove_rel(
                svals(ck.gens@),
                ck_c.gens@[0].v,
                U.comm_a_vec.g.v,
                U.c.v,
                svals(W.a_vec@),
                svals(U.b_vec@),
                old(transcript).state,
                r,
                final(transcript).state,
            ),
            U.b_vec@.len() != W.a_vec@.len() ==> r == Err::<InnerProductArgument, IpaError>(
                IpaError::InvalidInputLength,
            ),
            r matches Ok(arg) ==> {
                &&& arg_wf(arg)
                &&& U.b_vec@.len() == W.a_vec@.len()
                &&& arg.L_vec@.len() == spec_log2(U.b_vec@.len())
                &&& arg.R_vec@.len() == spec_log2(U.b_vec@.len())
            },
            U.b_vec@.len() == 1 && W.a_vec@.len() == 1 ==> (r matches Ok(arg) && arg.L_vec@.len()
                == 0 && arg.R_vec@.len() == 0 && arg.a_hat == W.a_vec@[0]),
    {
        transcript.absorb_u64(LABEL_PROTOCOL_NAME, Self::protocol_name());

        if U.b_vec.len() != W.a_vec.len() {
            return Err(IpaError::InvalidInputLength);
        }

        transcript.absorb_commitment(LABEL_COMM_A_VEC, &U.comm_a_vec);
        transcript.absorb_scalar(LABEL_C, &U.c);

        // Merge the claimed-product generator into the commitment space, so
        // a different claimed value cannot be swapped in undetected.
        let r_merge: Scalar = transcript.challenge(LABEL_R);
        let ck_c = ck_c.scale(&r_merge);

        match prove_rounds(&W.a_vec, &U.b_vec, ck, &ck_c, transcript) {
            Ok(t) => Ok(InnerProductArgument { L_vec: t.0, R_vec: t.1, a_hat: t.2 }),
            Err(e) => Err(e),
        }
    }

    /// Checks the argument against the instance: the shape and
    /// canonical-form checks, the instance absorbs, the base-merging
    /// challenge, the replay of the recorded round commitments, batch
    /// inversion, the tensor reconstruction and the final commitment
    /// equality, all pinned by `spec_verify_rel`. A mis-shaped or
    /// malformed argument (wrong counts, 32 or more rounds, a
    /// non-canonical encoding) is a shape error; a well-formed one is
    /// accepted exactly when the reconstructed commitment matches.
    #[allow(non_snake_case)]
    #[verifier::rlimit(100)]
    pub fn verify(
        &self,
        ck: &CommitmentKey,
        ck_c: &CommitmentKey,
        n: usize,
        U: &InnerProductInstance,
        transcript: &mut TranscriptEngine,
    ) -> (r: Result<(), IpaError>)
        requires
            ck.gens@.len() >= n,
            ck_c.gens@.len() == 1,
            key_wf(*ck),
            key_wf(*ck_c),
            inst_wf(*U),
        ensures
            spec_verify_rel(
                svals(ck.gens@),
                ck_c.gens@[0].v,
                n as nat,
                U.comm_a_vec.g.v,
                U.c.v,
                svals(U.b_vec@),
                cvals(self.L_vec@),
                cvals(self.R_vec@),
                self.a_hat.v,
                old(transcript).state,
                r,
                final(transcript).state,
            ),
    {
        transcript.absorb_u64(LABEL_PROTOCOL_NAME, Self::protocol_name());

        let ghost lv = cvals(self.L_vec@);
        let ghost rv = cvals(self.R_vec@);
        let ghost t0 = old(transcript).state;
        let ghost g0 = svals(ck.gens@);
        let ghost gc0 = ck_c.gens@[0].v;
        let k: usize = self.L_vec.len();
        if U.b_vec.len() != n || k != self.R_vec.len() || k >= 32 {
            return Err(IpaError::InvalidInputLength);
        }
        let n_expected: usize = pow2_usize(k);
        if n != n_expected {
            return Err(IpaError::InvalidInputLength);
        }
        if self.a_hat.v >= MODULUS {
            return Err(IpaError::InvalidInputLength);
        }
        let ck_l: CommitmentKey = match CommitmentKey::reinterpret_commitments_as_ck(
            &self.L_vec,
        ) {
            Ok(key) => key,
            Err(_) => {
                proof {
                    assert(!cseq_wf(self.L_vec@));
                    let bad = choose|i: int| 0 <= i < self.L_vec@.len()
                        && !comp_wf(self.L_vec@[i]);
                    assert(lv[bad] >= MODULUS);
                }
                return Err(IpaError::InvalidInputLength);
            },
        };
        let ck_r: CommitmentKey = match CommitmentKey::reinterpret_commitments_as_ck(
            &self.R_vec,
        ) {
            Ok(key) => key,
            Err(_) => {
                proof {
                    assert(!cseq_wf(self.R_vec@));
                    let bad = choose|i: int| 0 <= i < self.R_vec@.len()
                        && !comp_wf(self.R_vec@[i]);
                    assert(rv[bad] >= MODULUS);
                }
                return Err(IpaError::InvalidInputLength);
            },
        };
        proof {
            assert(svals(ck_l.gens@) =~= lv);
            assert(svals(ck_r.gens@) =~= rv);
            assert forall|i: int| 0 <= i < k implies lv[i] < MODULUS by {
                assert(comp_wf(self.L_vec@[i]));
            }
            assert forall|i: int| 0 <= i < k implies rv[i] < MODULUS by {
                assert(comp_wf(self.R_vec@[i]));
            }
        }

        proof {
            vstd::arithmetic::power2::lemma_pow2_pos(k as nat);
        }
        let res: Result<(), IpaError> = verify_main(
            &self.L_vec,
            &self.R_vec,
            &ck_l,
            &ck_r,
            self.a_hat,
            ck,
            ck_c,
            n,
            k,
            U,
            transcript,
        );
        res
    }
}

} // verus!
