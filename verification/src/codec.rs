//! The wire form of an evaluation argument: a canonical word encoding,
//! `[k, L_0 .. L_{k-1}, R_0 .. R_{k-1}, a_hat]`, injective by
//! construction. Decoding accepts exactly the canonical encodings of
//! well-formed arguments with fewer than 32 rounds, so a decoded argument
//! verifies exactly as the original did.

use vstd::prelude::*;
use crate::field::{Scalar, MODULUS, sc_wf};
use crate::commitment::{CompressedCommitment, comp_wf, cvals};
use crate::engine::EvaluationArgument;
use crate::ipa::{InnerProductArgument, arg_wf};
use crate::IpaError;

verus! {

/// The canonical word sequence of an argument.
pub open spec fn spec_encode(a: InnerProductArgument) -> Seq<u64> {
    seq![a.L_vec@.len() as u64] + cvals(a.L_vec@) + cvals(a.R_vec@) + seq![a.a_hat.v]
}

/// Whether a word sequence is the canonical encoding of some well-formed
/// argument with fewer than 32 rounds.
pub open spec fn spec_valid_encoding(w: Seq<u64>) -> bool {
    &&& w.len() >= 2
    &&& w[0] < 32
    &&& w.len() == 2 * w[0] + 2
    &&& forall|i: int| 1 <= i < w.len() ==> #[trigger] w[i] < MODULUS
}

/// Serializes an argument into its canonical words.
pub fn encode(arg: &EvaluationArgument) -> (r: Vec<u64>)
    requires
        arg.ipa.L_vec@.len() == arg.ipa.R_vec@.len(),
        arg.ipa.L_vec@.len() < 32,
    ensures
        r@ == spec_encode(arg.ipa),
{
    let k: usize = arg.ipa.L_vec.len();
    let mut out: Vec<u64> = Vec::new();
    out.push(k as u64);
    let ghost target = spec_encode(arg.ipa);
    let mut i: usize = 0;
    while i < k
        invariant
            i <= k,
            k == arg.ipa.L_vec@.len(),
            k == arg.ipa.R_vec@.len(),
            out@ == seq![k as u64] + cvals(arg.ipa.L_vec@).take(i as int),
        decreases k - i,
    {
        out.push(arg.ipa.L_vec[i].v);
        proof {
            assert(out@ =~= seq![k as u64] + cvals(arg.ipa.L_vec@).take(i + 1));
        }
        i = i + 1;
    }
    proof {
        assert(cvals(arg.ipa.L_vec@).take(k as int) =~= cvals(arg.ipa.L_vec@));
    }
    let mut j: usize = 0;
    while j < k
        invariant
            j <= k,
            k == arg.ipa.L_vec@.len(),
            k == arg.ipa.R_vec@.len(),
            out@ == seq![k as u64] + cvals(arg.ipa.L_vec@) + cvals(arg.ipa.R_vec@).take(j as int),
        decreases k - j,
    {
        out.push(arg.ipa.R_vec[j].v);
        proof {
            assert(out@ =~= seq![k as u64] + cvals(arg.ipa.L_vec@) + cvals(arg.ipa.R_vec@).take(
                j + 1,
            ));
        }
        j = j + 1;
    }
    out.push(arg.ipa.a_hat.v);
    proof {
        assert(cvals(arg.ipa.R_vec@).take(k as int) =~= cvals(arg.ipa.R_vec@));
        assert(out@ =~= spec_encode(arg.ipa));
    }
    out
}

/// Deserializes canonical words back into an argument. Exactly the valid
/// encodings are accepted, and the decoded argument encodes back to the
/// same words.
pub fn decode(words: &Vec<u64>) -> (r: Result<EvaluationArgument, IpaError>)
    ensures
        r matches Ok(arg) ==> {
            &&& arg_wf(arg.ipa)
            &&& arg.ipa.L_vec@.len() == arg.ipa.R_vec@.len()
            &&& arg.ipa.L_vec@.len() < 32
            &&& spec_encode(arg.ipa) == words@
        },
        r is Ok <==> spec_valid_encoding(words@),
{
    if words.len() < 2 {
        return Err(IpaError::InvalidInputLength);
    }
    let k64: u64 = words[0];
    if k64 >= 32 {
        return Err(IpaError::InvalidInputLength);
    }
    let k: usize = k64 as usize;
    if words.len() != 2 * k + 2 {
        return Err(IpaError::InvalidInputLength);
    }
    let mut t: usize = 1;
    while t < words.len()
        invariant
            1 <= t <= words@.len(),
            forall|i: int| 1 <= i < t ==> #[trigger] words@[i] < MODULUS,
        decreases words@.len() - t,
    {
        if words[t] >= MODULUS {
            return Err(IpaError::InvalidInputLength);
        }
        t = t + 1;
    }
    let mut l_vec: Vec<CompressedCommitment> = Vec::new();
    let mut i: usize = 0;
    while i < k
        invariant
            i <= k,
            words@.len() == 2 * k + 2,
            forall|q: int| 1 <= q < words@.len() ==> #[trigger] words@[q] < MODULUS,
            l_vec@.len() == i,
            forall|q: int| 0 <= q < i ==> #[trigger] l_vec@[q].v == words@[1 + q],
            forall|q: int| 0 <= q < i ==> comp_wf(#[trigger] l_vec@[q]),
        decreases k - i,
    {
        l_vec.push(CompressedCommitment { v: words[1 + i] });
        i = i + 1;
    }
    let mut r_vec: Vec<CompressedCommitment> = Vec::new();
    let mut j: usize = 0;
    while j < k
        invariant
            j <= k,
            k < 32,
            words@.len() == 2 * k + 2,
            forall|q: int| 1 <= q < words@.len() ==> #[trigger] words@[q] < MODULUS,
            r_vec@.len() == j,
            forall|q: int| 0 <= q < j ==> #[trigger] r_vec@[q].v == words@[1 + k + q],
            forall|q: int| 0 <= q < j ==> comp_wf(#[trigger] r_vec@[q]),
        decreases k - j,
    {
        r_vec.push(CompressedCommitment { v: words[1 + k + j] });
        j = j + 1;
    }
    let a_hat: Scalar = Scalar { v: words[2 * k + 1] };
    let arg = EvaluationArgument {
        ipa: InnerProductArgument { L_vec: l_vec, R_vec: r_vec, a_hat },
    };
    proof {
        assert(sc_wf(arg.ipa.a_hat));
        assert(spec_encode(arg.ipa) =~= words@);
    }
    Ok(arg)
}

/// Round trip, first half: the canonical encoding of a well-formed
/// argument is always accepted by `decode`.
pub proof fn lemma_encoding_accepted(a: InnerProductArgument)
    requires
        arg_wf(a),
        a.L_vec@.len() == a.R_vec@.len(),
        a.L_vec@.len() < 32,
    ensures
        spec_valid_encoding(spec_encode(a)),
{
    let w = spec_encode(a);
    assert(w[0] == a.L_vec@.len() as u64);
    assert forall|i: int| 1 <= i < w.len() implies #[trigger] w[i] < MODULUS by {
        let k = a.L_vec@.len() as int;
        if i < 1 + k {
            assert(w[i] == a.L_vec@[i - 1].v);
        } else if i < 1 + 2 * k {
            assert(w[i] == a.R_vec@[i - 1 - k].v);
        } else {
            assert(w[i] == a.a_hat.v);
        }
    }
}

/// Round trip, second half: the encoding is injective, so whatever
/// `decode` returns for the encoding of `a` carries exactly the values of
/// `a`, and re-verifying it yields the same outcome as verifying `a`.
pub proof fn lemma_encoding_injective(a: InnerProductArgument, b: InnerProductArgument)
    requires
        spec_encode(a) == spec_encode(b),
        a.L_vec@.len() < 0x1_0000_0000,
        b.L_vec@.len() < 0x1_0000_0000,
        a.L_vec@.len() == a.R_vec@.len(),
        b.L_vec@.len() == b.R_vec@.len(),
    ensures
        a.L_vec@ == b.L_vec@,
        a.R_vec@ == b.R_vec@,
        a.a_hat == b.a_hat,
{
    let wa = spec_encode(a);
    let wb = spec_encode(b);
    let k = a.L_vec@.len() as int;
    assert(wa[0] == wb[0]);
    assert(b.L_vec@.len() as int == k);
    assert forall|i: int| 0 <= i < k implies a.L_vec@[i] == b.L_vec@[i] by {
        assert(wa[1 + i] == a.L_vec@[i].v);
        assert(wb[1 + i] == b.L_vec@[i].v);
    }
    assert(a.L_vec@ =~= b.L_vec@);
    assert forall|i: int| 0 <= i < k implies a.R_vec@[i] == b.R_vec@[i] by {
        assert(wa[1 + k + i] == a.R_vec@[i].v);
        assert(wb[1 + k + i] == b.R_vec@[i].v);
    }
    assert(a.R_vec@ =~= b.R_vec@);
    assert(wa[1 + 2 * k] == a.a_hat.v);
    assert(wb[1 + 2 * k] == b.a_hat.v);
}

} // verus!
