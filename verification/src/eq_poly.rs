//! The multilinear equality polynomial: maps an evaluation point of length
//! `k` to its Lagrange-basis vector of length `2^k`, the tensor product of
//! `(1 - point_i, point_i)` over the coordinates.

use vstd::prelude::*;
use vstd::arithmetic::power2::pow2;
use crate::field::{Scalar, sc_wf, seq_wf, svals, f_sub, f_mul};

verus! {

/// The Lagrange-basis vector of a point: for the empty point the single
/// value one; each further coordinate `x` doubles the vector into the
/// halves scaled by `1 - x` and by `x`.
pub open spec fn spec_eq_evals(point: Seq<u64>) -> Seq<u64>
    decreases point.len(),
{
    if point.len() == 0 {
        seq![1u64]
    } else {
        let prev = spec_eq_evals(point.drop_last());
        let x = point.last();
        prev.map_values(|t: u64| f_mul(t, f_sub(1, x))) + prev.map_values(|t: u64| f_mul(t, x))
    }
}

/// The basis vector of a point of length `k` has length `2^k`.
pub proof fn lemma_eq_evals_len(point: Seq<u64>)
    ensures
        spec_eq_evals(point).len() == pow2(point.len()),
    decreases point.len(),
{
    vstd::arithmetic::power2::lemma2_to64();
    if point.len() > 0 {
        lemma_eq_evals_len(point.drop_last());
        vstd::arithmetic::power2::lemma_pow2_unfold(point.len());
    }
}

/// The multilinear equality polynomial of an evaluation point.
#[derive(Debug, PartialEq, Eq)]
pub struct EqPolynomial {
    pub r: Vec<Scalar>,
}

impl EqPolynomial {
    /// Wraps the point the polynomial encodes.
    pub fn new(r: Vec<Scalar>) -> (p: EqPolynomial)
        ensures
            p.r@ == r@,
    {
        EqPolynomial { r }
    }

    /// The full Lagrange-basis vector of the point, of length
    /// `2^{point length}`.
    pub fn evals(&self) -> (r: Vec<Scalar>)
        requires
            seq_wf(self.r@),
        ensures
            seq_wf(r@),
            svals(r@) == spec_eq_evals(svals(self.r@)),
            r@.len() == pow2(self.r@.len()),
    {
        let ghost pt = svals(self.r@);
        let one: Scalar = Scalar::one();
        let mut e: Vec<Scalar> = Vec::new();
        e.push(one);
        proof {
            assert(svals(e@) =~= spec_eq_evals(pt.take(0)));
        }
        let mut j: usize = 0;
        while j < self.r.len()
            invariant
                j <= self.r@.len(),
                pt == svals(self.r@),
                seq_wf(self.r@),
                seq_wf(e@),
                one.v == 1,
                svals(e@) == spec_eq_evals(pt.take(j as int)),
            decreases self.r@.len() - j,
        {
            let x: Scalar = self.r[j];
            let w: Scalar = one.sub(&x);
            let m: usize = e.len();
            let mut next: Vec<Scalar> = Vec::new();
            let mut i: usize = 0;
            while i < m
                invariant
                    i <= m == e@.len(),
                    seq_wf(e@),
                    sc_wf(w),
                    next@.len() == i,
                    forall|t: int| 0 <= t < i ==> #[trigger] next@[t].v == f_mul(e@[t].v, w.v),
                    forall|t: int| 0 <= t < i ==> sc_wf(#[trigger] next@[t]),
                decreases m - i,
            {
                next.push(e[i].mul(&w));
                i = i + 1;
            }
            let mut h: usize = 0;
            while h < m
                invariant
                    h <= m == e@.len(),
                    seq_wf(e@),
                    sc_wf(x),
                    sc_wf(w),
                    next@.len() == m + h,
                    forall|t: int| 0 <= t < m ==> #[trigger] next@[t].v == f_mul(e@[t].v, w.v),
                    forall|t: int| 0 <= t < h ==> #[trigger] next@[m + t].v == f_mul(e@[t].v, x.v),
                    forall|t: int| 0 <= t < m + h ==> sc_wf(#[trigger] next@[t]),
                decreases m - h,
            {
                next.push(e[h].mul(&x));
                h = h + 1;
            }
            proof {
                assert(pt.take(j + 1).drop_last() =~= pt.take(j as int));
                assert(pt.take(j + 1).last() == self.r@[j as int].v);
                let prev = spec_eq_evals(pt.take(j as int));
                let lo = prev.map_values(|t: u64| f_mul(t, f_sub(1, x.v)));
                let hi = prev.map_values(|t: u64| f_mul(t, x.v));
                assert(w.v == f_sub(1, x.v));
                assert(prev.len() == m);
                assert forall|t: int| 0 <= t < 2 * (m as int) implies svals(next@)[t] == (lo
                    + hi)[t] by {
                    assert(svals(next@)[t] == next@[t].v);
                    if t < m {
                        assert(next@[t].v == f_mul(e@[t].v, w.v));
                        assert(lo[t] == f_mul(prev[t], f_sub(1, x.v)));
                        assert(prev[t] == e@[t].v);
                    } else {
                        let u = t - m;
                        assert(next@[m + u].v == f_mul(e@[u].v, x.v));
                        assert(hi[u] == f_mul(prev[u], x.v));
                        assert(prev[u] == e@[u].v);
                        assert((lo + hi)[t] == hi[u]);
                    }
                }
                assert(svals(next@) =~= lo + hi);
            }
            e = next;
            j = j + 1;
        }
        proof {
            assert(pt.take(self.r@.len() as int) =~= pt);
            lemma_eq_evals_len(pt);
        }
        e
    }
}

} // verus!
