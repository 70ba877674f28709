//! The scalar field: arithmetic modulo the Mersenne prime `2^61 - 1`.
//!
//! Every protocol value is a `Scalar`, a field element kept in canonical
//! reduced form (`v < MODULUS`). The spec functions `f_add`, `f_sub` and
//! `f_mul` are the mathematical model that every contract in the crate
//! speaks of.

use vstd::prelude::*;
use vstd::arithmetic::div_mod::{lemma_mul_mod_noop_left, lemma_mul_mod_noop_right};
use vstd::arithmetic::mul::lemma_mul_is_associative;

verus! {

/// The field modulus, a prime: `2^61 - 1`.
pub const MODULUS: u64 = 2305843009213693951;

/// One element of the scalar field, kept reduced: `v < MODULUS`.
#[derive(Clone, Copy, Debug, PartialEq, Eq, Structural, Hash)]
pub struct Scalar {
    pub v: u64,
}

/// Well-formedness of a scalar: its representative is canonical.
pub open spec fn sc_wf(s: Scalar) -> bool {
    s.v < MODULUS
}

/// Well-formedness of a sequence of scalars.
pub open spec fn seq_wf(s: Seq<Scalar>) -> bool {
    forall|i: int| 0 <= i < s.len() ==> sc_wf(#[trigger] s[i])
}

/// The underlying representatives of a sequence of scalars.
pub open spec fn svals(s: Seq<Scalar>) -> Seq<u64> {
    s.map_values(|x: Scalar| x.v)
}

/// Field addition on representatives.
pub open spec fn f_add(a: u64, b: u64) -> u64 {
    ((a + b) % (MODULUS as int)) as u64
}

/// Field subtraction on representatives.
pub open spec fn f_sub(a: u64, b: u64) -> u64 {
    ((a - b) % (MODULUS as int)) as u64
}

/// Field multiplication on representatives.
pub open spec fn f_mul(a: u64, b: u64) -> u64 {
    ((a * b) % (MODULUS as int)) as u64
}

/// Taking representatives distributes over concatenation.
pub proof fn lemma_svals_concat(x: Seq<Scalar>, y: Seq<Scalar>)
    ensures
        svals(x + y) == svals(x) + svals(y),
{
    assert(svals(x + y) =~= svals(x) + svals(y));
}

/// Taking representatives commutes with a prefix.
pub proof fn lemma_svals_take(x: Seq<Scalar>, n: int)
    requires
        0 <= n <= x.len(),
    ensures
        svals(x.take(n)) == svals(x).take(n),
{
    assert(svals(x.take(n)) =~= svals(x).take(n));
}

/// Taking representatives commutes with a suffix.
pub proof fn lemma_svals_skip(x: Seq<Scalar>, n: int)
    requires
        0 <= n <= x.len(),
    ensures
        svals(x.skip(n)) == svals(x).skip(n),
{
    assert(svals(x.skip(n)) =~= svals(x).skip(n));
}

/// Field multiplication is commutative.
pub proof fn lemma_f_mul_comm(a: u64, b: u64)
    ensures
        f_mul(a, b) == f_mul(b, a),
{
}

/// Field multiplication is associative.
pub proof fn lemma_f_mul_assoc(a: u64, b: u64, c: u64)
    ensures
        f_mul(f_mul(a, b), c) == f_mul(a, f_mul(b, c)),
{
    let m = MODULUS as int;
    lemma_mul_mod_noop_left(a * b, c as int, m);
    lemma_mul_mod_noop_right(a as int, b * c, m);
    lemma_mul_is_associative(a as int, b as int, c as int);
}

/// The state mirror of square-and-multiply exponentiation.
pub open spec fn spec_pow_loop(result: u64, base: u64, e: u64) -> u64
    decreases e,
{
    if e == 0 {
        result
    } else {
        spec_pow_loop(
            if e % 2 == 1 {
                f_mul(result, base)
            } else {
                result
            },
            f_mul(base, base),
            e / 2,
        )
    }
}

/// What `Scalar::invert` returns: the exponentiation candidate when it
/// passes the explicit product check, nothing otherwise.
#[verifier::opaque]
pub open spec fn spec_invert(x: u64) -> Option<u64> {
    let c = spec_pow_loop(1, x, (MODULUS - 2) as u64);
    if f_mul(x, c) == 1 {
        Some(c)
    } else {
        None
    }
}

/// The multiplicative inverse of `x`, where one exists: inverses are
/// unique, so this names a single value.
pub open spec fn spec_inv_val(x: u64) -> u64 {
    choose|y: u64| y < MODULUS && f_mul(x, y) == 1
}

/// A field element has at most one inverse.
pub proof fn lemma_inverse_unique(x: u64, y1: u64, y2: u64)
    requires
        y1 < MODULUS,
        y2 < MODULUS,
        f_mul(x, y1) == 1,
        f_mul(x, y2) == 1,
    ensures
        y1 == y2,
{
    vstd::arithmetic::mul::lemma_mul_basics(y1 as int);
    vstd::arithmetic::mul::lemma_mul_basics(y2 as int);
    assert(f_mul(y1, 1) == y1);
    assert(f_mul(1, y2) == y2);
    lemma_f_mul_assoc(y1, x, y2);
    lemma_f_mul_comm(y1, x);
}

/// Any inverse of `x` is the named one.
pub proof fn lemma_inv_val_is(x: u64, y: u64)
    requires
        y < MODULUS,
        f_mul(x, y) == 1,
    ensures
        spec_inv_val(x) == y,
{
    let w = choose|z: u64| z < MODULUS && f_mul(x, z) == 1;
    assert(y < MODULUS && f_mul(x, y) == 1);
    lemma_inverse_unique(x, w, y);
}

impl Scalar {
    /// The additive identity.
    pub fn zero() -> (r: Scalar)
        ensures
            sc_wf(r),
            r.v == 0,
    {
        Scalar { v: 0 }
    }

    /// The multiplicative identity.
    pub fn one() -> (r: Scalar)
        ensures
            sc_wf(r),
            r.v == 1,
    {
        Scalar { v: 1 }
    }

    /// The canonical scalar representing `x`.
    pub fn from_u64(x: u64) -> (r: Scalar)
        ensures
            sc_wf(r),
            r.v == x % MODULUS,
    {
        Scalar { v: x % MODULUS }
    }

    /// Field addition.
    pub fn add(&self, other: &Scalar) -> (r: Scalar)
        requires
            sc_wf(*self),
            sc_wf(*other),
        ensures
            sc_wf(r),
            r.v == f_add(self.v, other.v),
    {
        Scalar { v: (self.v + other.v) % MODULUS }
    }

    /// Field subtraction.
    pub fn sub(&self, other: &Scalar) -> (r: Scalar)
        requires
            sc_wf(*self),
            sc_wf(*other),
        ensures
            sc_wf(r),
            r.v == f_sub(self.v, other.v),
    {
        let d: u64 = (self.v + MODULUS) - other.v;
        let r: u64 = d % MODULUS;
        proof {
            let m = MODULUS as int;
            assert(d == self.v - other.v + m);
            assert((self.v - other.v + m) % m == (self.v - other.v) % m) by {
                vstd::arithmetic::div_mod::lemma_mod_add_multiples_vanish(
                    self.v - other.v,
                    m,
                );
            }
        }
        Scalar { v: r }
    }

    /// Field multiplication.
    pub fn mul(&self, other: &Scalar) -> (r: Scalar)
        requires
            sc_wf(*self),
            sc_wf(*other),
        ensures
            sc_wf(r),
            r.v == f_mul(self.v, other.v),
    {
        proof {
            assert((self.v as int) * (other.v as int) < (MODULUS as int) * (MODULUS as int))
                by (nonlinear_arith)
                requires
                    self.v < MODULUS,
                    other.v < MODULUS,
            ;
        }
        let wide: u128 = (self.v as u128) * (other.v as u128);
        let red: u128 = wide % (MODULUS as u128);
        Scalar { v: red as u64 }
    }

    /// The square of a scalar.
    pub fn square(&self) -> (r: Scalar)
        requires
            sc_wf(*self),
        ensures
            sc_wf(r),
            r.v == f_mul(self.v, self.v),
    {
        self.mul(self)
    }

    /// The multiplicative inverse, computed by exponentiation and then
    /// checked by one multiplication: `Some(y)` is returned only when
    /// `self * y == 1` really holds, so nothing about exponentiation needs
    /// to be trusted. Zero has no inverse and always yields `None`.
    pub fn invert(&self) -> (r: Option<Scalar>)
        requires
            sc_wf(*self),
        ensures
            r matches Some(y) ==> sc_wf(y) && f_mul(self.v, y.v) == 1 && spec_invert(self.v)
                == Some(y.v),
            r is None ==> spec_invert(self.v) is None,
            self.v == 0 ==> r is None,
    {
        let cand: Scalar = pow_candidate(*self, MODULUS - 2);
        let check: Scalar = self.mul(&cand);
        proof {
            reveal(spec_invert);
            vstd::arithmetic::mul::lemma_mul_basics(cand.v as int);
        }
        if check.v == 1 {
            Some(cand)
        } else {
            None
        }
    }
}

/// Square-and-multiply exponentiation, pinned to its state mirror;
/// `Scalar::invert` still checks the candidate explicitly.
fn pow_candidate(base: Scalar, exp: u64) -> (r: Scalar)
    requires
        sc_wf(base),
    ensures
        sc_wf(r),
        r.v == spec_pow_loop(1, base.v, exp),
{
    let mut result: Scalar = Scalar { v: 1 };
    let mut b: Scalar = base;
    let mut e: u64 = exp;
    while e > 0
        invariant
            sc_wf(result),
            sc_wf(b),
            spec_pow_loop(result.v, b.v, e) == spec_pow_loop(1, base.v, exp),
        decreases e,
    {
        if e % 2 == 1 {
            result = result.mul(&b);
        }
        b = b.mul(&b);
        e = e / 2;
    }
    result
}

/// Copies a vector of scalars; the copy has exactly the same view.
pub fn copy_scalars(v: &Vec<Scalar>) -> (r: Vec<Scalar>)
    ensures
        r@ == v@,
{
    let mut r: Vec<Scalar> = Vec::new();
    let mut i: usize = 0;
    while i < v.len()
        invariant
            i <= v.len(),
            r@ == v@.take(i as int),
        decreases v.len() - i,
    {
        r.push(v[i]);
        proof {
            assert(r@ =~= v@.take(i + 1));
        }
        i = i + 1;
    }
    proof {
        assert(v@.take(v@.len() as int) =~= v@);
    }
    r
}

/// Splits a vector of scalars at `mid` into copies of its two parts.
pub fn split_scalars(v: &Vec<Scalar>, mid: usize) -> (r: (Vec<Scalar>, Vec<Scalar>))
    requires
        mid <= v@.len(),
    ensures
        r.0@ == v@.take(mid as int),
        r.1@ == v@.skip(mid as int),
{
    let mut left: Vec<Scalar> = Vec::new();
    let mut right: Vec<Scalar> = Vec::new();
    let mut i: usize = 0;
    while i < mid
        invariant
            i <= mid <= v@.len(),
            left@ == v@.take(i as int),
        decreases mid - i,
    {
        left.push(v[i]);
        proof {
            assert(left@ =~= v@.take(i + 1));
        }
        i = i + 1;
    }
    let mut j: usize = mid;
    while j < v.len()
        invariant
            mid <= j <= v@.len(),
            right@ == v@.subrange(mid as int, j as int),
        decreases v@.len() - j,
    {
        right.push(v[j]);
        proof {
            assert(right@ =~= v@.subrange(mid as int, j + 1));
        }
        j = j + 1;
    }
    proof {
        assert(right@ =~= v@.skip(mid as int));
    }
    (left, right)
}

} // verus!
