use vstd::prelude::*;
use crate::commitments::{commitment, Commitments, MultiCommitGens};
use crate::group::Point;
use crate::scalar::{fadd, finv, fmul, fsub, Scalar};

verus! {

/// A polynomial in one variable, given by its coefficients from the
/// constant one upwards.
#[derive(Debug)]
pub struct UniPoly {
    coeffs: Vec<Scalar>,
}

impl View for UniPoly {
    type V = Seq<nat>;

    closed spec fn view(&self) -> Seq<nat> {
        self.coeffs.deep_view()
    }
}

/// The coefficients of the polynomial of degree two that takes the three
/// values `e` at 0, 1 and 2.
pub open spec fn quadratic_from_evals(e: Seq<nat>) -> Seq<nat> {
    let c = e[0];
    let a = fmul(finv(2), fadd(fsub(fsub(e[2], e[1]), e[1]), c));
    let b = fsub(fsub(e[1], c), a);
    seq![c, b, a]
}

/// The coefficients of the polynomial of degree three that takes the
/// four values `e` at 0, 1, 2 and 3.
pub open spec fn cubic_from_evals(e: Seq<nat>) -> Seq<nat> {
    let d = e[0];
    let t3 = fsub(fsub(fsub(e[3], e[2]), e[2]), e[2]);
    let a = fmul(finv(6), fsub(fadd(fadd(fadd(t3, e[1]), e[1]), e[1]), e[0]));
    let t5 = fsub(fsub(fsub(fsub(fsub(fadd(e[0], e[0]), e[1]), e[1]), e[1]), e[1]), e[1]);
    let b = fmul(finv(2), fsub(fadd(fadd(fadd(fadd(t5, e[2]), e[2]), e[2]), e[2]), e[3]));
    let c = fsub(fsub(fsub(e[1], d), a), b);
    seq![d, c, b, a]
}

/// The coefficients of the polynomial of least degree that takes the
/// values `e` at 0, 1, 2 and, where there are four, at 3.
pub open spec fn uni_from_evals(e: Seq<nat>) -> Seq<nat> {
    if e.len() == 3 {
        quadratic_from_evals(e)
    } else {
        cubic_from_evals(e)
    }
}

/// The power of `r` with the exponent `k`.
pub open spec fn fpower(r: nat, k: nat) -> nat
    decreases k,
{
    if k == 0 {
        1
    } else if k == 1 {
        r
    } else {
        fmul(fpower(r, (k - 1) as nat), r)
    }
}

/// The value at `r` of the first `k` terms of a polynomial.
pub open spec fn uni_eval_terms(coeffs: Seq<nat>, r: nat, k: nat) -> nat
    decreases k,
{
    if k == 0 {
        0
    } else if k == 1 {
        coeffs[0]
    } else {
        fadd(
            uni_eval_terms(coeffs, r, (k - 1) as nat),
            fmul(fpower(r, (k - 1) as nat), coeffs[k - 1]),
        )
    }
}

/// The value of a polynomial at `r`.
pub open spec fn uni_eval(coeffs: Seq<nat>, r: nat) -> nat {
    uni_eval_terms(coeffs, r, coeffs.len())
}

impl UniPoly {
    /// The polynomial of least degree through the given values at 0, 1,
    /// 2 and, where there are four, 3.
    pub fn from_evals(evals: &[Scalar]) -> (r: Self)
        requires
            evals@.len() == 3 || evals@.len() == 4,
        ensures
            r@ == uni_from_evals(evals.deep_view()),
    {
        let two_inv = Scalar::from_u64(2).inverse().unwrap();
        let coeffs = if evals.len() == 3 {
            let c = evals[0];
            let a = two_inv.mul(&evals[2].sub(&evals[1]).sub(&evals[1]).add(&c));
            let b = evals[1].sub(&c).sub(&a);
            vec![c, b, a]
        } else {
            let six_inv = Scalar::from_u64(6).inverse().unwrap();
            let d = evals[0];
            let a = six_inv.mul(
                &evals[3].sub(&evals[2]).sub(&evals[2]).sub(&evals[2]).add(&evals[1]).add(
                    &evals[1],
                ).add(&evals[1]).sub(&evals[0]),
            );
            let b = two_inv.mul(
                &evals[0].add(&evals[0]).sub(&evals[1]).sub(&evals[1]).sub(&evals[1]).sub(
                    &evals[1],
                ).sub(&evals[1]).add(&evals[2]).add(&evals[2]).add(&evals[2]).add(&evals[2]).sub(
                    &evals[3],
                ),
            );
            let c = evals[1].sub(&d).sub(&a).sub(&b);
            vec![d, c, b, a]
        };
        let r = UniPoly { coeffs };
        proof {
            assert(r@ =~= uni_from_evals(evals.deep_view()));
        }
        r
    }

    /// The number of coefficients less one.
    pub fn degree(&self) -> (r: usize)
        requires
            self@.len() > 0,
        ensures
            r == self@.len() - 1,
    {
        self.coeffs.len() - 1
    }

    /// The coefficients, from the constant one upwards.
    pub fn as_vec(&self) -> (r: Vec<Scalar>)
        ensures
            r.deep_view() == self@,
    {
        let r = vstd::slice::slice_to_vec(self.coeffs.as_slice());
        proof {
            assert(r.deep_view() =~= self@);
        }
        r
    }

    /// The value at `r`.
    pub fn evaluate(&self, r: &Scalar) -> (res: Scalar)
        requires
            self@.len() > 0,
        ensures
            res@ == uni_eval(self@, r@),
    {
        let mut eval = self.coeffs[0];
        let mut power = *r;
        let mut i: usize = 1;
        while i < self.coeffs.len()
            invariant
                1 <= i <= self.coeffs@.len(),
                eval@ == uni_eval_terms(self@, r@, i as nat),
                power@ == fpower(r@, i as nat),
            decreases self.coeffs@.len() - i,
        {
            eval = eval.add(&power.mul(&self.coeffs[i]));
            power = power.mul(r);
            i += 1;
        }
        eval
    }

    /// The commitment to the vector of the coefficients.
    pub fn commit(&self, gens: &MultiCommitGens, blind: &Scalar) -> (r: Point)
        requires
            gens.n == self@.len(),
            gens.G@.len() == self@.len(),
        ensures
            r@ == commitment(self@, blind@, gens.bases(), gens.h@),
    {
        self.coeffs.commit(blind, gens)
    }
}

} // verus!
