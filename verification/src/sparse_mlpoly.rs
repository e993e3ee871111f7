use vstd::prelude::*;
use crate::math::{lemma_two_to_grows, pow2, two_to};
use crate::scalar::{fadd, fmul, fsub, Scalar};

verus! {

/// One value of a polynomial that is zero at most corners of the cube:
/// the corner, as a number, and the value there.
#[derive(Clone, Copy, Debug)]
pub struct SparsePolyEntry {
    idx: usize,
    val: Scalar,
}

impl SparsePolyEntry {
    /// The value `val` at the corner `idx`.
    pub fn new(idx: usize, val: Scalar) -> (r: Self)
        ensures
            r@ == (idx as nat, val@),
    {
        SparsePolyEntry { idx, val }
    }
}

impl View for SparsePolyEntry {
    type V = (nat, nat);

    closed spec fn view(&self) -> (nat, nat) {
        (self.idx as nat, self.val@)
    }
}

impl DeepView for SparsePolyEntry {
    type V = (nat, nat);

    open spec fn deep_view(&self) -> (nat, nat) {
        self@
    }
}

/// A polynomial in several variables, of degree one in each, given by its
/// values at the corners of the cube where it is not zero.
#[derive(Debug)]
pub struct SparsePolynomial {
    num_vars: usize,
    z: Vec<SparsePolyEntry>,
}

/// What a sparse polynomial holds.
pub struct SparsePolynomialView {
    pub num_vars: nat,
    pub entries: Seq<(nat, nat)>,
}

impl View for SparsePolynomial {
    type V = SparsePolynomialView;

    closed spec fn view(&self) -> SparsePolynomialView {
        SparsePolynomialView { num_vars: self.num_vars as nat, entries: self.z.deep_view() }
    }
}

/// What the variable `j` of the point `r` gives for the corner `idx`, the
/// first variable being the most significant bit: the variable where the
/// bit is set, and one less the variable where it is not.
pub open spec fn bit_factor(idx: nat, r: Seq<nat>, j: int) -> nat {
    if (idx / two_to((r.len() - 1 - j) as nat)) % 2 == 1 {
        r[j]
    } else {
        fsub(1, r[j])
    }
}

/// The product of what the first `k` variables give for a corner.
pub open spec fn chi_terms(idx: nat, r: Seq<nat>, k: nat) -> nat
    decreases k,
{
    if k == 0 {
        1
    } else {
        fmul(chi_terms(idx, r, (k - 1) as nat), bit_factor(idx, r, k - 1))
    }
}

/// The value at the point `r` of the polynomial that is one at the corner
/// `idx` and zero at all others.
pub open spec fn chi(idx: nat, r: Seq<nat>) -> nat {
    chi_terms(idx, r, r.len())
}

/// The value at the point `r` of the polynomial with the given values.
pub open spec fn sparse_eval(entries: Seq<(nat, nat)>, r: Seq<nat>) -> nat
    decreases entries.len(),
{
    if entries.len() == 0 {
        0
    } else {
        fadd(sparse_eval(entries.drop_last(), r), fmul(chi(entries.last().0, r), entries.last().1))
    }
}

impl SparsePolynomial {
    /// The polynomial in `num_vars` variables with the given values.
    pub fn new(num_vars: usize, z: Vec<SparsePolyEntry>) -> (r: Self)
        ensures
            r@.num_vars == num_vars,
            r@.entries == z.deep_view(),
    {
        SparsePolynomial { num_vars, z }
    }

    /// The value at `r` of the polynomial that is one at the corner `idx`
    /// only.
    fn compute_chi(idx: usize, r: &[Scalar]) -> (res: Scalar)
        requires
            r@.len() <= usize::BITS,
        ensures
            res@ == chi(idx as nat, r.deep_view()),
    {
        let n = r.len();
        let one = Scalar::one();
        let mut chi_i = Scalar::one();
        let mut j: usize = 0;
        while j < n
            invariant
                j <= n,
                n == r@.len(),
                n <= usize::BITS,
                one@ == 1,
                chi_i@ == chi_terms(idx as nat, r.deep_view(), j as nat),
            decreases n - j,
        {
            let weight = pow2(n - 1 - j);
            proof {
                lemma_two_to_grows(0, (n - 1 - j) as nat);
            }
            if (idx / weight) % 2 == 1 {
                chi_i = chi_i.mul(&r[j]);
            } else {
                chi_i = chi_i.mul(&one.sub(&r[j]));
            }
            j += 1;
        }
        chi_i
    }

    /// The value at the point `r`.
    pub fn evaluate(&self, r: &[Scalar]) -> (res: Scalar)
        requires
            self@.num_vars == r@.len(),
            r@.len() <= usize::BITS,
        ensures
            res@ == sparse_eval(self@.entries, r.deep_view()),
    {
        let mut acc = Scalar::zero();
        let mut i: usize = 0;
        while i < self.z.len()
            invariant
                i <= self.z@.len(),
                r@.len() <= usize::BITS,
                acc@ == sparse_eval(self@.entries.take(i as int), r.deep_view()),
            decreases self.z@.len() - i,
        {
            proof {
                let e = self@.entries;
                assert(e.take(i + 1).drop_last() =~= e.take(i as int));
                assert(e.take(i + 1).last() == self.z@[i as int]@);
            }
            let c = SparsePolynomial::compute_chi(self.z[i].idx, r);
            acc = acc.add(&c.mul(&self.z[i].val));
            i += 1;
        }
        proof {
            assert(self@.entries.take(self.z@.len() as int) =~= self@.entries);
        }
        acc
    }
}

} // verus!
