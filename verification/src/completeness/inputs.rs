use vstd::prelude::*;
use crate::algebra::{congruent, int_dot, lemma_fadd, lemma_fmul, lemma_fsub, lemma_int_dot_split};
use crate::completeness::matrices::lemma_zero_dot;
use crate::completeness::multilinear::{last_factor, lemma_eq_evals_back};
use crate::dense_mlpoly::{eq_evals, lemma_eq_evals_len};
use crate::math::{lemma_two_to_grows, two_to};
use crate::r1csproof::input_entries;
use crate::scalar::fmul;
use crate::sparse_mlpoly::{bit_factor, chi, chi_terms, sparse_eval};

verus! {

/// What the first variables of a point give for a corner is what they
/// give, without the last variable, for the corner without its last bit.
pub proof fn lemma_chi_shift(idx: nat, r: Seq<nat>, k: nat)
    requires
        r.len() >= 1,
        k <= r.len() - 1,
    ensures
        chi_terms(idx, r, k) == chi_terms(idx / 2, r.drop_last(), k),
    decreases k,
{
    if k > 0 {
        let j = (k - 1) as nat;
        lemma_chi_shift(idx, r, j);
        let back = r.drop_last();
        let t = two_to((back.len() - 1 - j) as nat);
        assert(two_to((r.len() - 1 - j) as nat) == 2 * t);
        lemma_two_to_grows(0, (back.len() - 1 - j) as nat);
        vstd::arithmetic::div_mod::lemma_div_denominator(idx as int, 2, t as int);
        assert(back[j as int] == r[j as int]);
        assert(bit_factor(idx, r, j as int) == bit_factor(idx / 2, back, j as int));
    }
}

/// The value at a point of the polynomial that is one at one corner and
/// zero at all others is the value at that corner of the polynomial of
/// the point.
pub proof fn lemma_chi(idx: nat, r: Seq<nat>)
    requires
        idx < two_to(r.len()),
    ensures
        eq_evals(r).len() == two_to(r.len()),
        congruent(chi(idx, r) as int, eq_evals(r)[idx as int] as int),
    decreases r.len(),
{
    lemma_eq_evals_len(r);
    if r.len() > 0 {
        let back = r.drop_last();
        let n = (r.len() - 1) as nat;
        lemma_chi_shift(idx, r, n);
        lemma_chi(idx / 2, back);
        lemma_eq_evals_back(r, idx as int);
        let rl = r.last();
        let bf = bit_factor(idx, r, n as int);
        assert(two_to(0) == 1);
        assert(idx / 1 == idx);
        lemma_fsub(1, rl, 1, rl as int);
        assert(congruent(bf as int, last_factor(rl as int, idx as int)));
        lemma_fmul(
            chi_terms(idx, r, n),
            bf,
            eq_evals(back)[(idx / 2) as int] as int,
            last_factor(rl as int, idx as int),
        );
    }
}

/// Whether a vector holds a one, then the inputs, then zeros.
pub open spec fn holds_inputs(tail: Seq<nat>, input: Seq<nat>) -> bool {
    &&& input.len() < tail.len()
    &&& tail[0] == 1
    &&& forall|i: int| 0 <= i < input.len() ==> #[trigger] tail[i + 1] == input[i]
    &&& forall|i: int| input.len() < i < tail.len() ==> #[trigger] tail[i] == 0
}

/// The value of the polynomial of the inputs, taken from the values
/// where it is not zero, over the first `k` of them.
pub proof fn lemma_sparse_prefix(input: Seq<nat>, r: Seq<nat>, tail: Seq<nat>, k: nat)
    requires
        tail.len() == two_to(r.len()),
        holds_inputs(tail, input),
        k <= input.len() + 1,
    ensures
        congruent(
            sparse_eval(input_entries(input).take(k as int), r) as int,
            int_dot(eq_evals(r).take(k as int), tail.take(k as int)),
        ),
    decreases k,
{
    let entries = input_entries(input);
    let e = eq_evals(r);
    lemma_eq_evals_len(r);
    if k > 0 {
        let j = (k - 1) as nat;
        lemma_sparse_prefix(input, r, tail, j);
        assert(entries.take(k as int).drop_last() =~= entries.take(j as int));
        assert(e.take(k as int).drop_last() =~= e.take(j as int));
        assert(tail.take(k as int).drop_last() =~= tail.take(j as int));
        let last = entries.take(k as int).last();
        assert(last == entries[j as int]);
        if j > 0 {
            assert(tail[(j - 1) + 1] == input[j - 1]);
        }
        assert(last == (j, tail[j as int]));
        lemma_chi(j, r);
        lemma_fmul(chi(j, r), tail[j as int], e[j as int] as int, tail[j as int] as int);
        lemma_fadd(
            sparse_eval(entries.take(j as int), r),
            fmul(chi(j, r), tail[j as int]),
            int_dot(e.take(j as int), tail.take(j as int)),
            e[j as int] as int * tail[j as int] as int,
        );
    }
}

/// The value at a point of the polynomial of the inputs, taken from the
/// values where it is not zero, is what all its values give with the
/// values of the polynomial of the point.
pub proof fn lemma_sparse_input(input: Seq<nat>, r: Seq<nat>, tail: Seq<nat>)
    requires
        tail.len() == two_to(r.len()),
        holds_inputs(tail, input),
    ensures
        congruent(
            sparse_eval(input_entries(input), r) as int,
            int_dot(eq_evals(r), tail),
        ),
{
    let k = input.len() + 1;
    let e = eq_evals(r);
    lemma_eq_evals_len(r);
    lemma_sparse_prefix(input, r, tail, k);
    assert(input_entries(input).take(k as int) =~= input_entries(input));
    lemma_int_dot_split(e, tail, k as int);
    lemma_zero_dot(e.skip(k as int), tail.skip(k as int));
}

} // verus!
