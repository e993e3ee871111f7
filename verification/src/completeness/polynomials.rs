use vstd::prelude::*;
use crate::algebra::{
    congruent, int_dot, lemma_assoc, lemma_comm, lemma_congruent_add, lemma_congruent_mul,
    lemma_dist, lemma_fadd, lemma_fmul, lemma_fsub,
};
use crate::scalar::{fadd, fmul, fsub};
use crate::sumcheck::{claim_weights, cubic_evals, geometric, quad_evals, round_poly, Tables};
use crate::unipoly::{fpower, uni_eval, uni_eval_terms, uni_from_evals};

verus! {

/// The power of an integer.
pub open spec fn int_pow(r: int, k: nat) -> int
    decreases k,
{
    if k == 0 {
        1
    } else {
        int_pow(r, (k - 1) as nat) * r
    }
}

/// The value at `r` of the polynomial with the coefficients `c`, over
/// the integers.
pub open spec fn poly_value(c: Seq<nat>, r: int) -> int
    decreases c.len(),
{
    if c.len() == 0 {
        0
    } else {
        poly_value(c.drop_last(), r) + c.last() * int_pow(r, (c.len() - 1) as nat)
    }
}

/// The sum of the coefficients, which is the value at one.
pub open spec fn coeff_sum(c: Seq<nat>) -> int
    decreases c.len(),
{
    if c.len() == 0 {
        0
    } else {
        coeff_sum(c.drop_last()) + c.last()
    }
}

/// A power in the field stands for the power over the integers.
pub proof fn lemma_fpower(r: nat, k: nat)
    ensures
        congruent(fpower(r, k) as int, int_pow(r as int, k)),
    decreases k,
{
    if k == 0 {
    } else if k == 1 {
        assert(int_pow(r as int, 1) == int_pow(r as int, 0) * r);
        assert(1 * (r as int) == r);
    } else {
        lemma_fpower(r, (k - 1) as nat);
        lemma_fmul(fpower(r, (k - 1) as nat), r, int_pow(r as int, (k - 1) as nat), r as int);
    }
}

/// The same of the powers taken one after the other.
pub proof fn lemma_geometric(r: nat, k: nat)
    ensures
        congruent(geometric(r, k) as int, int_pow(r as int, k)),
    decreases k,
{
    if k > 0 {
        lemma_geometric(r, (k - 1) as nat);
        lemma_fmul(geometric(r, (k - 1) as nat), r, int_pow(r as int, (k - 1) as nat), r as int);
    }
}

/// The value of the first terms of a polynomial in the field stands for
/// their value over the integers.
pub proof fn lemma_uni_eval_terms(c: Seq<nat>, r: nat, k: nat)
    requires
        1 <= k <= c.len(),
    ensures
        congruent(uni_eval_terms(c, r, k) as int, poly_value(c.take(k as int), r as int)),
    decreases k,
{
    let t = c.take(k as int);
    assert(t.drop_last() =~= c.take(k - 1));
    assert(t.last() == c[k - 1]);
    if k == 1 {
        assert(poly_value(c.take(0), r as int) == 0);
        assert(int_pow(r as int, 0) == 1);
        assert(c[0] * 1 == c[0]);
    } else {
        lemma_uni_eval_terms(c, r, (k - 1) as nat);
        lemma_fpower(r, (k - 1) as nat);
        let p = int_pow(r as int, (k - 1) as nat);
        lemma_fmul(fpower(r, (k - 1) as nat), c[k - 1], p, c[k - 1] as int);
        lemma_fadd(
            uni_eval_terms(c, r, (k - 1) as nat),
            fmul(fpower(r, (k - 1) as nat), c[k - 1]),
            poly_value(c.take(k - 1), r as int),
            p * c[k - 1],
        );
        lemma_comm(p, c[k - 1] as int);
    }
}

/// The value of a polynomial in the field stands for its value over the
/// integers.
pub proof fn lemma_uni_eval(c: Seq<nat>, r: nat)
    requires
        c.len() >= 1,
    ensures
        congruent(uni_eval(c, r) as int, poly_value(c, r as int)),
{
    lemma_uni_eval_terms(c, r, c.len());
    assert(c.take(c.len() as int) =~= c);
}

/// The weights of a round give with the coefficients of a polynomial
/// `w0` times its values at zero and at one added up, plus `w1` times
/// its value at `r`.
pub proof fn lemma_weights_product(w0: nat, w1: nat, r: nat, c: Seq<nat>)
    requires
        c.len() >= 1,
    ensures
        congruent(
            int_dot(claim_weights(w0, w1, r, c.len()), c),
            w0 * (c[0] + coeff_sum(c)) + w1 * poly_value(c, r as int),
        ),
    decreases c.len(),
{
    let w = claim_weights(w0, w1, r, c.len());
    let i = (c.len() - 1) as nat;
    let (w0i, w1i, ri) = (w0 as int, w1 as int, r as int);
    let s: nat = if i == 0 {
        fadd(1, 1)
    } else {
        1
    };
    let si: int = if i == 0 {
        2
    } else {
        1
    };
    // the last weight
    lemma_fadd(1, 1, 1, 1);
    lemma_geometric(r, i);
    lemma_fmul(w0, s, w0i, si);
    lemma_fmul(w1, geometric(r, i), w1i, int_pow(ri, i));
    lemma_fadd(fmul(w0, s), fmul(w1, geometric(r, i)), w0i * si, w1i * int_pow(ri, i));
    let cl = c.last() as int;
    lemma_congruent_mul(w.last() as int, cl, w0i * si + w1i * int_pow(ri, i), cl);
    lemma_dist(cl, w0i * si, w1i * int_pow(ri, i));
    lemma_assoc(w0i, si, cl);
    lemma_assoc(w1i, int_pow(ri, i), cl);
    lemma_comm(int_pow(ri, i), cl);
    assert(w.drop_last() =~= claim_weights(w0, w1, r, i));
    if i == 0 {
        assert(c.drop_last().len() == 0);
        assert(int_dot(w.drop_last(), c.drop_last()) == 0);
        assert(int_pow(ri, 0) == 1);
        assert(coeff_sum(c) == cl);
        assert(poly_value(c, ri) == cl * 1);
        lemma_dist(w0i, cl, cl);
        assert(2 * cl == cl + cl);
    } else {
        lemma_weights_product(w0, w1, r, c.drop_last());
        let c0 = c.drop_last();
        assert(c0[0] == c[0]);
        lemma_congruent_add(
            int_dot(w.drop_last(), c0),
            w.last() * cl,
            w0i * (c[0] + coeff_sum(c0)) + w1i * poly_value(c0, ri),
            w0i * (1 * cl) + w1i * (cl * int_pow(ri, i)),
        );
        lemma_dist(w0i, c[0] + coeff_sum(c0), cl);
        lemma_dist(w1i, poly_value(c0, ri), cl * int_pow(ri, i));
        assert(1 * cl == cl);
    }
}

/// The coefficients of the polynomial through given values give, at
/// zero and at one added up, the first two of the values added up.
pub proof fn lemma_from_evals_sum(e: Seq<nat>)
    requires
        e.len() == 3 || e.len() == 4,
    ensures
        uni_from_evals(e).len() == e.len(),
        congruent(uni_from_evals(e)[0] + coeff_sum(uni_from_evals(e)), (e[0] + e[1]) as int),
{
    let c = uni_from_evals(e);
    let (e0, e1) = (e[0] as int, e[1] as int);
    if e.len() == 3 {
        let (c0, b, a) = (c[0], c[1], c[2]);
        lemma_fsub(e[1], c0, e1, e0);
        lemma_fsub(fsub(e[1], c0), a, e1 - e0, a as int);
        assert(c.drop_last() =~= seq![c0, b]);
        assert(c.drop_last().drop_last() =~= seq![c0]);
        assert(c.drop_last().drop_last().drop_last() =~= Seq::<nat>::empty());
        assert(coeff_sum(c) == c0 + b + a) by {
            reveal_with_fuel(coeff_sum, 4);
        }
        lemma_congruent_add(b as int, (c0 + a + c0) as int, e1 - e0 - a, (c0 + a + c0) as int);
    } else {
        let (d, cc, b, a) = (c[0], c[1], c[2], c[3]);
        lemma_fsub(e[1], d, e1, e0);
        lemma_fsub(fsub(e[1], d), a, e1 - e0, a as int);
        lemma_fsub(fsub(fsub(e[1], d), a), b, e1 - e0 - a, b as int);
        assert(c.drop_last() =~= seq![d, cc, b]);
        assert(c.drop_last().drop_last() =~= seq![d, cc]);
        assert(c.drop_last().drop_last().drop_last() =~= seq![d]);
        assert(c.drop_last().drop_last().drop_last().drop_last() =~= Seq::<nat>::empty());
        assert(coeff_sum(c) == d + cc + b + a) by {
            reveal_with_fuel(coeff_sum, 5);
        }
        lemma_congruent_add(
            cc as int,
            (d + b + a + d) as int,
            e1 - e0 - a - b,
            (d + b + a + d) as int,
        );
    }
}

/// The polynomial of a round takes, at zero and at one added up, the
/// claim of the round.
pub proof fn lemma_round_poly_sum(cubic: bool, t: Tables, claim: nat)
    ensures
        round_poly(cubic, t, claim).len() == if cubic {
            4nat
        } else {
            3nat
        },
        congruent(
            round_poly(cubic, t, claim)[0] + coeff_sum(round_poly(cubic, t, claim)),
            claim as int,
        ),
{
    let e = if cubic {
        cubic_evals(t, claim)
    } else {
        quad_evals(t, claim)
    };
    lemma_from_evals_sum(e);
    lemma_fsub(claim, e[0], claim as int, e[0] as int);
    lemma_congruent_add(e[0] as int, e[1] as int, e[0] as int, claim - e[0]);
}

} // verus!
