use vstd::prelude::*;
use crate::algebra::{
    congruent, int_dot, lemma_assoc, lemma_comm, lemma_congruent_add, lemma_congruent_mul,
    lemma_congruent_reduced, lemma_dist, lemma_inner_product, lemma_int_dot_combine_right,
    lemma_int_dot_push, lemma_int_dot_split, lemma_int_dot_symmetric,
};
use crate::commitments::{commitment, commitment_single};
use crate::completeness::multilinear::{last_factor, lemma_eq_evals_back};
use crate::dense_mlpoly::{
    bound_rows, column, eq_evals, lemma_eq_evals_len, lemma_factored_sizes, lemma_matrix_index,
    mle_eval, poly_commitment, poly_eval_prove, poly_eval_verify,
};
use crate::math::{lemma_floor_log_2_two_to, lemma_two_to_grows, two_to};
use crate::nizk::completeness::dot_product_log_proof_complete;
use crate::nizk::dot_product::DotProductBases;
use crate::scalar::inner_product;
use crate::transcript::{log_append_protocol_name, tag, Log};

verus! {

/// The values of the polynomial of a point that is put together from two
/// are the products of the values of the polynomials of the two.
pub proof fn lemma_eq_evals_product(p: Seq<nat>, q: Seq<nat>, j: int, i: int)
    requires
        0 <= j < two_to(p.len()),
        0 <= i < two_to(q.len()),
    ensures
        0 <= j * two_to(q.len()) + i < two_to(p.len() + q.len()),
        eq_evals(p + q).len() == two_to(p.len() + q.len()),
        congruent(
            eq_evals(p + q)[j * two_to(q.len()) + i] as int,
            eq_evals(p)[j] as int * eq_evals(q)[i] as int,
        ),
    decreases q.len(),
{
    lemma_eq_evals_len(p + q);
    lemma_eq_evals_len(p);
    lemma_eq_evals_len(q);
    let w = two_to(q.len()) as int;
    crate::math::lemma_two_to_adds(p.len(), q.len());
    lemma_matrix_index(j, i + 1, two_to(p.len()) as int, w);
    if q.len() == 0 {
        assert(p + q =~= p);
        assert(eq_evals(q)[0] == 1);
        assert(eq_evals(p)[j] * 1 == eq_evals(p)[j]);
        assert(j * 1 + 0 == j);
    } else {
        let qb = q.drop_last();
        let t = two_to(qb.len()) as int;
        assert(w == 2 * t);
        assert((p + q).drop_last() =~= p + qb);
        let k = j * w + i;
        assert(j * w == 2 * (j * t)) by (nonlinear_arith)
            requires
                w == 2 * t,
        ;
        assert(k / 2 == j * t + i / 2);
        assert(k % 2 == i % 2);
        lemma_eq_evals_product(p, qb, j, i / 2);
        lemma_eq_evals_back(p + q, k);
        lemma_eq_evals_back(q, i);
        let f = last_factor(q.last() as int, i);
        assert((p + q).last() == q.last());
        let (ep, eq) = (eq_evals(p)[j] as int, eq_evals(qb)[i / 2] as int);
        lemma_congruent_mul(eq_evals(p + qb)[k / 2] as int, f, ep * eq, f);
        lemma_congruent_mul(ep, eq_evals(q)[i] as int, ep, eq * f);
        lemma_assoc(ep, eq, f);
    }
}

/// The row `j` of the values `z` laid out in rows of `width` entries.
pub open spec fn row(z: Seq<nat>, width: nat, j: int) -> Seq<nat> {
    z.subrange(width * j, width * (j + 1))
}

/// The rows of `z` before the row `k`, each with its weight in `l`, give
/// this with the weights `w` of the columns.
pub open spec fn rows_sum(z: Seq<nat>, l: Seq<nat>, w: Seq<nat>, k: nat) -> int
    decreases k,
{
    if k == 0 {
        0
    } else {
        rows_sum(z, l, w, (k - 1) as nat) + l[k - 1] * int_dot(row(z, w.len(), k - 1), w)
    }
}

/// The entries of the column `i` in the rows before the row `k`, each
/// with its weight in `l`, added up.
pub open spec fn col_dot(z: Seq<nat>, l: Seq<nat>, width: nat, i: int, k: nat) -> int
    decreases k,
{
    if k == 0 {
        0
    } else {
        col_dot(z, l, width, i, (k - 1) as nat) + l[k - 1] * z[(k - 1) * width + i]
    }
}

/// What the columns before the column `n` give with their weights in
/// `w`, over the rows before the row `k`.
pub open spec fn outer(z: Seq<nat>, l: Seq<nat>, w: Seq<nat>, k: nat, n: nat) -> int
    decreases n,
{
    if n == 0 {
        0
    } else {
        outer(z, l, w, k, (n - 1) as nat) + w[n - 1] * col_dot(z, l, w.len(), n - 1, k)
    }
}

/// The weights of the rows give with a column, over the first rows, the
/// sum over its entries in those rows.
pub proof fn lemma_col_dot(z: Seq<nat>, l: Seq<nat>, width: nat, i: int, k: nat)
    requires
        k <= l.len(),
    ensures
        int_dot(l.take(k as int), column(z, width, l.len(), i).take(k as int)) == col_dot(
            z,
            l,
            width,
            i,
            k,
        ),
    decreases k,
{
    let c = column(z, width, l.len(), i);
    if k > 0 {
        lemma_col_dot(z, l, width, i, (k - 1) as nat);
        assert(l.take(k as int).drop_last() =~= l.take(k - 1));
        assert(c.take(k as int).drop_last() =~= c.take(k - 1));
    }
}

/// One more row adds to what the columns give the weight of the row
/// times what the row gives with the weights of the columns.
pub proof fn lemma_outer_row(z: Seq<nat>, l: Seq<nat>, w: Seq<nat>, k: nat, n: nat)
    requires
        k >= 1,
        n <= w.len(),
        z.len() >= w.len() * k,
    ensures
        outer(z, l, w, k, n) == outer(z, l, w, (k - 1) as nat, n) + l[k - 1] * int_dot(
            row(z, w.len(), k - 1).take(n as int),
            w.take(n as int),
        ),
    decreases n,
{
    let r = row(z, w.len(), k - 1);
    if n == 0 {
        assert(l[k - 1] * 0 == 0);
    } else {
        let m = (n - 1) as nat;
        lemma_outer_row(z, l, w, k, m);
        lemma_matrix_index(k - 1, n as int, k as int, w.len() as int);
        assert(r.take(n as int).drop_last() =~= r.take(m as int));
        assert(w.take(n as int).drop_last() =~= w.take(m as int));
        assert(r.take(n as int).last() == z[(k - 1) * w.len() + m]);
        let (lk, wm, zz) = (l[k - 1] as int, w[m as int] as int, z[(k - 1) * w.len() + m] as int);
        let before = col_dot(z, l, w.len(), m as int, (k - 1) as nat);
        lemma_dist(wm, before, lk * zz);
        lemma_dist(lk, int_dot(r.take(m as int), w.take(m as int)), zz * wm);
        assert(wm * (lk * zz) == lk * (zz * wm)) by (nonlinear_arith);
    }
}

/// The columns give, over all rows, what the rows give, each with its
/// weight.
pub proof fn lemma_outer_rows(z: Seq<nat>, l: Seq<nat>, w: Seq<nat>, k: nat)
    requires
        z.len() >= w.len() * k,
    ensures
        outer(z, l, w, k, w.len()) == rows_sum(z, l, w, k),
    decreases k,
{
    if k == 0 {
        lemma_outer_zero(z, l, w, w.len());
    } else {
        assert(w.len() * (k - 1) <= w.len() * k) by (nonlinear_arith)
            requires
                k >= 1,
        ;
        lemma_outer_rows(z, l, w, (k - 1) as nat);
        lemma_outer_row(z, l, w, k, w.len());
        let r = row(z, w.len(), k - 1);
        lemma_matrix_index(k - 1, w.len() as int, k as int, w.len() as int);
        assert(r.take(w.len() as int) =~= r);
        assert(w.take(w.len() as int) =~= w);
    }
}

/// Over no rows the columns give nothing.
pub proof fn lemma_outer_zero(z: Seq<nat>, l: Seq<nat>, w: Seq<nat>, n: nat)
    ensures
        outer(z, l, w, 0, n) == 0,
    decreases n,
{
    if n > 0 {
        lemma_outer_zero(z, l, w, (n - 1) as nat);
        assert(w[n - 1] * 0 == 0);
    }
}

/// The combination of the rows gives with the weights of the columns
/// what the rows give, each with its weight.
pub proof fn lemma_bound_rows(z: Seq<nat>, l: Seq<nat>, w: Seq<nat>)
    requires
        l.len() > 0,
        z.len() == w.len() * l.len(),
    ensures
        bound_rows(z, l).len() == w.len(),
        congruent(int_dot(bound_rows(z, l), w), rows_sum(z, l, w, l.len())),
{
    let b = bound_rows(z, l);
    vstd::arithmetic::div_mod::lemma_div_multiples_vanish(w.len() as int, l.len() as int);
    lemma_comm(w.len() as int, l.len() as int);
    assert(z.len() / l.len() == w.len());
    lemma_bound_rows_prefix(z, l, w, w.len());
    assert(b.take(w.len() as int) =~= b);
    assert(w.take(w.len() as int) =~= w);
    lemma_outer_rows(z, l, w, l.len());
}

/// The same over the first columns.
pub proof fn lemma_bound_rows_prefix(z: Seq<nat>, l: Seq<nat>, w: Seq<nat>, n: nat)
    requires
        l.len() > 0,
        z.len() / l.len() == w.len(),
        n <= w.len(),
    ensures
        congruent(
            int_dot(bound_rows(z, l).take(n as int), w.take(n as int)),
            outer(z, l, w, l.len(), n),
        ),
    decreases n,
{
    let b = bound_rows(z, l);
    if n > 0 {
        let m = (n - 1) as nat;
        lemma_bound_rows_prefix(z, l, w, m);
        assert(b.take(n as int).drop_last() =~= b.take(m as int));
        assert(w.take(n as int).drop_last() =~= w.take(m as int));
        let c = column(z, w.len(), l.len(), m as int);
        lemma_inner_product(l, c);
        lemma_col_dot(z, l, w.len(), m as int, l.len());
        assert(l.take(l.len() as int) =~= l);
        assert(c.take(l.len() as int) =~= c);
        let cd = col_dot(z, l, w.len(), m as int, l.len());
        lemma_congruent_mul(b[m as int] as int, w[m as int] as int, cd, w[m as int] as int);
        lemma_comm(cd, w[m as int] as int);
        lemma_congruent_add(
            int_dot(b.take(m as int), w.take(m as int)),
            (b[m as int] * w[m as int]) as int,
            outer(z, l, w, l.len(), m),
            w[m as int] * cd,
        );
    }
}

/// Where the entry of `e` in the row `j` and the column `i` stands for
/// the weight of the row times the weight of the column, the values `z`
/// give with `e`, over the first rows, what the rows give with the
/// weights of the columns, each with its weight.
pub proof fn lemma_values_rows(z: Seq<nat>, e: Seq<nat>, l: Seq<nat>, w: Seq<nat>, k: nat)
    requires
        k <= l.len(),
        z.len() == w.len() * l.len(),
        e.len() == z.len(),
        forall|j: int, i: int|
            0 <= j < l.len() && 0 <= i < w.len() ==> congruent(
                e[#[trigger] (w.len() * j + i)] as int,
                l[j] as int * w[i] as int,
            ),
    ensures
        0 <= w.len() * k <= z.len(),
        congruent(
            int_dot(z.take((w.len() * k) as int), e.take((w.len() * k) as int)),
            rows_sum(z, l, w, k),
        ),
    decreases k,
{
    let width = w.len() as int;
    if k == 0 {
        assert(width * 0 == 0);
        lemma_matrix_index(0, 0, l.len() as int + 1, width);
    } else {
        let j = k - 1;
        lemma_values_rows(z, e, l, w, j as nat);
        lemma_matrix_index(j, width, l.len() as int, width);
        let (lo, hi) = (width * j, width * (j + 1));
        let (zt, et) = (z.take(hi), e.take(hi));
        lemma_int_dot_split(zt, et, lo);
        assert(zt.take(lo) =~= z.take(lo));
        assert(et.take(lo) =~= e.take(lo));
        let zr = row(z, w.len(), j);
        let er = e.subrange(lo, hi);
        assert(zt.skip(lo) =~= zr);
        assert(et.skip(lo) =~= er);
        let lj = l[j] as int;
        assert forall|i: int| 0 <= i < width implies congruent(
            #[trigger] er[i] as int,
            lj * w[i] + 0 * w[i],
        ) by {
            assert(er[i] == e[width * j + i]);
            assert(0 * w[i] == 0);
        }
        lemma_int_dot_combine_right(zr, er, w, w, lj, 0);
        assert(0 * int_dot(zr, w) == 0);
        lemma_congruent_add(
            int_dot(z.take(lo), e.take(lo)),
            int_dot(zr, er),
            rows_sum(z, l, w, j as nat),
            lj * int_dot(zr, w),
        );
    }
}

/// The commitments to the first rows give with the weights of the rows
/// what the rows give with the generators, each with its weight, plus
/// the blinding base as often as the blinds give with the weights.
pub proof fn lemma_commitments_rows(
    z: Seq<nat>,
    blinds: Seq<nat>,
    l: Seq<nat>,
    bases: Seq<nat>,
    h: nat,
    k: nat,
)
    requires
        l.len() > 0,
        k <= l.len(),
        blinds.len() == l.len(),
        z.len() == bases.len() * l.len(),
    ensures
        congruent(
            int_dot(l.take(k as int), poly_commitment(z, blinds, bases, h).take(k as int)),
            rows_sum(z, l, bases, k) + int_dot(l.take(k as int), blinds.take(k as int)) * h,
        ),
    decreases k,
{
    let comm = poly_commitment(z, blinds, bases, h);
    vstd::arithmetic::div_mod::lemma_div_multiples_vanish(bases.len() as int, l.len() as int);
    lemma_comm(bases.len() as int, l.len() as int);
    assert(z.len() / blinds.len() == bases.len());
    if k == 0 {
        assert(0 * h == 0);
    } else {
        let j = k - 1;
        lemma_commitments_rows(z, blinds, l, bases, h, j as nat);
        assert(l.take(k as int).drop_last() =~= l.take(j));
        assert(comm.take(k as int).drop_last() =~= comm.take(j));
        assert(blinds.take(k as int).drop_last() =~= blinds.take(j));
        let r = row(z, bases.len(), j);
        assert(comm[j] == commitment(r, blinds[j], bases, h));
        lemma_inner_product(r.push(blinds[j]), bases.push(h));
        lemma_int_dot_push(r, bases, blinds[j], h);
        let (lj, bj, hi) = (l[j] as int, blinds[j] as int, h as int);
        let rg = int_dot(r, bases);
        lemma_congruent_mul(lj, comm[j] as int, lj, rg + bj * hi);
        lemma_dist(lj, rg, bj * hi);
        lemma_assoc(lj, bj, hi);
        let before = int_dot(l.take(j), blinds.take(j));
        lemma_congruent_add(
            int_dot(l.take(j), comm.take(j)),
            lj * comm[j],
            rows_sum(z, l, bases, j as nat) + before * hi,
            lj * (rg + bj * hi),
        );
        lemma_dist(hi, before, lj * bj);
    }
}

/// Every proof of a value that the honest prover makes for a committed
/// polynomial and its value at a point is accepted, on a transcript with
/// the same past, for the commitments to the rows and the commitment to
/// the value that the prover handed back, and leaves the transcript of
/// the verifier as that of the prover. This holds where the generators
/// are as many as a row is long, fewer than two to the power 32, the two
/// blinding bases are one, and the prover did not fail.
pub proof fn poly_eval_proof_complete(
    bases: DotProductBases,
    log: Log,
    tape: Log,
    z: Seq<nat>,
    blinds: Seq<nat>,
    r: Seq<nat>,
    blind_zr: nat,
)
    requires
        z.len() == two_to(r.len()),
        blinds.len() == two_to(r.len() / 2),
        bases.gn.len() == two_to((r.len() - r.len() / 2) as nat),
        r.len() - r.len() / 2 < 32,
        bases.h1 == bases.hn,
        !poly_eval_prove(bases, log, tape, z, blinds, r, mle_eval(z, r), blind_zr).failed,
    ensures
        ({
            let p = poly_eval_prove(bases, log, tape, z, blinds, r, mle_eval(z, r), blind_zr);
            let v = poly_eval_verify(
                bases,
                log,
                p.proof,
                r,
                p.cy,
                poly_commitment(z, blinds, bases.gn, bases.hn),
            );
            &&& v.ok
            &&& v.log == p.log
            &&& p.cy == commitment_single(mle_eval(z, r), blind_zr, bases.g1, bases.h1)
        }),
{
    let ell = r.len();
    let (front, back) = (r.take((ell / 2) as int), r.skip((ell / 2) as int));
    let (l, rr) = (eq_evals(front), eq_evals(back));
    let e = eq_evals(r);
    let lz = bound_rows(z, l);
    let comm = poly_commitment(z, blinds, bases.gn, bases.hn);
    lemma_eq_evals_len(front);
    lemma_eq_evals_len(back);
    lemma_eq_evals_len(r);
    lemma_factored_sizes(ell);
    lemma_two_to_grows(0, ell / 2);
    assert(front + back =~= r);
    let (height, width) = (l.len() as int, rr.len() as int);
    assert(z.len() == width * height) by (nonlinear_arith)
        requires
            height * width == z.len(),
    ;
    assert forall|j: int, i: int| 0 <= j < height && 0 <= i < width implies congruent(
        e[#[trigger] (width * j + i)] as int,
        l[j] as int * rr[i] as int,
    ) by {
        lemma_eq_evals_product(front, back, j, i);
        lemma_comm(j, width);
    }
    // the value is the inner product of the two vectors of the proof
    lemma_values_rows(z, e, l, rr, l.len());
    assert(z.take(width * height) =~= z);
    assert(e.take(width * height) =~= e);
    lemma_bound_rows(z, l, rr);
    lemma_inner_product(z, e);
    lemma_inner_product(rr, lz);
    lemma_int_dot_symmetric(rr, lz);
    lemma_congruent_reduced(mle_eval(z, r), inner_product(rr, lz));
    // the combination of the commitments to the rows is the commitment
    // to the combination of the rows
    lemma_commitments_rows(z, blinds, l, bases.gn, bases.hn, l.len());
    assert(l.take(height) =~= l);
    assert(comm.take(height) =~= comm);
    assert(blinds.take(height) =~= blinds);
    lemma_bound_rows(z, l, bases.gn);
    let lz_blind = inner_product(blinds, l);
    lemma_inner_product(blinds, l);
    lemma_int_dot_symmetric(blinds, l);
    lemma_inner_product(lz.push(lz_blind), bases.gn.push(bases.hn));
    lemma_int_dot_push(lz, bases.gn, lz_blind, bases.hn);
    lemma_inner_product(l, comm);
    lemma_congruent_mul(lz_blind as int, bases.hn as int, int_dot(l, blinds), bases.hn as int);
    lemma_congruent_add(
        int_dot(lz, bases.gn),
        (lz_blind * bases.hn) as int,
        rows_sum(z, l, bases.gn, l.len()),
        int_dot(l, blinds) * bases.hn,
    );
    lemma_congruent_reduced(
        inner_product(l, comm),
        commitment(lz, lz_blind, bases.gn, bases.hn),
    );
    lemma_floor_log_2_two_to((ell - ell / 2) as nat);
    dot_product_log_proof_complete(
        bases,
        log_append_protocol_name(log, tag("polynomial evaluation proof")),
        tape,
        lz,
        lz_blind,
        rr,
        blind_zr,
    );
}

} // verus!
