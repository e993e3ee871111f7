use vstd::prelude::*;
use crate::algebra::{
    congruent, int_dot, lemma_congruent_add, lemma_congruent_mul, lemma_dist, lemma_fadd,
    lemma_fmul, lemma_int_dot_combine_right,
};
use crate::r1csinstance::{entries_within, mat_eval, mat_vec, vec_mat, MatrixEntryView};
use crate::r1csproof::{combine, combine_one};
use crate::scalar::{fadd, fmul};

verus! {

/// The sum over all entries of a matrix of the entry times the weight of
/// its row in `x` and the weight of its column in `y`, over the integers.
pub open spec fn int_mat(m: Seq<MatrixEntryView>, x: Seq<nat>, y: Seq<nat>) -> int
    decreases m.len(),
{
    if m.len() == 0 {
        0
    } else {
        int_mat(m.drop_last(), x, y) + (x[m.last().row as int] * y[m.last().col as int])
            * m.last().val
    }
}

/// The sum over the entries in the field stands for that over the
/// integers.
pub proof fn lemma_mat_eval(m: Seq<MatrixEntryView>, x: Seq<nat>, y: Seq<nat>)
    ensures
        congruent(mat_eval(m, x, y) as int, int_mat(m, x, y)),
    decreases m.len(),
{
    if m.len() > 0 {
        lemma_mat_eval(m.drop_last(), x, y);
        let e = m.last();
        let (xr, yc) = (x[e.row as int], y[e.col as int]);
        lemma_fmul(xr, yc, xr as int, yc as int);
        lemma_fmul(fmul(xr, yc), e.val, xr as int * yc as int, e.val as int);
        lemma_fadd(
            mat_eval(m.drop_last(), x, y),
            fmul(fmul(xr, yc), e.val),
            int_mat(m.drop_last(), x, y),
            (xr as int * yc as int) * e.val as int,
        );
    }
}

/// Where `v2` stands for `v` in all places but one, and for `v` plus
/// `delta` there, it gives with `e` what `v` gives, plus the entry of `e`
/// at that place times `delta`.
pub proof fn lemma_int_dot_bump(e: Seq<nat>, v: Seq<nat>, v2: Seq<nat>, at: int, delta: int)
    requires
        e.len() == v.len(),
        e.len() == v2.len(),
        0 <= at < e.len(),
        forall|i: int| 0 <= i < e.len() && i != at ==> congruent(#[trigger] v2[i] as int, v[i] as int),
        congruent(v2[at] as int, v[at] + delta),
    ensures
        congruent(int_dot(e, v2), int_dot(e, v) + e[at] * delta),
    decreases e.len(),
{
    let n = e.len() - 1;
    let (e0, v0, w0) = (e.drop_last(), v.drop_last(), v2.drop_last());
    let (el, vl, wl) = (e[n] as int, v[n] as int, v2[n] as int);
    if at == n {
        assert forall|i: int| 0 <= i < n implies congruent(
            #[trigger] w0[i] as int,
            1int * v0[i] + 0int * v0[i],
        ) by {
            assert(w0[i] == v2[i]);
            assert(1 * v0[i] + 0 * v0[i] == v[i]);
        }
        lemma_int_dot_combine_right(e0, w0, v0, v0, 1, 0);
        assert(1 * int_dot(e0, v0) + 0 * int_dot(e0, v0) == int_dot(e0, v0));
        lemma_congruent_mul(el, wl, el, vl + delta);
        lemma_congruent_add(int_dot(e0, w0), el * wl, int_dot(e0, v0), el * (vl + delta));
        lemma_dist(el, vl, delta);
    } else {
        assert forall|i: int| 0 <= i < n && i != at implies congruent(
            #[trigger] w0[i] as int,
            v0[i] as int,
        ) by {
            assert(w0[i] == v2[i]);
        }
        lemma_int_dot_bump(e0, v0, w0, at, delta);
        lemma_congruent_mul(el, wl, el, vl);
        lemma_congruent_add(
            int_dot(e0, w0),
            el * wl,
            int_dot(e0, v0) + e0[at] * delta,
            el * vl,
        );
    }
}

/// The product of a matrix with a vector gives with weights for the
/// rows the sum over the entries, each with the weight of its row and
/// the entry of the vector at its column.
pub proof fn lemma_mat_vec_dot(m: Seq<MatrixEntryView>, rows: nat, z: Seq<nat>, e: Seq<nat>)
    requires
        entries_within(m, rows, z.len()),
        e.len() == rows,
    ensures
        congruent(int_dot(e, mat_vec(m, rows, z)), int_mat(m, e, z)),
    decreases m.len(),
{
    let v = mat_vec(m, rows, z);
    if m.len() == 0 {
        lemma_zero_dot(e, v);
    } else {
        let m0 = m.drop_last();
        let last = m.last();
        assert(forall|i: int| 0 <= i < m0.len() ==> #[trigger] m0[i] == m[i]);
        lemma_mat_vec_dot(m0, rows, z, e);
        let v0 = mat_vec(m0, rows, z);
        let delta = last.val as int * z[last.col as int] as int;
        assert(m[m.len() - 1] == last);
        assert forall|i: int| 0 <= i < rows && i != last.row implies congruent(
            #[trigger] v[i] as int,
            v0[i] as int,
        ) by {}
        lemma_fmul(last.val, z[last.col as int], last.val as int, z[last.col as int] as int);
        lemma_fadd(
            v0[last.row as int],
            fmul(last.val, z[last.col as int]),
            v0[last.row as int] as int,
            delta,
        );
        lemma_int_dot_bump(e, v0, v, last.row as int, delta);
        let (er, zc, val) = (e[last.row as int] as int, z[last.col as int] as int, last.val as int);
        assert(er * (val * zc) == (er * zc) * val) by (nonlinear_arith);
        lemma_congruent_add(int_dot(e, v0), er * delta, int_mat(m0, e, z), er * delta);
    }
}

/// A vector of zeros gives zero with any weights.
pub proof fn lemma_zero_dot(e: Seq<nat>, v: Seq<nat>)
    requires
        forall|i: int| 0 <= i < v.len() ==> #[trigger] v[i] == 0,
    ensures
        int_dot(e, v) == 0,
        int_dot(v, e) == 0,
    decreases e.len(),
{
    if e.len() > 0 && v.len() > 0 {
        lemma_zero_dot(e.drop_last(), v.drop_last());
        assert(e.last() * 0 == 0);
        assert(0 * e.last() == 0);
    }
}

/// The product of a vector with a matrix gives with weights for the
/// columns the sum over the entries, each with the entry of the vector
/// at its row and the weight of its column.
pub proof fn lemma_vec_mat_dot(m: Seq<MatrixEntryView>, cols: nat, x: Seq<nat>, y: Seq<nat>)
    requires
        entries_within(m, x.len(), cols),
        y.len() == cols,
    ensures
        congruent(int_dot(y, vec_mat(m, cols, x)), int_mat(m, x, y)),
    decreases m.len(),
{
    let v = vec_mat(m, cols, x);
    if m.len() == 0 {
        lemma_zero_dot(y, v);
    } else {
        let m0 = m.drop_last();
        let last = m.last();
        assert(forall|i: int| 0 <= i < m0.len() ==> #[trigger] m0[i] == m[i]);
        lemma_vec_mat_dot(m0, cols, x, y);
        let v0 = vec_mat(m0, cols, x);
        let delta = x[last.row as int] as int * last.val as int;
        assert(m[m.len() - 1] == last);
        assert forall|i: int| 0 <= i < cols && i != last.col implies congruent(
            #[trigger] v[i] as int,
            v0[i] as int,
        ) by {}
        lemma_fmul(x[last.row as int], last.val, x[last.row as int] as int, last.val as int);
        lemma_fadd(
            v0[last.col as int],
            fmul(x[last.row as int], last.val),
            v0[last.col as int] as int,
            delta,
        );
        lemma_int_dot_bump(y, v0, v, last.col as int, delta);
        let (xr, yc, val) = (x[last.row as int] as int, y[last.col as int] as int, last.val as int);
        assert(yc * (xr * val) == (xr * yc) * val) by (nonlinear_arith);
        lemma_congruent_add(int_dot(y, v0), yc * delta, int_mat(m0, x, y), yc * delta);
    }
}

/// The combination of three vectors gives with weights the combination
/// of what the three give.
pub proof fn lemma_combine_dot(
    r: (nat, nat, nat),
    a: Seq<nat>,
    b: Seq<nat>,
    c: Seq<nat>,
    e: Seq<nat>,
)
    requires
        a.len() == b.len(),
        a.len() == c.len(),
        a.len() == e.len(),
    ensures
        congruent(
            int_dot(e, combine(r, a, b, c)),
            r.0 * int_dot(e, a) + r.1 * int_dot(e, b) + r.2 * int_dot(e, c),
        ),
    decreases e.len(),
{
    let v = combine(r, a, b, c);
    if e.len() == 0 {
        assert(r.0 * 0 + r.1 * 0 + r.2 * 0 == 0);
    } else {
        let n = e.len() - 1;
        lemma_combine_dot(r, a.drop_last(), b.drop_last(), c.drop_last(), e.drop_last());
        assert(v.drop_last() =~= combine(r, a.drop_last(), b.drop_last(), c.drop_last()));
        let (r0, r1, r2) = (r.0 as int, r.1 as int, r.2 as int);
        let (al, bl, cl, el) = (a[n] as int, b[n] as int, c[n] as int, e[n] as int);
        lemma_combine_one(r, a[n], b[n], c[n], al, bl, cl);
        lemma_congruent_mul(el, v[n] as int, el, r0 * al + r1 * bl + r2 * cl);
        let (da, db, dc) = (
            int_dot(e.drop_last(), a.drop_last()),
            int_dot(e.drop_last(), b.drop_last()),
            int_dot(e.drop_last(), c.drop_last()),
        );
        lemma_congruent_add(
            int_dot(e.drop_last(), v.drop_last()),
            el * v[n],
            r0 * da + r1 * db + r2 * dc,
            el * (r0 * al + r1 * bl + r2 * cl),
        );
        lemma_dist(el, r0 * al + r1 * bl, r2 * cl);
        lemma_dist(el, r0 * al, r1 * bl);
        lemma_dist(r0, da, el * al);
        lemma_dist(r1, db, el * bl);
        lemma_dist(r2, dc, el * cl);
        assert(el * (r0 * al) == r0 * (el * al)) by (nonlinear_arith);
        assert(el * (r1 * bl) == r1 * (el * bl)) by (nonlinear_arith);
        assert(el * (r2 * cl) == r2 * (el * cl)) by (nonlinear_arith);
    }
}

/// Three values combined in the field stand for the combination of what
/// they stand for.
pub proof fn lemma_combine_one(r: (nat, nat, nat), a: nat, b: nat, c: nat, x: int, y: int, z: int)
    requires
        congruent(a as int, x),
        congruent(b as int, y),
        congruent(c as int, z),
    ensures
        congruent(combine_one(r, a, b, c) as int, r.0 * x + r.1 * y + r.2 * z),
        combine_one(r, a, b, c) < crate::scalar::modulus(),
{
    lemma_fmul(r.0, a, r.0 as int, x);
    lemma_fmul(r.1, b, r.1 as int, y);
    lemma_fmul(r.2, c, r.2 as int, z);
    lemma_fadd(fmul(r.0, a), fmul(r.1, b), r.0 * x, r.1 * y);
    lemma_fadd(fadd(fmul(r.0, a), fmul(r.1, b)), fmul(r.2, c), r.0 * x + r.1 * y, r.2 * z);
}

} // verus!
