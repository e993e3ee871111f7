use vstd::prelude::*;
use crate::algebra::{
    congruent, int_dot, lemma_assoc, lemma_comm, lemma_congruent_add, lemma_congruent_mul,
    lemma_dist, lemma_fadd, lemma_fmul, lemma_fsub, lemma_inner_product, lemma_int_dot_concat,
    lemma_small_inverses,
};
use crate::completeness::polynomials::{int_pow, lemma_uni_eval, poly_value};
use crate::dense_mlpoly::bound_top;
use crate::nizk::completeness::{lemma_inverse_product, lemma_unit};
use crate::scalar::{fadd, finv, fmul, fsub, inner_product};
use crate::sumcheck::{
    at_three, at_two, bound_tables, cubic_evals, cubic_sum, lower, quad_evals, round_poly, Tables,
};
use crate::unipoly::{uni_eval, uni_from_evals};

verus! {

/// The value of a polynomial whose first variable is set to `x`, at the
/// corner `i` of the other variables: it is of degree one in `x` between
/// the values where the variable is zero and where it is one.
pub open spec fn ext(t: Seq<nat>, i: int, x: int) -> int {
    t[i] + x * (t[i + t.len() / 2] - t[i])
}

/// What the corner `i` gives to a sum where the first variable of all
/// polynomials is set to `x`.
pub open spec fn term(cubic: bool, t: Tables, i: int, x: int) -> int {
    if cubic {
        ext(t.a, i, x) * (ext(t.b, i, x) * ext(t.c, i, x) - ext(t.d, i, x))
    } else {
        ext(t.a, i, x) * ext(t.b, i, x)
    }
}

/// The sum over the first `k` corners where the first variable of all
/// polynomials is set to `x`.
pub open spec fn round_sum(cubic: bool, t: Tables, x: int, k: nat) -> int
    decreases k,
{
    if k == 0 {
        0
    } else {
        round_sum(cubic, t, x, (k - 1) as nat) + term(cubic, t, k - 1, x)
    }
}

/// The coefficient of the power `j` of `x` in what the corner `i` gives.
pub open spec fn coef(cubic: bool, t: Tables, i: int, j: nat) -> int {
    let h = t.a.len() / 2;
    let (a0, da) = (t.a[i] as int, t.a[i + h] - t.a[i]);
    let (b0, db) = (t.b[i] as int, t.b[i + h] - t.b[i]);
    if cubic {
        let (c0, dc) = (t.c[i] as int, t.c[i + t.c.len() / 2] - t.c[i]);
        let (d0, dd) = (t.d[i] as int, t.d[i + t.d.len() / 2] - t.d[i]);
        let q0 = b0 * c0 - d0;
        let q1 = b0 * dc + db * c0 - dd;
        let q2 = db * dc;
        if j == 0 {
            a0 * q0
        } else if j == 1 {
            a0 * q1 + da * q0
        } else if j == 2 {
            a0 * q2 + da * q1
        } else {
            da * q2
        }
    } else {
        if j == 0 {
            a0 * b0
        } else if j == 1 {
            a0 * db + da * b0
        } else if j == 2 {
            da * db
        } else {
            0
        }
    }
}

/// The coefficient of the power `j` of `x` in the sum over the first `k`
/// corners.
pub open spec fn coef_sum(cubic: bool, t: Tables, j: nat, k: nat) -> int
    decreases k,
{
    if k == 0 {
        0
    } else {
        coef_sum(cubic, t, j, (k - 1) as nat) + coef(cubic, t, k - 1, j)
    }
}

/// The polynomial with four coefficients, at `x`.
pub open spec fn cubic_at(k0: int, k1: int, k2: int, k3: int, x: int) -> int {
    k0 + k1 * x + k2 * (x * x) + k3 * (x * x * x)
}

/// A product of three factors of degree one, less a fourth, is a
/// polynomial of degree three.
proof fn lemma_cubic_term(
    a0: int,
    da: int,
    b0: int,
    db: int,
    c0: int,
    dc: int,
    d0: int,
    dd: int,
    x: int,
)
    ensures
        (a0 + x * da) * ((b0 + x * db) * (c0 + x * dc) - (d0 + x * dd)) == cubic_at(
            a0 * (b0 * c0 - d0),
            a0 * (b0 * dc + db * c0 - dd) + da * (b0 * c0 - d0),
            a0 * (db * dc) + da * (b0 * dc + db * c0 - dd),
            da * (db * dc),
            x,
        ),
{
    let q0 = b0 * c0 - d0;
    let q1 = b0 * dc + db * c0 - dd;
    let q2 = db * dc;
    let xx = x * x;
    // the product of the second and the third factor
    lemma_dist(b0 + x * db, c0, x * dc);
    lemma_dist(c0, b0, x * db);
    lemma_dist(x * dc, b0, x * db);
    assert((x * db) * c0 == (db * c0) * x) by (nonlinear_arith);
    assert(b0 * (x * dc) == (b0 * dc) * x) by (nonlinear_arith);
    assert((x * db) * (x * dc) == q2 * xx) by (nonlinear_arith)
        requires
            q2 == db * dc,
            xx == x * x,
    ;
    lemma_dist(x, b0 * dc, db * c0);
    lemma_dist(x, b0 * dc + db * c0, dd);
    lemma_comm(x, dd);
    let inner = (b0 + x * db) * (c0 + x * dc) - (d0 + x * dd);
    assert(inner == q0 + q1 * x + q2 * xx);
    // times the first factor
    lemma_dist(a0 + x * da, q0 + q1 * x, q2 * xx);
    lemma_dist(a0 + x * da, q0, q1 * x);
    lemma_dist(q0, a0, x * da);
    lemma_dist(q1 * x, a0, x * da);
    lemma_dist(q2 * xx, a0, x * da);
    assert((x * da) * q0 == (da * q0) * x) by (nonlinear_arith);
    assert(a0 * (q1 * x) == (a0 * q1) * x) by (nonlinear_arith);
    assert((x * da) * (q1 * x) == (da * q1) * xx) by (nonlinear_arith)
        requires
            xx == x * x,
    ;
    assert(a0 * (q2 * xx) == (a0 * q2) * xx) by (nonlinear_arith);
    assert((x * da) * (q2 * xx) == (da * q2) * (x * x * x)) by (nonlinear_arith)
        requires
            xx == x * x,
    ;
    lemma_dist(x, a0 * q1, da * q0);
    lemma_dist(xx, a0 * q2, da * q1);
}

/// A product of two factors of degree one is a polynomial of degree two.
proof fn lemma_quad_term(a0: int, da: int, b0: int, db: int, x: int)
    ensures
        (a0 + x * da) * (b0 + x * db) == cubic_at(a0 * b0, a0 * db + da * b0, da * db, 0, x),
{
    lemma_dist(a0 + x * da, b0, x * db);
    lemma_dist(b0, a0, x * da);
    lemma_dist(x * db, a0, x * da);
    assert((x * da) * b0 == (da * b0) * x) by (nonlinear_arith);
    assert(a0 * (x * db) == (a0 * db) * x) by (nonlinear_arith);
    assert((x * da) * (x * db) == (da * db) * (x * x)) by (nonlinear_arith);
    lemma_dist(x, a0 * db, da * b0);
    assert(0 * (x * x * x) == 0);
}

/// What a corner gives to a sum is a polynomial in `x` with the four
/// coefficients of the corner.
pub proof fn lemma_term_poly(cubic: bool, t: Tables, i: int, x: int)
    requires
        t.a.len() == t.b.len(),
        cubic ==> t.a.len() == t.c.len() && t.a.len() == t.d.len(),
    ensures
        term(cubic, t, i, x) == cubic_at(
            coef(cubic, t, i, 0),
            coef(cubic, t, i, 1),
            coef(cubic, t, i, 2),
            coef(cubic, t, i, 3),
            x,
        ),
{
    let h = t.a.len() / 2;
    let (a0, da) = (t.a[i] as int, t.a[i + h] - t.a[i]);
    let (b0, db) = (t.b[i] as int, t.b[i + h] - t.b[i]);
    if cubic {
        let (c0, dc) = (t.c[i] as int, t.c[i + h] - t.c[i]);
        let (d0, dd) = (t.d[i] as int, t.d[i + h] - t.d[i]);
        lemma_cubic_term(a0, da, b0, db, c0, dc, d0, dd, x);
    } else {
        lemma_quad_term(a0, da, b0, db, x);
    }
}

/// The sum over the first corners is a polynomial in `x` with the sums
/// of the coefficients of the corners as its coefficients.
pub proof fn lemma_round_sum_poly(cubic: bool, t: Tables, x: int, k: nat)
    requires
        t.a.len() == t.b.len(),
        cubic ==> t.a.len() == t.c.len() && t.a.len() == t.d.len(),
    ensures
        round_sum(cubic, t, x, k) == cubic_at(
            coef_sum(cubic, t, 0, k),
            coef_sum(cubic, t, 1, k),
            coef_sum(cubic, t, 2, k),
            coef_sum(cubic, t, 3, k),
            x,
        ),
    decreases k,
{
    if k == 0 {
        assert(0 * x == 0);
        assert(0 * (x * x) == 0);
        assert(0 * (x * x * x) == 0);
    } else {
        let j = (k - 1) as nat;
        lemma_round_sum_poly(cubic, t, x, j);
        lemma_term_poly(cubic, t, j as int, x);
        lemma_dist(x, coef_sum(cubic, t, 1, j), coef(cubic, t, j as int, 1));
        lemma_dist(x * x, coef_sum(cubic, t, 2, j), coef(cubic, t, j as int, 2));
        lemma_dist(x * x * x, coef_sum(cubic, t, 3, j), coef(cubic, t, j as int, 3));
    }
}

/// Whether each entry of `s` stands for the value of the polynomial `t`
/// at its corner with the first variable set to `x`.
pub open spec fn stands_for(s: Seq<nat>, t: Seq<nat>, x: int) -> bool {
    forall|i: int| 0 <= i < s.len() ==> congruent(#[trigger] s[i] as int, ext(t, i, x))
}

/// The sum over vectors whose entries stand for the values of the
/// polynomials with the first variable set to `x` stands for the sum
/// over the corners.
pub proof fn lemma_sum_ext(
    cubic: bool,
    t: Tables,
    x: int,
    sa: Seq<nat>,
    sb: Seq<nat>,
    sc: Seq<nat>,
    sd: Seq<nat>,
)
    requires
        sa.len() == sb.len(),
        cubic ==> sa.len() == sc.len() && sa.len() == sd.len(),
        stands_for(sa, t.a, x),
        stands_for(sb, t.b, x),
        cubic ==> stands_for(sc, t.c, x) && stands_for(sd, t.d, x),
    ensures
        cubic ==> congruent(cubic_sum(sa, sb, sc, sd) as int, round_sum(cubic, t, x, sa.len())),
        !cubic ==> congruent(inner_product(sa, sb) as int, round_sum(cubic, t, x, sa.len())),
    decreases sa.len(),
{
    if sa.len() > 0 {
        let i = sa.len() - 1;
        lemma_sum_ext(cubic, t, x, sa.drop_last(), sb.drop_last(), sc.drop_last(), sd.drop_last());
        assert(sa.drop_last().len() == i);
        let (ea, eb) = (ext(t.a, i, x), ext(t.b, i, x));
        assert(congruent(sa[i] as int, ea));
        assert(congruent(sb[i] as int, eb));
        if cubic {
            let (ec, ed) = (ext(t.c, i, x), ext(t.d, i, x));
            assert(congruent(sc[i] as int, ec));
            assert(congruent(sd[i] as int, ed));
            lemma_fmul(sb[i], sc[i], eb, ec);
            lemma_fsub(fmul(sb[i], sc[i]), sd[i], eb * ec, ed);
            lemma_fmul(sa[i], fsub(fmul(sb[i], sc[i]), sd[i]), ea, eb * ec - ed);
            lemma_fadd(
                cubic_sum(sa.drop_last(), sb.drop_last(), sc.drop_last(), sd.drop_last()),
                fmul(sa[i], fsub(fmul(sb[i], sc[i]), sd[i])),
                round_sum(cubic, t, x, i as nat),
                ea * (eb * ec - ed),
            );
        } else {
            lemma_fmul(sa[i], sb[i], ea, eb);
            lemma_fadd(
                inner_product(sa.drop_last(), sb.drop_last()),
                fmul(sa[i], sb[i]),
                round_sum(cubic, t, x, i as nat),
                ea * eb,
            );
        }
    }
}

/// The sum over vectors put together from two parts each stands for the
/// sum of the sums over the parts.
pub proof fn lemma_cubic_sum_concat(
    pa: Seq<nat>,
    pb: Seq<nat>,
    pc: Seq<nat>,
    pd: Seq<nat>,
    qa: Seq<nat>,
    qb: Seq<nat>,
    qc: Seq<nat>,
    qd: Seq<nat>,
)
    requires
        pa.len() == pb.len(),
        pa.len() == pc.len(),
        pa.len() == pd.len(),
        qa.len() == qb.len(),
        qa.len() == qc.len(),
        qa.len() == qd.len(),
    ensures
        congruent(
            cubic_sum(pa + qa, pb + qb, pc + qc, pd + qd) as int,
            (cubic_sum(pa, pb, pc, pd) + cubic_sum(qa, qb, qc, qd)) as int,
        ),
    decreases qa.len(),
{
    if qa.len() == 0 {
        assert(pa + qa =~= pa);
        assert(pb + qb =~= pb);
        assert(pc + qc =~= pc);
        assert(pd + qd =~= pd);
    } else {
        lemma_cubic_sum_concat(
            pa,
            pb,
            pc,
            pd,
            qa.drop_last(),
            qb.drop_last(),
            qc.drop_last(),
            qd.drop_last(),
        );
        assert((pa + qa).drop_last() =~= pa + qa.drop_last());
        assert((pb + qb).drop_last() =~= pb + qb.drop_last());
        assert((pc + qc).drop_last() =~= pc + qc.drop_last());
        assert((pd + qd).drop_last() =~= pd + qd.drop_last());
        let last = fmul(qa.last(), fsub(fmul(qb.last(), qc.last()), qd.last()));
        let rest = cubic_sum(qa.drop_last(), qb.drop_last(), qc.drop_last(), qd.drop_last());
        lemma_fadd(
            cubic_sum(pa + qa.drop_last(), pb + qb.drop_last(), pc + qc.drop_last(), pd + qd.drop_last()),
            last,
            (cubic_sum(pa, pb, pc, pd) + rest) as int,
            last as int,
        );
        lemma_fadd(rest, last, rest as int, last as int);
        lemma_congruent_add(
            cubic_sum(pa, pb, pc, pd) as int,
            (rest + last) as int,
            cubic_sum(pa, pb, pc, pd) as int,
            cubic_sum(qa, qb, qc, qd) as int,
        );
    }
}

/// The sum over all corners of the combination of the polynomials.
pub open spec fn table_sum(cubic: bool, t: Tables) -> nat {
    if cubic {
        cubic_sum(t.a, t.b, t.c, t.d)
    } else {
        inner_product(t.a, t.b)
    }
}

/// Whether the polynomials of a sum have one number of values, which is
/// even.
pub open spec fn tables_fit(cubic: bool, t: Tables) -> bool {
    &&& t.a.len() == 2 * (t.a.len() / 2)
    &&& t.a.len() == t.b.len()
    &&& cubic ==> t.a.len() == t.c.len() && t.a.len() == t.d.len()
}

/// The values of a polynomial where the first variable is zero, one,
/// two, three, and any number stand for what they are named after.
pub proof fn lemma_extensions(t: Seq<nat>, r: nat)
    requires
        t.len() == 2 * (t.len() / 2),
    ensures
        stands_for(lower(t), t, 0),
        stands_for(t.skip((t.len() / 2) as int), t, 1),
        stands_for(at_two(t), t, 2),
        stands_for(at_three(t), t, 3),
        stands_for(bound_top(t, r), t, r as int),
{
    let h = (t.len() / 2) as int;
    assert forall|i: int| 0 <= i < h implies congruent(#[trigger] lower(t)[i] as int, ext(t, i, 0))
    by {
        assert(0 * (t[i + h] - t[i]) == 0);
    }
    assert forall|i: int| 0 <= i < h implies congruent(
        #[trigger] t.skip(h)[i] as int,
        ext(t, i, 1),
    ) by {
        assert(1 * (t[i + h] - t[i]) == t[i + h] - t[i]);
    }
    assert forall|i: int| 0 <= i < h implies congruent(
        #[trigger] at_two(t)[i] as int,
        ext(t, i, 2),
    ) by {
        let (lo, hi) = (t[i] as int, t[i + h] as int);
        lemma_fadd(t[i + h], t[i + h], hi, hi);
        lemma_fsub(fadd(t[i + h], t[i + h]), t[i], hi + hi, lo);
        assert(2 * (hi - lo) == (hi - lo) + (hi - lo));
    }
    assert forall|i: int| 0 <= i < h implies congruent(
        #[trigger] at_three(t)[i] as int,
        ext(t, i, 3),
    ) by {
        let (lo, hi) = (t[i] as int, t[i + h] as int);
        assert(congruent(at_two(t)[i] as int, ext(t, i, 2)));
        lemma_fadd(at_two(t)[i], t[i + h], ext(t, i, 2), hi);
        lemma_fsub(fadd(at_two(t)[i], t[i + h]), t[i], ext(t, i, 2) + hi, lo);
        assert(2 * (hi - lo) == (hi - lo) + (hi - lo));
        assert(3 * (hi - lo) == (hi - lo) + (hi - lo) + (hi - lo));
    }
    assert forall|i: int| 0 <= i < h implies congruent(
        #[trigger] bound_top(t, r)[i] as int,
        ext(t, i, r as int),
    ) by {
        let (lo, hi) = (t[i] as int, t[i + h] as int);
        lemma_fsub(t[i + h], t[i], hi, lo);
        lemma_fmul(r, fsub(t[i + h], t[i]), r as int, hi - lo);
        lemma_fadd(t[i], fmul(r, fsub(t[i + h], t[i])), lo, r * (hi - lo));
    }
}

/// The sum over all corners is the sum over the corners where the first
/// variable is zero and over those where it is one.
pub proof fn lemma_table_sum_split(cubic: bool, t: Tables)
    requires
        tables_fit(cubic, t),
    ensures
        congruent(
            table_sum(cubic, t) as int,
            round_sum(cubic, t, 0, t.a.len() / 2) + round_sum(cubic, t, 1, t.a.len() / 2),
        ),
{
    let h = (t.a.len() / 2) as int;
    lemma_extensions(t.a, 0);
    lemma_extensions(t.b, 0);
    assert(lower(t.a) + t.a.skip(h) =~= t.a);
    assert(lower(t.b) + t.b.skip(h) =~= t.b);
    if cubic {
        lemma_extensions(t.c, 0);
        lemma_extensions(t.d, 0);
        assert(lower(t.c) + t.c.skip(h) =~= t.c);
        assert(lower(t.d) + t.d.skip(h) =~= t.d);
        lemma_cubic_sum_concat(
            lower(t.a),
            lower(t.b),
            lower(t.c),
            lower(t.d),
            t.a.skip(h),
            t.b.skip(h),
            t.c.skip(h),
            t.d.skip(h),
        );
        lemma_sum_ext(cubic, t, 0, lower(t.a), lower(t.b), lower(t.c), lower(t.d));
        lemma_sum_ext(cubic, t, 1, t.a.skip(h), t.b.skip(h), t.c.skip(h), t.d.skip(h));
        lemma_congruent_add(
            cubic_sum(lower(t.a), lower(t.b), lower(t.c), lower(t.d)) as int,
            cubic_sum(t.a.skip(h), t.b.skip(h), t.c.skip(h), t.d.skip(h)) as int,
            round_sum(cubic, t, 0, h as nat),
            round_sum(cubic, t, 1, h as nat),
        );
    } else {
        lemma_inner_product(t.a, t.b);
        lemma_int_dot_concat(lower(t.a), lower(t.b), t.a.skip(h), t.b.skip(h));
        lemma_inner_product(lower(t.a), lower(t.b));
        lemma_inner_product(t.a.skip(h), t.b.skip(h));
        lemma_sum_ext(cubic, t, 0, lower(t.a), lower(t.b), t.c, t.d);
        lemma_sum_ext(cubic, t, 1, t.a.skip(h), t.b.skip(h), t.c, t.d);
        lemma_congruent_add(
            int_dot(lower(t.a), lower(t.b)),
            int_dot(t.a.skip(h), t.b.skip(h)),
            round_sum(cubic, t, 0, h as nat),
            round_sum(cubic, t, 1, h as nat),
        );
    }
}

/// The value over the integers of a polynomial with three or four
/// coefficients.
pub proof fn lemma_poly_value_short(c: Seq<nat>, r: int)
    requires
        c.len() == 3 || c.len() == 4,
    ensures
        c.len() == 3 ==> poly_value(c, r) == cubic_at(c[0] as int, c[1] as int, c[2] as int, 0, r),
        c.len() == 4 ==> poly_value(c, r) == cubic_at(
            c[0] as int,
            c[1] as int,
            c[2] as int,
            c[3] as int,
            r,
        ),
{
    reveal_with_fuel(poly_value, 5);
    reveal_with_fuel(int_pow, 4);
    assert(int_pow(r, 0) == 1);
    assert(int_pow(r, 1) == r) by {
        assert(1 * r == r);
    }
    assert(int_pow(r, 2) == r * r);
    assert(int_pow(r, 3) == r * r * r);
    assert(0 * (r * r * r) == 0);
    if c.len() == 3 {
        let c2 = c.drop_last();
        let c1 = c2.drop_last();
        assert(c1.drop_last().len() == 0);
        assert(poly_value(c1, r) == c[0] * 1);
        assert(poly_value(c2, r) == poly_value(c1, r) + c[1] * r);
        assert(poly_value(c, r) == poly_value(c2, r) + c[2] * (r * r));
    } else {
        let c3 = c.drop_last();
        let c2 = c3.drop_last();
        let c1 = c2.drop_last();
        assert(c1.drop_last().len() == 0);
        assert(poly_value(c1, r) == c[0] * 1);
        assert(poly_value(c2, r) == poly_value(c1, r) + c[1] * r);
        assert(poly_value(c3, r) == poly_value(c2, r) + c[2] * (r * r));
        assert(poly_value(c, r) == poly_value(c3, r) + c[3] * (r * r * r));
    }
}

/// The polynomial through the values at 0, 1, 2 and, for four values, 3
/// of a polynomial with the coefficients `k0` to `k3`, of which the last
/// is zero where there are three values only, takes at `r` the value of
/// that polynomial.
pub proof fn lemma_interpolate(e: Seq<nat>, k0: int, k1: int, k2: int, k3: int, r: nat)
    requires
        e.len() == 3 || e.len() == 4,
        e.len() == 3 ==> k3 == 0,
        congruent(e[0] as int, cubic_at(k0, k1, k2, k3, 0)),
        congruent(e[1] as int, cubic_at(k0, k1, k2, k3, 1)),
        congruent(e[2] as int, cubic_at(k0, k1, k2, k3, 2)),
        e.len() == 4 ==> congruent(e[3] as int, cubic_at(k0, k1, k2, k3, 3)),
    ensures
        congruent(uni_eval(uni_from_evals(e), r) as int, cubic_at(k0, k1, k2, k3, r as int)),
{
    let c = uni_from_evals(e);
    let ri = r as int;
    let v0 = k0;
    let v1 = k0 + k1 + k2 + k3;
    let v2 = k0 + 2 * k1 + 4 * k2 + 8 * k3;
    let v3 = k0 + 3 * k1 + 9 * k2 + 27 * k3;
    assert(cubic_at(k0, k1, k2, k3, 0) == v0) by {
        assert(k1 * 0 == 0 && k2 * (0 * 0) == 0 && k3 * (0 * 0 * 0) == 0) by (nonlinear_arith);
    }
    assert(cubic_at(k0, k1, k2, k3, 1) == v1) by {
        assert(k1 * 1 == k1 && k2 * (1 * 1) == k2 && k3 * (1 * 1 * 1) == k3) by (nonlinear_arith);
    }
    assert(cubic_at(k0, k1, k2, k3, 2) == v2) by {
        assert(k1 * 2 == 2 * k1 && k2 * (2 * 2) == 4 * k2 && k3 * (2 * 2 * 2) == 8 * k3)
            by (nonlinear_arith);
    }
    assert(cubic_at(k0, k1, k2, k3, 3) == v3) by {
        assert(k1 * 3 == 3 * k1 && k2 * (3 * 3) == 9 * k2 && k3 * (3 * 3 * 3) == 27 * k3)
            by (nonlinear_arith);
    }
    lemma_small_inverses();
    lemma_inverse_product(2);
    lemma_inverse_product(6);
    let (i2, i6) = (finv(2) as int, finv(6) as int);
    lemma_unit(2, i2, k2);
    lemma_unit(6, i6, k3);
    lemma_uni_eval(c, r);
    lemma_poly_value_short(c, ri);
    if e.len() == 3 {
        // the coefficients
        let x1 = fsub(e[2], e[1]);
        lemma_fsub(e[2], e[1], v2, v1);
        lemma_fsub(x1, e[1], v2 - v1, v1);
        lemma_fadd(fsub(x1, e[1]), e[0], v2 - v1 - v1, v0);
        lemma_fmul(finv(2), fadd(fsub(x1, e[1]), e[0]), i2, v2 - v1 - v1 + v0);
        assert(v2 - v1 - v1 + v0 == 2 * k2);
        lemma_assoc(i2, 2, k2);
        let a = c[2];
        assert(congruent(a as int, k2));
        lemma_fsub(e[1], e[0], v1, v0);
        lemma_fsub(fsub(e[1], e[0]), a, v1 - v0, k2);
        let b = c[1];
        assert(congruent(b as int, k1));
        // the value
        lemma_congruent_mul(b as int, ri, k1, ri);
        lemma_congruent_mul(a as int, ri * ri, k2, ri * ri);
        lemma_congruent_add(c[0] as int, b * ri, k0, k1 * ri);
        lemma_congruent_add(c[0] + b * ri, a * (ri * ri), k0 + k1 * ri, k2 * (ri * ri));
        assert(k3 * (ri * ri * ri) == 0);
    } else {
        let x1 = fsub(fsub(fsub(e[3], e[2]), e[2]), e[2]);
        lemma_fsub(e[3], e[2], v3, v2);
        lemma_fsub(fsub(e[3], e[2]), e[2], v3 - v2, v2);
        lemma_fsub(fsub(fsub(e[3], e[2]), e[2]), e[2], v3 - v2 - v2, v2);
        lemma_fadd(x1, e[1], v3 - 3 * v2, v1);
        lemma_fadd(fadd(x1, e[1]), e[1], v3 - 3 * v2 + v1, v1);
        lemma_fadd(fadd(fadd(x1, e[1]), e[1]), e[1], v3 - 3 * v2 + 2 * v1, v1);
        let x6 = fsub(fadd(fadd(fadd(x1, e[1]), e[1]), e[1]), e[0]);
        lemma_fsub(fadd(fadd(fadd(x1, e[1]), e[1]), e[1]), e[0], v3 - 3 * v2 + 3 * v1, v0);
        lemma_fmul(finv(6), x6, i6, v3 - 3 * v2 + 3 * v1 - v0);
        assert(v3 - 3 * v2 + 3 * v1 - v0 == 6 * k3);
        lemma_assoc(i6, 6, k3);
        let a = c[3];
        assert(congruent(a as int, k3));

        let y0 = fadd(e[0], e[0]);
        lemma_fadd(e[0], e[0], v0, v0);
        lemma_fsub(y0, e[1], 2 * v0, v1);
        let y1 = fsub(y0, e[1]);
        lemma_fsub(y1, e[1], 2 * v0 - v1, v1);
        let y2 = fsub(y1, e[1]);
        lemma_fsub(y2, e[1], 2 * v0 - 2 * v1, v1);
        let y3 = fsub(y2, e[1]);
        lemma_fsub(y3, e[1], 2 * v0 - 3 * v1, v1);
        let y4 = fsub(y3, e[1]);
        lemma_fsub(y4, e[1], 2 * v0 - 4 * v1, v1);
        let y5 = fsub(y4, e[1]);
        lemma_fadd(y5, e[2], 2 * v0 - 5 * v1, v2);
        let y6 = fadd(y5, e[2]);
        lemma_fadd(y6, e[2], 2 * v0 - 5 * v1 + v2, v2);
        let y7 = fadd(y6, e[2]);
        lemma_fadd(y7, e[2], 2 * v0 - 5 * v1 + 2 * v2, v2);
        let y8 = fadd(y7, e[2]);
        lemma_fadd(y8, e[2], 2 * v0 - 5 * v1 + 3 * v2, v2);
        let y9 = fadd(y8, e[2]);
        lemma_fsub(y9, e[3], 2 * v0 - 5 * v1 + 4 * v2, v3);
        let x2 = fsub(y9, e[3]);
        lemma_fmul(finv(2), x2, i2, 2 * v0 - 5 * v1 + 4 * v2 - v3);
        assert(2 * v0 - 5 * v1 + 4 * v2 - v3 == 2 * k2);
        lemma_assoc(i2, 2, k2);
        let b = c[2];
        assert(congruent(b as int, k2));

        lemma_fsub(e[1], e[0], v1, v0);
        lemma_fsub(fsub(e[1], e[0]), a, v1 - v0, k3);
        lemma_fsub(fsub(fsub(e[1], e[0]), a), b, v1 - v0 - k3, k2);
        let cc = c[1];
        assert(congruent(cc as int, k1));
        // the value
        lemma_congruent_mul(cc as int, ri, k1, ri);
        lemma_congruent_mul(b as int, ri * ri, k2, ri * ri);
        lemma_congruent_mul(a as int, ri * ri * ri, k3, ri * ri * ri);
        lemma_congruent_add(c[0] as int, cc * ri, k0, k1 * ri);
        lemma_congruent_add(c[0] + cc * ri, b * (ri * ri), k0 + k1 * ri, k2 * (ri * ri));
        lemma_congruent_add(
            c[0] + cc * ri + b * (ri * ri),
            a * (ri * ri * ri),
            k0 + k1 * ri + k2 * (ri * ri),
            k3 * (ri * ri * ri),
        );
    }
}

/// A sum of products of two polynomials has no term of degree three.
pub proof fn lemma_quad_has_no_cube(t: Tables, k: nat)
    ensures
        coef_sum(false, t, 3, k) == 0,
    decreases k,
{
    if k > 0 {
        lemma_quad_has_no_cube(t, (k - 1) as nat);
    }
}

/// Where the claim of a round is the sum over all corners, the value of
/// the polynomial of the round at the challenge `r` is the sum over all
/// corners of the polynomials with their first variable set to `r`.
pub proof fn lemma_round_claim(cubic: bool, t: Tables, claim: nat, r: nat)
    requires
        tables_fit(cubic, t),
        congruent(claim as int, table_sum(cubic, t) as int),
    ensures
        congruent(
            uni_eval(round_poly(cubic, t, claim), r) as int,
            table_sum(cubic, bound_tables(t, r)) as int,
        ),
{
    let h = t.a.len() / 2;
    let (k0, k1, k2, k3) = (
        coef_sum(cubic, t, 0, h),
        coef_sum(cubic, t, 1, h),
        coef_sum(cubic, t, 2, h),
        coef_sum(cubic, t, 3, h),
    );
    lemma_round_sum_poly(cubic, t, 0, h);
    lemma_round_sum_poly(cubic, t, 1, h);
    lemma_round_sum_poly(cubic, t, 2, h);
    lemma_round_sum_poly(cubic, t, 3, h);
    lemma_round_sum_poly(cubic, t, r as int, h);
    lemma_extensions(t.a, r);
    lemma_extensions(t.b, r);
    lemma_table_sum_split(cubic, t);
    let e = if cubic {
        cubic_evals(t, claim)
    } else {
        quad_evals(t, claim)
    };
    let b = bound_tables(t, r);
    if cubic {
        lemma_extensions(t.c, r);
        lemma_extensions(t.d, r);
        lemma_sum_ext(cubic, t, 0, lower(t.a), lower(t.b), lower(t.c), lower(t.d));
        lemma_sum_ext(cubic, t, 2, at_two(t.a), at_two(t.b), at_two(t.c), at_two(t.d));
        lemma_sum_ext(cubic, t, 3, at_three(t.a), at_three(t.b), at_three(t.c), at_three(t.d));
        lemma_sum_ext(cubic, t, r as int, b.a, b.b, b.c, b.d);
    } else {
        lemma_quad_has_no_cube(t, h);
        lemma_sum_ext(cubic, t, 0, lower(t.a), lower(t.b), t.c, t.d);
        lemma_sum_ext(cubic, t, 2, at_two(t.a), at_two(t.b), t.c, t.d);
        lemma_sum_ext(cubic, t, r as int, b.a, b.b, b.c, b.d);
    }
    lemma_fsub(
        claim,
        e[0],
        round_sum(cubic, t, 0, h) + round_sum(cubic, t, 1, h),
        round_sum(cubic, t, 0, h),
    );
    lemma_interpolate(e, k0, k1, k2, k3, r);
}

} // verus!
