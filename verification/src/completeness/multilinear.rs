use vstd::prelude::*;
use crate::algebra::{
    congruent, int_dot, lemma_assoc, lemma_comm, lemma_congruent_add, lemma_congruent_mul,
    lemma_dist, lemma_fadd, lemma_fmul, lemma_fsub, lemma_int_dot_combine_left,
    lemma_int_dot_combine_right, lemma_int_dot_split,
};
use crate::dense_mlpoly::{bound_top, eq_eval, eq_evals, lemma_eq_evals_len};
use crate::math::two_to;
use crate::scalar::{fadd, fmul, fsub};

verus! {

/// What the last variable of a point gives to the value of its
/// polynomial at a corner: the variable where the last bit of the corner
/// is set, and one less the variable where it is not.
pub open spec fn last_factor(r: int, i: int) -> int {
    if i % 2 == 1 {
        r
    } else {
        1 - r
    }
}

/// The values of the polynomial of a point at the corners, for one more
/// variable at the end: each value of before, times what the new
/// variable gives.
pub proof fn lemma_eq_evals_back(r: Seq<nat>, i: int)
    requires
        r.len() > 0,
        0 <= i < two_to(r.len()),
    ensures
        eq_evals(r.drop_last()).len() == two_to((r.len() - 1) as nat),
        congruent(
            eq_evals(r)[i] as int,
            eq_evals(r.drop_last())[i / 2] * last_factor(r.last() as int, i),
        ),
{
    lemma_eq_evals_len(r.drop_last());
    let prev = eq_evals(r.drop_last());
    let p = prev[i / 2];
    let rl = r.last();
    lemma_fmul(p, rl, p as int, rl as int);
    lemma_fsub(p, fmul(p, rl), p as int, p as int * rl as int);
    lemma_dist(p as int, 1, rl as int);
    assert(p * 1 == p);
}

/// The values of the polynomial of a point at the corners, by the first
/// variable: in the lower half one less the variable times the values
/// for the other variables, in the upper half the variable times them.
pub proof fn lemma_eq_evals_front(r: Seq<nat>, i: int)
    requires
        r.len() > 0,
        0 <= i < two_to((r.len() - 1) as nat),
    ensures
        eq_evals(r).len() == 2 * two_to((r.len() - 1) as nat),
        eq_evals(r.skip(1)).len() == two_to((r.len() - 1) as nat),
        congruent(eq_evals(r)[i] as int, (1 - r[0]) * eq_evals(r.skip(1))[i]),
        congruent(
            eq_evals(r)[i + two_to((r.len() - 1) as nat)] as int,
            r[0] as int * eq_evals(r.skip(1))[i] as int,
        ),
    decreases r.len(),
{
    lemma_eq_evals_len(r);
    lemma_eq_evals_len(r.skip(1));
    let half = two_to((r.len() - 1) as nat) as int;
    let r0 = r[0] as int;
    if r.len() == 1 {
        assert(r.skip(1).len() == 0);
        assert(r.drop_last().len() == 0);
        assert(i == 0);
        lemma_eq_evals_back(r, 0);
        lemma_eq_evals_back(r, 1);
        assert(eq_evals(r.drop_last())[0] == 1);
        assert(eq_evals(r.skip(1))[0] == 1);
        assert(1 * (1 - r0) == 1 - r0);
        assert((1 - r0) * 1 == 1 - r0);
        assert(1 * r0 == r0);
        assert(r0 * 1 == r0);
    } else {
        let back = r.drop_last();
        let rest = r.skip(1);
        let quarter = two_to((r.len() - 2) as nat) as int;
        assert(half == 2 * quarter);
        assert(back.skip(1) =~= rest.drop_last());
        assert(back[0] == r[0]);
        assert(rest.last() == r.last());
        let rl = r.last() as int;
        lemma_eq_evals_front(back, i / 2);
        lemma_eq_evals_back(r, i);
        lemma_eq_evals_back(r, i + half);
        lemma_eq_evals_back(rest, i);
        assert((i + half) / 2 == i / 2 + quarter);
        assert((i + half) % 2 == i % 2);
        let inner = eq_evals(rest.drop_last())[i / 2] as int;
        let f = last_factor(rl, i);
        // the lower half
        lemma_congruent_mul(eq_evals(back)[i / 2] as int, f, (1 - r0) * inner, f);
        lemma_congruent_mul(1 - r0, eq_evals(rest)[i] as int, 1 - r0, inner * f);
        lemma_assoc(1 - r0, inner, f);
        // the upper half
        lemma_congruent_mul(eq_evals(back)[i / 2 + quarter] as int, f, r0 * inner, f);
        lemma_congruent_mul(r0, eq_evals(rest)[i] as int, r0, inner * f);
        lemma_assoc(r0, inner, f);
    }
}

/// Where the lower half of `e` stands for `c1` times `e2` and the upper
/// half for `c2` times `e2`, and `v2` stands for `c1` times the lower
/// half of `v` plus `c2` times the upper half, `e` gives with `v` what
/// `e2` gives with `v2`.
pub proof fn lemma_halves_step(
    e: Seq<nat>,
    e2: Seq<nat>,
    v: Seq<nat>,
    v2: Seq<nat>,
    c1: int,
    c2: int,
)
    requires
        e.len() == 2 * e2.len(),
        v.len() == e.len(),
        v2.len() == e2.len(),
        forall|i: int| 0 <= i < e2.len() ==> congruent(#[trigger] e[i] as int, c1 * e2[i]),
        forall|i: int|
            0 <= i < e2.len() ==> congruent(#[trigger] e[i + e2.len()] as int, c2 * e2[i]),
        forall|i: int|
            0 <= i < v2.len() ==> congruent(
                #[trigger] v2[i] as int,
                c1 * v[i] + c2 * v[i + v2.len()],
            ),
    ensures
        congruent(int_dot(e, v), int_dot(e2, v2)),
{
    let half = e2.len() as int;
    lemma_int_dot_split(e, v, half);
    let (el, er) = (e.take(half), e.skip(half));
    let (vl, vr) = (v.take(half), v.skip(half));
    assert forall|i: int| 0 <= i < half implies congruent(el[i] as int, c1 * e2[i] + 0 * e2[i]) by {
        assert(el[i] == e[i]);
        assert(0 * e2[i] == 0);
    }
    assert forall|i: int| 0 <= i < half implies congruent(er[i] as int, c2 * e2[i] + 0 * e2[i]) by {
        assert(er[i] == e[i + half]);
        assert(0 * e2[i] == 0);
    }
    lemma_int_dot_combine_left(el, e2, e2, vl, c1, 0);
    lemma_int_dot_combine_left(er, e2, e2, vr, c2, 0);
    assert(0 * int_dot(e2, vl) == 0);
    assert(0 * int_dot(e2, vr) == 0);
    assert forall|i: int| 0 <= i < half implies congruent(v2[i] as int, c1 * vl[i] + c2 * vr[i]) by {
        assert(vl[i] == v[i]);
        assert(vr[i] == v[i + half]);
    }
    lemma_int_dot_combine_right(e2, v2, vl, vr, c1, c2);
    lemma_congruent_add(
        int_dot(el, vl),
        int_dot(er, vr),
        c1 * int_dot(e2, vl),
        c2 * int_dot(e2, vr),
    );
}

/// Setting the first variable of a polynomial to `r` leaves its value at
/// a point that starts with `r`.
pub proof fn lemma_bound_value(t: Seq<nat>, point: Seq<nat>)
    requires
        point.len() > 0,
        t.len() == two_to(point.len()),
    ensures
        bound_top(t, point[0]).len() == two_to((point.len() - 1) as nat),
        congruent(
            int_dot(eq_evals(point), t),
            int_dot(eq_evals(point.skip(1)), bound_top(t, point[0])),
        ),
{
    let half = two_to((point.len() - 1) as nat) as int;
    let r = point[0];
    let ri = r as int;
    let b = bound_top(t, r);
    let e = eq_evals(point);
    let e2 = eq_evals(point.skip(1));
    lemma_eq_evals_len(point);
    lemma_eq_evals_len(point.skip(1));
    assert(two_to(point.len()) == 2 * half);
    assert forall|i: int| 0 <= i < half implies congruent(#[trigger] e[i] as int, (1 - ri) * e2[i])
    by {
        lemma_eq_evals_front(point, i);
    }
    assert forall|i: int| 0 <= i < half implies congruent(
        #[trigger] e[i + e2.len()] as int,
        ri * e2[i],
    ) by {
        lemma_eq_evals_front(point, i);
    }
    assert forall|i: int| 0 <= i < half implies congruent(
        #[trigger] b[i] as int,
        (1 - ri) * t[i] + ri * t[i + b.len()],
    ) by {
        let (lo, hi) = (t[i] as int, t[i + half] as int);
        lemma_fsub(t[i + half], t[i], hi, lo);
        lemma_fmul(r, fsub(t[i + half], t[i]), ri, hi - lo);
        lemma_fadd(t[i], fmul(r, fsub(t[i + half], t[i])), lo, ri * (hi - lo));
        lemma_dist(ri, hi, lo);
        lemma_dist(lo, 1, ri);
        lemma_comm(lo, 1 - ri);
        lemma_comm(lo, ri);
        assert(lo * 1 == lo);
    }
    lemma_halves_step(e, e2, t, b, 1 - ri, ri);
}

/// Where the entries of `e` at even places stand for `m0` times those of
/// `p` and the entries at odd places for `m1` times them, and likewise
/// `x` with `n0`, `n1` and `s`, the inner product of `e` and `x` stands
/// for `m0 n0 + m1 n1` times that of `p` and `s`.
pub proof fn lemma_interleaved(
    e: Seq<nat>,
    x: Seq<nat>,
    p: Seq<nat>,
    s: Seq<nat>,
    m0: int,
    m1: int,
    n0: int,
    n1: int,
)
    requires
        p.len() == s.len(),
        e.len() == 2 * p.len(),
        x.len() == 2 * p.len(),
        forall|i: int| 0 <= i < p.len() ==> congruent(#[trigger] e[2 * i] as int, m0 * p[i]),
        forall|i: int| 0 <= i < p.len() ==> congruent(#[trigger] e[2 * i + 1] as int, m1 * p[i]),
        forall|i: int| 0 <= i < p.len() ==> congruent(#[trigger] x[2 * i] as int, n0 * s[i]),
        forall|i: int| 0 <= i < p.len() ==> congruent(#[trigger] x[2 * i + 1] as int, n1 * s[i]),
    ensures
        congruent(int_dot(e, x), (m0 * n0 + m1 * n1) * int_dot(p, s)),
    decreases p.len(),
{
    let w = m0 * n0 + m1 * n1;
    if p.len() == 0 {
        assert(w * 0 == 0);
    } else {
        let m = p.len() - 1;
        let (e1, x1) = (e.drop_last(), x.drop_last());
        let (e2, x2) = (e1.drop_last(), x1.drop_last());
        assert forall|i: int| 0 <= i < m implies congruent(#[trigger] e2[2 * i] as int, m0 * p.drop_last()[i]) by {
            assert(e2[2 * i] == e[2 * i]);
        }
        assert forall|i: int| 0 <= i < m implies congruent(#[trigger] e2[2 * i + 1] as int, m1 * p.drop_last()[i]) by {
            assert(e2[2 * i + 1] == e[2 * i + 1]);
        }
        assert forall|i: int| 0 <= i < m implies congruent(#[trigger] x2[2 * i] as int, n0 * s.drop_last()[i]) by {
            assert(x2[2 * i] == x[2 * i]);
        }
        assert forall|i: int| 0 <= i < m implies congruent(#[trigger] x2[2 * i + 1] as int, n1 * s.drop_last()[i]) by {
            assert(x2[2 * i + 1] == x[2 * i + 1]);
        }
        lemma_interleaved(e2, x2, p.drop_last(), s.drop_last(), m0, m1, n0, n1);
        let (pl, sl) = (p[m] as int, s[m] as int);
        let (ea, eb) = (e[2 * m] as int, e[2 * m + 1] as int);
        let (xa, xb) = (x[2 * m] as int, x[2 * m + 1] as int);
        assert(e1.last() == e[2 * m] && e.last() == e[2 * m + 1]);
        assert(x1.last() == x[2 * m] && x.last() == x[2 * m + 1]);
        assert(int_dot(e1, x1) == int_dot(e2, x2) + ea * xa);
        assert(int_dot(e, x) == int_dot(e1, x1) + eb * xb);
        lemma_congruent_mul(ea, xa, m0 * pl, n0 * sl);
        lemma_congruent_mul(eb, xb, m1 * pl, n1 * sl);
        let rest = int_dot(p.drop_last(), s.drop_last());
        lemma_congruent_add(int_dot(e2, x2), ea * xa, w * rest, (m0 * pl) * (n0 * sl));
        lemma_congruent_add(
            int_dot(e2, x2) + ea * xa,
            eb * xb,
            w * rest + (m0 * pl) * (n0 * sl),
            (m1 * pl) * (n1 * sl),
        );
        assert((m0 * pl) * (n0 * sl) == (m0 * n0) * (pl * sl)) by (nonlinear_arith);
        assert((m1 * pl) * (n1 * sl) == (m1 * n1) * (pl * sl)) by (nonlinear_arith);
        lemma_dist(pl * sl, m0 * n0, m1 * n1);
        lemma_dist(w, rest, pl * sl);
    }
}

/// The product over all variables of `r x + (1 - r)(1 - x)`, over the
/// integers.
pub open spec fn int_eq(r: Seq<nat>, x: Seq<nat>) -> int
    decreases r.len(),
{
    if r.len() == 0 || x.len() == 0 {
        1
    } else {
        int_eq(r.drop_last(), x.drop_last()) * (r.last() * x.last() + (1 - r.last()) * (1 - x.last()))
    }
}

/// The value of the polynomial of a point in the field stands for that
/// over the integers.
pub proof fn lemma_eq_eval(r: Seq<nat>, x: Seq<nat>)
    ensures
        congruent(eq_eval(r, x) as int, int_eq(r, x)),
    decreases r.len(),
{
    if r.len() == 0 || x.len() == 0 {
    } else {
        lemma_eq_eval(r.drop_last(), x.drop_last());
        let (rl, xl) = (r.last(), x.last());
        lemma_fmul(rl, xl, rl as int, xl as int);
        lemma_fsub(1, rl, 1, rl as int);
        lemma_fsub(1, xl, 1, xl as int);
        lemma_fmul(fsub(1, rl), fsub(1, xl), 1 - rl, 1 - xl);
        lemma_fadd(
            fmul(rl, xl),
            fmul(fsub(1, rl), fsub(1, xl)),
            rl as int * xl as int,
            (1 - rl) * (1 - xl),
        );
        lemma_fmul(
            eq_eval(r.drop_last(), x.drop_last()),
            fadd(fmul(rl, xl), fmul(fsub(1, rl), fsub(1, xl))),
            int_eq(r.drop_last(), x.drop_last()),
            rl as int * xl as int + (1 - rl) * (1 - xl),
        );
    }
}

/// The inner product of the values of the polynomials of two points at
/// all corners is the value of the one at the other.
pub proof fn lemma_eq_product(r: Seq<nat>, x: Seq<nat>)
    requires
        r.len() == x.len(),
    ensures
        congruent(int_dot(eq_evals(r), eq_evals(x)), int_eq(r, x)),
    decreases r.len(),
{
    lemma_eq_evals_len(r);
    lemma_eq_evals_len(x);
    if r.len() == 0 {
        crate::nizk::completeness::lemma_int_dot_single(eq_evals(r), eq_evals(x));
        assert(1 * 1 == 1);
    } else {
        let (rb, xb) = (r.drop_last(), x.drop_last());
        let (rl, xl) = (r.last() as int, x.last() as int);
        lemma_eq_product(rb, xb);
        lemma_eq_evals_len(rb);
        lemma_eq_evals_len(xb);
        let (e, ex, p, s) = (eq_evals(r), eq_evals(x), eq_evals(rb), eq_evals(xb));
        assert forall|i: int| 0 <= i < p.len() implies congruent(
            #[trigger] e[2 * i] as int,
            (1 - rl) * p[i],
        ) by {
            lemma_eq_evals_back(r, 2 * i);
            lemma_comm(p[i] as int, 1 - rl);
        }
        assert forall|i: int| 0 <= i < p.len() implies congruent(
            #[trigger] e[2 * i + 1] as int,
            rl * p[i],
        ) by {
            lemma_eq_evals_back(r, 2 * i + 1);
            lemma_comm(p[i] as int, rl);
        }
        assert forall|i: int| 0 <= i < s.len() implies congruent(
            #[trigger] ex[2 * i] as int,
            (1 - xl) * s[i],
        ) by {
            lemma_eq_evals_back(x, 2 * i);
            lemma_comm(s[i] as int, 1 - xl);
        }
        assert forall|i: int| 0 <= i < s.len() implies congruent(
            #[trigger] ex[2 * i + 1] as int,
            xl * s[i],
        ) by {
            lemma_eq_evals_back(x, 2 * i + 1);
            lemma_comm(s[i] as int, xl);
        }
        lemma_interleaved(e, ex, p, s, 1 - rl, rl, 1 - xl, xl);
        let w = (1 - rl) * (1 - xl) + rl * xl;
        lemma_congruent_mul(w, int_dot(p, s), w, int_eq(rb, xb));
        lemma_comm(w, int_eq(rb, xb));
    }
}

/// The value at a point of a polynomial whose values are those of two
/// polynomials in the other variables, one after the other: one less
/// the first variable times the value of the first, plus the first
/// variable times the value of the second.
pub proof fn lemma_joined_value(point: Seq<nat>, z: Seq<nat>)
    requires
        point.len() > 0,
        z.len() == two_to(point.len()),
    ensures
        ({
            let half = two_to((point.len() - 1) as nat) as int;
            let rest = eq_evals(point.skip(1));
            congruent(
                int_dot(eq_evals(point), z),
                (1 - point[0]) * int_dot(rest, z.take(half)) + point[0] * int_dot(
                    rest,
                    z.skip(half),
                ),
            )
        }),
{
    let half = two_to((point.len() - 1) as nat) as int;
    let e = eq_evals(point);
    let rest = eq_evals(point.skip(1));
    let r0 = point[0] as int;
    lemma_eq_evals_len(point);
    lemma_eq_evals_len(point.skip(1));
    assert(two_to(point.len()) == 2 * half);
    lemma_int_dot_split(e, z, half);
    let (el, er) = (e.take(half), e.skip(half));
    assert forall|i: int| 0 <= i < half implies congruent(
        #[trigger] el[i] as int,
        (1 - r0) * rest[i] + 0 * rest[i],
    ) by {
        lemma_eq_evals_front(point, i);
        assert(el[i] == e[i]);
        assert(0 * rest[i] == 0);
    }
    assert forall|i: int| 0 <= i < half implies congruent(
        #[trigger] er[i] as int,
        r0 * rest[i] + 0 * rest[i],
    ) by {
        lemma_eq_evals_front(point, i);
        assert(er[i] == e[i + half]);
        assert(0 * rest[i] == 0);
    }
    lemma_int_dot_combine_left(el, rest, rest, z.take(half), 1 - r0, 0);
    lemma_int_dot_combine_left(er, rest, rest, z.skip(half), r0, 0);
    assert(0 * int_dot(rest, z.take(half)) == 0);
    assert(0 * int_dot(rest, z.skip(half)) == 0);
    lemma_congruent_add(
        int_dot(el, z.take(half)),
        int_dot(er, z.skip(half)),
        (1 - r0) * int_dot(rest, z.take(half)),
        r0 * int_dot(rest, z.skip(half)),
    );
}

} // verus!
