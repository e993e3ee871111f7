use vstd::prelude::*;
use vstd::arithmetic::div_mod::{
    lemma_add_mod_noop, lemma_mod_bound, lemma_mul_mod_noop, lemma_small_mod, lemma_sub_mod_noop,
};
use vstd::arithmetic::mul::{
    lemma_mul_is_associative, lemma_mul_is_commutative, lemma_mul_is_distributive_add,
    lemma_mul_is_distributive_add_other_way, lemma_mul_is_distributive_sub,
    lemma_mul_is_distributive_sub_other_way,
};
use crate::scalar::{fadd, fmul, fsub, has_inverse, inner_product, is_inverse, modulus};

verus! {

/// Whether two integers stand for the same element of the field.
pub open spec fn congruent(a: int, b: int) -> bool {
    a % (modulus() as int) == b % (modulus() as int)
}

/// A product with a sum or a difference is the sum or the difference of
/// the products.
pub proof fn lemma_dist(a: int, b: int, c: int)
    ensures
        a * (b + c) == a * b + a * c,
        (b + c) * a == b * a + c * a,
        a * (b - c) == a * b - a * c,
        (b - c) * a == b * a - c * a,
{
    lemma_mul_is_distributive_add(a, b, c);
    lemma_mul_is_distributive_add_other_way(a, b, c);
    lemma_mul_is_distributive_sub(a, b, c);
    lemma_mul_is_distributive_sub_other_way(a, b, c);
}

/// Products may be bracketed either way.
pub proof fn lemma_assoc(a: int, b: int, c: int)
    ensures
        (a * b) * c == a * (b * c),
{
    lemma_mul_is_associative(a, b, c);
}

/// Factors may change places.
pub proof fn lemma_comm(a: int, b: int)
    ensures
        a * b == b * a,
{
    lemma_mul_is_commutative(a, b);
}

/// The modulus is a number above one.
pub proof fn lemma_modulus_positive()
    ensures
        modulus() > 0xffffffff,
{
}

/// A sum in the field stands for the sum of what its terms stand for.
pub proof fn lemma_fadd(a: nat, b: nat, x: int, y: int)
    requires
        congruent(a as int, x),
        congruent(b as int, y),
    ensures
        congruent(fadd(a, b) as int, x + y),
        fadd(a, b) < modulus(),
{
    reveal(fadd);
    lemma_modulus_positive();
    let q = modulus() as int;
    lemma_add_mod_noop(a as int, b as int, q);
    lemma_add_mod_noop(x, y, q);
    lemma_mod_bound(a as int + b as int, q);
    lemma_small_mod(((a + b) % modulus()) as nat, modulus());
}

/// A difference in the field stands for the difference of what its terms
/// stand for.
pub proof fn lemma_fsub(a: nat, b: nat, x: int, y: int)
    requires
        congruent(a as int, x),
        congruent(b as int, y),
    ensures
        congruent(fsub(a, b) as int, x - y),
        fsub(a, b) < modulus(),
{
    reveal(fsub);
    lemma_modulus_positive();
    let q = modulus() as int;
    lemma_sub_mod_noop(a as int, b as int, q);
    lemma_sub_mod_noop(x, y, q);
    lemma_mod_bound(a as int - b as int, q);
    lemma_small_mod(((a as int - b as int) % q) as nat, modulus());
}

/// A product in the field stands for the product of what its factors
/// stand for.
pub proof fn lemma_fmul(a: nat, b: nat, x: int, y: int)
    requires
        congruent(a as int, x),
        congruent(b as int, y),
    ensures
        congruent(fmul(a, b) as int, x * y),
        fmul(a, b) < modulus(),
{
    reveal(fmul);
    lemma_modulus_positive();
    let q = modulus() as int;
    lemma_mul_mod_noop(a as int, b as int, q);
    lemma_mul_mod_noop(x, y, q);
    lemma_mod_bound(a as int * b as int, q);
    lemma_small_mod(((a * b) % modulus()) as nat, modulus());
}

/// Sums of integers that stand for the same elements stand for the same
/// element.
pub proof fn lemma_congruent_add(a: int, b: int, x: int, y: int)
    requires
        congruent(a, x),
        congruent(b, y),
    ensures
        congruent(a + b, x + y),
        congruent(a - b, x - y),
{
    lemma_modulus_positive();
    let q = modulus() as int;
    lemma_add_mod_noop(a, b, q);
    lemma_add_mod_noop(x, y, q);
    lemma_sub_mod_noop(a, b, q);
    lemma_sub_mod_noop(x, y, q);
}

/// Products of integers that stand for the same elements stand for the
/// same element.
pub proof fn lemma_congruent_mul(a: int, b: int, x: int, y: int)
    requires
        congruent(a, x),
        congruent(b, y),
    ensures
        congruent(a * b, x * y),
{
    lemma_modulus_positive();
    let q = modulus() as int;
    lemma_mul_mod_noop(a, b, q);
    lemma_mul_mod_noop(x, y, q);
}

/// Two least residues that stand for the same element are the same.
pub proof fn lemma_congruent_reduced(a: nat, b: nat)
    requires
        a < modulus(),
        b < modulus(),
        congruent(a as int, b as int),
    ensures
        a == b,
{
    lemma_small_mod(a, modulus());
    lemma_small_mod(b, modulus());
}

/// The sum over all places of the product of the two entries there, as
/// an integer.
pub open spec fn int_dot(a: Seq<nat>, b: Seq<nat>) -> int
    decreases a.len(),
{
    if a.len() == 0 || b.len() == 0 {
        0
    } else {
        int_dot(a.drop_last(), b.drop_last()) + a.last() * b.last()
    }
}

/// The inner product in the field stands for the one over the integers.
pub proof fn lemma_inner_product(a: Seq<nat>, b: Seq<nat>)
    ensures
        congruent(inner_product(a, b) as int, int_dot(a, b)),
        inner_product(a, b) < modulus(),
    decreases a.len(),
{
    lemma_modulus_positive();
    if a.len() == 0 || b.len() == 0 {
    } else {
        lemma_inner_product(a.drop_last(), b.drop_last());
        lemma_fmul(a.last(), b.last(), a.last() as int, b.last() as int);
        lemma_fadd(
            inner_product(a.drop_last(), b.drop_last()),
            fmul(a.last(), b.last()),
            int_dot(a.drop_last(), b.drop_last()),
            (a.last() * b.last()) as int,
        );
    }
}

/// The inner product does not depend on the order of its two arguments.
pub proof fn lemma_int_dot_symmetric(a: Seq<nat>, b: Seq<nat>)
    requires
        a.len() == b.len(),
    ensures
        int_dot(a, b) == int_dot(b, a),
    decreases a.len(),
{
    if a.len() > 0 {
        lemma_int_dot_symmetric(a.drop_last(), b.drop_last());
        lemma_comm(a.last() as int, b.last() as int);
    }
}

/// Where each entry of `z` stands for `c` times the entry of `u` plus the
/// entry of `v`, the inner product of `z` with `g` stands for `c` times
/// that of `u` plus that of `v`.
pub proof fn lemma_int_dot_linear(z: Seq<nat>, u: Seq<nat>, v: Seq<nat>, g: Seq<nat>, c: int)
    requires
        z.len() == u.len(),
        z.len() == v.len(),
        z.len() == g.len(),
        forall|i: int| 0 <= i < z.len() ==> congruent(z[i] as int, c * u[i] + v[i]),
    ensures
        congruent(int_dot(z, g), c * int_dot(u, g) + int_dot(v, g)),
    decreases z.len(),
{
    if z.len() > 0 {
        let (z0, u0, v0, g0) = (z.drop_last(), u.drop_last(), v.drop_last(), g.drop_last());
        lemma_int_dot_linear(z0, u0, v0, g0, c);
        let (zl, ul, vl, gl) = (z.last() as int, u.last() as int, v.last() as int, g.last() as int);
        assert(congruent(zl, c * ul + vl));
        lemma_congruent_mul(zl, gl, c * ul + vl, gl);
        lemma_congruent_add(
            int_dot(z0, g0),
            zl * gl,
            c * int_dot(u0, g0) + int_dot(v0, g0),
            (c * ul + vl) * gl,
        );
        lemma_dist(gl, c * ul, vl);
        lemma_assoc(c, ul, gl);
        lemma_dist(c, int_dot(u0, g0), ul * gl);
    }
}

/// One more entry in each vector adds the product of the two entries.
pub proof fn lemma_int_dot_push(a: Seq<nat>, g: Seq<nat>, x: nat, y: nat)
    ensures
        int_dot(a.push(x), g.push(y)) == int_dot(a, g) + x * y,
{
    assert(a.push(x).drop_last() =~= a);
    assert(g.push(y).drop_last() =~= g);
}

/// The inner product of two vectors put together from two parts each is
/// the sum of the inner products of the parts.
pub proof fn lemma_int_dot_concat(x: Seq<nat>, p: Seq<nat>, y: Seq<nat>, q: Seq<nat>)
    requires
        x.len() == p.len(),
        y.len() == q.len(),
    ensures
        int_dot(x + y, p + q) == int_dot(x, p) + int_dot(y, q),
    decreases y.len(),
{
    if y.len() == 0 {
        assert(x + y =~= x);
        assert(p + q =~= p);
    } else {
        lemma_int_dot_concat(x, p, y.drop_last(), q.drop_last());
        assert((x + y).drop_last() =~= x + y.drop_last());
        assert((p + q).drop_last() =~= p + q.drop_last());
    }
}

/// The inner product of two vectors is the sum of those of their parts
/// before and from a place on.
pub proof fn lemma_int_dot_split(a: Seq<nat>, g: Seq<nat>, m: int)
    requires
        a.len() == g.len(),
        0 <= m <= a.len(),
    ensures
        int_dot(a, g) == int_dot(a.take(m), g.take(m)) + int_dot(a.skip(m), g.skip(m)),
{
    lemma_int_dot_concat(a.take(m), g.take(m), a.skip(m), g.skip(m));
    assert(a.take(m) + a.skip(m) =~= a);
    assert(g.take(m) + g.skip(m) =~= g);
}

/// Where each entry of `z` stands for `c1` times the entry of `x` plus
/// `c2` times the entry of `y`, the inner product of `z` with `g` stands
/// for `c1` times that of `x` plus `c2` times that of `y`.
pub proof fn lemma_int_dot_combine_left(
    z: Seq<nat>,
    x: Seq<nat>,
    y: Seq<nat>,
    g: Seq<nat>,
    c1: int,
    c2: int,
)
    requires
        z.len() == x.len(),
        z.len() == y.len(),
        z.len() == g.len(),
        forall|i: int| 0 <= i < z.len() ==> congruent(z[i] as int, c1 * x[i] + c2 * y[i]),
    ensures
        congruent(int_dot(z, g), c1 * int_dot(x, g) + c2 * int_dot(y, g)),
    decreases z.len(),
{
    if z.len() == 0 {
        assert(c1 * 0 + c2 * 0 == 0);
    } else {
        let (z0, x0, y0, g0) = (z.drop_last(), x.drop_last(), y.drop_last(), g.drop_last());
        lemma_int_dot_combine_left(z0, x0, y0, g0, c1, c2);
        let (zl, xl, yl, gl) = (z.last() as int, x.last() as int, y.last() as int, g.last() as int);
        assert(congruent(zl, c1 * xl + c2 * yl));
        lemma_congruent_mul(zl, gl, c1 * xl + c2 * yl, gl);
        lemma_congruent_add(
            int_dot(z0, g0),
            zl * gl,
            c1 * int_dot(x0, g0) + c2 * int_dot(y0, g0),
            (c1 * xl + c2 * yl) * gl,
        );
        lemma_dist(gl, c1 * xl, c2 * yl);
        lemma_assoc(c1, xl, gl);
        lemma_assoc(c2, yl, gl);
        lemma_dist(c1, int_dot(x0, g0), xl * gl);
        lemma_dist(c2, int_dot(y0, g0), yl * gl);
    }
}

/// Where each entry of `w` stands for `d1` times the entry of `p` plus
/// `d2` times the entry of `r`, the inner product of `x` with `w` stands
/// for `d1` times that with `p` plus `d2` times that with `r`.
pub proof fn lemma_int_dot_combine_right(
    x: Seq<nat>,
    w: Seq<nat>,
    p: Seq<nat>,
    r: Seq<nat>,
    d1: int,
    d2: int,
)
    requires
        w.len() == x.len(),
        w.len() == p.len(),
        w.len() == r.len(),
        forall|i: int| 0 <= i < w.len() ==> congruent(w[i] as int, d1 * p[i] + d2 * r[i]),
    ensures
        congruent(int_dot(x, w), d1 * int_dot(x, p) + d2 * int_dot(x, r)),
{
    lemma_int_dot_combine_left(w, p, r, x, d1, d2);
    lemma_int_dot_symmetric(x, w);
    lemma_int_dot_symmetric(x, p);
    lemma_int_dot_symmetric(x, r);
}

/// The inner product of two vectors that are each combined of two: the
/// four inner products of the parts, each with the product of the two
/// weights of its parts.
pub proof fn lemma_int_dot_bilinear(
    z: Seq<nat>,
    w: Seq<nat>,
    x: Seq<nat>,
    y: Seq<nat>,
    p: Seq<nat>,
    r: Seq<nat>,
    c1: int,
    c2: int,
    d1: int,
    d2: int,
)
    requires
        z.len() == w.len(),
        z.len() == x.len(),
        z.len() == y.len(),
        z.len() == p.len(),
        z.len() == r.len(),
        forall|i: int| 0 <= i < z.len() ==> congruent(z[i] as int, c1 * x[i] + c2 * y[i]),
        forall|i: int| 0 <= i < w.len() ==> congruent(w[i] as int, d1 * p[i] + d2 * r[i]),
    ensures
        congruent(
            int_dot(z, w),
            (c1 * d1) * int_dot(x, p) + (c1 * d2) * int_dot(x, r) + (c2 * d1) * int_dot(y, p) + (c2
                * d2) * int_dot(y, r),
        ),
{
    lemma_int_dot_combine_left(z, x, y, w, c1, c2);
    lemma_int_dot_combine_right(x, w, p, r, d1, d2);
    lemma_int_dot_combine_right(y, w, p, r, d1, d2);
    let (xp, xr, yp, yr) = (int_dot(x, p), int_dot(x, r), int_dot(y, p), int_dot(y, r));
    lemma_congruent_mul(c1, int_dot(x, w), c1, d1 * xp + d2 * xr);
    lemma_congruent_mul(c2, int_dot(y, w), c2, d1 * yp + d2 * yr);
    lemma_congruent_add(
        c1 * int_dot(x, w),
        c2 * int_dot(y, w),
        c1 * (d1 * xp + d2 * xr),
        c2 * (d1 * yp + d2 * yr),
    );
    lemma_dist(c1, d1 * xp, d2 * xr);
    lemma_dist(c2, d1 * yp, d2 * yr);
    lemma_assoc(c1, d1, xp);
    lemma_assoc(c1, d2, xr);
    lemma_assoc(c2, d1, yp);
    lemma_assoc(c2, d2, yr);
}

/// Two and six have inverses in the field: the modulus leaves one when
/// it is divided by six.
pub proof fn lemma_small_inverses()
    ensures
        has_inverse(2),
        has_inverse(6),
{
    reveal(fmul);
    let q = modulus() as int;
    assert(q % 6 == 1);
    let b2 = (q + 1) / 2;
    let b6 = (5 * q + 1) / 6;
    assert(2 * b2 == q + 1);
    assert(6 * b6 == 5 * q + 1);
    lemma_small_mod(1, modulus());
    assert((q + 1) % q == 1) by {
        vstd::arithmetic::div_mod::lemma_mod_multiples_vanish(1, 1, q);
        assert(q * 1 + 1 == q + 1);
    }
    assert((5 * q + 1) % q == 1) by {
        vstd::arithmetic::div_mod::lemma_mod_multiples_vanish(5, 1, q);
        assert(q * 5 + 1 == 5 * q + 1);
    }
    assert(is_inverse(2, b2 as nat));
    assert(is_inverse(6, b6 as nat));
}

} // verus!
