use vstd::prelude::*;
use crate::algebra::{
    congruent, int_dot, lemma_assoc, lemma_comm, lemma_congruent_add, lemma_congruent_mul,
    lemma_congruent_reduced, lemma_dist, lemma_fadd, lemma_fmul, lemma_inner_product,
    lemma_int_dot_bilinear, lemma_int_dot_combine_left, lemma_int_dot_combine_right,
    lemma_int_dot_concat, lemma_int_dot_push, lemma_int_dot_split, lemma_int_dot_symmetric,
};
use crate::math::{floor_log_2, is_power_of_two, two_to};
use crate::nizk::bullet::{
    bullet_absorbed, bullet_challenges, bullet_fold, bullet_log, bullet_prove, bullet_round,
    bullet_start, bullet_verify, fold_points, fold_scalars, inverse_squares, s_weights, squares,
    BulletState,
};
use crate::commitments::commitment;
use crate::nizk::dot_product::{dot_product_statement, DotProductBases};
use crate::nizk::dot_product_log::{
    dot_product_log_closing, dot_product_log_prove, dot_product_log_tape, dot_product_log_verify,
    zip,
};
use crate::nizk::lemma_commitment_single;
use crate::scalar::{fadd, finv, fmul, has_inverse, inner_product};
use crate::transcript::{challenge_scalar, challenge_vector, log_challenge, tag, Log};

verus! {

/// The group element that a state of the reduction stands for, as an
/// integer: the vector `a` under the generators, its inner product with
/// `b` under `q`, and the blind under `h`.
pub open spec fn state_value(q: nat, h: nat, s: BulletState) -> int {
    int_dot(s.a, s.g) + int_dot(s.a, s.b) * q + s.blind * h
}

/// The challenge of a halving.
pub open spec fn round_challenge(q: nat, h: nat, s: BulletState, sl: nat, sr: nat) -> nat {
    let t = bullet_round(q, h, s, sl, sr);
    challenge_scalar(bullet_absorbed(s.log, t.ls.last(), t.rs.last()), tag("u"))
}

/// A number times its inverse stands for one.
pub proof fn lemma_inverse_product(u: nat)
    requires
        has_inverse(u),
    ensures
        congruent(u as int * finv(u) as int, 1),
{
    lemma_fmul(u, finv(u), u as int, finv(u) as int);
}

/// An integer taken as often as a product that stands for one says
/// stands for itself.
pub proof fn lemma_unit(u: int, v: int, x: int)
    requires
        congruent(u * v, 1),
    ensures
        congruent((u * v) * x, x),
        congruent((v * u) * x, x),
{
    lemma_congruent_mul(u * v, x, 1, x);
    lemma_comm(u, v);
    assert(1 * x == x);
}

/// The inner product of two folded vectors: the inner products of the
/// halves that lay side by side, plus those of the halves that lay
/// across, one with the square of the challenge `u` and one with the
/// square of its inverse `v`.
pub proof fn lemma_folded_product(
    z: Seq<nat>,
    w: Seq<nat>,
    xl: Seq<nat>,
    xr: Seq<nat>,
    pl: Seq<nat>,
    pr: Seq<nat>,
    u: int,
    v: int,
)
    requires
        congruent(u * v, 1),
        z.len() == w.len(),
        z.len() == xl.len(),
        z.len() == xr.len(),
        z.len() == pl.len(),
        z.len() == pr.len(),
        forall|i: int| 0 <= i < z.len() ==> congruent(z[i] as int, u * xl[i] + v * xr[i]),
        forall|i: int| 0 <= i < w.len() ==> congruent(w[i] as int, v * pl[i] + u * pr[i]),
    ensures
        congruent(
            int_dot(z, w),
            int_dot(xl, pl) + (u * u) * int_dot(xl, pr) + (v * v) * int_dot(xr, pl) + int_dot(
                xr,
                pr,
            ),
        ),
{
    lemma_int_dot_bilinear(z, w, xl, xr, pl, pr, u, v, v, u);
    let (a1, a2, a3, a4) = (int_dot(xl, pl), int_dot(xl, pr), int_dot(xr, pl), int_dot(xr, pr));
    lemma_unit(u, v, a1);
    lemma_unit(u, v, a4);
    lemma_congruent_add((u * v) * a1, (u * u) * a2, a1, (u * u) * a2);
    lemma_congruent_add((u * v) * a1 + (u * u) * a2, (v * v) * a3, a1 + (u * u) * a2, (v * v) * a3);
    lemma_congruent_add(
        (u * v) * a1 + (u * u) * a2 + (v * v) * a3,
        (v * u) * a4,
        a1 + (u * u) * a2 + (v * v) * a3,
        a4,
    );
}

/// A commitment to one half of a vector under the other half of the
/// generators stands for their inner product, the cross term under `q`
/// and the blind under `h`.
pub proof fn lemma_cross_commitment(
    x: Seq<nat>,
    y: Seq<nat>,
    g: Seq<nat>,
    q: nat,
    h: nat,
    blind: nat,
)
    requires
        x.len() == y.len(),
        x.len() == g.len(),
    ensures
        congruent(
            inner_product(x.push(inner_product(x, y)).push(blind), g.push(q).push(h)) as int,
            int_dot(x, g) + int_dot(x, y) * q + blind * h,
        ),
{
    let c = inner_product(x, y);
    lemma_inner_product(x.push(c).push(blind), g.push(q).push(h));
    lemma_int_dot_push(x.push(c), g.push(q), blind, h);
    lemma_int_dot_push(x, g, c, q);
    lemma_inner_product(x, y);
    lemma_congruent_mul(c as int, q as int, int_dot(x, y), q as int);
    lemma_congruent_add(int_dot(x, g), (c * q) as int, int_dot(x, g), int_dot(x, y) * q);
    lemma_congruent_add(
        int_dot(x, g) + c * q,
        (blind * h) as int,
        int_dot(x, g) + int_dot(x, y) * q,
        (blind * h) as int,
    );
}

/// Whether the three vectors of a state have one length, which is even.
pub open spec fn halvable(s: BulletState) -> bool {
    &&& s.a.len() == s.b.len()
    &&& s.a.len() == s.g.len()
    &&& s.a.len() == 2 * (s.a.len() / 2)
}

/// The entries of a folded vector of scalars stand for the entries of the
/// lower half times the first weight plus those of the upper half times
/// the second.
pub proof fn lemma_fold_scalars(lo: Seq<nat>, hi: Seq<nat>, cl: nat, ch: nat)
    requires
        lo.len() == hi.len(),
    ensures
        forall|i: int|
            0 <= i < lo.len() ==> congruent(
                #[trigger] fold_scalars(lo, hi, cl, ch)[i] as int,
                cl as int * lo[i] as int + ch as int * hi[i] as int,
            ),
{
    assert forall|i: int| 0 <= i < lo.len() implies congruent(
        #[trigger] fold_scalars(lo, hi, cl, ch)[i] as int,
        cl as int * lo[i] as int + ch as int * hi[i] as int,
    ) by {
        lemma_fmul(lo[i], cl, lo[i] as int, cl as int);
        lemma_fmul(ch, hi[i], ch as int, hi[i] as int);
        lemma_fadd(
            fmul(lo[i], cl),
            fmul(ch, hi[i]),
            lo[i] as int * cl as int,
            ch as int * hi[i] as int,
        );
        lemma_comm(lo[i] as int, cl as int);
    }
}

/// The same of a folded vector of group elements.
pub proof fn lemma_fold_points(lo: Seq<nat>, hi: Seq<nat>, cl: nat, ch: nat)
    requires
        lo.len() == hi.len(),
    ensures
        forall|i: int|
            0 <= i < lo.len() ==> congruent(
                #[trigger] fold_points(lo, hi, cl, ch)[i] as int,
                cl as int * lo[i] as int + ch as int * hi[i] as int,
            ),
{
    assert forall|i: int| 0 <= i < lo.len() implies congruent(
        #[trigger] fold_points(lo, hi, cl, ch)[i] as int,
        cl as int * lo[i] as int + ch as int * hi[i] as int,
    ) by {
        lemma_fmul(lo[i], cl, lo[i] as int, cl as int);
        lemma_fmul(hi[i], ch, hi[i] as int, ch as int);
        lemma_fadd(
            fmul(lo[i], cl),
            fmul(hi[i], ch),
            lo[i] as int * cl as int,
            hi[i] as int * ch as int,
        );
        lemma_comm(lo[i] as int, cl as int);
        lemma_comm(hi[i] as int, ch as int);
    }
}

/// What a state stands for after a halving: what it stood for before,
/// plus the first message taken as often as the square of the challenge
/// says, plus the second taken as often as the square of its inverse.
pub proof fn lemma_round_value(q: nat, h: nat, s: BulletState, sl: nat, sr: nat)
    requires
        halvable(s),
        !bullet_round(q, h, s, sl, sr).failed,
    ensures
        ({
            let t = bullet_round(q, h, s, sl, sr);
            let u = round_challenge(q, h, s, sl, sr);
            &&& has_inverse(u)
            &&& congruent(
                state_value(q, h, t),
                state_value(q, h, s) + (u as int * u as int) * t.ls.last() as int + (finv(u) as int
                    * finv(u) as int) * t.rs.last() as int,
            )
            &&& t.a.len() == s.a.len() / 2
            &&& t.b.len() == s.a.len() / 2
            &&& t.g.len() == s.a.len() / 2
        }),
{
    let t = bullet_round(q, h, s, sl, sr);
    let u = round_challenge(q, h, s, sl, sr);
    let m = (s.a.len() / 2) as int;
    let (al, ar) = (s.a.take(m), s.a.skip(m));
    let (bl, br) = (s.b.take(m), s.b.skip(m));
    let (gl, gr) = (s.g.take(m), s.g.skip(m));
    let l = t.ls.last();
    let r = t.rs.last();
    let (ui, vi) = (u as int, finv(u) as int);
    let (qi, hi, bi, sli, sri) = (q as int, h as int, s.blind as int, sl as int, sr as int);
    lemma_inverse_product(u);
    // the folded vectors
    lemma_fold_scalars(al, ar, u, finv(u));
    lemma_fold_scalars(bl, br, finv(u), u);
    lemma_fold_points(gl, gr, finv(u), u);
    lemma_folded_product(t.a, t.g, al, ar, gl, gr, ui, vi);
    lemma_folded_product(t.a, t.b, al, ar, bl, br, ui, vi);
    let (a1, a2, a3, a4) = (int_dot(al, gl), int_dot(al, gr), int_dot(ar, gl), int_dot(ar, gr));
    let (b1, b2, b3, b4) = (int_dot(al, bl), int_dot(al, br), int_dot(ar, bl), int_dot(ar, br));
    let (uu, vv) = (ui * ui, vi * vi);
    // the blind
    lemma_fmul(sl, u, sli, ui);
    lemma_fmul(fmul(sl, u), u, sli * ui, ui);
    lemma_fmul(sr, finv(u), sri, vi);
    lemma_fmul(fmul(sr, finv(u)), finv(u), sri * vi, vi);
    lemma_fadd(s.blind, fmul(fmul(sl, u), u), bi, (sli * ui) * ui);
    lemma_fadd(
        fadd(s.blind, fmul(fmul(sl, u), u)),
        fmul(fmul(sr, finv(u)), finv(u)),
        bi + (sli * ui) * ui,
        (sri * vi) * vi,
    );
    lemma_assoc(sli, ui, ui);
    lemma_assoc(sri, vi, vi);
    let blind_int = bi + sli * uu + sri * vv;
    // the left side
    let ag = a1 + uu * a2 + vv * a3 + a4;
    let ab = b1 + uu * b2 + vv * b3 + b4;
    lemma_congruent_mul(int_dot(t.a, t.b), qi, ab, qi);
    lemma_congruent_mul(t.blind as int, hi, blind_int, hi);
    lemma_congruent_add(int_dot(t.a, t.g), int_dot(t.a, t.b) * qi, ag, ab * qi);
    lemma_congruent_add(
        int_dot(t.a, t.g) + int_dot(t.a, t.b) * qi,
        t.blind * hi,
        ag + ab * qi,
        blind_int * hi,
    );
    // the two messages
    lemma_cross_commitment(al, br, gr, q, h, sl);
    lemma_cross_commitment(ar, bl, gl, q, h, sr);
    let l_int = a2 + b2 * qi + sli * hi;
    let r_int = a3 + b3 * qi + sri * hi;
    lemma_congruent_mul(uu, l as int, uu, l_int);
    lemma_congruent_mul(vv, r as int, vv, r_int);
    // the right side
    lemma_int_dot_split(s.a, s.g, m);
    lemma_int_dot_split(s.a, s.b, m);
    let before = state_value(q, h, s);
    assert(before == (a1 + a4) + (b1 + b4) * qi + bi * hi);
    lemma_congruent_add(before, uu * l, before, uu * l_int);
    lemma_congruent_add(before + uu * l, vv * r, before + uu * l_int, vv * r_int);
    // both sides are one polynomial
    lemma_dist(qi, b1 + uu * b2 + vv * b3, b4);
    lemma_dist(qi, b1 + uu * b2, vv * b3);
    lemma_dist(qi, b1, uu * b2);
    lemma_dist(hi, bi + sli * uu, sri * vv);
    lemma_dist(hi, bi, sli * uu);
    lemma_dist(qi, b1, b4);
    lemma_dist(uu, a2 + b2 * qi, sli * hi);
    lemma_dist(uu, a2, b2 * qi);
    lemma_dist(vv, a3 + b3 * qi, sri * hi);
    lemma_dist(vv, a3, b3 * qi);
    lemma_assoc(uu, b2, qi);
    lemma_assoc(vv, b3, qi);
    lemma_assoc(uu, sli, hi);
    lemma_assoc(vv, sri, hi);
    lemma_comm(sli, uu);
    lemma_comm(sri, vv);
    assert(ag + ab * qi + blind_int * hi == before + uu * l_int + vv * r_int);
}

/// Whether a reduction of `rounds` halvings starts from the state `init`
/// and does not fail.
pub open spec fn runs(
    q: nat,
    h: nat,
    init: BulletState,
    blinds: Seq<(nat, nat)>,
    rounds: nat,
) -> bool {
    &&& init.a.len() == two_to(rounds)
    &&& init.b.len() == init.a.len()
    &&& init.g.len() == init.a.len()
    &&& init.ls.len() == 0
    &&& init.rs.len() == 0
    &&& !init.failed
    &&& !bullet_fold(q, h, init, blinds, rounds).failed
}

/// The challenge of the halving `j` of a reduction.
pub open spec fn challenge_at(
    q: nat,
    h: nat,
    init: BulletState,
    blinds: Seq<(nat, nat)>,
    j: nat,
) -> nat {
    round_challenge(q, h, bullet_fold(q, h, init, blinds, j), blinds[j as int].0, blinds[j as int].1)
}

/// In a reduction that does not fail no halving fails, each halves the
/// vectors and adds one message to each of the two lists.
pub proof fn lemma_run_state(
    q: nat,
    h: nat,
    init: BulletState,
    blinds: Seq<(nat, nat)>,
    rounds: nat,
    k: nat,
)
    requires
        runs(q, h, init, blinds, rounds),
        k <= rounds,
    ensures
        ({
            let s = bullet_fold(q, h, init, blinds, k);
            &&& !s.failed
            &&& s.a.len() == two_to((rounds - k) as nat)
            &&& s.b.len() == s.a.len()
            &&& s.g.len() == s.a.len()
            &&& s.ls.len() == k
            &&& s.rs.len() == k
            &&& k < rounds ==> halvable(s)
        }),
    decreases k,
{
    let s = bullet_fold(q, h, init, blinds, k);
    if s.failed {
        crate::nizk::bullet::lemma_bullet_fold_failed(q, h, init, blinds, k, rounds);
    }
    if k > 0 {
        lemma_run_state(q, h, init, blinds, rounds, (k - 1) as nat);
        let prev = bullet_fold(q, h, init, blinds, (k - 1) as nat);
        lemma_round_value(q, h, prev, blinds[k - 1].0, blinds[k - 1].1);
        assert(two_to((rounds - k + 1) as nat) == 2 * two_to((rounds - k) as nat));
    }
    if k < rounds {
        assert(two_to((rounds - k) as nat) == 2 * two_to((rounds - k - 1) as nat));
    }
}

/// The messages of the first halvings of a reduction stay as they are
/// through the later ones.
pub proof fn lemma_run_prefix(
    q: nat,
    h: nat,
    init: BulletState,
    blinds: Seq<(nat, nat)>,
    rounds: nat,
    j: nat,
    k: nat,
)
    requires
        runs(q, h, init, blinds, rounds),
        j <= k <= rounds,
    ensures
        bullet_fold(q, h, init, blinds, j).ls == bullet_fold(q, h, init, blinds, k).ls.take(
            j as int,
        ),
        bullet_fold(q, h, init, blinds, j).rs == bullet_fold(q, h, init, blinds, k).rs.take(
            j as int,
        ),
    decreases k,
{
    let sj = bullet_fold(q, h, init, blinds, j);
    let sk = bullet_fold(q, h, init, blinds, k);
    lemma_run_state(q, h, init, blinds, rounds, j);
    lemma_run_state(q, h, init, blinds, rounds, k);
    if j == k {
        assert(sk.ls.take(j as int) =~= sk.ls);
        assert(sk.rs.take(j as int) =~= sk.rs);
    } else {
        lemma_run_prefix(q, h, init, blinds, rounds, j, (k - 1) as nat);
        lemma_run_state(q, h, init, blinds, rounds, (k - 1) as nat);
        let prev = bullet_fold(q, h, init, blinds, (k - 1) as nat);
        assert(sk.ls.take(j as int) =~= prev.ls.take(j as int));
        assert(sk.rs.take(j as int) =~= prev.rs.take(j as int));
    }
}

/// The verifier, given the messages of a reduction that did not fail,
/// has the transcript of the prover after each halving and takes the
/// challenges of the prover.
pub proof fn lemma_run_transcript(
    q: nat,
    h: nat,
    init: BulletState,
    blinds: Seq<(nat, nat)>,
    rounds: nat,
    k: nat,
)
    requires
        runs(q, h, init, blinds, rounds),
        k <= rounds,
    ensures
        ({
            let last = bullet_fold(q, h, init, blinds, rounds);
            let s = bullet_fold(q, h, init, blinds, k);
            &&& s.log == bullet_log(init.log, last.ls, last.rs, k)
            &&& k < rounds ==> bullet_challenges(init.log, last.ls, last.rs)[k as int]
                == challenge_at(q, h, init, blinds, k)
        }),
    decreases k,
{
    let last = bullet_fold(q, h, init, blinds, rounds);
    let s = bullet_fold(q, h, init, blinds, k);
    lemma_run_state(q, h, init, blinds, rounds, rounds);
    lemma_run_state(q, h, init, blinds, rounds, k);
    if k > 0 {
        lemma_run_transcript(q, h, init, blinds, rounds, (k - 1) as nat);
        lemma_run_state(q, h, init, blinds, rounds, (k - 1) as nat);
        lemma_run_prefix(q, h, init, blinds, rounds, k, rounds);
        assert(last.ls[k - 1] == s.ls.last());
        assert(last.rs[k - 1] == s.rs.last());
    }
    if k < rounds {
        lemma_run_state(q, h, init, blinds, rounds, (k + 1) as nat);
        lemma_run_prefix(q, h, init, blinds, rounds, (k + 1) as nat, rounds);
        let next = bullet_fold(q, h, init, blinds, (k + 1) as nat);
        assert(last.ls[k as int] == next.ls.last());
        assert(last.rs[k as int] == next.rs.last());
    }
}

/// What a state stands for after `k` halvings: what the first state
/// stood for, plus the messages of the halvings so far, each with the
/// square of its challenge or of the inverse of its challenge.
pub proof fn lemma_run_value(
    q: nat,
    h: nat,
    init: BulletState,
    blinds: Seq<(nat, nat)>,
    rounds: nat,
    k: nat,
)
    requires
        runs(q, h, init, blinds, rounds),
        k <= rounds,
    ensures
        ({
            let last = bullet_fold(q, h, init, blinds, rounds);
            let us = bullet_challenges(init.log, last.ls, last.rs);
            congruent(
                state_value(q, h, bullet_fold(q, h, init, blinds, k)),
                state_value(q, h, init) + int_dot(squares(us).take(k as int), last.ls.take(k as int))
                    + int_dot(inverse_squares(us).take(k as int), last.rs.take(k as int)),
            )
        }),
    decreases k,
{
    let last = bullet_fold(q, h, init, blinds, rounds);
    let us = bullet_challenges(init.log, last.ls, last.rs);
    lemma_run_state(q, h, init, blinds, rounds, rounds);
    if k == 0 {
        assert(squares(us).take(0).len() == 0);
        assert(inverse_squares(us).take(0).len() == 0);
    } else {
        let j = (k - 1) as nat;
        let prev = bullet_fold(q, h, init, blinds, j);
        let s = bullet_fold(q, h, init, blinds, k);
        lemma_run_value(q, h, init, blinds, rounds, j);
        lemma_run_state(q, h, init, blinds, rounds, j);
        lemma_run_state(q, h, init, blinds, rounds, k);
        lemma_run_transcript(q, h, init, blinds, rounds, j);
        lemma_run_prefix(q, h, init, blinds, rounds, k, rounds);
        lemma_round_value(q, h, prev, blinds[j as int].0, blinds[j as int].1);
        let u = challenge_at(q, h, init, blinds, j);
        assert(us[j as int] == u);
        let (ui, vi) = (u as int, finv(u) as int);
        let (l, r) = (last.ls[j as int], last.rs[j as int]);
        assert(l == s.ls.last());
        assert(r == s.rs.last());
        let (sq, isq) = (squares(us), inverse_squares(us));
        // one more message in each of the two sums
        assert(sq.take(k as int) =~= sq.take(j as int).push(sq[j as int]));
        assert(isq.take(k as int) =~= isq.take(j as int).push(isq[j as int]));
        assert(last.ls.take(k as int) =~= last.ls.take(j as int).push(l));
        assert(last.rs.take(k as int) =~= last.rs.take(j as int).push(r));
        lemma_int_dot_push(sq.take(j as int), last.ls.take(j as int), sq[j as int], l);
        lemma_int_dot_push(isq.take(j as int), last.rs.take(j as int), isq[j as int], r);
        lemma_fmul(u, u, ui, ui);
        lemma_fmul(finv(u), finv(u), vi, vi);
        lemma_congruent_mul(sq[j as int] as int, l as int, ui * ui, l as int);
        lemma_congruent_mul(isq[j as int] as int, r as int, vi * vi, r as int);
        let base = state_value(q, h, init) + int_dot(sq.take(j as int), last.ls.take(j as int))
            + int_dot(isq.take(j as int), last.rs.take(j as int));
        lemma_congruent_add(state_value(q, h, prev), (ui * ui) * l, base, (sq[j as int] * l) as int);
        lemma_congruent_add(
            state_value(q, h, prev) + (ui * ui) * l,
            (vi * vi) * r,
            base + sq[j as int] * l,
            (isq[j as int] * r) as int,
        );
    }
}

/// The weights of the verifier, for the challenges of one halving more,
/// give with a vector what the weights for the other challenges give
/// with the vector folded once.
pub proof fn lemma_weights_step(us: Seq<nat>, v: Seq<nat>, folded: Seq<nat>)
    requires
        us.len() > 0,
        v.len() == two_to(us.len()),
        folded.len() == two_to((us.len() - 1) as nat),
        forall|i: int|
            0 <= i < folded.len() ==> congruent(
                #[trigger] folded[i] as int,
                finv(us[0]) as int * v[i] as int + us[0] as int * v[i + folded.len()] as int,
            ),
    ensures
        congruent(int_dot(s_weights(us), v), int_dot(s_weights(us.drop_first()), folded)),
{
    let sw = s_weights(us);
    let rest = s_weights(us.drop_first());
    let half = two_to((us.len() - 1) as nat) as int;
    let (ui, vi) = (us[0] as int, finv(us[0]) as int);
    assert(two_to(us.len()) == 2 * half);
    lemma_int_dot_split(sw, v, half);
    let (swl, swr) = (sw.take(half), sw.skip(half));
    let (vl, vr) = (v.take(half), v.skip(half));
    assert forall|i: int| 0 <= i < half implies congruent(
        swl[i] as int,
        vi * rest[i] + 0 * rest[i],
    ) by {
        lemma_fmul(finv(us[0]), rest[i], vi, rest[i] as int);
        assert(0 * rest[i] == 0);
    }
    assert forall|i: int| 0 <= i < half implies congruent(
        swr[i] as int,
        ui * rest[i] + 0 * rest[i],
    ) by {
        assert(swr[i] == sw[i + half]);
        lemma_fmul(us[0], rest[i], ui, rest[i] as int);
        assert(0 * rest[i] == 0);
    }
    lemma_int_dot_combine_left(swl, rest, rest, vl, vi, 0);
    lemma_int_dot_combine_left(swr, rest, rest, vr, ui, 0);
    assert(0 * int_dot(rest, vl) == 0);
    assert(0 * int_dot(rest, vr) == 0);
    assert forall|i: int| 0 <= i < folded.len() implies congruent(
        folded[i] as int,
        vi * vl[i] + ui * vr[i],
    ) by {
        assert(vr[i] == v[i + folded.len()]);
    }
    lemma_int_dot_combine_right(rest, folded, vl, vr, vi, ui);
    lemma_congruent_add(
        int_dot(swl, vl),
        int_dot(swr, vr),
        vi * int_dot(rest, vl),
        ui * int_dot(rest, vr),
    );
}

/// The weights of the verifier give with the generators of the first
/// state what the folded generator of the last state is, and with the
/// vector `b` of the first state what the folded `b` is.
pub proof fn lemma_run_weights(
    q: nat,
    h: nat,
    init: BulletState,
    blinds: Seq<(nat, nat)>,
    rounds: nat,
    k: nat,
)
    requires
        runs(q, h, init, blinds, rounds),
        k <= rounds,
    ensures
        ({
            let last = bullet_fold(q, h, init, blinds, rounds);
            let us = bullet_challenges(init.log, last.ls, last.rs);
            let s = bullet_fold(q, h, init, blinds, k);
            &&& congruent(
                int_dot(s_weights(us.skip(k as int)), s.g),
                int_dot(s_weights(us), init.g),
            )
            &&& congruent(
                int_dot(s_weights(us.skip(k as int)), s.b),
                int_dot(s_weights(us), init.b),
            )
        }),
    decreases k,
{
    let last = bullet_fold(q, h, init, blinds, rounds);
    let us = bullet_challenges(init.log, last.ls, last.rs);
    lemma_run_state(q, h, init, blinds, rounds, rounds);
    if k == 0 {
        assert(us.skip(0) =~= us);
    } else {
        let j = (k - 1) as nat;
        let prev = bullet_fold(q, h, init, blinds, j);
        let s = bullet_fold(q, h, init, blinds, k);
        lemma_run_weights(q, h, init, blinds, rounds, j);
        lemma_run_state(q, h, init, blinds, rounds, j);
        lemma_run_state(q, h, init, blinds, rounds, k);
        lemma_run_transcript(q, h, init, blinds, rounds, j);
        let u = challenge_at(q, h, init, blinds, j);
        let rest = us.skip(j as int);
        assert(rest[0] == u);
        assert(rest.drop_first() =~= us.skip(k as int));
        let m = (prev.a.len() / 2) as int;
        lemma_fold_points(prev.g.take(m), prev.g.skip(m), finv(u), u);
        lemma_fold_scalars(prev.b.take(m), prev.b.skip(m), finv(u), u);
        assert forall|i: int| 0 <= i < s.g.len() implies congruent(
            #[trigger] s.g[i] as int,
            finv(rest[0]) as int * prev.g[i] as int + rest[0] as int * prev.g[i + s.g.len()] as int,
        ) by {
            assert(prev.g.take(m)[i] == prev.g[i]);
            assert(prev.g.skip(m)[i] == prev.g[i + m]);
            assert(s.g[i] == fold_points(prev.g.take(m), prev.g.skip(m), finv(u), u)[i]);
        }
        assert forall|i: int| 0 <= i < s.b.len() implies congruent(
            #[trigger] s.b[i] as int,
            finv(rest[0]) as int * prev.b[i] as int + rest[0] as int * prev.b[i + s.b.len()] as int,
        ) by {
            assert(prev.b.take(m)[i] == prev.b[i]);
            assert(prev.b.skip(m)[i] == prev.b[i + m]);
            assert(s.b[i] == fold_scalars(prev.b.take(m), prev.b.skip(m), finv(u), u)[i]);
        }
        lemma_weights_step(rest, prev.g, s.g);
        lemma_weights_step(rest, prev.b, s.b);
    }
}

/// The equation of the last step of the short proof of an inner product,
/// over the integers: `g` is the folded generator, `x` and `a` the folded
/// scalars, `r` the folded blind, `q` the base of the inner product and
/// `h` the blinding base; `d`, `rb` and `rd` are the blinds of the last
/// step and `c` its challenge.
pub proof fn lemma_closing_identity(
    g: int,
    x: int,
    a: int,
    q: int,
    r: int,
    h: int,
    d: int,
    rb: int,
    rd: int,
    c: int,
)
    ensures
        (((x * g + (x * a) * q + r * h) * c + (q * d + h * rb)) * a + (g * d + h * rd)) == (g + q
            * a) * (d + c * (x * a)) + h * (a * (c * r + rb) + rd),
{
    let gamma = x * g + (x * a) * q + r * h;
    let beta = q * d + h * rb;
    // the left side, term by term
    lemma_dist(c, x * g + (x * a) * q, r * h);
    lemma_dist(c, x * g, (x * a) * q);
    lemma_dist(a, gamma * c, beta);
    lemma_dist(a, (x * g) * c + ((x * a) * q) * c, (r * h) * c);
    lemma_dist(a, (x * g) * c, ((x * a) * q) * c);
    lemma_dist(a, q * d, h * rb);
    // the right side, term by term
    lemma_dist(g + q * a, d, c * (x * a));
    lemma_dist(d, g, q * a);
    lemma_dist(c * (x * a), g, q * a);
    lemma_dist(a, c * r, rb);
    lemma_dist(h, a * (c * r + rb), rd);
    lemma_dist(h, a * (c * r), a * rb);
    // the same products in another order
    assert(((x * g) * c) * a == g * (c * (x * a))) by (nonlinear_arith);
    assert((((x * a) * q) * c) * a == (q * a) * (c * (x * a))) by (nonlinear_arith);
    assert(((r * h) * c) * a == h * (a * (c * r))) by (nonlinear_arith);
    assert((q * d) * a == (q * a) * d) by (nonlinear_arith);
    assert((h * rb) * a == h * (a * rb)) by (nonlinear_arith);
}

/// The inner product of two vectors of one entry is the product of the
/// entries.
pub proof fn lemma_int_dot_single(a: Seq<nat>, b: Seq<nat>)
    requires
        a.len() == 1,
        b.len() == 1,
    ensures
        int_dot(a, b) == a[0] * b[0],
{
    assert(a.drop_last().len() == 0);
    assert(int_dot(a.drop_last(), b.drop_last()) == 0);
    assert(a.last() == a[0] && b.last() == b[0]);
}

/// What the verifier of a reduction finds for the messages of a prover
/// that did not fail, where `gamma` stands for what the first state
/// stands for: it accepts, leaves the transcript as the prover left it,
/// and its folded generator, scalar and commitment stand for those of
/// the prover.
pub proof fn lemma_bullet_complete(
    q: nat,
    h: nat,
    g: Seq<nat>,
    a: Seq<nat>,
    b: Seq<nat>,
    blind: nat,
    blinds: Seq<(nat, nat)>,
    log: Log,
    gamma: nat,
)
    requires
        a.len() == b.len(),
        a.len() == g.len(),
        is_power_of_two(a.len()),
        floor_log_2(a.len()) < 32,
        !bullet_prove(q, h, g, a, b, blind, blinds, log).failed,
        congruent(gamma as int, state_value(q, h, bullet_start(g, a, b, blind, log))),
    ensures
        ({
            let p = bullet_prove(q, h, g, a, b, blind, blinds, log);
            let v = bullet_verify(p.proof, a.len(), b, log, gamma, g);
            &&& v.ok
            &&& v.log == p.log
            &&& congruent(v.g_hat as int, p.g_hat as int)
            &&& congruent(v.a_hat as int, p.b_hat as int)
            &&& congruent(
                v.gamma_hat as int,
                (p.a_hat * p.g_hat + (p.a_hat * p.b_hat) * q + p.blind_hat * h) as int,
            )
        }),
{
    let rounds = floor_log_2(a.len());
    let init = bullet_start(g, a, b, blind, log);
    let last = bullet_fold(q, h, init, blinds, rounds);
    let p = bullet_prove(q, h, g, a, b, blind, blinds, log);
    let v = bullet_verify(p.proof, a.len(), b, log, gamma, g);
    let us = bullet_challenges(log, last.ls, last.rs);
    assert(runs(q, h, init, blinds, rounds));
    lemma_run_state(q, h, init, blinds, rounds, rounds);
    lemma_run_transcript(q, h, init, blinds, rounds, rounds);
    // every challenge has an inverse
    assert forall|j: int| 0 <= j < us.len() implies has_inverse(#[trigger] us[j]) by {
        lemma_run_transcript(q, h, init, blinds, rounds, j as nat);
        lemma_run_state(q, h, init, blinds, rounds, j as nat);
        lemma_run_state(q, h, init, blinds, rounds, (j + 1) as nat);
        lemma_round_value(
            q,
            h,
            bullet_fold(q, h, init, blinds, j as nat),
            blinds[j].0,
            blinds[j].1,
        );
    }
    // the folded generator and the folded scalar
    let sw = s_weights(us);
    lemma_run_weights(q, h, init, blinds, rounds, rounds);
    let one = s_weights(us.skip(rounds as int));
    assert(us.skip(rounds as int).len() == 0);
    assert(one.len() == 1 && one[0] == 1);
    lemma_int_dot_single(one, last.g);
    lemma_int_dot_single(one, last.b);
    lemma_inner_product(sw, g);
    lemma_inner_product(b, sw);
    lemma_int_dot_symmetric(b, sw);
    // the folded commitment
    let (sq, isq) = (squares(us), inverse_squares(us));
    lemma_run_value(q, h, init, blinds, rounds, rounds);
    assert(sq.take(rounds as int) =~= sq);
    assert(isq.take(rounds as int) =~= isq);
    assert(last.ls.take(rounds as int) =~= last.ls);
    assert(last.rs.take(rounds as int) =~= last.rs);
    lemma_inner_product((sq + isq).push(1), (last.ls + last.rs).push(gamma));
    lemma_int_dot_push(sq + isq, last.ls + last.rs, 1, gamma);
    lemma_int_dot_concat(sq, last.ls, isq, last.rs);
    lemma_int_dot_single(last.a, last.g);
    lemma_int_dot_single(last.a, last.b);
    let sums = int_dot(sq, last.ls) + int_dot(isq, last.rs);
    lemma_congruent_add(sums, gamma as int, sums, state_value(q, h, init));
    assert(1 * gamma == gamma);
}

/// Every short proof that the honest prover makes for a vector and its
/// inner product with the public vector is accepted, on a transcript with
/// the same past, for the commitments that it handed back, and leaves the
/// transcript of the verifier as that of the prover. This holds where the
/// vectors have one length, a power of two below two to the power 32,
/// the two blinding bases are one, and the prover did not fail, which is
/// to say that no challenge of a halving was zero.
pub proof fn dot_product_log_proof_complete(
    bases: DotProductBases,
    log: Log,
    tape: Log,
    x: Seq<nat>,
    blind_x: nat,
    a: Seq<nat>,
    blind_y: nat,
)
    requires
        x.len() == a.len(),
        x.len() == bases.gn.len(),
        is_power_of_two(x.len()),
        floor_log_2(x.len()) < 32,
        bases.h1 == bases.hn,
        !dot_product_log_prove(bases, log, tape, x, blind_x, a, inner_product(a, x), blind_y).failed,
    ensures
        ({
            let y = inner_product(a, x);
            let p = dot_product_log_prove(bases, log, tape, x, blind_x, a, y, blind_y);
            let v = dot_product_log_verify(bases, x.len(), log, p.proof, a, p.cx, p.cy);
            v.ok && v.log == p.log
        }),
{
    let y = inner_product(a, x);
    let p = dot_product_log_prove(bases, log, tape, x, blind_x, a, y, blind_y);
    let v = dot_product_log_verify(bases, x.len(), log, p.proof, a, p.cx, p.cy);
    let rounds = floor_log_2(x.len());
    let (g1, h) = (bases.g1, bases.h1);
    let d = challenge_scalar(tape, tag("d"));
    let r_delta = challenge_scalar(log_challenge(tape, tag("d")), tag("r_delta"));
    let r_beta = challenge_scalar(
        log_challenge(log_challenge(tape, tag("d")), tag("r_delta")),
        tag("r_beta"),
    );
    let v1 = challenge_vector(dot_product_log_tape(tape, rounds, 0), tag("blinds_vec_1"), 2 * rounds);
    let v2 = challenge_vector(dot_product_log_tape(tape, rounds, 1), tag("blinds_vec_2"), 2 * rounds);
    let log1 = dot_product_statement(log, tag("dot product proof (log)"), p.cx, p.cy, a);
    let blind = fadd(blind_x, blind_y);
    let bp = bullet_prove(g1, h, bases.gn, x, a, blind, zip(v1, v2), log1);
    let gamma = fadd(p.cx, p.cy);

    // the sum of the two commitments stands for the first state
    let (g1i, hi, bxi, byi) = (g1 as int, h as int, blind_x as int, blind_y as int);
    lemma_inner_product(x.push(blind_x), bases.gn.push(h));
    lemma_int_dot_push(x, bases.gn, blind_x, h);
    lemma_commitment_single(y, blind_y, g1, h);
    lemma_inner_product(a, x);
    lemma_int_dot_symmetric(a, x);
    let xa = int_dot(x, a);
    lemma_congruent_mul(g1i, y as int, g1i, xa);
    lemma_congruent_add((g1 * y) as int, (h * blind_y) as int, g1i * xa, (h * blind_y) as int);
    lemma_fadd(p.cx, p.cy, int_dot(x, bases.gn) + bxi * hi, g1i * xa + hi * byi);
    lemma_fadd(blind_x, blind_y, bxi, byi);
    lemma_congruent_mul(blind as int, hi, bxi + byi, hi);
    lemma_dist(hi, bxi, byi);
    lemma_comm(g1i, xa);
    lemma_comm(hi, byi);
    let start = bullet_start(bases.gn, x, a, blind, log1);
    lemma_congruent_add(
        int_dot(x, bases.gn) + xa * g1i,
        blind * hi,
        int_dot(x, bases.gn) + xa * g1i,
        (bxi + byi) * hi,
    );
    assert(congruent(gamma as int, state_value(g1, h, start)));
    lemma_bullet_complete(g1, h, bases.gn, x, a, blind, zip(v1, v2), log1, gamma);
    let bv = bullet_verify(bp.proof, x.len(), a, log1, gamma, bases.gn);

    // the last step
    let delta = p.proof.delta;
    let beta = p.proof.beta;
    let c = challenge_scalar(dot_product_log_closing(bp.log, delta, beta), tag("c"));
    let (gi, xi, ai, ri) = (
        bp.g_hat as int,
        bp.a_hat as int,
        bp.b_hat as int,
        bp.blind_hat as int,
    );
    let (di, rbi, rdi, ci) = (d as int, r_beta as int, r_delta as int, c as int);
    let gamma_int = xi * gi + (xi * ai) * g1i + ri * hi;
    lemma_commitment_single(d, r_delta, bp.g_hat, h);
    lemma_commitment_single(d, r_beta, g1, h);
    // the left side
    lemma_fmul(bv.gamma_hat, c, gamma_int, ci);
    lemma_fadd(fmul(bv.gamma_hat, c), beta, gamma_int * ci, g1i * di + hi * rbi);
    lemma_fmul(fadd(fmul(bv.gamma_hat, c), beta), bv.a_hat, gamma_int * ci + (g1i * di + hi * rbi), ai);
    lemma_fadd(
        fmul(fadd(fmul(bv.gamma_hat, c), beta), bv.a_hat),
        delta,
        (gamma_int * ci + (g1i * di + hi * rbi)) * ai,
        gi * di + hi * rdi,
    );
    // the right side
    lemma_fmul(bp.a_hat, bp.b_hat, xi, ai);
    lemma_fmul(c, fmul(bp.a_hat, bp.b_hat), ci, xi * ai);
    lemma_fadd(d, fmul(c, fmul(bp.a_hat, bp.b_hat)), di, ci * (xi * ai));
    lemma_fmul(c, bp.blind_hat, ci, ri);
    lemma_fadd(fmul(c, bp.blind_hat), r_beta, ci * ri, rbi);
    lemma_fmul(bp.b_hat, fadd(fmul(c, bp.blind_hat), r_beta), ai, ci * ri + rbi);
    lemma_fadd(
        fmul(bp.b_hat, fadd(fmul(c, bp.blind_hat), r_beta)),
        r_delta,
        ai * (ci * ri + rbi),
        rdi,
    );
    lemma_fmul(g1, bv.a_hat, g1i, ai);
    lemma_fadd(bv.g_hat, fmul(g1, bv.a_hat), gi, g1i * ai);
    lemma_fmul(fadd(bv.g_hat, fmul(g1, bv.a_hat)), p.proof.z1, gi + g1i * ai, di + ci * (xi * ai));
    lemma_fmul(h, p.proof.z2, hi, ai * (ci * ri + rbi) + rdi);
    lemma_fadd(
        fmul(fadd(bv.g_hat, fmul(g1, bv.a_hat)), p.proof.z1),
        fmul(h, p.proof.z2),
        (gi + g1i * ai) * (di + ci * (xi * ai)),
        hi * (ai * (ci * ri + rbi) + rdi),
    );
    lemma_closing_identity(gi, xi, ai, g1i, ri, hi, di, rbi, rdi, ci);
    lemma_congruent_reduced(
        fadd(fmul(fadd(fmul(bv.gamma_hat, c), beta), bv.a_hat), delta),
        fadd(fmul(fadd(bv.g_hat, fmul(g1, bv.a_hat)), p.proof.z1), fmul(h, p.proof.z2)),
    );
}

} // verus!
