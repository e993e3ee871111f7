use vstd::prelude::*;
use crate::algebra::{
    congruent, int_dot, lemma_assoc, lemma_comm, lemma_congruent_add, lemma_congruent_mul,
    lemma_congruent_reduced, lemma_dist, lemma_fadd, lemma_fmul, lemma_inner_product,
};
use crate::commitments::{commitment, commitment_single};
use crate::completeness::interpolation::{lemma_round_claim, table_sum};
use crate::completeness::multilinear::lemma_bound_value;
use crate::dense_mlpoly::eq_evals;
use crate::math::two_to;
use crate::nizk::completeness::lemma_int_dot_single;
use crate::completeness::polynomials::{
    coeff_sum, lemma_round_poly_sum, lemma_uni_eval, lemma_weights_product, poly_value,
};
use crate::nizk::dot_product::{dot_product_proof_complete, DotProductBases};
use crate::nizk::lemma_commitment_single;
use crate::scalar::{fadd, fmul, inner_product};
use crate::sumcheck::{
    claim_weights, round_challenge, round_log_weights, round_poly, round_weights,
    sumcheck_close, sumcheck_fold, sumcheck_prove, sumcheck_round, sumcheck_start,
    sumcheck_verify, sumcheck_verify_fold, sumcheck_verify_round, SumcheckState,
    SumcheckVerifyState, Tables, ZKSumcheckView,
};
use crate::transcript::{challenge_vector, log_challenges, tag, Log};
use crate::unipoly::uni_eval;

verus! {

/// Whether the verifier of a sum stands where the prover stands: it has
/// failed in no round, has the prover's transcript and challenges, and the
/// commitment that it holds is the commitment to the prover's claim under
/// the prover's blind.
pub open spec fn in_step(bases: DotProductBases, st: SumcheckState, vst: SumcheckVerifyState)
    -> bool {
    &&& vst.ok
    &&& vst.log == st.log
    &&& vst.rs == st.rs
    &&& vst.comm_claim == st.comm_claim
    &&& st.comm_claim == commitment_single(st.claim, st.blind_claim, bases.g1, bases.h1)
}

/// How many coefficients the polynomial of a round has.
pub open spec fn coefficients(cubic: bool) -> nat {
    if cubic {
        4
    } else {
        3
    }
}

/// The inner product of two vectors of two entries.
pub proof fn lemma_int_dot_pair(w: Seq<nat>, c: Seq<nat>)
    requires
        w.len() == 2,
        c.len() == 2,
    ensures
        int_dot(w, c) == w[0] * c[0] + w[1] * c[1],
{
    assert(w.drop_last().drop_last().len() == 0);
    assert(int_dot(w.drop_last().drop_last(), c.drop_last().drop_last()) == 0);
    assert(int_dot(w.drop_last(), c.drop_last()) == w[0] * c[0]);
}

/// A verifier that stands where the prover stands does so after one more
/// round.
pub proof fn lemma_round_accepted(
    bases: DotProductBases,
    cubic: bool,
    st: SumcheckState,
    vst: SumcheckVerifyState,
    blind_poly: nat,
    blind_eval: nat,
)
    requires
        in_step(bases, st, vst),
        bases.gn.len() == coefficients(cubic),
    ensures
        ({
            let next = sumcheck_round(bases, cubic, st, blind_poly, blind_eval);
            in_step(
                bases,
                next,
                sumcheck_verify_round(
                    bases,
                    vst,
                    next.comm_polys.last(),
                    next.comm_evals.last(),
                    next.proofs.last(),
                    coefficients(cubic),
                ),
            )
        }),
{
    let poly = round_poly(cubic, st.tables, st.claim);
    lemma_round_poly_sum(cubic, st.tables, st.claim);
    let comm_poly = commitment(poly, blind_poly, bases.gn, bases.hn);
    let r = round_challenge(st.log, comm_poly);
    let eval = uni_eval(poly, r);
    let comm_eval = commitment_single(eval, blind_eval, bases.g1, bases.h1);
    let w = round_weights(st.log, comm_poly, st.comm_claim, comm_eval);
    let log1 = round_log_weights(st.log, comm_poly, st.comm_claim, comm_eval);
    let target = fadd(fmul(w[0], st.claim), fmul(w[1], eval));
    let blind = fadd(fmul(w[0], st.blind_claim), fmul(w[1], blind_eval));
    let a = claim_weights(w[0], w[1], r, poly.len());
    let (w0, w1, g1, h1) = (w[0] as int, w[1] as int, bases.g1 as int, bases.h1 as int);
    let (ci, ei, bci, bei) = (
        st.claim as int,
        eval as int,
        st.blind_claim as int,
        blind_eval as int,
    );
    // the target is the inner product of the weights and the coefficients
    lemma_inner_product(a, poly);
    lemma_weights_product(w[0], w[1], r, poly);
    lemma_uni_eval(poly, r);
    lemma_fmul(w[0], st.claim, w0, ci);
    lemma_fmul(w[1], eval, w1, ei);
    lemma_fadd(fmul(w[0], st.claim), fmul(w[1], eval), w0 * ci, w1 * ei);
    lemma_congruent_mul(w0, poly[0] + coeff_sum(poly), w0, ci);
    lemma_congruent_mul(w1, poly_value(poly, r as int), w1, ei);
    lemma_congruent_add(
        w0 * (poly[0] + coeff_sum(poly)),
        w1 * poly_value(poly, r as int),
        w0 * ci,
        w1 * ei,
    );
    lemma_congruent_reduced(target, inner_product(a, poly));
    // the combination of the two commitments is the commitment to the
    // target
    let pair = seq![st.comm_claim, comm_eval];
    let comm_target = inner_product(w, pair);
    lemma_inner_product(w, pair);
    lemma_int_dot_pair(w, pair);
    lemma_commitment_single(st.claim, st.blind_claim, bases.g1, bases.h1);
    lemma_commitment_single(eval, blind_eval, bases.g1, bases.h1);
    lemma_congruent_mul(w0, st.comm_claim as int, w0, g1 * ci + h1 * bci);
    lemma_congruent_mul(w1, comm_eval as int, w1, g1 * ei + h1 * bei);
    lemma_congruent_add(
        w0 * st.comm_claim,
        w1 * comm_eval,
        w0 * (g1 * ci + h1 * bci),
        w1 * (g1 * ei + h1 * bei),
    );
    lemma_fmul(w[0], st.blind_claim, w0, bci);
    lemma_fmul(w[1], blind_eval, w1, bei);
    lemma_fadd(fmul(w[0], st.blind_claim), fmul(w[1], blind_eval), w0 * bci, w1 * bei);
    lemma_commitment_single(target, blind, bases.g1, bases.h1);
    lemma_congruent_mul(g1, target as int, g1, w0 * ci + w1 * ei);
    lemma_congruent_mul(h1, blind as int, h1, w0 * bci + w1 * bei);
    lemma_congruent_add(
        g1 * target,
        h1 * blind,
        g1 * (w0 * ci + w1 * ei),
        h1 * (w0 * bci + w1 * bei),
    );
    lemma_dist(w0, g1 * ci, h1 * bci);
    lemma_dist(w1, g1 * ei, h1 * bei);
    lemma_dist(g1, w0 * ci, w1 * ei);
    lemma_dist(h1, w0 * bci, w1 * bei);
    lemma_assoc(w0, g1, ci);
    lemma_assoc(w0, h1, bci);
    lemma_assoc(w1, g1, ei);
    lemma_assoc(w1, h1, bei);
    lemma_assoc(g1, w0, ci);
    lemma_assoc(h1, w0, bci);
    lemma_assoc(g1, w1, ei);
    lemma_assoc(h1, w1, bei);
    lemma_comm(w0, g1);
    lemma_comm(w0, h1);
    lemma_comm(w1, g1);
    lemma_comm(w1, h1);
    lemma_congruent_reduced(
        comm_target,
        commitment_single(target, blind, bases.g1, bases.h1),
    );
    // the proof of the inner product is accepted
    dot_product_proof_complete(bases, log1, st.tape, poly, blind_poly, a, blind);
}

/// What the prover holds after `k` rounds as the messages of the proof.
pub open spec fn proof_so_far(st: SumcheckState) -> ZKSumcheckView {
    ZKSumcheckView { comm_polys: st.comm_polys, comm_evals: st.comm_evals, proofs: st.proofs }
}

/// Each round adds one message to each list, and the messages of the
/// first rounds stay as they are through the later ones.
pub proof fn lemma_fold_prefix(
    bases: DotProductBases,
    cubic: bool,
    init: SumcheckState,
    blinds_poly: Seq<nat>,
    blinds_evals: Seq<nat>,
    j: nat,
    k: nat,
)
    requires
        j <= k,
        init.comm_polys.len() == 0,
        init.comm_evals.len() == 0,
        init.proofs.len() == 0,
        init.rs.len() == 0,
    ensures
        ({
            let sj = sumcheck_fold(bases, cubic, init, blinds_poly, blinds_evals, j);
            let sk = sumcheck_fold(bases, cubic, init, blinds_poly, blinds_evals, k);
            &&& sk.comm_polys.len() == k
            &&& sk.comm_evals.len() == k
            &&& sk.proofs.len() == k
            &&& sk.rs.len() == k
            &&& sj.comm_polys == sk.comm_polys.take(j as int)
            &&& sj.comm_evals == sk.comm_evals.take(j as int)
            &&& sj.proofs == sk.proofs.take(j as int)
            &&& sj.rs == sk.rs.take(j as int)
        }),
    decreases k,
{
    let sk = sumcheck_fold(bases, cubic, init, blinds_poly, blinds_evals, k);
    if k > 0 {
        lemma_fold_prefix(bases, cubic, init, blinds_poly, blinds_evals, 0, (k - 1) as nat);
    }
    if j == k {
        assert(sk.comm_polys.take(j as int) =~= sk.comm_polys);
        assert(sk.comm_evals.take(j as int) =~= sk.comm_evals);
        assert(sk.proofs.take(j as int) =~= sk.proofs);
        assert(sk.rs.take(j as int) =~= sk.rs);
    } else {
        lemma_fold_prefix(bases, cubic, init, blinds_poly, blinds_evals, j, (k - 1) as nat);
        let prev = sumcheck_fold(bases, cubic, init, blinds_poly, blinds_evals, (k - 1) as nat);
        assert(sk.comm_polys.take(j as int) =~= prev.comm_polys.take(j as int));
        assert(sk.comm_evals.take(j as int) =~= prev.comm_evals.take(j as int));
        assert(sk.proofs.take(j as int) =~= prev.proofs.take(j as int));
        assert(sk.rs.take(j as int) =~= prev.rs.take(j as int));
    }
}

/// The verifier, given the messages of all rounds, stands after each
/// round where the prover stood.
pub proof fn lemma_fold_accepted(
    bases: DotProductBases,
    cubic: bool,
    init: SumcheckState,
    blinds_poly: Seq<nat>,
    blinds_evals: Seq<nat>,
    rounds: nat,
    k: nat,
)
    requires
        k <= rounds,
        bases.gn.len() == coefficients(cubic),
        init.comm_polys.len() == 0,
        init.comm_evals.len() == 0,
        init.proofs.len() == 0,
        init.rs.len() == 0,
        init.comm_claim == commitment_single(init.claim, init.blind_claim, bases.g1, bases.h1),
    ensures
        ({
            let last = sumcheck_fold(bases, cubic, init, blinds_poly, blinds_evals, rounds);
            let vinit = SumcheckVerifyState {
                ok: true,
                comm_claim: init.comm_claim,
                log: init.log,
                rs: Seq::empty(),
            };
            in_step(
                bases,
                sumcheck_fold(bases, cubic, init, blinds_poly, blinds_evals, k),
                sumcheck_verify_fold(bases, vinit, proof_so_far(last), coefficients(cubic), k),
            )
        }),
    decreases k,
{
    let last = sumcheck_fold(bases, cubic, init, blinds_poly, blinds_evals, rounds);
    let vinit = SumcheckVerifyState {
        ok: true,
        comm_claim: init.comm_claim,
        log: init.log,
        rs: Seq::empty(),
    };
    if k == 0 {
        assert(init.rs =~= Seq::<nat>::empty());
    } else {
        let j = (k - 1) as nat;
        lemma_fold_accepted(bases, cubic, init, blinds_poly, blinds_evals, rounds, j);
        lemma_fold_prefix(bases, cubic, init, blinds_poly, blinds_evals, k, rounds);
        lemma_fold_prefix(bases, cubic, init, blinds_poly, blinds_evals, j, k);
        let prev = sumcheck_fold(bases, cubic, init, blinds_poly, blinds_evals, j);
        let vprev = sumcheck_verify_fold(bases, vinit, proof_so_far(last), coefficients(cubic), j);
        lemma_round_accepted(bases, cubic, prev, vprev, blinds_poly[j as int], blinds_evals[j as int]);
        let s = sumcheck_fold(bases, cubic, init, blinds_poly, blinds_evals, k);
        assert(last.comm_polys[j as int] == s.comm_polys.last());
        assert(last.comm_evals[j as int] == s.comm_evals.last());
        assert(last.proofs[j as int] == s.proofs.last());
    }
}

/// What the prover of a sum claims at the end: the value at the last
/// challenge of the polynomial of the last round.
pub open spec fn final_claim(
    bases: DotProductBases,
    cubic: bool,
    log: Log,
    tape: Log,
    claim: nat,
    blind_claim: nat,
    num_rounds: nat,
    tables: Tables,
) -> nat {
    sumcheck_fold(
        bases,
        cubic,
        sumcheck_start(bases, log, tape, claim, blind_claim, num_rounds, tables),
        challenge_vector(tape, tag("blinds_poly"), num_rounds),
        challenge_vector(
            log_challenges(tape, tag("blinds_poly"), num_rounds),
            tag("blinds_evals"),
            num_rounds,
        ),
        num_rounds,
    ).claim
}

/// The verifier of a sum accepts every round of the honest prover, for
/// whatever claim and polynomials: it takes the challenges of the prover,
/// leaves the transcript as the prover left it, and holds at the end the
/// commitment to the prover's last claim under the prover's last blind.
pub proof fn sumcheck_rounds_accepted(
    bases: DotProductBases,
    cubic: bool,
    log: Log,
    tape: Log,
    claim: nat,
    blind_claim: nat,
    num_rounds: nat,
    tables: Tables,
)
    requires
        bases.gn.len() == coefficients(cubic),
    ensures
        ({
            let p = sumcheck_prove(bases, cubic, log, tape, claim, blind_claim, num_rounds, tables);
            let v = sumcheck_verify(
                bases,
                log,
                p.proof,
                commitment_single(claim, blind_claim, bases.g1, bases.h1),
                num_rounds,
                coefficients(cubic),
            );
            &&& p.proof.comm_polys.len() == num_rounds
            &&& p.proof.comm_evals.len() == num_rounds
            &&& p.proof.proofs.len() == num_rounds
            &&& p.rs.len() == num_rounds
            &&& v.ok
            &&& v.log == p.log
            &&& v.rs == p.rs
            &&& v.comm_claim == commitment_single(
                final_claim(bases, cubic, log, tape, claim, blind_claim, num_rounds, tables),
                p.blind,
                bases.g1,
                bases.h1,
            )
        }),
{
    reveal(sumcheck_prove);
    reveal(sumcheck_verify);
    let init = sumcheck_start(bases, log, tape, claim, blind_claim, num_rounds, tables);
    let bp = challenge_vector(tape, tag("blinds_poly"), num_rounds);
    let be = challenge_vector(
        log_challenges(tape, tag("blinds_poly"), num_rounds),
        tag("blinds_evals"),
        num_rounds,
    );
    lemma_fold_accepted(bases, cubic, init, bp, be, num_rounds, num_rounds);
    lemma_fold_prefix(bases, cubic, init, bp, be, num_rounds, num_rounds);
}

/// Whether the polynomials of a sum have two to the power `k` values
/// each.
pub open spec fn tables_sized(cubic: bool, t: Tables, k: nat) -> bool {
    &&& t.a.len() == two_to(k)
    &&& t.b.len() == t.a.len()
    &&& cubic ==> t.c.len() == t.a.len() && t.d.len() == t.a.len()
}

/// Where the first claim is the sum over all corners, the claim after
/// each round is the sum over all corners of the polynomials with their
/// first variables set to the challenges so far.
pub proof fn lemma_fold_claim(
    bases: DotProductBases,
    cubic: bool,
    init: SumcheckState,
    blinds_poly: Seq<nat>,
    blinds_evals: Seq<nat>,
    rounds: nat,
    k: nat,
)
    requires
        k <= rounds,
        tables_sized(cubic, init.tables, rounds),
        congruent(init.claim as int, table_sum(cubic, init.tables) as int),
    ensures
        ({
            let st = sumcheck_fold(bases, cubic, init, blinds_poly, blinds_evals, k);
            &&& tables_sized(cubic, st.tables, (rounds - k) as nat)
            &&& congruent(st.claim as int, table_sum(cubic, st.tables) as int)
        }),
    decreases k,
{
    if k > 0 {
        let j = (k - 1) as nat;
        lemma_fold_claim(bases, cubic, init, blinds_poly, blinds_evals, rounds, j);
        let prev = sumcheck_fold(bases, cubic, init, blinds_poly, blinds_evals, j);
        let st = sumcheck_fold(bases, cubic, init, blinds_poly, blinds_evals, k);
        assert(two_to((rounds - j) as nat) == 2 * two_to((rounds - k) as nat));
        let c = sumcheck_close(
            bases,
            prev.log,
            prev.tape,
            round_poly(cubic, prev.tables, prev.claim),
            prev.claim,
            prev.comm_claim,
            prev.blind_claim,
            blinds_poly[j as int],
            blinds_evals[j as int],
        );
        lemma_round_claim(cubic, prev.tables, prev.claim, c.r);
    }
}

/// Where the claim of the prover of a sum is the sum over all corners of
/// the combination of the polynomials, its last claim is the combination
/// of the values of the polynomials at the point of the challenges,
/// which is what each polynomial is left with.
pub proof fn sumcheck_final_claim(
    bases: DotProductBases,
    cubic: bool,
    log: Log,
    tape: Log,
    claim: nat,
    blind_claim: nat,
    num_rounds: nat,
    tables: Tables,
)
    requires
        tables_sized(cubic, tables, num_rounds),
        congruent(claim as int, table_sum(cubic, tables) as int),
    ensures
        ({
            let p = sumcheck_prove(bases, cubic, log, tape, claim, blind_claim, num_rounds, tables);
            &&& tables_sized(cubic, p.tables, 0)
            &&& congruent(
                final_claim(bases, cubic, log, tape, claim, blind_claim, num_rounds, tables) as int,
                table_sum(cubic, p.tables) as int,
            )
        }),
{
    reveal(sumcheck_prove);
    let init = sumcheck_start(bases, log, tape, claim, blind_claim, num_rounds, tables);
    let bp = challenge_vector(tape, tag("blinds_poly"), num_rounds);
    let be = challenge_vector(
        log_challenges(tape, tag("blinds_poly"), num_rounds),
        tag("blinds_evals"),
        num_rounds,
    );
    lemma_fold_claim(bases, cubic, init, bp, be, num_rounds, num_rounds);
}

/// Whether the values of the polynomials before and after some rounds
/// give the same with the values of the polynomial of the point of all
/// challenges, and of the point of the challenges still to come.
pub open spec fn same_value(cubic: bool, before: Tables, after: Tables, rs: Seq<nat>, k: nat)
    -> bool {
    let all = eq_evals(rs);
    let rest = eq_evals(rs.skip(k as int));
    &&& congruent(int_dot(rest, after.a), int_dot(all, before.a))
    &&& congruent(int_dot(rest, after.b), int_dot(all, before.b))
    &&& cubic ==> congruent(int_dot(rest, after.c), int_dot(all, before.c))
    &&& cubic ==> congruent(int_dot(rest, after.d), int_dot(all, before.d))
}

/// Each round halves the number of values of each polynomial, and what
/// they give with the values of the polynomial of the point of the
/// challenges still to come stays as it is.
pub proof fn lemma_fold_value(
    bases: DotProductBases,
    cubic: bool,
    init: SumcheckState,
    blinds_poly: Seq<nat>,
    blinds_evals: Seq<nat>,
    rounds: nat,
    k: nat,
)
    requires
        k <= rounds,
        tables_sized(cubic, init.tables, rounds),
        init.comm_polys.len() == 0,
        init.comm_evals.len() == 0,
        init.proofs.len() == 0,
        init.rs.len() == 0,
    ensures
        ({
            let last = sumcheck_fold(bases, cubic, init, blinds_poly, blinds_evals, rounds);
            let st = sumcheck_fold(bases, cubic, init, blinds_poly, blinds_evals, k);
            &&& tables_sized(cubic, st.tables, (rounds - k) as nat)
            &&& same_value(cubic, init.tables, st.tables, last.rs, k)
        }),
    decreases k,
{
    let last = sumcheck_fold(bases, cubic, init, blinds_poly, blinds_evals, rounds);
    lemma_fold_prefix(bases, cubic, init, blinds_poly, blinds_evals, rounds, rounds);
    if k == 0 {
        assert(last.rs.skip(0) =~= last.rs);
    } else {
        let j = (k - 1) as nat;
        lemma_fold_value(bases, cubic, init, blinds_poly, blinds_evals, rounds, j);
        lemma_fold_prefix(bases, cubic, init, blinds_poly, blinds_evals, k, rounds);
        let prev = sumcheck_fold(bases, cubic, init, blinds_poly, blinds_evals, j);
        let st = sumcheck_fold(bases, cubic, init, blinds_poly, blinds_evals, k);
        assert(two_to((rounds - j) as nat) == 2 * two_to((rounds - k) as nat));
        let point = last.rs.skip(j as int);
        assert(point.skip(1) =~= last.rs.skip(k as int));
        assert(point[0] == st.rs.last());
        lemma_bound_value(prev.tables.a, point);
        lemma_bound_value(prev.tables.b, point);
        if cubic {
            lemma_bound_value(prev.tables.c, point);
            lemma_bound_value(prev.tables.d, point);
        }
    }
}

/// What each polynomial of a sum is left with after all rounds is its
/// value at the point of the challenges: what its values give with the
/// values of the polynomial of that point.
pub proof fn sumcheck_final_values(
    bases: DotProductBases,
    cubic: bool,
    log: Log,
    tape: Log,
    claim: nat,
    blind_claim: nat,
    num_rounds: nat,
    tables: Tables,
)
    requires
        tables_sized(cubic, tables, num_rounds),
    ensures
        ({
            let p = sumcheck_prove(bases, cubic, log, tape, claim, blind_claim, num_rounds, tables);
            let e = eq_evals(p.rs);
            &&& p.rs.len() == num_rounds
            &&& tables_sized(cubic, p.tables, 0)
            &&& congruent(p.tables.a[0] as int, int_dot(e, tables.a))
            &&& congruent(p.tables.b[0] as int, int_dot(e, tables.b))
            &&& cubic ==> congruent(p.tables.c[0] as int, int_dot(e, tables.c))
            &&& cubic ==> congruent(p.tables.d[0] as int, int_dot(e, tables.d))
        }),
{
    reveal(sumcheck_prove);
    let init = sumcheck_start(bases, log, tape, claim, blind_claim, num_rounds, tables);
    let bp = challenge_vector(tape, tag("blinds_poly"), num_rounds);
    let be = challenge_vector(
        log_challenges(tape, tag("blinds_poly"), num_rounds),
        tag("blinds_evals"),
        num_rounds,
    );
    lemma_fold_value(bases, cubic, init, bp, be, num_rounds, num_rounds);
    lemma_fold_prefix(bases, cubic, init, bp, be, num_rounds, num_rounds);
    let last = sumcheck_fold(bases, cubic, init, bp, be, num_rounds);
    let one = eq_evals(last.rs.skip(num_rounds as int));
    assert(last.rs.skip(num_rounds as int).len() == 0);
    assert(one.len() == 1 && one[0] == 1);
    lemma_int_dot_single(one, last.tables.a);
    lemma_int_dot_single(one, last.tables.b);
    assert(1 * last.tables.a[0] == last.tables.a[0]);
    assert(1 * last.tables.b[0] == last.tables.b[0]);
    if cubic {
        lemma_int_dot_single(one, last.tables.c);
        lemma_int_dot_single(one, last.tables.d);
        assert(1 * last.tables.c[0] == last.tables.c[0]);
        assert(1 * last.tables.d[0] == last.tables.d[0]);
    }
}

} // verus!
