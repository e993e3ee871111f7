use vstd::prelude::*;
use crate::algebra::{
    congruent, int_dot, lemma_comm, lemma_congruent_add, lemma_congruent_mul,
    lemma_congruent_reduced, lemma_dist, lemma_fadd, lemma_fmul, lemma_fsub, lemma_inner_product,
    lemma_int_dot_symmetric,
};
use crate::commitments::commitment_single;
use crate::completeness::interpolation::table_sum;
use crate::completeness::matrices::{
    int_mat, lemma_combine_dot, lemma_combine_one, lemma_mat_vec_dot, lemma_vec_mat_dot,
};
use crate::completeness::multilinear::{lemma_eq_eval, lemma_eq_product};
use crate::completeness::rounds::{
    final_claim, lemma_int_dot_pair, sumcheck_final_claim, sumcheck_final_values,
    sumcheck_rounds_accepted, tables_sized,
};
use crate::dense_mlpoly::{eq_eval, eq_evals, lemma_eq_evals_len};
use crate::math::{floor_log_2, lemma_floor_log_2_two_to, two_to};
use crate::nizk::completeness::lemma_int_dot_single;
use crate::nizk::{
    equality_proof_complete, knowledge_proof_complete, lemma_commitment_single,
    product_proof_complete,
};
use crate::completeness::inputs::{holds_inputs, lemma_sparse_input};
use crate::completeness::matrices::lemma_mat_eval;
use crate::completeness::multilinear::lemma_joined_value;
use crate::completeness::opening::poly_eval_proof_complete;
use crate::dense_mlpoly::{mle_eval, poly_commitment};
use crate::r1csinstance::{mat_eval, vec_mat};
use crate::r1csproof::{
    bases_opening, bases_phase1, bases_phase2, claims_tape, combine, input_entries,
    lemma_double_power, prover_fits, r1cs_claims, r1cs_combiners, r1cs_log_combiners,
    r1cs_opening, r1cs_phase_one, r1cs_phase_two, r1cs_prove, r1cs_tau, r1cs_verify,
    r1cs_verify_phase_one, r1cs_verify_phase_two, verifier_fits, R1CSGens, R1CSProofView,
};
use crate::sparse_mlpoly::sparse_eval;
use crate::transcript::log_challenge;
use crate::sumcheck::{sumcheck_prove, Tables};
use crate::transcript::{challenge_scalar, tag, Log};
use crate::r1csinstance::{
    assignment, entries_within, instance_wf, mat_vec, mat_vec_row, satisfies, MatrixEntryView,
    R1CSInstanceView,
};
use crate::r1csproof::{combine_one, padded_assignment};
use crate::scalar::{fadd, fmul, fsub, inner_product};
use crate::sumcheck::cubic_sum;

verus! {

/// Where in each place the product of the second and the third entry is
/// the fourth, the sum of `a (b c - d)` over all places is zero.
pub proof fn lemma_cubic_sum_zero(a: Seq<nat>, b: Seq<nat>, c: Seq<nat>, d: Seq<nat>)
    requires
        a.len() == b.len(),
        a.len() == c.len(),
        a.len() == d.len(),
        forall|i: int| 0 <= i < a.len() ==> fmul(#[trigger] b[i], c[i]) == d[i],
    ensures
        cubic_sum(a, b, c, d) == 0,
    decreases a.len(),
{
    if a.len() > 0 {
        lemma_cubic_sum_zero(a.drop_last(), b.drop_last(), c.drop_last(), d.drop_last());
        let n = a.len() - 1;
        assert(fmul(b[n], c[n]) == d[n]);
        reveal(fsub);
        reveal(fmul);
        reveal(fadd);
        let q = crate::scalar::modulus();
        crate::algebra::lemma_modulus_positive();
        assert(fsub(d[n], d[n]) == 0) by {
            assert(d[n] - d[n] == 0);
            vstd::arithmetic::div_mod::lemma_small_mod(0, q);
        }
        assert(a[n] * 0 == 0);
        assert(fmul(a[n], 0) == 0) by {
            vstd::arithmetic::div_mod::lemma_small_mod(0, q);
        }
        assert(fadd(0, 0) == 0) by {
            vstd::arithmetic::div_mod::lemma_small_mod(0, q);
        }
    }
}

/// The product of a matrix with a vector depends, in each row, on the
/// entries of the vector at the columns of the matrix only.
pub proof fn lemma_mat_vec_row_agree(
    m: Seq<MatrixEntryView>,
    z1: Seq<nat>,
    z2: Seq<nat>,
    cols: nat,
    rows: nat,
    i: nat,
)
    requires
        entries_within(m, rows, cols),
        cols <= z1.len(),
        cols <= z2.len(),
        forall|j: int| 0 <= j < cols ==> z1[j] == z2[j],
    ensures
        mat_vec_row(m, z1, i) == mat_vec_row(m, z2, i),
    decreases m.len(),
{
    if m.len() > 0 {
        let m0 = m.drop_last();
        assert(forall|k: int| 0 <= k < m0.len() ==> #[trigger] m0[k] == m[k]);
        lemma_mat_vec_row_agree(m0, z1, z2, cols, rows, i);
        assert(m[m.len() - 1] == m.last());
    }
}

/// Entries that lie within a matrix lie within every matrix that is as
/// large at least.
pub proof fn lemma_entries_within(m: Seq<MatrixEntryView>, rows: nat, cols: nat, r2: nat, c2: nat)
    requires
        entries_within(m, rows, cols),
        rows <= r2,
        cols <= c2,
    ensures
        entries_within(m, r2, c2),
{
}

/// For an assignment that meets the constraints, the products of the
/// three matrices with the assignment, filled up with zeros, are such
/// that in each row the first two multiply to the third.
pub proof fn lemma_satisfied(inst: R1CSInstanceView, vars: Seq<nat>, input: Seq<nat>)
    requires
        instance_wf(inst),
        vars.len() == inst.num_vars,
        input.len() == inst.num_inputs,
        satisfies(inst, vars, input),
    ensures
        ({
            let z = padded_assignment(vars, input);
            forall|i: int|
                0 <= i < inst.num_cons ==> fmul(
                    #[trigger] mat_vec(inst.a, inst.num_cons, z)[i],
                    mat_vec(inst.b, inst.num_cons, z)[i],
                ) == mat_vec(inst.c, inst.num_cons, z)[i]
        }),
{
    let z = padded_assignment(vars, input);
    let z0 = assignment(vars, input);
    let cols = inst.num_vars + 1 + inst.num_inputs;
    assert forall|i: int| 0 <= i < inst.num_cons implies fmul(
        #[trigger] mat_vec(inst.a, inst.num_cons, z)[i],
        mat_vec(inst.b, inst.num_cons, z)[i],
    ) == mat_vec(inst.c, inst.num_cons, z)[i] by {
        lemma_mat_vec_row_agree(inst.a, z, z0, cols, inst.num_cons, i as nat);
        lemma_mat_vec_row_agree(inst.b, z, z0, cols, inst.num_cons, i as nat);
        lemma_mat_vec_row_agree(inst.c, z, z0, cols, inst.num_cons, i as nat);
        assert(fmul(mat_vec_row(inst.a, z0, i as nat), mat_vec_row(inst.b, z0, i as nat))
            == mat_vec_row(inst.c, z0, i as nat));
    }
}

/// The inner product of two vectors of three entries.
pub proof fn lemma_int_dot_triple(w: Seq<nat>, c: Seq<nat>)
    requires
        w.len() == 3,
        c.len() == 3,
    ensures
        int_dot(w, c) == w[0] * c[0] + w[1] * c[1] + w[2] * c[2],
{
    lemma_int_dot_pair(w.drop_last(), c.drop_last());
}

/// The commitments to three values, combined with three weights, are the
/// commitment to the combination of the values under the combination of
/// the blinds.
pub proof fn lemma_combined_commitment(
    r: (nat, nat, nat),
    g: nat,
    h: nat,
    a: nat,
    ab: nat,
    b: nat,
    bb: nat,
    c: nat,
    cb: nat,
)
    ensures
        inner_product(
            seq![r.0, r.1, r.2],
            seq![
                commitment_single(a, ab, g, h),
                commitment_single(b, bb, g, h),
                commitment_single(c, cb, g, h),
            ],
        ) == commitment_single(combine_one(r, a, b, c), combine_one(r, ab, bb, cb), g, h),
{
    let w = seq![r.0, r.1, r.2];
    let (ca, cbv, cc) = (
        commitment_single(a, ab, g, h),
        commitment_single(b, bb, g, h),
        commitment_single(c, cb, g, h),
    );
    let v = seq![ca, cbv, cc];
    let (r0, r1, r2, gi, hi) = (r.0 as int, r.1 as int, r.2 as int, g as int, h as int);
    let (ai, abi, bi, bbi, ci, cbi) = (
        a as int,
        ab as int,
        b as int,
        bb as int,
        c as int,
        cb as int,
    );
    lemma_inner_product(w, v);
    lemma_int_dot_triple(w, v);
    lemma_commitment_single(a, ab, g, h);
    lemma_commitment_single(b, bb, g, h);
    lemma_commitment_single(c, cb, g, h);
    lemma_congruent_mul(r0, ca as int, r0, gi * ai + hi * abi);
    lemma_congruent_mul(r1, cbv as int, r1, gi * bi + hi * bbi);
    lemma_congruent_mul(r2, cc as int, r2, gi * ci + hi * cbi);
    lemma_congruent_add(r0 * ca, r1 * cbv, r0 * (gi * ai + hi * abi), r1 * (gi * bi + hi * bbi));
    lemma_congruent_add(
        r0 * ca + r1 * cbv,
        r2 * cc,
        r0 * (gi * ai + hi * abi) + r1 * (gi * bi + hi * bbi),
        r2 * (gi * ci + hi * cbi),
    );
    let x = combine_one(r, a, b, c);
    let y = combine_one(r, ab, bb, cb);
    lemma_combine_one(r, a, b, c, ai, bi, ci);
    lemma_combine_one(r, ab, bb, cb, abi, bbi, cbi);
    lemma_commitment_single(x, y, g, h);
    lemma_congruent_mul(gi, x as int, gi, r0 * ai + r1 * bi + r2 * ci);
    lemma_congruent_mul(hi, y as int, hi, r0 * abi + r1 * bbi + r2 * cbi);
    lemma_congruent_add(
        gi * x,
        hi * y,
        gi * (r0 * ai + r1 * bi + r2 * ci),
        hi * (r0 * abi + r1 * bbi + r2 * cbi),
    );
    lemma_dist(r0, gi * ai, hi * abi);
    lemma_dist(r1, gi * bi, hi * bbi);
    lemma_dist(r2, gi * ci, hi * cbi);
    lemma_dist(gi, r0 * ai + r1 * bi, r2 * ci);
    lemma_dist(gi, r0 * ai, r1 * bi);
    lemma_dist(hi, r0 * abi + r1 * bbi, r2 * cbi);
    lemma_dist(hi, r0 * abi, r1 * bbi);
    assert(r0 * (gi * ai) == gi * (r0 * ai)) by (nonlinear_arith);
    assert(r1 * (gi * bi) == gi * (r1 * bi)) by (nonlinear_arith);
    assert(r2 * (gi * ci) == gi * (r2 * ci)) by (nonlinear_arith);
    assert(r0 * (hi * abi) == hi * (r0 * abi)) by (nonlinear_arith);
    assert(r1 * (hi * bbi) == hi * (r1 * bbi)) by (nonlinear_arith);
    assert(r2 * (hi * cbi) == hi * (r2 * cbi)) by (nonlinear_arith);
    lemma_congruent_reduced(inner_product(w, v), commitment_single(x, y, g, h));
}

/// A commitment stands for the generator as often as the value says
/// plus the blinding base as often as the blind says, for whatever
/// integers the value and the blind stand for.
pub proof fn lemma_commitment_value(x: nat, r: nat, g: nat, h: nat, xi: int, ri: int)
    requires
        congruent(x as int, xi),
        congruent(r as int, ri),
    ensures
        congruent(commitment_single(x, r, g, h) as int, g * xi + h * ri),
        commitment_single(x, r, g, h) < crate::scalar::modulus(),
{
    lemma_fmul(g, x, g as int, xi);
    lemma_fmul(h, r, h as int, ri);
    lemma_fadd(fmul(g, x), fmul(h, r), g * xi, h * ri);
}

/// What the verifier makes of the commitments to the claims of the first
/// sum is the first commitment of the prover's proof of equality, and
/// the commitment that the sum came to is the second, where `tau_v`
/// stands for `tau` and the last claim of the sum for `tau (az bz - cz)`.
pub proof fn lemma_first_closing(
    g: nat,
    h: nat,
    az: nat,
    bz: nat,
    cz: nat,
    tau: nat,
    tau_v: nat,
    pb: nat,
    cb: nat,
    fin: nat,
    blind: nat,
)
    requires
        congruent(tau_v as int, tau as int),
        congruent(fin as int, tau as int * (az as int * bz as int - cz as int)),
    ensures
        ({
            let claim_post = fmul(fsub(fmul(az, bz), cz), tau);
            &&& fmul(
                fsub(commitment_single(fmul(az, bz), pb, g, h), commitment_single(cz, cb, g, h)),
                tau_v,
            ) == commitment_single(claim_post, fmul(tau, fsub(pb, cb)), g, h)
            &&& commitment_single(fin, blind, g, h) == commitment_single(claim_post, blind, g, h)
        }),
{
    let (gi, hi, ti, pbi, cbi, czi) = (
        g as int,
        h as int,
        tau as int,
        pb as int,
        cb as int,
        cz as int,
    );
    let x = az as int * bz as int;
    let cp = commitment_single(fmul(az, bz), pb, g, h);
    let cc = commitment_single(cz, cb, g, h);
    let claim_post = fmul(fsub(fmul(az, bz), cz), tau);
    let be = fmul(tau, fsub(pb, cb));
    lemma_fmul(az, bz, az as int, bz as int);
    lemma_commitment_value(fmul(az, bz), pb, g, h, x, pbi);
    lemma_commitment_value(cz, cb, g, h, czi, cbi);
    lemma_fsub(cp, cc, gi * x + hi * pbi, gi * czi + hi * cbi);
    lemma_fmul(fsub(cp, cc), tau_v, (gi * x + hi * pbi) - (gi * czi + hi * cbi), ti);
    lemma_fsub(fmul(az, bz), cz, x, czi);
    lemma_fmul(fsub(fmul(az, bz), cz), tau, x - czi, ti);
    lemma_fsub(pb, cb, pbi, cbi);
    lemma_fmul(tau, fsub(pb, cb), ti, pbi - cbi);
    lemma_commitment_value(claim_post, be, g, h, (x - czi) * ti, ti * (pbi - cbi));
    lemma_dist(ti, gi * x + hi * pbi, gi * czi + hi * cbi);
    lemma_dist(ti, gi * x, hi * pbi);
    lemma_dist(ti, gi * czi, hi * cbi);
    lemma_dist(ti, x, czi);
    lemma_dist(ti, pbi, cbi);
    lemma_dist(gi, x * ti, czi * ti);
    lemma_dist(hi, ti * pbi, ti * cbi);
    assert((gi * x) * ti == gi * (x * ti)) by (nonlinear_arith);
    assert((gi * czi) * ti == gi * (czi * ti)) by (nonlinear_arith);
    assert((hi * pbi) * ti == hi * (ti * pbi)) by (nonlinear_arith);
    assert((hi * cbi) * ti == hi * (ti * cbi)) by (nonlinear_arith);
    lemma_congruent_reduced(
        fmul(fsub(cp, cc), tau_v),
        commitment_single(claim_post, be, g, h),
    );
    lemma_comm(ti, x - czi);
    lemma_commitment_value(fin, blind, g, h, (x - czi) * ti, blind as int);
    lemma_commitment_value(claim_post, blind, g, h, (x - czi) * ti, blind as int);
    lemma_congruent_reduced(
        commitment_single(fin, blind, g, h),
        commitment_single(claim_post, blind, g, h),
    );
}

/// What the verifier makes of the opened value, the inputs and the
/// values of the matrices is the first commitment of the prover's last
/// proof of equality, and the commitment that the second sum came to is
/// the second, where the value `zf` of the assignment stands for `(1 -
/// ry0) v + ry0 s`, the weight `w` for the value `af`, and the last
/// claim of the sum for `zf af`.
pub proof fn lemma_second_closing(
    g: nat,
    h: nat,
    ry0: nat,
    v: nat,
    be: nat,
    s: nat,
    w: nat,
    zf: nat,
    af: nat,
    fin: nat,
    blind: nat,
)
    requires
        congruent(zf as int, (1 - ry0) * v + ry0 * s),
        congruent(w as int, af as int),
        congruent(fin as int, zf as int * af as int),
    ensures
        ({
            let comm_z = inner_product(
                seq![fsub(1, ry0), ry0],
                seq![commitment_single(v, be, g, h), commitment_single(s, 0, g, h)],
            );
            let claim_post = fmul(zf, af);
            &&& fmul(comm_z, w) == commitment_single(
                claim_post,
                fmul(af, fmul(fsub(1, ry0), be)),
                g,
                h,
            )
            &&& commitment_single(fin, blind, g, h) == commitment_single(claim_post, blind, g, h)
        }),
{
    let (gi, hi, ri, vi, bei, si, afi, zfi) = (
        g as int,
        h as int,
        ry0 as int,
        v as int,
        be as int,
        s as int,
        af as int,
        zf as int,
    );
    let cy = commitment_single(v, be, g, h);
    let ci = commitment_single(s, 0, g, h);
    let weights = seq![fsub(1, ry0), ry0];
    let pair = seq![cy, ci];
    let comm_z = inner_product(weights, pair);
    let claim_post = fmul(zf, af);
    lemma_fsub(1, ry0, 1, ri);
    lemma_commitment_value(v, be, g, h, vi, bei);
    lemma_commitment_value(s, 0, g, h, si, 0);
    assert(hi * 0 == 0);
    lemma_inner_product(weights, pair);
    lemma_int_dot_pair(weights, pair);
    lemma_congruent_mul(fsub(1, ry0) as int, cy as int, 1 - ri, gi * vi + hi * bei);
    lemma_congruent_mul(ri, ci as int, ri, gi * si);
    lemma_congruent_add(
        (fsub(1, ry0) * cy) as int,
        (ry0 * ci) as int,
        (1 - ri) * (gi * vi + hi * bei),
        ri * (gi * si),
    );
    let cz = (1 - ri) * (gi * vi + hi * bei) + ri * (gi * si);
    lemma_fmul(comm_z, w, cz, afi);
    // the right side
    lemma_fmul(zf, af, (1 - ri) * vi + ri * si, afi);
    lemma_fmul(fsub(1, ry0), be, 1 - ri, bei);
    lemma_fmul(af, fmul(fsub(1, ry0), be), afi, (1 - ri) * bei);
    let z = (1 - ri) * vi + ri * si;
    lemma_commitment_value(
        claim_post,
        fmul(af, fmul(fsub(1, ry0), be)),
        g,
        h,
        z * afi,
        afi * ((1 - ri) * bei),
    );
    lemma_dist(1 - ri, gi * vi, hi * bei);
    lemma_dist(afi, (1 - ri) * (gi * vi) + (1 - ri) * (hi * bei), ri * (gi * si));
    lemma_dist(afi, (1 - ri) * (gi * vi), (1 - ri) * (hi * bei));
    lemma_dist(afi, (1 - ri) * vi, ri * si);
    lemma_dist(gi, ((1 - ri) * vi) * afi, (ri * si) * afi);
    assert(((1 - ri) * (gi * vi)) * afi == gi * (((1 - ri) * vi) * afi)) by (nonlinear_arith);
    assert((ri * (gi * si)) * afi == gi * ((ri * si) * afi)) by (nonlinear_arith);
    assert(((1 - ri) * (hi * bei)) * afi == hi * (afi * ((1 - ri) * bei))) by (nonlinear_arith);
    lemma_congruent_reduced(
        fmul(comm_z, w),
        commitment_single(claim_post, fmul(af, fmul(fsub(1, ry0), be)), g, h),
    );
    lemma_fmul(zf, af, zfi, afi);
    lemma_commitment_value(fin, blind, g, h, zfi * afi, blind as int);
    lemma_commitment_value(claim_post, blind, g, h, zfi * afi, blind as int);
    lemma_congruent_reduced(
        commitment_single(fin, blind, g, h),
        commitment_single(claim_post, blind, g, h),
    );
}

/// The sum of `a (b c - d)` over one place.
pub proof fn lemma_cubic_single(a: Seq<nat>, b: Seq<nat>, c: Seq<nat>, d: Seq<nat>)
    requires
        a.len() == 1,
        b.len() == 1,
        c.len() == 1,
        d.len() == 1,
    ensures
        congruent(
            cubic_sum(a, b, c, d) as int,
            a[0] as int * (b[0] as int * c[0] as int - d[0] as int),
        ),
{
    assert(a.drop_last().len() == 0);
    assert(cubic_sum(a.drop_last(), b.drop_last(), c.drop_last(), d.drop_last()) == 0);
    lemma_fmul(b[0], c[0], b[0] as int, c[0] as int);
    lemma_fsub(fmul(b[0], c[0]), d[0], b[0] as int * c[0] as int, d[0] as int);
    lemma_fmul(
        a[0],
        fsub(fmul(b[0], c[0]), d[0]),
        a[0] as int,
        b[0] as int * c[0] as int - d[0] as int,
    );
    lemma_fadd(
        0,
        fmul(a[0], fsub(fmul(b[0], c[0]), d[0])),
        0,
        a[0] as int * (b[0] as int * c[0] as int - d[0] as int),
    );
}

/// A number that is two at least has a logarithm that is one at least.
pub proof fn lemma_log_positive(n: nat)
    requires
        n >= 2,
    ensures
        floor_log_2(n) >= 1,
{
}

/// The polynomials of the first sum, for a system and its assignment
/// filled up with zeros, at the challenge `tau`.
pub open spec fn phase_one_tables(inst: R1CSInstanceView, z: Seq<nat>, tau: Seq<nat>) -> Tables {
    Tables {
        a: eq_evals(tau),
        b: mat_vec(inst.a, inst.num_cons, z),
        c: mat_vec(inst.b, inst.num_cons, z),
        d: mat_vec(inst.c, inst.num_cons, z),
    }
}

/// For an assignment that meets the constraints the verifier accepts the
/// first part of the honest prover's proof: it takes the challenges of
/// the prover and leaves the transcript as the prover left it after the
/// first proof of equality.
pub proof fn lemma_phase_one_complete(
    gens: &R1CSGens,
    inst: R1CSInstanceView,
    vars: Seq<nat>,
    input: Seq<nat>,
    log: Log,
    tape: Log,
    proof: R1CSProofView,
)
    requires
        instance_wf(inst),
        prover_fits(gens, inst, vars.len(), input.len()),
        satisfies(inst, vars, input),
        ({
            let first = r1cs_phase_one(gens, inst, vars, input, log, tape);
            let t = first.sc.tables;
            let cl = r1cs_claims(
                gens,
                first.sc.log,
                first.sc.tape,
                t.a[0],
                t.b[0],
                t.c[0],
                t.d[0],
                first.sc.blind,
            );
            &&& proof.comm_vars == first.comm_vars
            &&& proof.sc_proof_phase1 == first.sc.proof
            &&& proof.comm_az == cl.pp.x
            &&& proof.comm_bz == cl.pp.y
            &&& proof.comm_cz == cl.kp.commitment
            &&& proof.comm_prod == cl.pp.z
            &&& proof.pok_cz == cl.kp.proof
            &&& proof.proof_prod == cl.pp.proof
            &&& proof.proof_eq_sc_phase1 == cl.eq.proof
        }),
    ensures
        ({
            let first = r1cs_phase_one(gens, inst, vars, input, log, tape);
            let t = first.sc.tables;
            let cl = r1cs_claims(
                gens,
                first.sc.log,
                first.sc.tape,
                t.a[0],
                t.b[0],
                t.c[0],
                t.d[0],
                first.sc.blind,
            );
            let one = r1cs_verify_phase_one(gens, inst.num_cons, input, proof, log);
            let e = eq_evals(first.sc.rs);
            &&& one.ok
            &&& one.rs == first.sc.rs
            &&& one.log == cl.eq.log
            &&& first.sc.rs.len() == floor_log_2(inst.num_cons)
            &&& first.z == padded_assignment(vars, input)
            &&& congruent(t.b[0] as int, int_dot(e, mat_vec(inst.a, inst.num_cons, first.z)))
            &&& congruent(t.c[0] as int, int_dot(e, mat_vec(inst.b, inst.num_cons, first.z)))
            &&& congruent(t.d[0] as int, int_dot(e, mat_vec(inst.c, inst.num_cons, first.z)))
        }),
{
    reveal(r1cs_phase_one);
    reveal(r1cs_claims);
    reveal(r1cs_verify_phase_one);
    let (g, h) = (gens.gens_sc.gens_1.G@[0]@, gens.gens_sc.gens_1.h@);
    let first = r1cs_phase_one(gens, inst, vars, input, log, tape);
    let rounds = floor_log_2(inst.num_cons);
    let z = padded_assignment(vars, input);
    let log1 = crate::r1csproof::r1cs_log_statement(log, input, first.comm_vars);
    let tau = r1cs_tau(log1, inst.num_cons);
    let log2 = crate::transcript::log_challenges(log1, tag("challenge_tau"), rounds);
    let ell = floor_log_2(vars.len());
    let tape1 = crate::transcript::log_challenges(tape, tag("poly_blinds"), two_to(ell / 2));
    let tables = phase_one_tables(inst, z, tau);
    let bases = bases_phase1(gens);
    lemma_log_positive(inst.num_cons);
    lemma_eq_evals_len(tau);
    assert(tables_sized(true, tables, rounds));
    // the constraints are met, so the sum is zero
    lemma_satisfied(inst, vars, input);
    lemma_cubic_sum_zero(tables.a, tables.b, tables.c, tables.d);
    sumcheck_rounds_accepted(bases, true, log2, tape1, 0, 0, rounds, tables);
    sumcheck_final_claim(bases, true, log2, tape1, 0, 0, rounds, tables);
    sumcheck_final_values(bases, true, log2, tape1, 0, 0, rounds, tables);
    let sc = sumcheck_prove(bases, true, log2, tape1, 0, 0, rounds, tables);
    assert(sc == first.sc);
    let fin = final_claim(bases, true, log2, tape1, 0, 0, rounds, tables);
    let t = sc.tables;
    let (tau_claim, az, bz, cz) = (t.a[0], t.b[0], t.c[0], t.d[0]);
    lemma_cubic_single(t.a, t.b, t.c, t.d);
    // the value of the polynomial of the challenge
    lemma_eq_product(sc.rs, tau);
    lemma_eq_eval(sc.rs, tau);
    // the three proofs on the claims
    let az_blind = challenge_scalar(claims_tape(sc.tape, 0), tag("Az_blind"));
    let bz_blind = challenge_scalar(claims_tape(sc.tape, 1), tag("Bz_blind"));
    let cz_blind = challenge_scalar(claims_tape(sc.tape, 2), tag("Cz_blind"));
    let prod_blind = challenge_scalar(claims_tape(sc.tape, 3), tag("prod_Az_Bz_blind"));
    knowledge_proof_complete(g, h, sc.log, claims_tape(sc.tape, 4), cz, cz_blind);
    let kp = crate::nizk::knowledge_prove(g, h, sc.log, claims_tape(sc.tape, 4), cz, cz_blind);
    product_proof_complete(g, h, kp.log, kp.tape, az, az_blind, bz, bz_blind, prod_blind);
    let pp = crate::nizk::product_prove(
        g,
        h,
        kp.log,
        kp.tape,
        az,
        az_blind,
        bz,
        bz_blind,
        fmul(az, bz),
        prod_blind,
    );
    lemma_first_closing(
        g,
        h,
        az,
        bz,
        cz,
        tau_claim,
        eq_eval(sc.rs, tau),
        prod_blind,
        cz_blind,
        fin,
        sc.blind,
    );
    let claim_post = fmul(fsub(fmul(az, bz), cz), tau_claim);
    equality_proof_complete(
        g,
        h,
        crate::r1csproof::claims_log(pp.log, pp.x, pp.y, kp.commitment, pp.z),
        pp.tape,
        claim_post,
        fmul(tau_claim, fsub(prod_blind, cz_blind)),
        sc.blind,
    );
}

/// Whether the generators of the sums for single values are those of the
/// opening, and the opening has one blinding base; so it is with
/// generators made by `R1CSGens::new`.
pub open spec fn gens_shared(gens: &R1CSGens) -> bool {
    &&& gens.gens_sc.gens_1.G@[0]@ == gens.gens_pc.gens.gens_1.G@[0]@
    &&& gens.gens_sc.gens_1.h@ == gens.gens_pc.gens.gens_1.h@
    &&& gens.gens_pc.gens.gens_n.h@ == gens.gens_pc.gens.gens_1.h@
}

/// The polynomials of the second sum: the assignment, and the
/// combination of the three matrices at the point of the first sum.
pub open spec fn phase_two_tables(
    inst: R1CSInstanceView,
    z: Seq<nat>,
    rx: Seq<nat>,
    r: (nat, nat, nat),
) -> Tables {
    let e = eq_evals(rx);
    Tables {
        a: z,
        b: combine(
            r,
            vec_mat(inst.a, z.len(), e),
            vec_mat(inst.b, z.len(), e),
            vec_mat(inst.c, z.len(), e),
        ),
        c: Seq::empty(),
        d: Seq::empty(),
    }
}

/// The three claims of the first sum, combined, are the sum over all
/// columns of the assignment times the combination of the matrices at
/// the point of the first sum.
pub proof fn lemma_phase_two_claim(
    inst: R1CSInstanceView,
    z: Seq<nat>,
    rx: Seq<nat>,
    r: (nat, nat, nat),
    claims: (nat, nat, nat),
)
    requires
        instance_wf(inst),
        z.len() == 2 * inst.num_vars,
        two_to(rx.len()) == inst.num_cons,
        congruent(
            claims.0 as int,
            int_dot(eq_evals(rx), mat_vec(inst.a, inst.num_cons, z)),
        ),
        congruent(
            claims.1 as int,
            int_dot(eq_evals(rx), mat_vec(inst.b, inst.num_cons, z)),
        ),
        congruent(
            claims.2 as int,
            int_dot(eq_evals(rx), mat_vec(inst.c, inst.num_cons, z)),
        ),
    ensures
        congruent(
            combine_one(r, claims.0, claims.1, claims.2) as int,
            table_sum(false, phase_two_tables(inst, z, rx, r)) as int,
        ),
{
    let e = eq_evals(rx);
    lemma_eq_evals_len(rx);
    let cols = z.len();
    let t = phase_two_tables(inst, z, rx, r);
    let (va, vb, vc) = (vec_mat(inst.a, cols, e), vec_mat(inst.b, cols, e), vec_mat(inst.c, cols, e));
    lemma_entries_within(inst.a, inst.num_cons, inst.num_vars + 1 + inst.num_inputs, inst.num_cons, cols);
    lemma_entries_within(inst.b, inst.num_cons, inst.num_vars + 1 + inst.num_inputs, inst.num_cons, cols);
    lemma_entries_within(inst.c, inst.num_cons, inst.num_vars + 1 + inst.num_inputs, inst.num_cons, cols);
    lemma_mat_vec_dot(inst.a, inst.num_cons, z, e);
    lemma_mat_vec_dot(inst.b, inst.num_cons, z, e);
    lemma_mat_vec_dot(inst.c, inst.num_cons, z, e);
    lemma_vec_mat_dot(inst.a, cols, e, z);
    lemma_vec_mat_dot(inst.b, cols, e, z);
    lemma_vec_mat_dot(inst.c, cols, e, z);
    let (ia, ib, ic) = (int_mat(inst.a, e, z), int_mat(inst.b, e, z), int_mat(inst.c, e, z));
    lemma_combine_one(r, claims.0, claims.1, claims.2, ia, ib, ic);
    lemma_inner_product(z, t.b);
    lemma_combine_dot(r, va, vb, vc, z);
    lemma_congruent_mul(r.0 as int, int_dot(z, va), r.0 as int, ia);
    lemma_congruent_mul(r.1 as int, int_dot(z, vb), r.1 as int, ib);
    lemma_congruent_mul(r.2 as int, int_dot(z, vc), r.2 as int, ic);
    lemma_congruent_add(r.0 * int_dot(z, va), r.1 * int_dot(z, vb), r.0 * ia, r.1 * ib);
    lemma_congruent_add(
        r.0 * int_dot(z, va) + r.1 * int_dot(z, vb),
        r.2 * int_dot(z, vc),
        r.0 * ia + r.1 * ib,
        r.2 * ic,
    );
}

/// The value at the point of the second sum of the combination of the
/// three matrices at the point of the first sum is the combination of
/// the values of the three matrices at both points.
pub proof fn lemma_phase_two_weight(
    inst: R1CSInstanceView,
    cols: nat,
    rx: Seq<nat>,
    ry: Seq<nat>,
    r: (nat, nat, nat),
    af: nat,
)
    requires
        instance_wf(inst),
        cols == 2 * inst.num_vars,
        two_to(rx.len()) == inst.num_cons,
        two_to(ry.len()) == cols,
        ({
            let e = eq_evals(rx);
            congruent(
                af as int,
                int_dot(
                    eq_evals(ry),
                    combine(
                        r,
                        vec_mat(inst.a, cols, e),
                        vec_mat(inst.b, cols, e),
                        vec_mat(inst.c, cols, e),
                    ),
                ),
            )
        }),
    ensures
        congruent(
            combine_one(
                r,
                mat_eval(inst.a, eq_evals(rx), eq_evals(ry)),
                mat_eval(inst.b, eq_evals(rx), eq_evals(ry)),
                mat_eval(inst.c, eq_evals(rx), eq_evals(ry)),
            ) as int,
            af as int,
        ),
{
    let (ex, ey) = (eq_evals(rx), eq_evals(ry));
    lemma_eq_evals_len(rx);
    lemma_eq_evals_len(ry);
    let (va, vb, vc) = (vec_mat(inst.a, cols, ex), vec_mat(inst.b, cols, ex), vec_mat(inst.c, cols, ex));
    lemma_entries_within(inst.a, inst.num_cons, inst.num_vars + 1 + inst.num_inputs, inst.num_cons, cols);
    lemma_entries_within(inst.b, inst.num_cons, inst.num_vars + 1 + inst.num_inputs, inst.num_cons, cols);
    lemma_entries_within(inst.c, inst.num_cons, inst.num_vars + 1 + inst.num_inputs, inst.num_cons, cols);
    lemma_vec_mat_dot(inst.a, cols, ex, ey);
    lemma_vec_mat_dot(inst.b, cols, ex, ey);
    lemma_vec_mat_dot(inst.c, cols, ex, ey);
    lemma_mat_eval(inst.a, ex, ey);
    lemma_mat_eval(inst.b, ex, ey);
    lemma_mat_eval(inst.c, ex, ey);
    let (ia, ib, ic) = (int_mat(inst.a, ex, ey), int_mat(inst.b, ex, ey), int_mat(inst.c, ex, ey));
    lemma_combine_one(
        r,
        mat_eval(inst.a, ex, ey),
        mat_eval(inst.b, ex, ey),
        mat_eval(inst.c, ex, ey),
        ia,
        ib,
        ic,
    );
    lemma_combine_dot(r, va, vb, vc, ey);
    lemma_congruent_mul(r.0 as int, int_dot(ey, va), r.0 as int, ia);
    lemma_congruent_mul(r.1 as int, int_dot(ey, vb), r.1 as int, ib);
    lemma_congruent_mul(r.2 as int, int_dot(ey, vc), r.2 as int, ic);
    lemma_congruent_add(r.0 * int_dot(ey, va), r.1 * int_dot(ey, vb), r.0 * ia, r.1 * ib);
    lemma_congruent_add(
        r.0 * int_dot(ey, va) + r.1 * int_dot(ey, vb),
        r.2 * int_dot(ey, vc),
        r.0 * ia + r.1 * ib,
        r.2 * ic,
    );
}

/// The value of the assignment, filled up with zeros, at the point of
/// the second sum: one less the first variable times the value of the
/// variables, plus the first variable times the value of the inputs.
pub proof fn lemma_assignment_value(vars: Seq<nat>, input: Seq<nat>, ry: Seq<nat>, zf: nat)
    requires
        ry.len() > 0,
        vars.len() == two_to((ry.len() - 1) as nat),
        input.len() < vars.len(),
        congruent(zf as int, int_dot(eq_evals(ry), padded_assignment(vars, input))),
    ensures
        congruent(
            zf as int,
            (1 - ry[0]) * mle_eval(vars, ry.skip(1)) + ry[0] * sparse_eval(
                input_entries(input),
                ry.skip(1),
            ),
        ),
{
    let z = padded_assignment(vars, input);
    let half = vars.len() as int;
    let point = ry.skip(1);
    let rest = eq_evals(point);
    lemma_eq_evals_len(point);
    assert(two_to(ry.len()) == 2 * half);
    lemma_joined_value(ry, z);
    assert(z.take(half) =~= vars);
    let tail = z.skip(half);
    assert(holds_inputs(tail, input));
    lemma_sparse_input(input, point, tail);
    lemma_inner_product(vars, rest);
    lemma_int_dot_symmetric(vars, rest);
    let (v, s) = (mle_eval(vars, point), sparse_eval(input_entries(input), point));
    let r0 = ry[0] as int;
    lemma_congruent_mul(1 - r0, v as int, 1 - r0, int_dot(rest, vars));
    lemma_congruent_mul(r0, s as int, r0, int_dot(rest, tail));
    lemma_congruent_add((1 - r0) * v, r0 * s, (1 - r0) * int_dot(rest, vars), r0 * int_dot(rest, tail));
}

/// The inner product of two vectors of one entry in the field.
pub proof fn lemma_inner_product_single(a: Seq<nat>, b: Seq<nat>)
    requires
        a.len() == 1,
        b.len() == 1,
    ensures
        congruent(inner_product(a, b) as int, a[0] as int * b[0] as int),
{
    lemma_inner_product(a, b);
    lemma_int_dot_single(a, b);
}

/// The verifier accepts the second part of the honest prover's proof,
/// where the claims that the first part came to are the values of the
/// three products at the point of the first sum and the opening did not
/// fail: it takes the challenges of the prover and leaves the transcript
/// as the prover left it.
pub proof fn lemma_phase_two_complete(
    gens: &R1CSGens,
    inst: R1CSInstanceView,
    vars: Seq<nat>,
    input: Seq<nat>,
    blinds_vars: Seq<nat>,
    rx: Seq<nat>,
    claims: (nat, nat, nat),
    blinds: (nat, nat, nat),
    log: Log,
    tape: Log,
    proof: R1CSProofView,
)
    requires
        instance_wf(inst),
        prover_fits(gens, inst, vars.len(), input.len()),
        gens_shared(gens),
        floor_log_2(inst.num_vars) - floor_log_2(inst.num_vars) / 2 < 32,
        blinds_vars.len() == two_to(floor_log_2(inst.num_vars) / 2),
        rx.len() == floor_log_2(inst.num_cons),
        ({
            let z = padded_assignment(vars, input);
            let e = eq_evals(rx);
            let (g, h) = (gens.gens_sc.gens_1.G@[0]@, gens.gens_sc.gens_1.h@);
            let second = r1cs_phase_two(gens, inst, z, rx, claims, blinds, log, tape);
            let op = r1cs_opening(
                gens,
                vars,
                blinds_vars,
                second.log,
                second.tape,
                second.rs,
                second.tables.a[0],
                second.tables.b[0],
                second.blind,
            );
            &&& congruent(claims.0 as int, int_dot(e, mat_vec(inst.a, inst.num_cons, z)))
            &&& congruent(claims.1 as int, int_dot(e, mat_vec(inst.b, inst.num_cons, z)))
            &&& congruent(claims.2 as int, int_dot(e, mat_vec(inst.c, inst.num_cons, z)))
            &&& proof.comm_az == commitment_single(claims.0, blinds.0, g, h)
            &&& proof.comm_bz == commitment_single(claims.1, blinds.1, g, h)
            &&& proof.comm_cz == commitment_single(claims.2, blinds.2, g, h)
            &&& proof.comm_vars == poly_commitment(
                vars,
                blinds_vars,
                gens.gens_pc.gens.gens_n.bases(),
                gens.gens_pc.gens.gens_n.h@,
            )
            &&& !op.pe.failed
            &&& proof.sc_proof_phase2 == second.proof
            &&& proof.comm_vars_at_ry == op.pe.cy
            &&& proof.proof_eval_vars_at_ry == op.pe.proof
            &&& proof.proof_eq_sc_phase2 == op.eq.proof
        }),
    ensures
        ({
            let z = padded_assignment(vars, input);
            let second = r1cs_phase_two(gens, inst, z, rx, claims, blinds, log, tape);
            let op = r1cs_opening(
                gens,
                vars,
                blinds_vars,
                second.log,
                second.tape,
                second.rs,
                second.tables.a[0],
                second.tables.b[0],
                second.blind,
            );
            let evals = (
                mat_eval(inst.a, eq_evals(rx), eq_evals(second.rs)),
                mat_eval(inst.b, eq_evals(rx), eq_evals(second.rs)),
                mat_eval(inst.c, eq_evals(rx), eq_evals(second.rs)),
            );
            let two = r1cs_verify_phase_two(gens, inst.num_vars, input, evals, proof, log);
            &&& two.ok
            &&& two.rs == second.rs
            &&& two.log == op.eq.log
        }),
{
    reveal(r1cs_phase_two);
    reveal(r1cs_opening);
    reveal(r1cs_verify_phase_two);
    let z = padded_assignment(vars, input);
    let (g, h) = (gens.gens_sc.gens_1.G@[0]@, gens.gens_sc.gens_1.h@);
    let r = r1cs_combiners(log);
    let rounds = floor_log_2(z.len());
    let ell = floor_log_2(inst.num_vars);
    lemma_double_power(inst.num_vars);
    lemma_floor_log_2_two_to(floor_log_2(inst.num_cons));
    let tables = phase_two_tables(inst, z, rx, r);
    let bases = bases_phase2(gens);
    let claim = combine_one(r, claims.0, claims.1, claims.2);
    let blind = combine_one(r, blinds.0, blinds.1, blinds.2);
    let log1 = r1cs_log_combiners(log);
    assert(tables_sized(false, tables, rounds));
    // the combined claim and its commitment
    lemma_combined_commitment(
        r,
        g,
        h,
        claims.0,
        blinds.0,
        claims.1,
        blinds.1,
        claims.2,
        blinds.2,
    );
    lemma_phase_two_claim(inst, z, rx, r, claims);
    sumcheck_rounds_accepted(bases, false, log1, tape, claim, blind, rounds, tables);
    sumcheck_final_claim(bases, false, log1, tape, claim, blind, rounds, tables);
    sumcheck_final_values(bases, false, log1, tape, claim, blind, rounds, tables);
    let sc = sumcheck_prove(bases, false, log1, tape, claim, blind, rounds, tables);
    let fin = final_claim(bases, false, log1, tape, claim, blind, rounds, tables);
    let ry = sc.rs;
    let (zf, af) = (sc.tables.a[0], sc.tables.b[0]);
    lemma_inner_product_single(sc.tables.a, sc.tables.b);
    // the opening
    let point = ry.skip(1);
    let blind_eval = challenge_scalar(sc.tape, tag("blind_eval"));
    poly_eval_proof_complete(
        bases_opening(gens),
        sc.log,
        log_challenge(sc.tape, tag("blind_eval")),
        vars,
        blinds_vars,
        point,
        blind_eval,
    );
    // the last proof of equality
    let evals = (
        mat_eval(inst.a, eq_evals(rx), eq_evals(ry)),
        mat_eval(inst.b, eq_evals(rx), eq_evals(ry)),
        mat_eval(inst.c, eq_evals(rx), eq_evals(ry)),
    );
    lemma_phase_two_weight(inst, z.len(), rx, ry, r, af);
    lemma_assignment_value(vars, input, ry, zf);
    let v = mle_eval(vars, point);
    let s = sparse_eval(input_entries(input), point);
    lemma_second_closing(
        g,
        h,
        ry[0],
        v,
        blind_eval,
        s,
        combine_one(r, evals.0, evals.1, evals.2),
        zf,
        af,
        fin,
        sc.blind,
    );
    let pe = crate::dense_mlpoly::poly_eval_prove(
        bases_opening(gens),
        sc.log,
        log_challenge(sc.tape, tag("blind_eval")),
        vars,
        blinds_vars,
        point,
        v,
        blind_eval,
    );
    equality_proof_complete(
        g,
        h,
        pe.log,
        pe.tape,
        fmul(zf, af),
        fmul(af, fmul(fsub(1, ry[0]), blind_eval)),
        sc.blind,
    );
}

/// For every system of constraints and every assignment that meets it,
/// the proof that the honest prover makes is accepted by the verifier,
/// on a transcript with the same past, for the values of the three
/// matrices at the points of the two sums, and the verifier hands back
/// the points that the prover handed back and leaves the transcript as
/// the prover left it. This holds where system, assignment and
/// generators fit together, the generators of the sums for single values
/// are those of the opening, which has one blinding base and fewer than
/// two to the power 32 generators, and the prover did not fail, which is
/// to say that no challenge of a halving in the opening was zero.
pub proof fn r1cs_proof_complete(
    gens: &R1CSGens,
    inst: R1CSInstanceView,
    vars: Seq<nat>,
    input: Seq<nat>,
    log: Log,
    tape: Log,
)
    requires
        instance_wf(inst),
        prover_fits(gens, inst, vars.len(), input.len()),
        satisfies(inst, vars, input),
        gens_shared(gens),
        floor_log_2(inst.num_vars) - floor_log_2(inst.num_vars) / 2 < 32,
        !r1cs_prove(gens, inst, vars, input, log, tape).failed,
    ensures
        ({
            let p = r1cs_prove(gens, inst, vars, input, log, tape);
            let evals = (
                mat_eval(inst.a, eq_evals(p.rx), eq_evals(p.ry)),
                mat_eval(inst.b, eq_evals(p.rx), eq_evals(p.ry)),
                mat_eval(inst.c, eq_evals(p.rx), eq_evals(p.ry)),
            );
            let v = r1cs_verify(gens, inst.num_vars, inst.num_cons, input, evals, p.proof, log);
            &&& verifier_fits(gens, inst.num_vars, inst.num_cons, input.len())
            &&& v.ok
            &&& v.rx == p.rx
            &&& v.ry == p.ry
            &&& v.log == p.log
        }),
{
    let p = r1cs_prove(gens, inst, vars, input, log, tape);
    let first = r1cs_phase_one(gens, inst, vars, input, log, tape);
    let t = first.sc.tables;
    let cl = r1cs_claims(gens, first.sc.log, first.sc.tape, t.a[0], t.b[0], t.c[0], t.d[0], first.sc.blind);
    lemma_phase_one_complete(gens, inst, vars, input, log, tape, p.proof);
    assert(first.blinds_vars.len() == two_to(floor_log_2(inst.num_vars) / 2) && first.comm_vars
        == poly_commitment(
        vars,
        first.blinds_vars,
        gens.gens_pc.gens.gens_n.bases(),
        gens.gens_pc.gens.gens_n.h@,
    )) by {
        reveal(r1cs_phase_one);
    }
    let (g, h) = (gens.gens_sc.gens_1.G@[0]@, gens.gens_sc.gens_1.h@);
    assert(cl.pp.x == commitment_single(t.b[0], cl.az_blind, g, h) && cl.pp.y == commitment_single(
        t.c[0],
        cl.bz_blind,
        g,
        h,
    ) && cl.kp.commitment == commitment_single(t.d[0], cl.cz_blind, g, h)) by {
        reveal(r1cs_claims);
    }
    lemma_phase_two_complete(
        gens,
        inst,
        vars,
        input,
        first.blinds_vars,
        first.sc.rs,
        (t.b[0], t.c[0], t.d[0]),
        (cl.az_blind, cl.bz_blind, cl.cz_blind),
        cl.eq.log,
        cl.eq.tape,
        p.proof,
    );
}

} // verus!
