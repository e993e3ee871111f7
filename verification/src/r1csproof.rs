use vstd::prelude::*;
use crate::commitments::{commitment_single, Commitments, MultiCommitGens};
use crate::dense_mlpoly::{
    eq_eval, eq_evals, lemma_eq_evals_len, lemma_factored_sizes, log_append_poly_commitment,
    mle_eval, poly_commitment, poly_eval_prove, poly_eval_verify, DensePolynomial, EqPolynomial,
    PolyCommitment, PolyCommitmentBlinds, PolyCommitmentGens, PolyEvalProof,
};
use crate::errors::ProofVerifyError;
use crate::group::Point;
use crate::math::{
    exact_log_2, floor_log_2, is_power_of_two, lemma_floor_log_2_two_to, log_2, two_to,
};
use crate::nizk::dot_product::{dot_product_bases, DotProductBases};
use crate::nizk::dot_product_log::{DotProductLogProved, DotProductProofLog, DotProductProofLogView};
use crate::nizk::{
    equality_accepts, equality_log, equality_prove, knowledge_accepts, knowledge_log,
    knowledge_prove, product_accepts, product_log, product_prove, EqualityProof,
    EqualityProofView, EqualityProved, KnowledgeProof, KnowledgeProofView, KnowledgeProved,
    ProductProof, ProductProofView, ProductProved,
};
use crate::r1csinstance::{mat_vec, vec_mat, R1CSInstance, R1CSInstanceView};
use crate::random::RandomTape;
use crate::scalar::{fadd, fmul, fsub, inner_product, Scalar};
use crate::sparse_mlpoly::{sparse_eval, SparsePolyEntry, SparsePolynomial};
use crate::sumcheck::{
    sumcheck_prove, sumcheck_verify, SumcheckProved, Tables, ZKSumcheckInstanceProof,
    ZKSumcheckView,
};
use crate::transcript::{
    challenge_scalar, challenge_vector, log_append_point, log_append_protocol_name,
    log_append_scalars, log_challenge, log_challenges, marker, tag, AppendToTranscript, Log,
    ProofTranscript,
};
use merlin::Transcript;

verus! {

/// A proof that a system of constraints has an assignment that meets it,
/// for given inputs, which shows nothing else of the assignment.
#[derive(Debug)]
pub struct R1CSProof {
    comm_vars: PolyCommitment,
    sc_proof_phase1: ZKSumcheckInstanceProof,
    claims_phase2: (Point, Point, Point, Point),
    pok_claims_phase2: (KnowledgeProof, ProductProof),
    proof_eq_sc_phase1: EqualityProof,
    sc_proof_phase2: ZKSumcheckInstanceProof,
    comm_vars_at_ry: Point,
    proof_eval_vars_at_ry: PolyEvalProof,
    proof_eq_sc_phase2: EqualityProof,
}

/// What a proof for a system of constraints holds.
pub struct R1CSProofView {
    pub comm_vars: Seq<nat>,
    pub sc_proof_phase1: ZKSumcheckView,
    pub comm_az: nat,
    pub comm_bz: nat,
    pub comm_cz: nat,
    pub comm_prod: nat,
    pub pok_cz: KnowledgeProofView,
    pub proof_prod: ProductProofView,
    pub proof_eq_sc_phase1: EqualityProofView,
    pub sc_proof_phase2: ZKSumcheckView,
    pub comm_vars_at_ry: nat,
    pub proof_eval_vars_at_ry: DotProductProofLogView,
    pub proof_eq_sc_phase2: EqualityProofView,
}

impl View for R1CSProof {
    type V = R1CSProofView;

    closed spec fn view(&self) -> R1CSProofView {
        R1CSProofView {
            comm_vars: self.comm_vars@,
            sc_proof_phase1: self.sc_proof_phase1@,
            comm_az: self.claims_phase2.0@,
            comm_bz: self.claims_phase2.1@,
            comm_cz: self.claims_phase2.2@,
            comm_prod: self.claims_phase2.3@,
            pok_cz: self.pok_claims_phase2.0@,
            proof_prod: self.pok_claims_phase2.1@,
            proof_eq_sc_phase1: self.proof_eq_sc_phase1@,
            sc_proof_phase2: self.sc_proof_phase2@,
            comm_vars_at_ry: self.comm_vars_at_ry@,
            proof_eval_vars_at_ry: self.proof_eval_vars_at_ry@,
            proof_eq_sc_phase2: self.proof_eq_sc_phase2@,
        }
    }
}

/// The generators of the two sums of a proof: for single values, and for
/// the polynomials of the rounds, of three and of four coefficients.
pub struct R1CSSumcheckGens {
    pub gens_1: MultiCommitGens,
    pub gens_3: MultiCommitGens,
    pub gens_4: MultiCommitGens,
}

impl R1CSSumcheckGens {
    /// The generators for single values as given, and those for three
    /// and for four values drawn from the label.
    pub fn new(label: &'static [u8], gens_1_ref: &MultiCommitGens) -> (r: Self)
        ensures
            r.gens_1.n == gens_1_ref.n,
            r.gens_1.G@ == gens_1_ref.G@,
            r.gens_1.h == gens_1_ref.h,
            r.gens_3.drawn(3, label@),
            r.gens_4.drawn(4, label@),
    {
        let gens_1 = gens_1_ref.clone();
        let gens_3 = MultiCommitGens::new(3, label);
        let gens_4 = MultiCommitGens::new(4, label);
        R1CSSumcheckGens { gens_1, gens_3, gens_4 }
    }
}

/// All generators of a proof: those of the two sums and those of the
/// commitment to the assignment.
pub struct R1CSGens {
    pub gens_sc: R1CSSumcheckGens,
    pub gens_pc: PolyCommitmentGens,
}

/// Whether generators are those for systems of `num_vars` variables, a
/// power of two.
pub open spec fn gens_fit(gens: &R1CSGens, num_vars: nat) -> bool {
    let ell = floor_log_2(num_vars);
    &&& DotProductProofLog::gens_fit(&gens.gens_pc.gens, two_to((ell - ell / 2) as nat))
    &&& ZKSumcheckInstanceProof::gens_fit(&gens.gens_sc.gens_1, &gens.gens_sc.gens_3, 3)
    &&& ZKSumcheckInstanceProof::gens_fit(&gens.gens_sc.gens_1, &gens.gens_sc.gens_4, 4)
}

impl R1CSGens {
    /// The generators for systems of `num_vars` variables, all drawn from
    /// the label; those of the sums for single values are those of the
    /// commitment to the assignment.
    pub fn new(label: &'static [u8], _num_cons: usize, num_vars: usize) -> (r: Self)
        ensures
            is_power_of_two(num_vars as nat) ==> gens_fit(&r, num_vars as nat),
            exists|k: nat|
                crate::math::is_log_2(num_vars as nat, k) && r.gens_pc.gens.drawn(
                    two_to((k - k / 2) as nat),
                    label@,
                ),
            r.gens_sc.gens_1.n == r.gens_pc.gens.gens_1.n,
            r.gens_sc.gens_1.G@ == r.gens_pc.gens.gens_1.G@,
            r.gens_sc.gens_1.h == r.gens_pc.gens.gens_1.h,
            r.gens_sc.gens_3.drawn(3, label@),
            r.gens_sc.gens_4.drawn(4, label@),
    {
        let num_poly_vars = log_2(num_vars);
        proof {
            if is_power_of_two(num_vars as nat) {
                lemma_floor_log_2_two_to(floor_log_2(num_vars as nat));
                crate::math::lemma_log_2_unique(
                    num_vars as nat,
                    num_poly_vars as nat,
                    floor_log_2(num_vars as nat),
                );
            }
        }
        let gens_pc = PolyCommitmentGens::new(num_poly_vars, label);
        let gens_sc = R1CSSumcheckGens::new(label, &gens_pc.gens.gens_1);
        assert(gens_pc.gens.drawn(
            two_to((num_poly_vars - num_poly_vars / 2) as nat),
            label@,
        ));
        R1CSGens { gens_sc, gens_pc }
    }
}

/// The generators with which the first sum is proved.
pub open spec fn bases_phase1(gens: &R1CSGens) -> DotProductBases {
    dot_product_bases(&gens.gens_sc.gens_1, &gens.gens_sc.gens_4)
}

/// The generators with which the second sum is proved.
pub open spec fn bases_phase2(gens: &R1CSGens) -> DotProductBases {
    dot_product_bases(&gens.gens_sc.gens_1, &gens.gens_sc.gens_3)
}

/// The generators with which the assignment is committed to and opened.
pub open spec fn bases_opening(gens: &R1CSGens) -> DotProductBases {
    dot_product_bases(&gens.gens_pc.gens.gens_1, &gens.gens_pc.gens.gens_n)
}

/// The vector of which the constraints are asked, filled up with zeros to
/// twice the number of variables: the variables, a one, the inputs.
pub open spec fn padded_assignment(vars: Seq<nat>, input: Seq<nat>) -> Seq<nat> {
    vars.push(1) + input + Seq::new((vars.len() - input.len() - 1) as nat, |i: int| 0nat)
}

/// The transcript once the statement of a proof is absorbed: the name of
/// the protocol, the inputs and the commitment to the variables.
pub open spec fn r1cs_log_statement(log: Log, input: Seq<nat>, comm_vars: Seq<nat>) -> Log {
    log_append_poly_commitment(
        log_append_scalars(log_append_protocol_name(log, tag("R1CS proof")), tag("input"), input),
        tag("poly_commitment"),
        comm_vars,
    )
}

/// The challenge at which the constraints are batched.
pub open spec fn r1cs_tau(log: Log, num_cons: nat) -> Seq<nat> {
    challenge_vector(log, tag("challenge_tau"), floor_log_2(num_cons))
}

/// What the prover has after the first sum.
pub struct PhaseOne {
    pub comm_vars: Seq<nat>,
    pub blinds_vars: Seq<nat>,
    pub z: Seq<nat>,
    pub sc: SumcheckProved,
}

/// The first part of what the honest prover does: it commits to the
/// variables and proves that, batched at the challenge, the constraints
/// add up to zero over all rows.
#[verifier::opaque]
pub open spec fn r1cs_phase_one(
    gens: &R1CSGens,
    inst: R1CSInstanceView,
    vars: Seq<nat>,
    input: Seq<nat>,
    log: Log,
    tape: Log,
) -> PhaseOne {
    let ell = floor_log_2(vars.len());
    let blinds_vars = challenge_vector(tape, tag("poly_blinds"), two_to(ell / 2));
    let tape1 = log_challenges(tape, tag("poly_blinds"), two_to(ell / 2));
    let comm_vars = poly_commitment(
        vars,
        blinds_vars,
        gens.gens_pc.gens.gens_n.bases(),
        gens.gens_pc.gens.gens_n.h@,
    );
    let log1 = r1cs_log_statement(log, input, comm_vars);
    let z = padded_assignment(vars, input);
    let tau = r1cs_tau(log1, inst.num_cons);
    let log2 = log_challenges(log1, tag("challenge_tau"), floor_log_2(inst.num_cons));
    let tables = Tables {
        a: eq_evals(tau),
        b: mat_vec(inst.a, inst.num_cons, z),
        c: mat_vec(inst.b, inst.num_cons, z),
        d: mat_vec(inst.c, inst.num_cons, z),
    };
    PhaseOne {
        comm_vars,
        blinds_vars,
        z,
        sc: sumcheck_prove(
            bases_phase1(gens),
            true,
            log2,
            tape1,
            0,
            0,
            floor_log_2(inst.num_cons),
            tables,
        ),
    }
}

/// What the prover has after it has committed to the three products at
/// the point of the first sum.
pub struct Claims {
    pub az_blind: nat,
    pub bz_blind: nat,
    pub cz_blind: nat,
    pub kp: KnowledgeProved,
    pub pp: ProductProved,
    pub eq: EqualityProved,
}

/// The tape after the four blinds of the claims are taken.
pub open spec fn claims_tape(tape: Log, k: nat) -> Log
    decreases k,
{
    if k == 0 {
        tape
    } else if k == 1 {
        log_challenge(claims_tape(tape, 0), tag("Az_blind"))
    } else if k == 2 {
        log_challenge(claims_tape(tape, 1), tag("Bz_blind"))
    } else if k == 3 {
        log_challenge(claims_tape(tape, 2), tag("Cz_blind"))
    } else {
        log_challenge(claims_tape(tape, 3), tag("prod_Az_Bz_blind"))
    }
}

/// The transcript once the four commitments to the claims are absorbed.
pub open spec fn claims_log(log: Log, az: nat, bz: nat, cz: nat, prod: nat) -> Log {
    let log1 = log_append_point(log, tag("comm_Az_claim"), az);
    let log2 = log_append_point(log1, tag("comm_Bz_claim"), bz);
    let log3 = log_append_point(log2, tag("comm_Cz_claim"), cz);
    log_append_point(log3, tag("comm_prod_Az_Bz_claims"), prod)
}

/// The second part of what the honest prover does: it commits to the
/// values of the three products at the point of the first sum, proves
/// that it knows the third and that the fourth commitment holds the
/// product of the first two, and that what the first sum came to is what
/// these make.
#[verifier::opaque]
pub open spec fn r1cs_claims(
    gens: &R1CSGens,
    log: Log,
    tape: Log,
    tau_claim: nat,
    az: nat,
    bz: nat,
    cz: nat,
    blind: nat,
) -> Claims {
    let (g, h) = (gens.gens_sc.gens_1.G@[0]@, gens.gens_sc.gens_1.h@);
    let az_blind = challenge_scalar(claims_tape(tape, 0), tag("Az_blind"));
    let bz_blind = challenge_scalar(claims_tape(tape, 1), tag("Bz_blind"));
    let cz_blind = challenge_scalar(claims_tape(tape, 2), tag("Cz_blind"));
    let prod_blind = challenge_scalar(claims_tape(tape, 3), tag("prod_Az_Bz_blind"));
    let kp = knowledge_prove(g, h, log, claims_tape(tape, 4), cz, cz_blind);
    let pp = product_prove(
        g,
        h,
        kp.log,
        kp.tape,
        az,
        az_blind,
        bz,
        bz_blind,
        fmul(az, bz),
        prod_blind,
    );
    let log1 = claims_log(pp.log, pp.x, pp.y, kp.commitment, pp.z);
    let claim_post = fmul(fsub(fmul(az, bz), cz), tau_claim);
    let eq = equality_prove(
        g,
        h,
        log1,
        pp.tape,
        claim_post,
        fmul(tau_claim, fsub(prod_blind, cz_blind)),
        claim_post,
        blind,
    );
    Claims { az_blind, bz_blind, cz_blind, kp, pp, eq }
}

/// The three challenges with which the claims are combined into one.
pub open spec fn r1cs_combiners(log: Log) -> (nat, nat, nat) {
    let log1 = log_challenge(log, tag("challenege_Az"));
    let log2 = log_challenge(log1, tag("challenege_Bz"));
    (
        challenge_scalar(log, tag("challenege_Az")),
        challenge_scalar(log1, tag("challenege_Bz")),
        challenge_scalar(log2, tag("challenege_Cz")),
    )
}

/// The transcript once the three challenges are taken.
pub open spec fn r1cs_log_combiners(log: Log) -> Log {
    log_challenge(
        log_challenge(log_challenge(log, tag("challenege_Az")), tag("challenege_Bz")),
        tag("challenege_Cz"),
    )
}

/// In each place the three entries combined with the three challenges.
pub open spec fn combine(r: (nat, nat, nat), a: Seq<nat>, b: Seq<nat>, c: Seq<nat>) -> Seq<nat> {
    Seq::new(a.len(), |i: int| combine_one(r, a[i], b[i], c[i]))
}

/// Three values combined with the three challenges.
pub open spec fn combine_one(r: (nat, nat, nat), a: nat, b: nat, c: nat) -> nat {
    fadd(fadd(fmul(r.0, a), fmul(r.1, b)), fmul(r.2, c))
}

/// The third part of what the honest prover does: it proves that the
/// combination of the three claims is the sum, over all columns, of the
/// assignment times the combination of the three matrices at the point
/// of the first sum.
#[verifier::opaque]
pub open spec fn r1cs_phase_two(
    gens: &R1CSGens,
    inst: R1CSInstanceView,
    z: Seq<nat>,
    rx: Seq<nat>,
    claims: (nat, nat, nat),
    blinds: (nat, nat, nat),
    log: Log,
    tape: Log,
) -> SumcheckProved {
    let r = r1cs_combiners(log);
    let evals_rx = eq_evals(rx);
    let evals_abc = combine(
        r,
        vec_mat(inst.a, z.len(), evals_rx),
        vec_mat(inst.b, z.len(), evals_rx),
        vec_mat(inst.c, z.len(), evals_rx),
    );
    sumcheck_prove(
        bases_phase2(gens),
        false,
        r1cs_log_combiners(log),
        tape,
        combine_one(r, claims.0, claims.1, claims.2),
        combine_one(r, blinds.0, blinds.1, blinds.2),
        floor_log_2(z.len()),
        Tables { a: z, b: evals_abc, c: Seq::empty(), d: Seq::empty() },
    )
}

/// What the prover has at the end.
pub struct Opening {
    pub pe: DotProductLogProved,
    pub eq: EqualityProved,
}

/// The last part of what the honest prover does: it opens the commitment
/// to the variables at the point of the second sum, and proves that what
/// the second sum came to is what the opened value makes.
#[verifier::opaque]
pub open spec fn r1cs_opening(
    gens: &R1CSGens,
    vars: Seq<nat>,
    blinds_vars: Seq<nat>,
    log: Log,
    tape: Log,
    ry: Seq<nat>,
    z_claim: nat,
    abc_claim: nat,
    blind: nat,
) -> Opening {
    let point = ry.skip(1);
    let blind_eval = challenge_scalar(tape, tag("blind_eval"));
    let pe = poly_eval_prove(
        bases_opening(gens),
        log,
        log_challenge(tape, tag("blind_eval")),
        vars,
        blinds_vars,
        point,
        mle_eval(vars, point),
        blind_eval,
    );
    let blind_z = fmul(fsub(1, ry[0]), blind_eval);
    let claim_post = fmul(z_claim, abc_claim);
    Opening {
        pe,
        eq: equality_prove(
            gens.gens_pc.gens.gens_1.G@[0]@,
            gens.gens_pc.gens.gens_1.h@,
            pe.log,
            pe.tape,
            claim_post,
            fmul(abc_claim, blind_z),
            claim_post,
            blind,
        ),
    }
}

/// What the prover for a system hands back and leaves behind.
pub struct R1CSProved {
    pub failed: bool,
    pub proof: R1CSProofView,
    pub rx: Seq<nat>,
    pub ry: Seq<nat>,
    pub log: Log,
    pub tape: Log,
}

/// What the honest prover does for a system, an assignment of its
/// variables and its inputs.
pub open spec fn r1cs_prove(
    gens: &R1CSGens,
    inst: R1CSInstanceView,
    vars: Seq<nat>,
    input: Seq<nat>,
    log: Log,
    tape: Log,
) -> R1CSProved {
    let first = r1cs_phase_one(gens, inst, vars, input, log, tape);
    let t = first.sc.tables;
    let cl = r1cs_claims(gens, first.sc.log, first.sc.tape, t.a[0], t.b[0], t.c[0], t.d[0], first.sc.blind);
    let second = r1cs_phase_two(
        gens,
        inst,
        first.z,
        first.sc.rs,
        (t.b[0], t.c[0], t.d[0]),
        (cl.az_blind, cl.bz_blind, cl.cz_blind),
        cl.eq.log,
        cl.eq.tape,
    );
    let op = r1cs_opening(
        gens,
        vars,
        first.blinds_vars,
        second.log,
        second.tape,
        second.rs,
        second.tables.a[0],
        second.tables.b[0],
        second.blind,
    );
    R1CSProved {
        failed: op.pe.failed,
        proof: R1CSProofView {
            comm_vars: first.comm_vars,
            sc_proof_phase1: first.sc.proof,
            comm_az: cl.pp.x,
            comm_bz: cl.pp.y,
            comm_cz: cl.kp.commitment,
            comm_prod: cl.pp.z,
            pok_cz: cl.kp.proof,
            proof_prod: cl.pp.proof,
            proof_eq_sc_phase1: cl.eq.proof,
            sc_proof_phase2: second.proof,
            comm_vars_at_ry: op.pe.cy,
            proof_eval_vars_at_ry: op.pe.proof,
            proof_eq_sc_phase2: op.eq.proof,
        },
        rx: first.sc.rs,
        ry: second.rs,
        log: if op.pe.failed {
            op.pe.log
        } else {
            op.eq.log
        },
        tape: if op.pe.failed {
            op.pe.tape
        } else {
            op.eq.tape
        },
    }
}

/// What the prover makes of the claims of the first sum.
struct ClaimsMade {
    az_blind: Scalar,
    bz_blind: Scalar,
    cz_blind: Scalar,
    pok_cz: KnowledgeProof,
    proof_prod: ProductProof,
    proof_eq: EqualityProof,
    comm_az: Point,
    comm_bz: Point,
    comm_cz: Point,
    comm_prod: Point,
}

/// What the prover makes at the end.
struct OpeningMade {
    proof_eval: PolyEvalProof,
    comm_vars_at_ry: Point,
    proof_eq: EqualityProof,
}

/// Doubling a power of two gives a power of two.
pub proof fn lemma_double_power(n: nat)
    requires
        is_power_of_two(n),
    ensures
        is_power_of_two(2 * n),
        floor_log_2(2 * n) == floor_log_2(n) + 1,
        n >= 1,
{
    lemma_floor_log_2_two_to(floor_log_2(n));
    assert((2 * n) / 2 == n);
}

impl R1CSProof {
    fn protocol_name() -> (r: &'static [u8])
        ensures
            r@ == tag("R1CS proof"),
            r@.len() <= u32::MAX,
    {
        proof {
            reveal_strlit("R1CS proof");
        }
        marker("R1CS proof")
    }

    fn prove_phase_one(
        num_rounds: usize,
        evals_tau: &mut DensePolynomial,
        evals_az: &mut DensePolynomial,
        evals_bz: &mut DensePolynomial,
        evals_cz: &mut DensePolynomial,
        gens: &R1CSSumcheckGens,
        transcript: &mut Transcript,
        random_tape: &mut RandomTape,
    ) -> (res: (ZKSumcheckInstanceProof, Vec<Scalar>, Vec<Scalar>, Scalar))
        requires
            num_rounds >= 1,
            old(evals_tau)@.len() == two_to(num_rounds as nat),
            old(evals_az)@.len() == old(evals_tau)@.len(),
            old(evals_bz)@.len() == old(evals_tau)@.len(),
            old(evals_cz)@.len() == old(evals_tau)@.len(),
            ZKSumcheckInstanceProof::gens_fit(&gens.gens_1, &gens.gens_4, 4),
        ensures
            ({
                let p = sumcheck_prove(
                    dot_product_bases(&gens.gens_1, &gens.gens_4),
                    true,
                    old(transcript).log(),
                    old(random_tape)@,
                    0,
                    0,
                    num_rounds as nat,
                    Tables {
                        a: old(evals_tau)@,
                        b: old(evals_az)@,
                        c: old(evals_bz)@,
                        d: old(evals_cz)@,
                    },
                );
                &&& res.0@ == p.proof
                &&& res.1.deep_view() == p.rs
                &&& res.1@.len() == num_rounds
                &&& res.2@.len() == 4
                &&& res.2.deep_view() == seq![
                    p.tables.a[0],
                    p.tables.b[0],
                    p.tables.c[0],
                    p.tables.d[0],
                ]
                &&& res.3@ == p.blind
                &&& final(transcript).log() == p.log
                &&& final(random_tape)@ == p.tape
            }),
    {
        let zero = Scalar::zero();
        ZKSumcheckInstanceProof::prove_cubic_with_additive_term(
            &zero,
            &zero,
            num_rounds,
            evals_tau,
            evals_az,
            evals_bz,
            evals_cz,
            &gens.gens_1,
            &gens.gens_4,
            transcript,
            random_tape,
        )
    }

    fn prove_phase_two(
        num_rounds: usize,
        claim: &Scalar,
        blind_claim: &Scalar,
        evals_z: &mut DensePolynomial,
        evals_abc: &mut DensePolynomial,
        gens: &R1CSSumcheckGens,
        transcript: &mut Transcript,
        random_tape: &mut RandomTape,
    ) -> (res: (ZKSumcheckInstanceProof, Vec<Scalar>, Vec<Scalar>, Scalar))
        requires
            num_rounds >= 1,
            old(evals_z)@.len() == two_to(num_rounds as nat),
            old(evals_abc)@.len() == old(evals_z)@.len(),
            ZKSumcheckInstanceProof::gens_fit(&gens.gens_1, &gens.gens_3, 3),
        ensures
            ({
                let p = sumcheck_prove(
                    dot_product_bases(&gens.gens_1, &gens.gens_3),
                    false,
                    old(transcript).log(),
                    old(random_tape)@,
                    claim@,
                    blind_claim@,
                    num_rounds as nat,
                    Tables {
                        a: old(evals_z)@,
                        b: old(evals_abc)@,
                        c: Seq::empty(),
                        d: Seq::empty(),
                    },
                );
                &&& res.0@ == p.proof
                &&& res.1.deep_view() == p.rs
                &&& res.1@.len() == num_rounds
                &&& res.2@.len() == 2
                &&& res.2.deep_view() == seq![p.tables.a[0], p.tables.b[0]]
                &&& res.3@ == p.blind
                &&& final(transcript).log() == p.log
                &&& final(random_tape)@ == p.tape
            }),
    {
        ZKSumcheckInstanceProof::prove_quad(
            claim,
            blind_claim,
            num_rounds,
            evals_z,
            evals_abc,
            &gens.gens_1,
            &gens.gens_3,
            transcript,
            random_tape,
        )
    }

    /// Commits to the claims of the first sum and proves what is claimed
    /// of them.
    fn prove_claims(
        gens: &R1CSGens,
        tau_claim: &Scalar,
        az_claim: &Scalar,
        bz_claim: &Scalar,
        cz_claim: &Scalar,
        blind_claim_postsc1: &Scalar,
        transcript: &mut Transcript,
        random_tape: &mut RandomTape,
    ) -> (res: ClaimsMade)
        requires
            gens.gens_sc.gens_1.n == 1,
            gens.gens_sc.gens_1.G@.len() == 1,
        ensures
            ({
                let cl = r1cs_claims(
                    gens,
                    old(transcript).log(),
                    old(random_tape)@,
                    tau_claim@,
                    az_claim@,
                    bz_claim@,
                    cz_claim@,
                    blind_claim_postsc1@,
                );
                &&& res.az_blind@ == cl.az_blind
                &&& res.bz_blind@ == cl.bz_blind
                &&& res.cz_blind@ == cl.cz_blind
                &&& res.pok_cz@ == cl.kp.proof
                &&& res.proof_prod@ == cl.pp.proof
                &&& res.proof_eq@ == cl.eq.proof
                &&& res.comm_az@ == cl.pp.x
                &&& res.comm_bz@ == cl.pp.y
                &&& res.comm_cz@ == cl.kp.commitment
                &&& res.comm_prod@ == cl.pp.z
                &&& final(transcript).log() == cl.eq.log
                &&& final(random_tape)@ == cl.eq.tape
            }),
    {
        reveal(r1cs_claims);
        let ghost tape = random_tape@;
        let az_blind = random_tape.random_scalar("Az_blind".as_bytes());
        let bz_blind = random_tape.random_scalar("Bz_blind".as_bytes());
        let cz_blind = random_tape.random_scalar("Cz_blind".as_bytes());
        let prod_az_bz_blind = random_tape.random_scalar("prod_Az_Bz_blind".as_bytes());
        proof {
            reveal_with_fuel(claims_tape, 5);
            assert(random_tape@ == claims_tape(tape, 4));
        }

        let (pok_cz, comm_cz) = KnowledgeProof::prove(
            &gens.gens_sc.gens_1,
            transcript,
            random_tape,
            cz_claim,
            &cz_blind,
        );

        let prod = az_claim.mul(bz_claim);
        let (proof_prod, comm_az, comm_bz, comm_prod) = ProductProof::prove(
            &gens.gens_sc.gens_1,
            transcript,
            random_tape,
            az_claim,
            &az_blind,
            bz_claim,
            &bz_blind,
            &prod,
            &prod_az_bz_blind,
        );

        transcript.append_point("comm_Az_claim".as_bytes(), &comm_az);
        transcript.append_point("comm_Bz_claim".as_bytes(), &comm_bz);
        transcript.append_point("comm_Cz_claim".as_bytes(), &comm_cz);
        transcript.append_point("comm_prod_Az_Bz_claims".as_bytes(), &comm_prod);

        let blind_expected_claim_postsc1 = tau_claim.mul(&prod_az_bz_blind.sub(&cz_blind));
        let claim_post_phase1 = az_claim.mul(bz_claim).sub(cz_claim).mul(tau_claim);
        let (proof_eq, _c1, _c2) = EqualityProof::prove(
            &gens.gens_sc.gens_1,
            transcript,
            random_tape,
            &claim_post_phase1,
            &blind_expected_claim_postsc1,
            &claim_post_phase1,
            blind_claim_postsc1,
        );
        ClaimsMade {
            az_blind,
            bz_blind,
            cz_blind,
            pok_cz,
            proof_prod,
            proof_eq,
            comm_az,
            comm_bz,
            comm_cz,
            comm_prod,
        }
    }

    /// Opens the commitment to the variables at the point of the second
    /// sum and proves what is claimed of the opened value.
    fn prove_opening(
        gens: &R1CSGens,
        poly_vars: &DensePolynomial,
        blinds_vars: &PolyCommitmentBlinds,
        ry: &Vec<Scalar>,
        z_claim: &Scalar,
        abc_claim: &Scalar,
        blind_claim_postsc2: &Scalar,
        transcript: &mut Transcript,
        random_tape: &mut RandomTape,
    ) -> (res: Result<OpeningMade, ProofVerifyError>)
        requires
            ry@.len() >= 1,
            PolyEvalProof::fits(
                &gens.gens_pc,
                poly_vars@.len(),
                blinds_vars@.len(),
                (ry@.len() - 1) as nat,
            ),
        ensures
            ({
                let op = r1cs_opening(
                    gens,
                    poly_vars@,
                    blinds_vars@,
                    old(transcript).log(),
                    old(random_tape)@,
                    ry.deep_view(),
                    z_claim@,
                    abc_claim@,
                    blind_claim_postsc2@,
                );
                &&& res is Err <==> op.pe.failed
                &&& res is Err ==> res->Err_0 == ProofVerifyError::VerificationFailed
                    && final(transcript).log() == op.pe.log && final(random_tape)@ == op.pe.tape
                &&& res is Ok ==> {
                    &&& res->Ok_0.proof_eval@ == op.pe.proof
                    &&& res->Ok_0.comm_vars_at_ry@ == op.pe.cy
                    &&& res->Ok_0.proof_eq@ == op.eq.proof
                    &&& final(transcript).log() == op.eq.log
                    &&& final(random_tape)@ == op.eq.tape
                }
            }),
    {
        reveal(r1cs_opening);
        let point = vstd::slice::slice_subrange(ry.as_slice(), 1, ry.len());
        proof {
            assert(point.deep_view() =~= ry.deep_view().skip(1));
        }
        let eval_vars_at_ry = poly_vars.evaluate(point);
        let blind_eval = random_tape.random_scalar("blind_eval".as_bytes());
        let (proof_eval, comm_vars_at_ry) = match PolyEvalProof::prove(
            poly_vars,
            blinds_vars,
            point,
            &eval_vars_at_ry,
            &blind_eval,
            &gens.gens_pc,
            transcript,
            random_tape,
        ) {
            Ok(t) => t,
            Err(e) => {
                return Err(e);
            },
        };

        let blind_eval_z_at_ry = Scalar::one().sub(&ry[0]).mul(&blind_eval);
        let blind_expected_claim_postsc2 = abc_claim.mul(&blind_eval_z_at_ry);
        let claim_post_phase2 = z_claim.mul(abc_claim);
        let (proof_eq, _c1, _c2) = EqualityProof::prove(
            &gens.gens_pc.gens.gens_1,
            transcript,
            random_tape,
            &claim_post_phase2,
            &blind_expected_claim_postsc2,
            &claim_post_phase2,
            blind_claim_postsc2,
        );
        Ok(OpeningMade { proof_eval, comm_vars_at_ry, proof_eq })
    }
}

/// Whether system, assignment, inputs and generators fit together: the
/// assignment and the inputs are as long as the system says, the system
/// has two constraints at least, and the generators are made for its
/// number of variables.
pub open spec fn prover_fits(
    gens: &R1CSGens,
    inst: R1CSInstanceView,
    vars_len: nat,
    input_len: nat,
) -> bool {
    &&& vars_len == inst.num_vars
    &&& input_len == inst.num_inputs
    &&& inst.num_cons >= 2
    &&& gens_fit(gens, inst.num_vars)
}

/// In each place the three entries combined with the three challenges.
fn combine_tables(
    r_a: &Scalar,
    r_b: &Scalar,
    r_c: &Scalar,
    a: &Vec<Scalar>,
    b: &Vec<Scalar>,
    c: &Vec<Scalar>,
) -> (res: Vec<Scalar>)
    requires
        a@.len() == b@.len(),
        a@.len() == c@.len(),
    ensures
        res.deep_view() == combine(
            (r_a@, r_b@, r_c@),
            a.deep_view(),
            b.deep_view(),
            c.deep_view(),
        ),
        res@.len() == a@.len(),
{
    let mut out: Vec<Scalar> = Vec::new();
    let mut i: usize = 0;
    while i < a.len()
        invariant
            i <= a@.len(),
            a@.len() == b@.len(),
            a@.len() == c@.len(),
            out@.len() == i,
            forall|k: int|
                0 <= k < i ==> out@[k]@ == combine_one((r_a@, r_b@, r_c@), a@[k]@, b@[k]@, c@[k]@),
        decreases a@.len() - i,
    {
        out.push(r_a.mul(&a[i]).add(&r_b.mul(&b[i])).add(&r_c.mul(&c[i])));
        i += 1;
    }
    proof {
        assert(out.deep_view() =~= combine(
            (r_a@, r_b@, r_c@),
            a.deep_view(),
            b.deep_view(),
            c.deep_view(),
        ));
    }
    out
}

/// The vector of which the constraints are asked, filled up with zeros.
fn pad_assignment(vars: &Vec<Scalar>, input: &[Scalar]) -> (z: Vec<Scalar>)
    requires
        input@.len() < vars@.len(),
    ensures
        z.deep_view() == padded_assignment(vars.deep_view(), input.deep_view()),
        z@.len() == 2 * vars@.len(),
{
    let num_inputs = input.len();
    let num_vars = vars.len();
    let mut z = vstd::slice::slice_to_vec(vars.as_slice());
    z.push(Scalar::one());
    let mut rest = vstd::slice::slice_to_vec(input);
    z.append(&mut rest);
    let ghost head = z.deep_view();
    proof {
        assert(head =~= vars.deep_view().push(1) + input.deep_view());
    }
    let mut i: usize = 0;
    while i < num_vars - num_inputs - 1
        invariant
            i <= num_vars - num_inputs - 1,
            num_inputs < num_vars,
            head.len() == num_vars + 1 + num_inputs,
            z@.len() == head.len() + i,
            forall|k: int| 0 <= k < head.len() ==> z@[k]@ == head[k],
            forall|k: int| head.len() <= k < head.len() + i ==> z@[k]@ == 0,
        decreases num_vars - num_inputs - 1 - i,
    {
        z.push(Scalar::zero());
        i += 1;
    }
    proof {
        assert(z.deep_view() =~= padded_assignment(vars.deep_view(), input.deep_view()));
    }
    z
}

impl R1CSProof {
    /// Whether generators are those for systems of `num_vars` variables.
    pub fn check_gens(gens: &R1CSGens, num_vars: usize) -> (r: bool)
        requires
            is_power_of_two(num_vars as nat),
        ensures
            r == gens_fit(gens, num_vars as nat),
    {
        let ell = exact_log_2(num_vars).unwrap();
        let right = ell - ell / 2;
        let sc = &gens.gens_sc;
        DotProductProofLog::check_gens(&gens.gens_pc.gens, crate::math::pow2(right)) && sc.gens_1.n
            == 1 && sc.gens_1.G.len() == 1 && sc.gens_3.n == 3 && sc.gens_3.G.len() == 3
            && sc.gens_4.n == 4 && sc.gens_4.G.len() == 4
    }

    /// Commits to the variables and proves the first sum.
    fn run_phase_one(
        inst: &R1CSInstance,
        vars: Vec<Scalar>,
        input: &[Scalar],
        gens: &R1CSGens,
        transcript: &mut Transcript,
        random_tape: &mut RandomTape,
    ) -> (res: PhaseOneMade)
        requires
            prover_fits(gens, inst@, vars@.len(), input@.len()),
        ensures
            ({
                let first = r1cs_phase_one(
                    gens,
                    inst@,
                    vars.deep_view(),
                    input.deep_view(),
                    old(transcript).log(),
                    old(random_tape)@,
                );
                let t = first.sc.tables;
                &&& res.poly_vars@ == vars.deep_view()
                &&& res.comm_vars@ == first.comm_vars
                &&& res.blinds_vars@ == first.blinds_vars
                &&& res.blinds_vars@.len() == two_to(floor_log_2(vars@.len() as nat) / 2)
                &&& res.z.deep_view() == first.z
                &&& res.z@.len() == 2 * vars@.len()
                &&& res.sc_proof@ == first.sc.proof
                &&& res.rx.deep_view() == first.sc.rs
                &&& res.rx@.len() == floor_log_2(inst@.num_cons)
                &&& res.claims@.len() == 4
                &&& res.claims.deep_view() == seq![t.a[0], t.b[0], t.c[0], t.d[0]]
                &&& res.blind@ == first.sc.blind
                &&& final(transcript).log() == first.sc.log
                &&& final(random_tape)@ == first.sc.tape
            }),
    {
        reveal(r1cs_phase_one);
        let num_vars = inst.get_num_vars();
        let num_cons = inst.get_num_cons();
        proof {
            lemma_double_power(num_vars as nat);
            lemma_floor_log_2_two_to(floor_log_2(num_cons as nat));
            lemma_factored_sizes(floor_log_2(num_vars as nat));
        }
        transcript.append_protocol_name(R1CSProof::protocol_name());
        transcript.append_scalars("input".as_bytes(), input);

        let z = pad_assignment(&vars, input);
        let poly_vars = DensePolynomial::new(vars);
        let (comm_vars, blinds_vars) = poly_vars.commit(&gens.gens_pc, random_tape);
        comm_vars.append_to_transcript("poly_commitment".as_bytes(), transcript);

        let num_rounds_x = exact_log_2(num_cons).unwrap();
        let tau = transcript.challenge_vector("challenge_tau".as_bytes(), num_rounds_x);
        proof {
            lemma_eq_evals_len(tau.deep_view());
            if num_rounds_x == 0 {
                assert(two_to(0) == 1);
            }
        }

        let mut poly_tau = DensePolynomial::new(EqPolynomial::new(tau).evals());
        let zs = z.as_slice();
        proof {
            assert(zs.deep_view() =~= z.deep_view());
        }
        let (mut poly_az, mut poly_bz, mut poly_cz) = inst.multiply_vec(num_cons, z.len(), zs);

        let (sc_proof, rx, claims, blind) = R1CSProof::prove_phase_one(
            num_rounds_x,
            &mut poly_tau,
            &mut poly_az,
            &mut poly_bz,
            &mut poly_cz,
            &gens.gens_sc,
            transcript,
            random_tape,
        );
        PhaseOneMade { poly_vars, comm_vars, blinds_vars, z, sc_proof, rx, claims, blind }
    }

    /// Combines the three claims of the first sum and proves the second.
    fn run_phase_two(
        inst: &R1CSInstance,
        gens: &R1CSGens,
        z: Vec<Scalar>,
        rx: &Vec<Scalar>,
        claims: &Vec<Scalar>,
        made: &ClaimsMade,
        transcript: &mut Transcript,
        random_tape: &mut RandomTape,
    ) -> (res: (ZKSumcheckInstanceProof, Vec<Scalar>, Vec<Scalar>, Scalar))
        requires
            claims@.len() == 4,
            z@.len() == 2 * inst@.num_vars,
            two_to(rx@.len() as nat) == inst@.num_cons,
            ZKSumcheckInstanceProof::gens_fit(&gens.gens_sc.gens_1, &gens.gens_sc.gens_3, 3),
        ensures
            ({
                let p = r1cs_phase_two(
                    gens,
                    inst@,
                    z.deep_view(),
                    rx.deep_view(),
                    (claims@[1]@, claims@[2]@, claims@[3]@),
                    (made.az_blind@, made.bz_blind@, made.cz_blind@),
                    old(transcript).log(),
                    old(random_tape)@,
                );
                &&& res.0@ == p.proof
                &&& res.1.deep_view() == p.rs
                &&& res.1@.len() == floor_log_2(z@.len() as nat)
                &&& res.2@.len() == 2
                &&& res.2.deep_view() == seq![p.tables.a[0], p.tables.b[0]]
                &&& res.3@ == p.blind
                &&& final(transcript).log() == p.log
                &&& final(random_tape)@ == p.tape
            }),
    {
        reveal(r1cs_phase_two);
        let num_cons = inst.get_num_cons();
        let num_vars = inst.get_num_vars();
        proof {
            lemma_double_power(num_vars as nat);
        }
        let num_rounds_y = exact_log_2(z.len()).unwrap();
        let r_a = transcript.challenge_scalar("challenege_Az".as_bytes());
        let r_b = transcript.challenge_scalar("challenege_Bz".as_bytes());
        let r_c = transcript.challenge_scalar("challenege_Cz".as_bytes());
        let claim_phase2 = r_a.mul(&claims[1]).add(&r_b.mul(&claims[2])).add(&r_c.mul(&claims[3]));
        let blind_claim_phase2 = r_a.mul(&made.az_blind).add(&r_b.mul(&made.bz_blind)).add(
            &r_c.mul(&made.cz_blind),
        );

        let rx_copy = vstd::slice::slice_to_vec(rx.as_slice());
        proof {
            assert(rx_copy.deep_view() =~= rx.deep_view());
            lemma_eq_evals_len(rx.deep_view());
        }
        let evals_rx = EqPolynomial::new(rx_copy).evals();
        let es = evals_rx.as_slice();
        proof {
            assert(es.deep_view() =~= evals_rx.deep_view());
        }
        let (evals_a, evals_b, evals_c) = inst.compute_eval_table_sparse(num_cons, z.len(), es);
        let evals_abc = combine_tables(&r_a, &r_b, &r_c, &evals_a, &evals_b, &evals_c);

        let mut poly_z = DensePolynomial::new(z);
        let mut poly_abc = DensePolynomial::new(evals_abc);
        let res = R1CSProof::prove_phase_two(
            num_rounds_y,
            &claim_phase2,
            &blind_claim_phase2,
            &mut poly_z,
            &mut poly_abc,
            &gens.gens_sc,
            transcript,
            random_tape,
        );
        res
    }

    /// Proves that the assignment `vars` meets the system `inst` for the
    /// inputs `input`, and hands back the points of the two sums with the
    /// proof. A challenge of zero in the opening ends it with an error.
    pub fn prove(
        inst: &R1CSInstance,
        vars: Vec<Scalar>,
        input: &[Scalar],
        gens: &R1CSGens,
        transcript: &mut Transcript,
        random_tape: &mut RandomTape,
    ) -> (res: Result<(R1CSProof, Vec<Scalar>, Vec<Scalar>), ProofVerifyError>)
        ensures
            ({
                let fits = prover_fits(gens, inst@, vars@.len(), input@.len());
                let p = r1cs_prove(
                    gens,
                    inst@,
                    vars.deep_view(),
                    input.deep_view(),
                    old(transcript).log(),
                    old(random_tape)@,
                );
                &&& !fits ==> res is Err && res->Err_0 == ProofVerifyError::InvalidInput
                    && final(transcript).log() == old(transcript).log() && final(random_tape)@
                    == old(random_tape)@
                &&& fits ==> final(transcript).log() == p.log && final(random_tape)@ == p.tape
                &&& fits && p.failed ==> res is Err && res->Err_0
                    == ProofVerifyError::VerificationFailed
                &&& fits && !p.failed ==> res is Ok && res->Ok_0.0@ == p.proof
                    && res->Ok_0.1.deep_view() == p.rx && res->Ok_0.2.deep_view() == p.ry
            }),
    {
        let num_vars = inst.get_num_vars();
        let num_cons = inst.get_num_cons();
        let num_inputs = inst.get_num_inputs();
        if vars.len() != num_vars || input.len() != num_inputs || num_cons < 2
            || !R1CSProof::check_gens(gens, num_vars) {
            return Err(ProofVerifyError::InvalidInput);
        }
        proof {
            lemma_double_power(num_vars as nat);
            lemma_floor_log_2_two_to(floor_log_2(num_cons as nat));
            lemma_floor_log_2_two_to(floor_log_2(num_vars as nat));
            lemma_factored_sizes(floor_log_2(num_vars as nat));
        }
        let one = R1CSProof::run_phase_one(inst, vars, input, gens, transcript, random_tape);
        proof {
            assert(one.claims@[0]@ == one.claims.deep_view()[0]);
            assert(one.claims@[1]@ == one.claims.deep_view()[1]);
            assert(one.claims@[2]@ == one.claims.deep_view()[2]);
            assert(one.claims@[3]@ == one.claims.deep_view()[3]);
        }
        let made = R1CSProof::prove_claims(
            gens,
            &one.claims[0],
            &one.claims[1],
            &one.claims[2],
            &one.claims[3],
            &one.blind,
            transcript,
            random_tape,
        );
        let (sc_proof_phase2, ry, claims_phase2, blind_claim_postsc2) = R1CSProof::run_phase_two(
            inst,
            gens,
            one.z,
            &one.rx,
            &one.claims,
            &made,
            transcript,
            random_tape,
        );
        proof {
            assert(claims_phase2@[0]@ == claims_phase2.deep_view()[0]);
            assert(claims_phase2@[1]@ == claims_phase2.deep_view()[1]);
        }
        let opened = match R1CSProof::prove_opening(
            gens,
            &one.poly_vars,
            &one.blinds_vars,
            &ry,
            &claims_phase2[0],
            &claims_phase2[1],
            &blind_claim_postsc2,
            transcript,
            random_tape,
        ) {
            Ok(o) => o,
            Err(e) => {
                return Err(e);
            },
        };

        Ok(
            (
                R1CSProof {
                    comm_vars: one.comm_vars,
                    sc_proof_phase1: one.sc_proof,
                    claims_phase2: (made.comm_az, made.comm_bz, made.comm_cz, made.comm_prod),
                    pok_claims_phase2: (made.pok_cz, made.proof_prod),
                    proof_eq_sc_phase1: made.proof_eq,
                    sc_proof_phase2,
                    comm_vars_at_ry: opened.comm_vars_at_ry,
                    proof_eval_vars_at_ry: opened.proof_eval,
                    proof_eq_sc_phase2: opened.proof_eq,
                },
                one.rx,
                ry,
            ),
        )
    }
}

/// What the prover has made after the first sum.
struct PhaseOneMade {
    poly_vars: DensePolynomial,
    comm_vars: PolyCommitment,
    blinds_vars: PolyCommitmentBlinds,
    z: Vec<Scalar>,
    sc_proof: ZKSumcheckInstanceProof,
    rx: Vec<Scalar>,
    claims: Vec<Scalar>,
    blind: Scalar,
}

/// Whether the sizes that the verifier is given and the generators fit
/// together: the numbers of constraints and of variables are powers of
/// two, there are two constraints at least and fewer inputs than
/// variables, and the generators are made for the number of variables.
pub open spec fn verifier_fits(gens: &R1CSGens, num_vars: nat, num_cons: nat, input_len: nat)
    -> bool {
    &&& is_power_of_two(num_cons)
    &&& num_cons >= 2
    &&& is_power_of_two(num_vars)
    &&& 2 * num_vars <= usize::MAX
    &&& input_len < num_vars
    &&& gens_fit(gens, num_vars)
}

/// Whether a proof of a sum has the messages of `n` rounds.
pub open spec fn rounds_fit(p: ZKSumcheckView, n: nat) -> bool {
    &&& n >= 1
    &&& p.comm_polys.len() == n
    &&& p.comm_evals.len() == n
    &&& p.proofs.len() == n
}

/// What the verifier finds in one of its two parts.
pub struct PartVerified {
    pub ok: bool,
    pub rs: Seq<nat>,
    pub log: Log,
}

/// A part of the verification that failed with the transcript as given.
pub open spec fn part_failed(log: Log) -> PartVerified {
    PartVerified { ok: false, rs: Seq::empty(), log }
}

/// The first part of what the verifier does: it checks the first sum,
/// the proofs on the three claims, and that what the sum came to is what
/// the claims make at the challenge at which the constraints were
/// batched.
#[verifier::opaque]
pub open spec fn r1cs_verify_phase_one(
    gens: &R1CSGens,
    num_cons: nat,
    input: Seq<nat>,
    proof: R1CSProofView,
    log: Log,
) -> PartVerified {
    let (g, h) = (gens.gens_sc.gens_1.G@[0]@, gens.gens_sc.gens_1.h@);
    let rounds = floor_log_2(num_cons);
    let log1 = r1cs_log_statement(log, input, proof.comm_vars);
    let tau = r1cs_tau(log1, num_cons);
    let log2 = log_challenges(log1, tag("challenge_tau"), rounds);
    let v = sumcheck_verify(
        bases_phase1(gens),
        log2,
        proof.sc_proof_phase1,
        commitment_single(0, 0, g, h),
        rounds,
        4,
    );
    let klog = log_challenge(knowledge_log(v.log, proof.comm_cz, proof.pok_cz.alpha), tag("c"));
    let plog = log_challenge(
        product_log(
            klog,
            proof.comm_az,
            proof.comm_bz,
            proof.comm_prod,
            proof.proof_prod.alpha,
            proof.proof_prod.beta,
            proof.proof_prod.delta,
        ),
        tag("c"),
    );
    let log3 = claims_log(plog, proof.comm_az, proof.comm_bz, proof.comm_cz, proof.comm_prod);
    let expected = fmul(fsub(proof.comm_prod, proof.comm_cz), eq_eval(v.rs, tau));
    if !rounds_fit(proof.sc_proof_phase1, rounds) {
        part_failed(log2)
    } else if !v.ok {
        part_failed(v.log)
    } else if !knowledge_accepts(g, h, v.log, proof.pok_cz, proof.comm_cz) {
        part_failed(klog)
    } else if !product_accepts(
        g,
        h,
        klog,
        proof.proof_prod,
        proof.comm_az,
        proof.comm_bz,
        proof.comm_prod,
    ) {
        part_failed(plog)
    } else {
        PartVerified {
            ok: equality_accepts(h, log3, proof.proof_eq_sc_phase1, expected, v.comm_claim),
            rs: v.rs,
            log: log_challenge(
                equality_log(log3, expected, v.comm_claim, proof.proof_eq_sc_phase1.alpha),
                tag("c"),
            ),
        }
    }
}

/// The values of the polynomial of the inputs where it is not zero: a
/// one in the first place, then the inputs.
pub open spec fn input_entries(input: Seq<nat>) -> Seq<(nat, nat)> {
    seq![(0nat, 1nat)] + Seq::new(input.len(), |i: int| ((i + 1) as nat, input[i]))
}

/// The second part of what the verifier does: it checks the second sum
/// and the opening of the commitment to the variables, and that what the
/// sum came to is what the opened value, the inputs and the values
/// `evals` of the three matrices make.
#[verifier::opaque]
pub open spec fn r1cs_verify_phase_two(
    gens: &R1CSGens,
    num_vars: nat,
    input: Seq<nat>,
    evals: (nat, nat, nat),
    proof: R1CSProofView,
    log: Log,
) -> PartVerified {
    let r = r1cs_combiners(log);
    let rounds = floor_log_2(2 * num_vars);
    let comm_claim = inner_product(
        seq![r.0, r.1, r.2],
        seq![proof.comm_az, proof.comm_bz, proof.comm_cz],
    );
    let v = sumcheck_verify(
        bases_phase2(gens),
        r1cs_log_combiners(log),
        proof.sc_proof_phase2,
        comm_claim,
        rounds,
        3,
    );
    let point = v.rs.skip(1);
    let pv = poly_eval_verify(
        bases_opening(gens),
        v.log,
        proof.proof_eval_vars_at_ry,
        point,
        proof.comm_vars_at_ry,
        proof.comm_vars,
    );
    let comm_input = commitment_single(
        sparse_eval(input_entries(input), point),
        0,
        gens.gens_pc.gens.gens_1.G@[0]@,
        gens.gens_pc.gens.gens_1.h@,
    );
    let comm_z = inner_product(
        seq![fsub(1, v.rs[0]), v.rs[0]],
        seq![proof.comm_vars_at_ry, comm_input],
    );
    let expected = fmul(comm_z, combine_one(r, evals.0, evals.1, evals.2));
    if !rounds_fit(proof.sc_proof_phase2, rounds) {
        part_failed(r1cs_log_combiners(log))
    } else if !v.ok {
        part_failed(v.log)
    } else if !PolyEvalProof::verifier_fits(&gens.gens_pc, proof.comm_vars.len(), point.len()) {
        part_failed(v.log)
    } else if !pv.ok {
        part_failed(pv.log)
    } else {
        PartVerified {
            ok: equality_accepts(
                gens.gens_sc.gens_1.h@,
                pv.log,
                proof.proof_eq_sc_phase2,
                expected,
                v.comm_claim,
            ),
            rs: v.rs,
            log: log_challenge(
                equality_log(pv.log, expected, v.comm_claim, proof.proof_eq_sc_phase2.alpha),
                tag("c"),
            ),
        }
    }
}

/// What the verifier for a system finds.
pub struct R1CSVerified {
    pub ok: bool,
    pub rx: Seq<nat>,
    pub ry: Seq<nat>,
    pub log: Log,
}

/// What the verifier does for a proof, the inputs, and the values of the
/// three matrices at the points of the two sums.
pub open spec fn r1cs_verify(
    gens: &R1CSGens,
    num_vars: nat,
    num_cons: nat,
    input: Seq<nat>,
    evals: (nat, nat, nat),
    proof: R1CSProofView,
    log: Log,
) -> R1CSVerified {
    let one = r1cs_verify_phase_one(gens, num_cons, input, proof, log);
    let two = r1cs_verify_phase_two(gens, num_vars, input, evals, proof, one.log);
    if one.ok {
        R1CSVerified { ok: two.ok, rx: one.rs, ry: two.rs, log: two.log }
    } else {
        R1CSVerified { ok: false, rx: one.rs, ry: Seq::empty(), log: one.log }
    }
}

impl R1CSProof {
    /// The first part of the verification.
    fn verify_phase_one(
        &self,
        num_cons: usize,
        input: &[Scalar],
        transcript: &mut Transcript,
        gens: &R1CSGens,
    ) -> (res: Result<Vec<Scalar>, ProofVerifyError>)
        requires
            is_power_of_two(num_cons as nat),
            ZKSumcheckInstanceProof::gens_fit(&gens.gens_sc.gens_1, &gens.gens_sc.gens_4, 4),
        ensures
            ({
                let v = r1cs_verify_phase_one(
                    gens,
                    num_cons as nat,
                    input.deep_view(),
                    self@,
                    old(transcript).log(),
                );
                &&& final(transcript).log() == v.log
                &&& res is Ok <==> v.ok
                &&& res is Ok ==> res->Ok_0.deep_view() == v.rs
                &&& res is Err ==> res->Err_0 == ProofVerifyError::VerificationFailed
            }),
    {
        reveal(r1cs_verify_phase_one);
        transcript.append_protocol_name(R1CSProof::protocol_name());
        transcript.append_scalars("input".as_bytes(), input);
        self.comm_vars.append_to_transcript("poly_commitment".as_bytes(), transcript);

        let num_rounds_x = exact_log_2(num_cons).unwrap();
        let tau = transcript.challenge_vector("challenge_tau".as_bytes(), num_rounds_x);

        let zero = Scalar::zero();
        let claim_phase1 = zero.commit(&zero, &gens.gens_sc.gens_1);

        let (comm_claim_post_phase1, rx) = match self.sc_proof_phase1.verify(
            &claim_phase1,
            num_rounds_x,
            3,
            &gens.gens_sc.gens_1,
            &gens.gens_sc.gens_4,
            transcript,
        ) {
            Ok(t) => t,
            Err(e) => {
                return Err(e);
            },
        };
        let comm_az = &self.claims_phase2.0;
        let comm_bz = &self.claims_phase2.1;
        let comm_cz = &self.claims_phase2.2;
        let comm_prod = &self.claims_phase2.3;

        if self.pok_claims_phase2.0.verify(&gens.gens_sc.gens_1, transcript, comm_cz).is_err() {
            return Err(ProofVerifyError::VerificationFailed);
        }
        if self.pok_claims_phase2.1.verify(
            &gens.gens_sc.gens_1,
            transcript,
            comm_az,
            comm_bz,
            comm_prod,
        ).is_err() {
            return Err(ProofVerifyError::VerificationFailed);
        }

        transcript.append_point("comm_Az_claim".as_bytes(), comm_az);
        transcript.append_point("comm_Bz_claim".as_bytes(), comm_bz);
        transcript.append_point("comm_Cz_claim".as_bytes(), comm_cz);
        transcript.append_point("comm_prod_Az_Bz_claims".as_bytes(), comm_prod);

        let rx_copy = vstd::slice::slice_to_vec(rx.as_slice());
        proof {
            assert(rx_copy.deep_view() =~= rx.deep_view());
        }
        let tau_slice = tau.as_slice();
        proof {
            assert(tau_slice.deep_view() =~= tau.deep_view());
        }
        let taus_bound_rx = EqPolynomial::new(rx_copy).evaluate(tau_slice);
        let expected_claim_post_phase1 = comm_prod.sub(comm_cz).mul(&taus_bound_rx);

        if self.proof_eq_sc_phase1.verify(
            &gens.gens_sc.gens_1,
            transcript,
            &expected_claim_post_phase1,
            &comm_claim_post_phase1,
        ).is_err() {
            return Err(ProofVerifyError::VerificationFailed);
        }
        Ok(rx)
    }
}

/// The values of the polynomial of the inputs where it is not zero.
fn sparse_input(input: &[Scalar]) -> (r: Vec<SparsePolyEntry>)
    requires
        input@.len() < usize::MAX,
    ensures
        r.deep_view() == input_entries(input.deep_view()),
{
    let mut entries: Vec<SparsePolyEntry> = vec![SparsePolyEntry::new(0, Scalar::one())];
    let mut i: usize = 0;
    while i < input.len()
        invariant
            i <= input@.len(),
            input@.len() < usize::MAX,
            entries@.len() == i + 1,
            entries@[0]@ == (0nat, 1nat),
            forall|k: int| 0 <= k < i ==> entries@[k + 1]@ == ((k + 1) as nat, input@[k]@),
        decreases input@.len() - i,
    {
        entries.push(SparsePolyEntry::new(i + 1, input[i]));
        i += 1;
    }
    proof {
        assert(entries.deep_view() =~= input_entries(input.deep_view()));
    }
    entries
}

impl R1CSProof {
    /// The second part of the verification.
    fn verify_phase_two(
        &self,
        num_vars: usize,
        input: &[Scalar],
        evals: &(Scalar, Scalar, Scalar),
        transcript: &mut Transcript,
        gens: &R1CSGens,
    ) -> (res: Result<Vec<Scalar>, ProofVerifyError>)
        requires
            is_power_of_two(num_vars as nat),
            2 * num_vars <= usize::MAX,
            input@.len() < num_vars,
            gens_fit(gens, num_vars as nat),
        ensures
            ({
                let v = r1cs_verify_phase_two(
                    gens,
                    num_vars as nat,
                    input.deep_view(),
                    (evals.0@, evals.1@, evals.2@),
                    self@,
                    old(transcript).log(),
                );
                &&& final(transcript).log() == v.log
                &&& res is Ok <==> v.ok
                &&& res is Ok ==> res->Ok_0.deep_view() == v.rs
                &&& res is Err ==> res->Err_0 == ProofVerifyError::VerificationFailed
            }),
    {
        reveal(r1cs_verify_phase_two);
        proof {
            lemma_double_power(num_vars as nat);
        }
        let r_a = transcript.challenge_scalar("challenege_Az".as_bytes());
        let r_b = transcript.challenge_scalar("challenege_Bz".as_bytes());
        let r_c = transcript.challenge_scalar("challenege_Cz".as_bytes());

        let scalars = vec![r_a, r_b, r_c];
        let bases = vec![self.claims_phase2.0, self.claims_phase2.1, self.claims_phase2.2];
        let (bs, ss) = (bases.as_slice(), scalars.as_slice());
        proof {
            assert(ss.deep_view() =~= seq![r_a@, r_b@, r_c@]);
            assert(bs.deep_view() =~= seq![self@.comm_az, self@.comm_bz, self@.comm_cz]);
        }
        let comm_claim_phase2 = Point::multi_scalar_mul(bs, ss);

        let num_rounds_y = exact_log_2(2 * num_vars).unwrap();
        let (comm_claim_post_phase2, ry) = match self.sc_proof_phase2.verify(
            &comm_claim_phase2,
            num_rounds_y,
            2,
            &gens.gens_sc.gens_1,
            &gens.gens_sc.gens_3,
            transcript,
        ) {
            Ok(t) => t,
            Err(e) => {
                return Err(e);
            },
        };

        let point = vstd::slice::slice_subrange(ry.as_slice(), 1, ry.len());
        proof {
            assert(point.deep_view() =~= ry.deep_view().skip(1));
        }
        if self.proof_eval_vars_at_ry.verify(
            &gens.gens_pc,
            transcript,
            point,
            &self.comm_vars_at_ry,
            &self.comm_vars,
        ).is_err() {
            return Err(ProofVerifyError::VerificationFailed);
        }

        let poly_input_eval = SparsePolynomial::new(point.len(), sparse_input(input)).evaluate(
            point,
        );

        let zero = Scalar::zero();
        let scalars = vec![Scalar::one().sub(&ry[0]), ry[0]];
        let bases = vec![
            self.comm_vars_at_ry,
            poly_input_eval.commit(&zero, &gens.gens_pc.gens.gens_1),
        ];
        let (bs, ss) = (bases.as_slice(), scalars.as_slice());
        proof {
            assert(ss.deep_view() =~= seq![fsub(1, ry@[0]@), ry@[0]@]);
            assert(bs.deep_view() =~= seq![bases@[0]@, bases@[1]@]);
            assert(ry@[0]@ == ry.deep_view()[0]);
        }
        let comm_eval_z_at_ry = Point::multi_scalar_mul(bs, ss);

        let weight = r_a.mul(&evals.0).add(&r_b.mul(&evals.1)).add(&r_c.mul(&evals.2));
        let expected_claim_post_phase2 = comm_eval_z_at_ry.mul(&weight);

        if self.proof_eq_sc_phase2.verify(
            &gens.gens_sc.gens_1,
            transcript,
            &expected_claim_post_phase2,
            &comm_claim_post_phase2,
        ).is_err() {
            return Err(ProofVerifyError::VerificationFailed);
        }
        Ok(ry)
    }

    /// Checks a proof for a system of `num_cons` constraints on `num_vars`
    /// variables, for the inputs `input`, where `evals` are the values of
    /// the three matrices at the points of the two sums, which are handed
    /// back.
    pub fn verify(
        &self,
        num_vars: usize,
        num_cons: usize,
        input: &[Scalar],
        evals: &(Scalar, Scalar, Scalar),
        transcript: &mut Transcript,
        gens: &R1CSGens,
    ) -> (res: Result<(Vec<Scalar>, Vec<Scalar>), ProofVerifyError>)
        ensures
            ({
                let fits = verifier_fits(gens, num_vars as nat, num_cons as nat, input@.len() as nat);
                let v = r1cs_verify(
                    gens,
                    num_vars as nat,
                    num_cons as nat,
                    input.deep_view(),
                    (evals.0@, evals.1@, evals.2@),
                    self@,
                    old(transcript).log(),
                );
                &&& res is Ok <==> fits && v.ok
                &&& res is Ok ==> res->Ok_0.0.deep_view() == v.rx && res->Ok_0.1.deep_view()
                    == v.ry
                &&& res is Err ==> res->Err_0 == ProofVerifyError::VerificationFailed
                &&& final(transcript).log() == if fits {
                    v.log
                } else {
                    old(transcript).log()
                }
            }),
    {
        if exact_log_2(num_cons).is_none() || num_cons < 2 || exact_log_2(num_vars).is_none()
            || num_vars > usize::MAX / 2 || input.len() >= num_vars {
            return Err(ProofVerifyError::VerificationFailed);
        }
        if !R1CSProof::check_gens(gens, num_vars) {
            return Err(ProofVerifyError::VerificationFailed);
        }
        let rx = match self.verify_phase_one(num_cons, input, transcript, gens) {
            Ok(rx) => rx,
            Err(e) => {
                return Err(e);
            },
        };
        let ry = match self.verify_phase_two(num_vars, input, evals, transcript, gens) {
            Ok(ry) => ry,
            Err(e) => {
                return Err(e);
            },
        };
        Ok((rx, ry))
    }
}

/// The parts of a proof for a system of constraints.
pub struct R1CSProofParts {
    pub comm_vars: PolyCommitment,
    pub sc_proof_phase1: ZKSumcheckInstanceProof,
    pub claims_phase2: (Point, Point, Point, Point),
    pub pok_claims_phase2: (KnowledgeProof, ProductProof),
    pub proof_eq_sc_phase1: EqualityProof,
    pub sc_proof_phase2: ZKSumcheckInstanceProof,
    pub comm_vars_at_ry: Point,
    pub proof_eval_vars_at_ry: PolyEvalProof,
    pub proof_eq_sc_phase2: EqualityProof,
}

impl R1CSProofParts {
    /// What the proof made of these parts holds.
    pub open spec fn view(&self) -> R1CSProofView {
        R1CSProofView {
            comm_vars: self.comm_vars@,
            sc_proof_phase1: self.sc_proof_phase1@,
            comm_az: self.claims_phase2.0@,
            comm_bz: self.claims_phase2.1@,
            comm_cz: self.claims_phase2.2@,
            comm_prod: self.claims_phase2.3@,
            pok_cz: self.pok_claims_phase2.0@,
            proof_prod: self.pok_claims_phase2.1@,
            proof_eq_sc_phase1: self.proof_eq_sc_phase1@,
            sc_proof_phase2: self.sc_proof_phase2@,
            comm_vars_at_ry: self.comm_vars_at_ry@,
            proof_eval_vars_at_ry: self.proof_eval_vars_at_ry@,
            proof_eq_sc_phase2: self.proof_eq_sc_phase2@,
        }
    }
}

impl R1CSProof {
    /// The proof with the given parts.
    pub fn from_parts(parts: R1CSProofParts) -> (r: Self)
        ensures
            r@ == parts.view(),
    {
        R1CSProof {
            comm_vars: parts.comm_vars,
            sc_proof_phase1: parts.sc_proof_phase1,
            claims_phase2: parts.claims_phase2,
            pok_claims_phase2: parts.pok_claims_phase2,
            proof_eq_sc_phase1: parts.proof_eq_sc_phase1,
            sc_proof_phase2: parts.sc_proof_phase2,
            comm_vars_at_ry: parts.comm_vars_at_ry,
            proof_eval_vars_at_ry: parts.proof_eval_vars_at_ry,
            proof_eq_sc_phase2: parts.proof_eq_sc_phase2,
        }
    }

    /// The parts of the proof.
    pub fn into_parts(self) -> (r: R1CSProofParts)
        ensures
            r.view() == self@,
    {
        R1CSProofParts {
            comm_vars: self.comm_vars,
            sc_proof_phase1: self.sc_proof_phase1,
            claims_phase2: self.claims_phase2,
            pok_claims_phase2: self.pok_claims_phase2,
            proof_eq_sc_phase1: self.proof_eq_sc_phase1,
            sc_proof_phase2: self.sc_proof_phase2,
            comm_vars_at_ry: self.comm_vars_at_ry,
            proof_eval_vars_at_ry: self.proof_eval_vars_at_ry,
            proof_eq_sc_phase2: self.proof_eq_sc_phase2,
        }
    }
}

} // verus!
