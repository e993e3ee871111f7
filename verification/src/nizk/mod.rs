use vstd::prelude::*;
use crate::algebra::{
    congruent, lemma_assoc, lemma_comm, lemma_congruent_add, lemma_congruent_mul,
    lemma_congruent_reduced, lemma_dist, lemma_fadd, lemma_fmul, lemma_fsub,
};
use crate::commitments::{commitment_single, Commitments, MultiCommitGens};
use crate::errors::ProofVerifyError;
use crate::group::Point;
use crate::random::RandomTape;
use crate::scalar::{fadd, fmul, fsub, Scalar};
use crate::transcript::{
    challenge_scalar, log_append_point, log_append_protocol_name, log_challenge, marker, tag,
    AppendToTranscript, Log, ProofTranscript,
};
use merlin::Transcript;

pub mod bullet;
pub mod completeness;
pub mod dot_product;
pub mod dot_product_log;

pub use self::dot_product::{DotProductProof, DotProductProofGens};
pub use self::dot_product_log::DotProductProofLog;

verus! {

/// A proof of knowledge of the value and the blind inside a commitment.
#[derive(Debug)]
pub struct KnowledgeProof {
    alpha: Point,
    z1: Scalar,
    z2: Scalar,
}

/// What a proof of knowledge holds.
pub struct KnowledgeProofView {
    pub alpha: nat,
    pub z1: nat,
    pub z2: nat,
}

/// What the prover of knowledge hands back and leaves behind.
pub struct KnowledgeProved {
    pub proof: KnowledgeProofView,
    pub commitment: nat,
    pub log: Log,
    pub tape: Log,
}

impl View for KnowledgeProof {
    type V = KnowledgeProofView;

    closed spec fn view(&self) -> KnowledgeProofView {
        KnowledgeProofView { alpha: self.alpha@, z1: self.z1@, z2: self.z2@ }
    }
}

/// The transcript once the commitment and the prover's first message are
/// absorbed.
pub open spec fn knowledge_log(log: Log, c: nat, alpha: nat) -> Log {
    log_append_point(
        log_append_point(
            log_append_protocol_name(log, tag("knowledge proof")),
            tag("C"),
            c,
        ),
        tag("alpha"),
        alpha,
    )
}

/// What the honest prover of knowledge of `(x, r)` does, under one
/// generator `g` and the blinding base `h`.
pub open spec fn knowledge_prove(g: nat, h: nat, log: Log, tape: Log, x: nat, r: nat)
    -> KnowledgeProved {
    let t1 = challenge_scalar(tape, tag("t1"));
    let tape1 = log_challenge(tape, tag("t1"));
    let t2 = challenge_scalar(tape1, tag("t2"));
    let commitment = commitment_single(x, r, g, h);
    let alpha = commitment_single(t1, t2, g, h);
    let log1 = knowledge_log(log, commitment, alpha);
    let c = challenge_scalar(log1, tag("c"));
    KnowledgeProved {
        proof: KnowledgeProofView { alpha, z1: fadd(fmul(x, c), t1), z2: fadd(fmul(r, c), t2) },
        commitment,
        log: log_challenge(log1, tag("c")),
        tape: log_challenge(tape1, tag("t2")),
    }
}

/// Whether the verifier accepts a proof of knowledge for a commitment.
pub open spec fn knowledge_accepts(g: nat, h: nat, log: Log, proof: KnowledgeProofView, c: nat)
    -> bool {
    let challenge = challenge_scalar(knowledge_log(log, c, proof.alpha), tag("c"));
    commitment_single(proof.z1, proof.z2, g, h) == fadd(fmul(c, challenge), proof.alpha)
}

impl KnowledgeProof {
    fn protocol_name() -> (r: &'static [u8])
        ensures
            r@ == tag("knowledge proof"),
            r@.len() <= u32::MAX,
    {
        proof {
            reveal_strlit("knowledge proof");
        }
        marker("knowledge proof")
    }

    /// Proves knowledge of the value `x` and the blind `r` of a commitment, and
    /// hands back the commitment with the proof.
    pub fn prove(
        gens_n: &MultiCommitGens,
        transcript: &mut Transcript,
        random_tape: &mut RandomTape,
        x: &Scalar,
        r: &Scalar,
    ) -> (res: (KnowledgeProof, Point))
        requires
            gens_n.n == 1,
            gens_n.G@.len() == 1,
        ensures
            ({
                let p = knowledge_prove(
                    gens_n.G@[0]@,
                    gens_n.h@,
                    old(transcript).log(),
                    old(random_tape)@,
                    x@,
                    r@,
                );
                &&& res.0@ == p.proof
                &&& res.1@ == p.commitment
                &&& final(transcript).log() == p.log
                &&& final(random_tape)@ == p.tape
            }),
    {
        transcript.append_protocol_name(KnowledgeProof::protocol_name());

        let t1 = random_tape.random_scalar("t1".as_bytes());
        let t2 = random_tape.random_scalar("t2".as_bytes());

        let c_point = x.commit(r, gens_n);
        c_point.append_to_transcript("C".as_bytes(), transcript);

        let alpha = t1.commit(&t2, gens_n);
        alpha.append_to_transcript("alpha".as_bytes(), transcript);

        let c = transcript.challenge_scalar("c".as_bytes());

        let z1 = x.mul(&c).add(&t1);
        let z2 = r.mul(&c).add(&t2);

        (KnowledgeProof { alpha, z1, z2 }, c_point)
    }

    /// Checks a proof of knowledge for the commitment `c`.
    pub fn verify(&self, gens_n: &MultiCommitGens, transcript: &mut Transcript, c: &Point) -> (res:
        Result<(), ProofVerifyError>)
        ensures
            gens_n.n == 1 && gens_n.G@.len() == 1 ==> {
                &&& res is Ok <==> knowledge_accepts(
                    gens_n.G@[0]@,
                    gens_n.h@,
                    old(transcript).log(),
                    self@,
                    c@,
                )
                &&& final(transcript).log() == log_challenge(
                    knowledge_log(old(transcript).log(), c@, self@.alpha),
                    tag("c"),
                )
            },
            !(gens_n.n == 1 && gens_n.G@.len() == 1) ==> res is Err && final(transcript).log() == old(
                transcript,
            ).log(),
            res is Err ==> res == Err::<(), ProofVerifyError>(ProofVerifyError::VerificationFailed),
    {
        if gens_n.n != 1 || gens_n.G.len() != 1 {
            return Err(ProofVerifyError::VerificationFailed);
        }
        transcript.append_protocol_name(KnowledgeProof::protocol_name());
        c.append_to_transcript("C".as_bytes(), transcript);
        self.alpha.append_to_transcript("alpha".as_bytes(), transcript);

        let challenge = transcript.challenge_scalar("c".as_bytes());

        let lhs = self.z1.commit(&self.z2, gens_n);
        let rhs = c.mul(&challenge).add(&self.alpha);

        if lhs.equals(&rhs) {
            Ok(())
        } else {
            Err(ProofVerifyError::VerificationFailed)
        }
    }
}

/// Every proof that the honest prover of knowledge makes is accepted, on a
/// transcript with the same past, for the commitment that it handed back.
pub proof fn knowledge_proof_complete(g: nat, h: nat, log: Log, tape: Log, x: nat, r: nat)
    ensures
        ({
            let p = knowledge_prove(g, h, log, tape, x, r);
            knowledge_accepts(g, h, log, p.proof, p.commitment)
        }),
{
    let p = knowledge_prove(g, h, log, tape, x, r);
    let t1 = challenge_scalar(tape, tag("t1"));
    let t2 = challenge_scalar(log_challenge(tape, tag("t1")), tag("t2"));
    let alpha = p.proof.alpha;
    let c = challenge_scalar(knowledge_log(log, p.commitment, alpha), tag("c"));
    let (gi, hi, xi, ri, ci, t1i, t2i) = (
        g as int,
        h as int,
        x as int,
        r as int,
        c as int,
        t1 as int,
        t2 as int,
    );
    // the left side
    lemma_fmul(x, c, xi, ci);
    lemma_fadd(fmul(x, c), t1, xi * ci, t1i);
    lemma_fmul(r, c, ri, ci);
    lemma_fadd(fmul(r, c), t2, ri * ci, t2i);
    lemma_fmul(g, p.proof.z1, gi, xi * ci + t1i);
    lemma_fmul(h, p.proof.z2, hi, ri * ci + t2i);
    lemma_fadd(
        fmul(g, p.proof.z1),
        fmul(h, p.proof.z2),
        gi * (xi * ci + t1i),
        hi * (ri * ci + t2i),
    );
    // the right side
    lemma_fmul(g, x, gi, xi);
    lemma_fmul(h, r, hi, ri);
    lemma_fadd(fmul(g, x), fmul(h, r), gi * xi, hi * ri);
    lemma_fmul(g, t1, gi, t1i);
    lemma_fmul(h, t2, hi, t2i);
    lemma_fadd(fmul(g, t1), fmul(h, t2), gi * t1i, hi * t2i);
    lemma_fmul(p.commitment, c, gi * xi + hi * ri, ci);
    lemma_fadd(fmul(p.commitment, c), alpha, (gi * xi + hi * ri) * ci, gi * t1i + hi * t2i);
    lemma_dist(gi, xi * ci, t1i);
    lemma_dist(hi, ri * ci, t2i);
    lemma_assoc(gi, xi, ci);
    lemma_assoc(hi, ri, ci);
    lemma_dist(ci, gi * xi, hi * ri);
    lemma_congruent_reduced(
        commitment_single(p.proof.z1, p.proof.z2, g, h),
        fadd(fmul(p.commitment, c), alpha),
    );
}

/// A proof that two commitments hold the same value.
#[derive(Debug)]
pub struct EqualityProof {
    alpha: Point,
    z: Scalar,
}

/// What a proof of equality holds.
pub struct EqualityProofView {
    pub alpha: nat,
    pub z: nat,
}

/// What the prover of equality hands back and leaves behind.
pub struct EqualityProved {
    pub proof: EqualityProofView,
    pub c1: nat,
    pub c2: nat,
    pub log: Log,
    pub tape: Log,
}

impl View for EqualityProof {
    type V = EqualityProofView;

    closed spec fn view(&self) -> EqualityProofView {
        EqualityProofView { alpha: self.alpha@, z: self.z@ }
    }
}

/// The transcript once both commitments and the prover's first message
/// are absorbed.
pub open spec fn equality_log(log: Log, c1: nat, c2: nat, alpha: nat) -> Log {
    log_append_point(
        log_append_point(
            log_append_point(
                log_append_protocol_name(log, tag("equality proof")),
                tag("C1"),
                c1,
            ),
            tag("C2"),
            c2,
        ),
        tag("alpha"),
        alpha,
    )
}

/// What the honest prover of equality does for the commitments to `v1`
/// under the blind `blind1` and to `v2` under `blind2`.
pub open spec fn equality_prove(
    g: nat,
    h: nat,
    log: Log,
    tape: Log,
    v1: nat,
    blind1: nat,
    v2: nat,
    blind2: nat,
) -> EqualityProved {
    let r = challenge_scalar(tape, tag("r"));
    let c1 = commitment_single(v1, blind1, g, h);
    let c2 = commitment_single(v2, blind2, g, h);
    let alpha = fmul(h, r);
    let log1 = equality_log(log, c1, c2, alpha);
    let c = challenge_scalar(log1, tag("c"));
    EqualityProved {
        proof: EqualityProofView { alpha, z: fadd(fmul(c, fsub(blind1, blind2)), r) },
        c1,
        c2,
        log: log_challenge(log1, tag("c")),
        tape: log_challenge(tape, tag("r")),
    }
}

/// Whether the verifier accepts a proof of equality for two commitments.
pub open spec fn equality_accepts(h: nat, log: Log, proof: EqualityProofView, c1: nat, c2: nat)
    -> bool {
    let c = challenge_scalar(equality_log(log, c1, c2, proof.alpha), tag("c"));
    fmul(h, proof.z) == fadd(fmul(fsub(c1, c2), c), proof.alpha)
}

impl EqualityProof {
    fn protocol_name() -> (r: &'static [u8])
        ensures
            r@ == tag("equality proof"),
            r@.len() <= u32::MAX,
    {
        proof {
            reveal_strlit("equality proof");
        }
        marker("equality proof")
    }

    /// Proves that two commitments hold one value, and hands back the
    /// commitments to `v1` under `blind1` and to `v2` under `blind2` with the proof.
    pub fn prove(
        gens_n: &MultiCommitGens,
        transcript: &mut Transcript,
        random_tape: &mut RandomTape,
        v1: &Scalar,
        blind1: &Scalar,
        v2: &Scalar,
        blind2: &Scalar,
    ) -> (res: (Self, Point, Point))
        requires
            gens_n.n == 1,
            gens_n.G@.len() == 1,
        ensures
            ({
                let p = equality_prove(
                    gens_n.G@[0]@,
                    gens_n.h@,
                    old(transcript).log(),
                    old(random_tape)@,
                    v1@,
                    blind1@,
                    v2@,
                    blind2@,
                );
                &&& res.0@ == p.proof
                &&& res.1@ == p.c1
                &&& res.2@ == p.c2
                &&& final(transcript).log() == p.log
                &&& final(random_tape)@ == p.tape
            }),
    {
        transcript.append_protocol_name(EqualityProof::protocol_name());

        let r = random_tape.random_scalar("r".as_bytes());

        let c1 = v1.commit(blind1, gens_n);
        c1.append_to_transcript("C1".as_bytes(), transcript);

        let c2 = v2.commit(blind2, gens_n);
        c2.append_to_transcript("C2".as_bytes(), transcript);

        let alpha = gens_n.h.mul(&r);
        alpha.append_to_transcript("alpha".as_bytes(), transcript);

        let c = transcript.challenge_scalar("c".as_bytes());

        let z = c.mul(&blind1.sub(blind2)).add(&r);

        (EqualityProof { alpha, z }, c1, c2)
    }

    /// Checks a proof that the commitments `c1` and `c2` hold one value.
    pub fn verify(
        &self,
        gens_n: &MultiCommitGens,
        transcript: &mut Transcript,
        c1: &Point,
        c2: &Point,
    ) -> (res: Result<(), ProofVerifyError>)
        ensures
            res is Ok <==> equality_accepts(gens_n.h@, old(transcript).log(), self@, c1@, c2@),
            res is Err ==> res == Err::<(), ProofVerifyError>(ProofVerifyError::VerificationFailed),
            final(transcript).log() == log_challenge(
                equality_log(old(transcript).log(), c1@, c2@, self@.alpha),
                tag("c"),
            ),
    {
        transcript.append_protocol_name(EqualityProof::protocol_name());
        c1.append_to_transcript("C1".as_bytes(), transcript);
        c2.append_to_transcript("C2".as_bytes(), transcript);
        self.alpha.append_to_transcript("alpha".as_bytes(), transcript);

        let c = transcript.challenge_scalar("c".as_bytes());
        let rhs = c1.sub(c2).mul(&c).add(&self.alpha);
        let lhs = gens_n.h.mul(&self.z);

        if lhs.equals(&rhs) {
            Ok(())
        } else {
            Err(ProofVerifyError::VerificationFailed)
        }
    }
}

/// Every proof that the honest prover of equality makes for two
/// commitments to one value is accepted, on a transcript with the same
/// past, for the commitments that it handed back.
pub proof fn equality_proof_complete(
    g: nat,
    h: nat,
    log: Log,
    tape: Log,
    v: nat,
    blind1: nat,
    blind2: nat,
)
    ensures
        ({
            let p = equality_prove(g, h, log, tape, v, blind1, v, blind2);
            equality_accepts(h, log, p.proof, p.c1, p.c2)
        }),
{
    let p = equality_prove(g, h, log, tape, v, blind1, v, blind2);
    let r = challenge_scalar(tape, tag("r"));
    let c = challenge_scalar(equality_log(log, p.c1, p.c2, p.proof.alpha), tag("c"));
    let (gi, hi, vi, b1i, b2i, ri, ci) = (
        g as int,
        h as int,
        v as int,
        blind1 as int,
        blind2 as int,
        r as int,
        c as int,
    );
    // the left side
    lemma_fsub(blind1, blind2, b1i, b2i);
    lemma_fmul(c, fsub(blind1, blind2), ci, b1i - b2i);
    lemma_fadd(fmul(c, fsub(blind1, blind2)), r, ci * (b1i - b2i), ri);
    lemma_fmul(h, p.proof.z, hi, ci * (b1i - b2i) + ri);
    // the right side
    lemma_fmul(g, v, gi, vi);
    lemma_fmul(h, blind1, hi, b1i);
    lemma_fmul(h, blind2, hi, b2i);
    lemma_fadd(fmul(g, v), fmul(h, blind1), gi * vi, hi * b1i);
    lemma_fadd(fmul(g, v), fmul(h, blind2), gi * vi, hi * b2i);
    lemma_fsub(p.c1, p.c2, gi * vi + hi * b1i, gi * vi + hi * b2i);
    lemma_fmul(fsub(p.c1, p.c2), c, (gi * vi + hi * b1i) - (gi * vi + hi * b2i), ci);
    lemma_fmul(h, r, hi, ri);
    lemma_fadd(
        fmul(fsub(p.c1, p.c2), c),
        p.proof.alpha,
        ((gi * vi + hi * b1i) - (gi * vi + hi * b2i)) * ci,
        hi * ri,
    );
    lemma_dist(hi, ci * (b1i - b2i), ri);
    lemma_dist(ci, b1i, b2i);
    lemma_dist(hi, ci * b1i, ci * b2i);
    lemma_dist(ci, hi * b1i, hi * b2i);
    assert(hi * (ci * b1i) == (hi * b1i) * ci) by (nonlinear_arith);
    assert(hi * (ci * b2i) == (hi * b2i) * ci) by (nonlinear_arith);
    lemma_congruent_reduced(fmul(h, p.proof.z), fadd(fmul(fsub(p.c1, p.c2), c), p.proof.alpha));
}

/// A proof that the third of three commitments holds the product of the
/// values in the first two.
#[derive(Debug)]
pub struct ProductProof {
    alpha: Point,
    beta: Point,
    delta: Point,
    z: [Scalar; 5],
}

/// What a proof of a product holds.
pub struct ProductProofView {
    pub alpha: nat,
    pub beta: nat,
    pub delta: nat,
    pub z: Seq<nat>,
}

/// What the prover of a product hands back and leaves behind.
pub struct ProductProved {
    pub proof: ProductProofView,
    pub x: nat,
    pub y: nat,
    pub z: nat,
    pub log: Log,
    pub tape: Log,
}

impl View for ProductProof {
    type V = ProductProofView;

    closed spec fn view(&self) -> ProductProofView {
        ProductProofView {
            alpha: self.alpha@,
            beta: self.beta@,
            delta: self.delta@,
            z: self.z.deep_view(),
        }
    }
}

/// The transcript once the three commitments and the prover's first
/// messages are absorbed.
pub open spec fn product_log(
    log: Log,
    x: nat,
    y: nat,
    z: nat,
    alpha: nat,
    beta: nat,
    delta: nat,
) -> Log {
    let log0 = log_append_protocol_name(log, tag("product proof"));
    let log1 = log_append_point(log0, tag("X"), x);
    let log2 = log_append_point(log1, tag("Y"), y);
    let log3 = log_append_point(log2, tag("Z"), z);
    let log4 = log_append_point(log3, tag("alpha"), alpha);
    let log5 = log_append_point(log4, tag("beta"), beta);
    log_append_point(log5, tag("delta"), delta)
}

/// The tape after the five blinds of the prover of a product are taken.
pub open spec fn product_tape(tape: Log, k: nat) -> Log
    decreases k,
{
    if k == 0 {
        tape
    } else if k == 1 {
        log_challenge(product_tape(tape, 0), tag("b1"))
    } else if k == 2 {
        log_challenge(product_tape(tape, 1), tag("b2"))
    } else if k == 3 {
        log_challenge(product_tape(tape, 2), tag("b3"))
    } else if k == 4 {
        log_challenge(product_tape(tape, 3), tag("b4"))
    } else {
        log_challenge(product_tape(tape, 4), tag("b5"))
    }
}

/// What the honest prover of a product does for commitments to `x`, `y`
/// and `z` under the blinds `rx`, `ry` and `rz`.
pub open spec fn product_prove(
    g: nat,
    h: nat,
    log: Log,
    tape: Log,
    x: nat,
    rx: nat,
    y: nat,
    ry: nat,
    z: nat,
    rz: nat,
) -> ProductProved {
    let b1 = challenge_scalar(product_tape(tape, 0), tag("b1"));
    let b2 = challenge_scalar(product_tape(tape, 1), tag("b2"));
    let b3 = challenge_scalar(product_tape(tape, 2), tag("b3"));
    let b4 = challenge_scalar(product_tape(tape, 3), tag("b4"));
    let b5 = challenge_scalar(product_tape(tape, 4), tag("b5"));
    let cx = commitment_single(x, rx, g, h);
    let cy = commitment_single(y, ry, g, h);
    let cz = commitment_single(z, rz, g, h);
    let alpha = commitment_single(b1, b2, g, h);
    let beta = commitment_single(b3, b4, g, h);
    let delta = commitment_single(b3, b5, cx, h);
    let log1 = product_log(log, cx, cy, cz, alpha, beta, delta);
    let c = challenge_scalar(log1, tag("c"));
    ProductProved {
        proof: ProductProofView {
            alpha,
            beta,
            delta,
            z: seq![
                fadd(b1, fmul(c, x)),
                fadd(b2, fmul(c, rx)),
                fadd(b3, fmul(c, y)),
                fadd(b4, fmul(c, ry)),
                fadd(b5, fmul(c, fsub(rz, fmul(rx, y)))),
            ],
        },
        x: cx,
        y: cy,
        z: cz,
        log: log_challenge(log1, tag("c")),
        tape: product_tape(tape, 5),
    }
}

/// Whether a commitment `x` taken `c` times and added to `p` is the
/// commitment to `z1` under the blind `z2`.
pub open spec fn opens_to(p: nat, x: nat, c: nat, g: nat, h: nat, z1: nat, z2: nat) -> bool {
    fadd(p, fmul(x, c)) == commitment_single(z1, z2, g, h)
}

/// Whether the verifier accepts a proof of a product for three
/// commitments.
pub open spec fn product_accepts(
    g: nat,
    h: nat,
    log: Log,
    proof: ProductProofView,
    x: nat,
    y: nat,
    z: nat,
) -> bool {
    let c = challenge_scalar(
        product_log(log, x, y, z, proof.alpha, proof.beta, proof.delta),
        tag("c"),
    );
    &&& opens_to(proof.alpha, x, c, g, h, proof.z[0], proof.z[1])
    &&& opens_to(proof.beta, y, c, g, h, proof.z[2], proof.z[3])
    &&& opens_to(proof.delta, z, c, x, h, proof.z[2], proof.z[4])
}

impl ProductProof {
    fn protocol_name() -> (r: &'static [u8])
        ensures
            r@ == tag("product proof"),
            r@.len() <= u32::MAX,
    {
        proof {
            reveal_strlit("product proof");
        }
        marker("product proof")
    }

    /// Proves that `z` is the product of `x` and `y`, and hands back the
    /// commitments to the three with the proof.
    pub fn prove(
        gens_n: &MultiCommitGens,
        transcript: &mut Transcript,
        random_tape: &mut RandomTape,
        x: &Scalar,
        rx: &Scalar,
        y: &Scalar,
        ry: &Scalar,
        z: &Scalar,
        rz: &Scalar,
    ) -> (res: (Self, Point, Point, Point))
        requires
            gens_n.n == 1,
            gens_n.G@.len() == 1,
        ensures
            ({
                let p = product_prove(
                    gens_n.G@[0]@,
                    gens_n.h@,
                    old(transcript).log(),
                    old(random_tape)@,
                    x@,
                    rx@,
                    y@,
                    ry@,
                    z@,
                    rz@,
                );
                &&& res.0@ == p.proof
                &&& res.1@ == p.x
                &&& res.2@ == p.y
                &&& res.3@ == p.z
                &&& final(transcript).log() == p.log
                &&& final(random_tape)@ == p.tape
            }),
    {
        transcript.append_protocol_name(ProductProof::protocol_name());

        let ghost tape = random_tape@;
        let b1 = random_tape.random_scalar("b1".as_bytes());
        let b2 = random_tape.random_scalar("b2".as_bytes());
        let b3 = random_tape.random_scalar("b3".as_bytes());
        let b4 = random_tape.random_scalar("b4".as_bytes());
        let b5 = random_tape.random_scalar("b5".as_bytes());
        proof {
            reveal_with_fuel(product_tape, 6);
            assert(random_tape@ == product_tape(tape, 5));
        }

        let cx = x.commit(rx, gens_n);
        cx.append_to_transcript("X".as_bytes(), transcript);

        let cy = y.commit(ry, gens_n);
        cy.append_to_transcript("Y".as_bytes(), transcript);

        let cz = z.commit(rz, gens_n);
        cz.append_to_transcript("Z".as_bytes(), transcript);

        let alpha = b1.commit(&b2, gens_n);
        alpha.append_to_transcript("alpha".as_bytes(), transcript);

        let beta = b3.commit(&b4, gens_n);
        beta.append_to_transcript("beta".as_bytes(), transcript);

        let gens_x = MultiCommitGens { n: 1, G: vec![cx], h: gens_n.h };
        let delta = b3.commit(&b5, &gens_x);
        delta.append_to_transcript("delta".as_bytes(), transcript);

        let c = transcript.challenge_scalar("c".as_bytes());

        let z1 = b1.add(&c.mul(x));
        let z2 = b2.add(&c.mul(rx));
        let z3 = b3.add(&c.mul(y));
        let z4 = b4.add(&c.mul(ry));
        let z5 = b5.add(&c.mul(&rz.sub(&rx.mul(y))));
        let z = [z1, z2, z3, z4, z5];
        let proof_made = ProductProof { alpha, beta, delta, z };
        proof {
            assert(proof_made@.z =~= seq![z1@, z2@, z3@, z4@, z5@]);
        }
        (proof_made, cx, cy, cz)
    }

    fn check_equality(
        p: &Point,
        x: &Point,
        c: &Scalar,
        gens_n: &MultiCommitGens,
        z1: &Scalar,
        z2: &Scalar,
    ) -> (r: bool)
        requires
            gens_n.n == 1,
            gens_n.G@.len() == 1,
        ensures
            r == opens_to(p@, x@, c@, gens_n.G@[0]@, gens_n.h@, z1@, z2@),
    {
        let lhs = p.add(&x.mul(c));
        let rhs = z1.commit(z2, gens_n);
        lhs.equals(&rhs)
    }

    /// Checks a proof that the commitment `z` holds the product of the values in
    /// the commitments `x` and `y`.
    pub fn verify(
        &self,
        gens_n: &MultiCommitGens,
        transcript: &mut Transcript,
        x: &Point,
        y: &Point,
        z: &Point,
    ) -> (res: Result<(), ProofVerifyError>)
        ensures
            gens_n.n == 1 && gens_n.G@.len() == 1 ==> {
                &&& res is Ok <==> product_accepts(
                    gens_n.G@[0]@,
                    gens_n.h@,
                    old(transcript).log(),
                    self@,
                    x@,
                    y@,
                    z@,
                )
                &&& final(transcript).log() == log_challenge(
                    product_log(
                        old(transcript).log(),
                        x@,
                        y@,
                        z@,
                        self@.alpha,
                        self@.beta,
                        self@.delta,
                    ),
                    tag("c"),
                )
            },
            !(gens_n.n == 1 && gens_n.G@.len() == 1) ==> res is Err && final(transcript).log() == old(
                transcript,
            ).log(),
            res is Err ==> res == Err::<(), ProofVerifyError>(ProofVerifyError::VerificationFailed),
    {
        if gens_n.n != 1 || gens_n.G.len() != 1 {
            return Err(ProofVerifyError::VerificationFailed);
        }
        transcript.append_protocol_name(ProductProof::protocol_name());

        x.append_to_transcript("X".as_bytes(), transcript);
        y.append_to_transcript("Y".as_bytes(), transcript);
        z.append_to_transcript("Z".as_bytes(), transcript);
        self.alpha.append_to_transcript("alpha".as_bytes(), transcript);
        self.beta.append_to_transcript("beta".as_bytes(), transcript);
        self.delta.append_to_transcript("delta".as_bytes(), transcript);

        let z1 = self.z[0];
        let z2 = self.z[1];
        let z3 = self.z[2];
        let z4 = self.z[3];
        let z5 = self.z[4];

        let c = transcript.challenge_scalar("c".as_bytes());
        let gens_x = MultiCommitGens { n: 1, G: vec![*x], h: gens_n.h };

        if ProductProof::check_equality(&self.alpha, x, &c, gens_n, &z1, &z2)
            && ProductProof::check_equality(&self.beta, y, &c, gens_n, &z3, &z4)
            && ProductProof::check_equality(&self.delta, z, &c, &gens_x, &z3, &z5) {
            Ok(())
        } else {
            Err(ProofVerifyError::VerificationFailed)
        }
    }
}

/// A commitment `p` to `b` under the blind `bb`, added to `c` times a
/// commitment to `v` under the blind `w`, is the commitment to `b + c v`
/// under the blind `bb + c w`.
pub proof fn lemma_opens_to(g: nat, h: nat, b: nat, bb: nat, c: nat, x: nat, v: nat, w: nat)
    requires
        congruent(x as int, (g * v + h * w) as int),
    ensures
        opens_to(
            commitment_single(b, bb, g, h),
            x,
            c,
            g,
            h,
            fadd(b, fmul(c, v)),
            fadd(bb, fmul(c, w)),
        ),
{
    let (gi, hi, bi, bbi, ci, vi, wi) = (
        g as int,
        h as int,
        b as int,
        bb as int,
        c as int,
        v as int,
        w as int,
    );
    let p = commitment_single(b, bb, g, h);
    // the left side
    lemma_fmul(g, b, gi, bi);
    lemma_fmul(h, bb, hi, bbi);
    lemma_fadd(fmul(g, b), fmul(h, bb), gi * bi, hi * bbi);
    lemma_fmul(x, c, gi * vi + hi * wi, ci);
    lemma_fadd(p, fmul(x, c), gi * bi + hi * bbi, (gi * vi + hi * wi) * ci);
    // the right side
    lemma_fmul(c, v, ci, vi);
    lemma_fmul(c, w, ci, wi);
    lemma_fadd(b, fmul(c, v), bi, ci * vi);
    lemma_fadd(bb, fmul(c, w), bbi, ci * wi);
    lemma_fmul(g, fadd(b, fmul(c, v)), gi, bi + ci * vi);
    lemma_fmul(h, fadd(bb, fmul(c, w)), hi, bbi + ci * wi);
    lemma_fadd(
        fmul(g, fadd(b, fmul(c, v))),
        fmul(h, fadd(bb, fmul(c, w))),
        gi * (bi + ci * vi),
        hi * (bbi + ci * wi),
    );
    lemma_dist(ci, gi * vi, hi * wi);
    lemma_dist(gi, bi, ci * vi);
    lemma_dist(hi, bbi, ci * wi);
    lemma_assoc(gi, vi, ci);
    lemma_assoc(hi, wi, ci);
    lemma_comm(vi, ci);
    lemma_comm(wi, ci);
    lemma_congruent_reduced(
        fadd(p, fmul(x, c)),
        commitment_single(fadd(b, fmul(c, v)), fadd(bb, fmul(c, w)), g, h),
    );
}

/// A commitment to `x` under the blind `r` stands for `g x + h r`.
pub proof fn lemma_commitment_single(x: nat, r: nat, g: nat, h: nat)
    ensures
        congruent(commitment_single(x, r, g, h) as int, (g * x + h * r) as int),
        commitment_single(x, r, g, h) < crate::scalar::modulus(),
{
    lemma_fmul(g, x, g as int, x as int);
    lemma_fmul(h, r, h as int, r as int);
    lemma_fadd(fmul(g, x), fmul(h, r), (g * x) as int, (h * r) as int);
}

/// Every proof that the honest prover of a product makes for commitments
/// to `x`, to `y` and to their product is accepted, on a transcript with
/// the same past, for the commitments that it handed back.
pub proof fn product_proof_complete(
    g: nat,
    h: nat,
    log: Log,
    tape: Log,
    x: nat,
    rx: nat,
    y: nat,
    ry: nat,
    rz: nat,
)
    ensures
        ({
            let p = product_prove(g, h, log, tape, x, rx, y, ry, fmul(x, y), rz);
            product_accepts(g, h, log, p.proof, p.x, p.y, p.z)
        }),
{
    let z = fmul(x, y);
    let p = product_prove(g, h, log, tape, x, rx, y, ry, z, rz);
    let b1 = challenge_scalar(product_tape(tape, 0), tag("b1"));
    let b2 = challenge_scalar(product_tape(tape, 1), tag("b2"));
    let b3 = challenge_scalar(product_tape(tape, 2), tag("b3"));
    let b4 = challenge_scalar(product_tape(tape, 3), tag("b4"));
    let b5 = challenge_scalar(product_tape(tape, 4), tag("b5"));
    let c = challenge_scalar(
        product_log(log, p.x, p.y, p.z, p.proof.alpha, p.proof.beta, p.proof.delta),
        tag("c"),
    );
    lemma_commitment_single(x, rx, g, h);
    lemma_commitment_single(y, ry, g, h);
    lemma_opens_to(g, h, b1, b2, c, p.x, x, rx);
    lemma_opens_to(g, h, b3, b4, c, p.y, y, ry);
    // the commitment to the product is one to `y` under the first
    // commitment as its generator
    let w = fsub(rz, fmul(rx, y));
    let (gi, hi, xi, yi, rxi, rzi) = (g as int, h as int, x as int, y as int, rx as int, rz as int);
    lemma_fmul(x, y, xi, yi);
    lemma_fmul(g, z, gi, xi * yi);
    lemma_fmul(h, rz, hi, rzi);
    lemma_fadd(fmul(g, z), fmul(h, rz), gi * (xi * yi), hi * rzi);
    lemma_fmul(rx, y, rxi, yi);
    lemma_fsub(rz, fmul(rx, y), rzi, rxi * yi);
    lemma_congruent_mul(p.x as int, yi, gi * xi + hi * rxi, yi);
    lemma_congruent_mul(hi, w as int, hi, rzi - rxi * yi);
    lemma_congruent_add(
        (p.x * y) as int,
        hi * w,
        (gi * xi + hi * rxi) * yi,
        hi * (rzi - rxi * yi),
    );
    lemma_dist(yi, gi * xi, hi * rxi);
    lemma_dist(hi, rzi, rxi * yi);
    lemma_assoc(gi, xi, yi);
    lemma_assoc(hi, rxi, yi);
    lemma_opens_to(p.x, h, b3, b5, c, p.z, y, w);
}

impl KnowledgeProof {
    /// The proof with the given parts.
    pub fn from_parts(alpha: Point, z1: Scalar, z2: Scalar) -> (r: Self)
        ensures
            r@ == (KnowledgeProofView { alpha: alpha@, z1: z1@, z2: z2@ }),
    {
        KnowledgeProof { alpha, z1, z2 }
    }

    /// The prover's first message.
    pub fn alpha(&self) -> (r: Point)
        ensures
            r@ == self@.alpha,
    {
        self.alpha
    }

    /// The response for the value.
    pub fn z1(&self) -> (r: Scalar)
        ensures
            r@ == self@.z1,
    {
        self.z1
    }

    /// The response for the blind.
    pub fn z2(&self) -> (r: Scalar)
        ensures
            r@ == self@.z2,
    {
        self.z2
    }
}

impl EqualityProof {
    /// The proof with the given parts.
    pub fn from_parts(alpha: Point, z: Scalar) -> (r: Self)
        ensures
            r@ == (EqualityProofView { alpha: alpha@, z: z@ }),
    {
        EqualityProof { alpha, z }
    }

    /// The prover's first message.
    pub fn alpha(&self) -> (r: Point)
        ensures
            r@ == self@.alpha,
    {
        self.alpha
    }

    /// The response.
    pub fn z(&self) -> (r: Scalar)
        ensures
            r@ == self@.z,
    {
        self.z
    }
}

impl ProductProof {
    /// The proof with the given parts.
    pub fn from_parts(alpha: Point, beta: Point, delta: Point, z: [Scalar; 5]) -> (r: Self)
        ensures
            r@ == (ProductProofView {
                alpha: alpha@,
                beta: beta@,
                delta: delta@,
                z: z.deep_view(),
            }),
    {
        ProductProof { alpha, beta, delta, z }
    }

    /// The prover's three first messages.
    pub fn messages(&self) -> (r: (Point, Point, Point))
        ensures
            r.0@ == self@.alpha,
            r.1@ == self@.beta,
            r.2@ == self@.delta,
    {
        (self.alpha, self.beta, self.delta)
    }

    /// The five responses.
    pub fn z(&self) -> (r: [Scalar; 5])
        ensures
            r.deep_view() == self@.z,
    {
        self.z
    }
}

} // verus!
