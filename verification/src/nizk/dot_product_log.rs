use vstd::prelude::*;
use crate::commitments::{commitment, commitment_single, Commitments, MultiCommitGens};
use crate::errors::ProofVerifyError;
use crate::group::Point;
use crate::math::{exact_log_2, floor_log_2, is_power_of_two};
use crate::nizk::bullet::{
    bullet_prove, bullet_verify, BulletProofView, BulletReductionProof,
};
use crate::nizk::dot_product::{
    dot_product_bases, dot_product_statement, DotProductBases, DotProductProof,
    DotProductProofGens,
};
use crate::random::RandomTape;
use crate::scalar::{fadd, fmul, Scalar};
use crate::transcript::{
    challenge_scalar, challenge_vector, log_append_point, log_challenge, log_challenges, marker,
    tag, AppendToTranscript, Log, ProofTranscript,
};
use merlin::Transcript;

verus! {

/// A proof that one commitment holds a vector and another its inner
/// product with a public vector. Its size grows with the logarithm of the
/// vector's length.
#[derive(Debug)]
pub struct DotProductProofLog {
    bullet_reduction_proof: BulletReductionProof,
    delta: Point,
    beta: Point,
    z1: Scalar,
    z2: Scalar,
}

/// What a short proof of an inner product holds.
pub struct DotProductProofLogView {
    pub bullet: BulletProofView,
    pub delta: nat,
    pub beta: nat,
    pub z1: nat,
    pub z2: nat,
}

/// What the prover of a short proof hands back and leaves behind.
pub struct DotProductLogProved {
    pub failed: bool,
    pub proof: DotProductProofLogView,
    pub cx: nat,
    pub cy: nat,
    pub log: Log,
    pub tape: Log,
}

impl View for DotProductProofLog {
    type V = DotProductProofLogView;

    closed spec fn view(&self) -> DotProductProofLogView {
        DotProductProofLogView {
            bullet: self.bullet_reduction_proof@,
            delta: self.delta@,
            beta: self.beta@,
            z1: self.z1@,
            z2: self.z2@,
        }
    }
}

/// The pairs of the entries of two vectors.
pub open spec fn zip(v1: Seq<nat>, v2: Seq<nat>) -> Seq<(nat, nat)> {
    Seq::new(v1.len(), |i: int| (v1[i], v2[i]))
}

/// The tape after the prover of a short proof has taken its three blinds
/// and, for vectors of length two to the power `rounds`, the first or both
/// of the two vectors of blinds of the reduction.
pub open spec fn dot_product_log_tape(tape: Log, rounds: nat, vectors: nat) -> Log {
    let tape1 = log_challenge(tape, tag("d"));
    let tape2 = log_challenge(tape1, tag("r_delta"));
    let tape3 = log_challenge(tape2, tag("r_beta"));
    let tape4 = log_challenges(tape3, tag("blinds_vec_1"), 2 * rounds);
    if vectors == 0 {
        tape3
    } else if vectors == 1 {
        tape4
    } else {
        log_challenges(tape4, tag("blinds_vec_2"), 2 * rounds)
    }
}

/// The transcript once the prover's last messages are absorbed.
pub open spec fn dot_product_log_closing(log: Log, delta: nat, beta: nat) -> Log {
    log_append_point(log_append_point(log, tag("delta"), delta), tag("beta"), beta)
}

/// What the honest prover of a short proof does for the vector `x` under
/// the blind `blind_x`, the public vector `a`, and the value `y` under the
/// blind `blind_y`, where the length of the vectors is a power of two.
pub open spec fn dot_product_log_prove(
    bases: DotProductBases,
    log: Log,
    tape: Log,
    x: Seq<nat>,
    blind_x: nat,
    a: Seq<nat>,
    y: nat,
    blind_y: nat,
) -> DotProductLogProved {
    let rounds = floor_log_2(x.len());
    let d = challenge_scalar(tape, tag("d"));
    let r_delta = challenge_scalar(log_challenge(tape, tag("d")), tag("r_delta"));
    let r_beta = challenge_scalar(
        log_challenge(log_challenge(tape, tag("d")), tag("r_delta")),
        tag("r_beta"),
    );
    let v1 = challenge_vector(dot_product_log_tape(tape, rounds, 0), tag("blinds_vec_1"), 2 * rounds);
    let v2 = challenge_vector(dot_product_log_tape(tape, rounds, 1), tag("blinds_vec_2"), 2 * rounds);
    let cx = commitment(x, blind_x, bases.gn, bases.hn);
    let cy = commitment_single(y, blind_y, bases.g1, bases.h1);
    let log1 = dot_product_statement(log, tag("dot product proof (log)"), cx, cy, a);
    let bp = bullet_prove(
        bases.g1,
        bases.hn,
        bases.gn,
        x,
        a,
        fadd(blind_x, blind_y),
        zip(v1, v2),
        log1,
    );
    let y_hat = fmul(bp.a_hat, bp.b_hat);
    let delta = commitment_single(d, r_delta, bp.g_hat, bases.h1);
    let beta = commitment_single(d, r_beta, bases.g1, bases.h1);
    let log2 = dot_product_log_closing(bp.log, delta, beta);
    let c = challenge_scalar(log2, tag("c"));
    DotProductLogProved {
        failed: bp.failed,
        proof: DotProductProofLogView {
            bullet: bp.proof,
            delta,
            beta,
            z1: fadd(d, fmul(c, y_hat)),
            z2: fadd(fmul(bp.b_hat, fadd(fmul(c, bp.blind_hat), r_beta)), r_delta),
        },
        cx,
        cy,
        log: if bp.failed {
            bp.log
        } else {
            log_challenge(log2, tag("c"))
        },
        tape: dot_product_log_tape(tape, rounds, 2),
    }
}

/// What the verifier of a short proof finds.
pub struct DotProductLogVerified {
    pub ok: bool,
    pub log: Log,
}

/// What the verifier of a short proof does for vectors of length `n`,
/// under generators for such vectors.
pub open spec fn dot_product_log_verify(
    bases: DotProductBases,
    n: nat,
    log: Log,
    proof: DotProductProofLogView,
    a: Seq<nat>,
    cx: nat,
    cy: nat,
) -> DotProductLogVerified {
    let log1 = dot_product_statement(log, tag("dot product proof (log)"), cx, cy, a);
    let v = bullet_verify(proof.bullet, n, a, log1, fadd(cx, cy), bases.gn);
    let log2 = dot_product_log_closing(v.log, proof.delta, proof.beta);
    let c = challenge_scalar(log2, tag("c"));
    let lhs = fadd(fmul(fadd(fmul(v.gamma_hat, c), proof.beta), v.a_hat), proof.delta);
    let rhs = fadd(
        fmul(fadd(v.g_hat, fmul(bases.g1, v.a_hat)), proof.z1),
        fmul(bases.h1, proof.z2),
    );
    if v.ok {
        DotProductLogVerified { ok: lhs == rhs, log: log_challenge(log2, tag("c")) }
    } else {
        DotProductLogVerified { ok: false, log: v.log }
    }
}

impl DotProductProofLog {
    fn protocol_name() -> (r: &'static [u8])
        ensures
            r@ == tag("dot product proof (log)"),
            r@.len() <= u32::MAX,
    {
        proof {
            reveal_strlit("dot product proof (log)");
        }
        marker("dot product proof (log)")
    }

    /// The inner product of two vectors of one length.
    pub fn compute_dotproduct(a: &[Scalar], b: &[Scalar]) -> (r: Scalar)
        requires
            a@.len() == b@.len(),
        ensures
            r@ == crate::scalar::inner_product(a.deep_view(), b.deep_view()),
    {
        DotProductProof::compute_dotproduct(a, b)
    }

    /// Whether generators and vectors fit the prover: the vectors have
    /// one length, a power of two, and the generators are made for it.
    pub open spec fn fits(gens: &DotProductProofGens, x_len: nat, a_len: nat) -> bool {
        &&& x_len == a_len
        &&& is_power_of_two(x_len)
        &&& Self::gens_fit(gens, x_len)
    }

    /// Whether generators are made for vectors of length `n`.
    pub open spec fn gens_fit(gens: &DotProductProofGens, n: nat) -> bool {
        &&& gens.n == n
        &&& gens.gens_n.n == n
        &&& gens.gens_n.G@.len() == n
        &&& gens.gens_1.n == 1
        &&& gens.gens_1.G@.len() == 1
    }

    /// Whether generators are made for vectors of length `n`.
    pub fn check_gens(gens: &DotProductProofGens, n: usize) -> (r: bool)
        ensures
            r == Self::gens_fit(gens, n as nat),
    {
        gens.n == n && gens.gens_n.n == n && gens.gens_n.G.len() == n && gens.gens_1.n == 1
            && gens.gens_1.G.len() == 1
    }

    /// Proves that `y` is the inner product of `x_vec` and the public `a_vec`, and
    /// hands back the commitments to `x_vec` and to `y` with the proof.
    /// Vectors and generators that do not fit together are refused, and a
    /// challenge of zero in the reduction ends the proof with an error.
    pub fn prove(
        gens: &DotProductProofGens,
        transcript: &mut Transcript,
        random_tape: &mut RandomTape,
        x_vec: &[Scalar],
        blind_x: &Scalar,
        a_vec: &[Scalar],
        y: &Scalar,
        blind_y: &Scalar,
    ) -> (res: Result<(Self, Point, Point), ProofVerifyError>)
        ensures
            ({
                let fits = Self::fits(gens, x_vec@.len() as nat, a_vec@.len() as nat);
                let p = dot_product_log_prove(
                    dot_product_bases(&gens.gens_1, &gens.gens_n),
                    old(transcript).log(),
                    old(random_tape)@,
                    x_vec.deep_view(),
                    blind_x@,
                    a_vec.deep_view(),
                    y@,
                    blind_y@,
                );
                &&& !fits ==> res is Err && res->Err_0 == ProofVerifyError::InvalidInput
                    && final(transcript).log() == old(transcript).log() && final(random_tape)@
                    == old(random_tape)@
                &&& fits ==> final(transcript).log() == p.log && final(random_tape)@ == p.tape
                &&& fits && p.failed ==> res is Err && res->Err_0
                    == ProofVerifyError::VerificationFailed
                &&& fits && !p.failed ==> res is Ok && res->Ok_0.0@ == p.proof && res->Ok_0.1@
                    == p.cx && res->Ok_0.2@ == p.cy
            }),
    {
        let n = x_vec.len();
        if a_vec.len() != n || !Self::check_gens(gens, n) {
            return Err(ProofVerifyError::InvalidInput);
        }
        let rounds = match exact_log_2(n) {
            Some(k) => k,
            None => {
                return Err(ProofVerifyError::InvalidInput);
            },
        };
        transcript.append_protocol_name(DotProductProofLog::protocol_name());

        let d = random_tape.random_scalar("d".as_bytes());
        let r_delta = random_tape.random_scalar("r_delta".as_bytes());
        let r_beta = random_tape.random_scalar("r_beta".as_bytes());
        let v1 = random_tape.random_vector("blinds_vec_1".as_bytes(), 2 * rounds);
        let v2 = random_tape.random_vector("blinds_vec_2".as_bytes(), 2 * rounds);
        let mut blinds_vec: Vec<(Scalar, Scalar)> = Vec::new();
        let mut i: usize = 0;
        while i < v1.len()
            invariant
                i <= v1@.len(),
                v1@.len() == v2@.len(),
                blinds_vec@.len() == i,
                forall|j: int| 0 <= j < i ==> blinds_vec@[j] == (v1@[j], v2@[j]),
            decreases v1@.len() - i,
        {
            blinds_vec.push((v1[i], v2[i]));
            i += 1;
        }
        let blinds = blinds_vec.as_slice();
        proof {
            assert(blinds.deep_view() =~= zip(v1.deep_view(), v2.deep_view()));
        }

        let cx = x_vec.commit(blind_x, &gens.gens_n);
        cx.append_to_transcript("Cx".as_bytes(), transcript);

        let cy = y.commit(blind_y, &gens.gens_1);
        cy.append_to_transcript("Cy".as_bytes(), transcript);

        a_vec.append_to_transcript("a".as_bytes(), transcript);

        let blind_gamma = blind_x.add(blind_y);
        let g_slice = gens.gens_n.G.as_slice();
        proof {
            assert(g_slice.deep_view() =~= gens.gens_n.bases());
        }
        let (bullet_reduction_proof, _gamma_hat, x_hat, a_hat, g_hat, rhat_gamma) =
            match BulletReductionProof::prove(
            transcript,
            &gens.gens_1.G[0],
            g_slice,
            &gens.gens_n.h,
            x_vec,
            a_vec,
            &blind_gamma,
            blinds,
        ) {
            Ok(t) => t,
            Err(e) => {
                return Err(e);
            },
        };
        let y_hat = x_hat.mul(&a_hat);

        let gens_hat = MultiCommitGens { n: 1, G: vec![g_hat], h: gens.gens_1.h };
        let delta = d.commit(&r_delta, &gens_hat);
        delta.append_to_transcript("delta".as_bytes(), transcript);

        let beta = d.commit(&r_beta, &gens.gens_1);
        beta.append_to_transcript("beta".as_bytes(), transcript);

        let c = transcript.challenge_scalar("c".as_bytes());

        let z1 = d.add(&c.mul(&y_hat));
        let z2 = a_hat.mul(&c.mul(&rhat_gamma).add(&r_beta)).add(&r_delta);

        Ok((DotProductProofLog { bullet_reduction_proof, delta, beta, z1, z2 }, cx, cy))
    }

    /// Checks a proof that `cy` holds the inner product of the vector of length `n`
    /// in `cx` with the public vector `a`.
    pub fn verify(
        &self,
        n: usize,
        gens: &DotProductProofGens,
        transcript: &mut Transcript,
        a: &[Scalar],
        cx: &Point,
        cy: &Point,
    ) -> (res: Result<(), ProofVerifyError>)
        ensures
            ({
                let fits = Self::gens_fit(gens, n as nat) && a@.len() == n;
                let v = dot_product_log_verify(
                    dot_product_bases(&gens.gens_1, &gens.gens_n),
                    n as nat,
                    old(transcript).log(),
                    self@,
                    a.deep_view(),
                    cx@,
                    cy@,
                );
                &&& res is Ok <==> fits && v.ok
                &&& res is Err ==> res->Err_0 == ProofVerifyError::VerificationFailed
                &&& final(transcript).log() == if fits {
                    v.log
                } else {
                    old(transcript).log()
                }
            }),
    {
        if !Self::check_gens(gens, n) || a.len() != n {
            return Err(ProofVerifyError::VerificationFailed);
        }
        transcript.append_protocol_name(DotProductProofLog::protocol_name());
        cx.append_to_transcript("Cx".as_bytes(), transcript);
        cy.append_to_transcript("Cy".as_bytes(), transcript);
        a.append_to_transcript("a".as_bytes(), transcript);

        let gamma = cx.add(cy);

        let g_slice = gens.gens_n.G.as_slice();
        proof {
            assert(g_slice.deep_view() =~= gens.gens_n.bases());
        }
        let (g_hat, gamma_hat, a_hat) = match self.bullet_reduction_proof.verify(
            n,
            a,
            transcript,
            &gamma,
            g_slice,
        ) {
            Ok(t) => t,
            Err(e) => {
                return Err(e);
            },
        };
        self.delta.append_to_transcript("delta".as_bytes(), transcript);
        self.beta.append_to_transcript("beta".as_bytes(), transcript);

        let c = transcript.challenge_scalar("c".as_bytes());

        let lhs = gamma_hat.mul(&c).add(&self.beta).mul(&a_hat).add(&self.delta);
        let rhs = g_hat.add(&gens.gens_1.G[0].mul(&a_hat)).mul(&self.z1).add(
            &gens.gens_1.h.mul(&self.z2),
        );

        if lhs.equals(&rhs) {
            Ok(())
        } else {
            Err(ProofVerifyError::VerificationFailed)
        }
    }
}

impl DotProductProofLog {
    /// The proof with the given parts.
    pub fn from_parts(
        bullet_reduction_proof: BulletReductionProof,
        delta: Point,
        beta: Point,
        z1: Scalar,
        z2: Scalar,
    ) -> (r: Self)
        ensures
            r@ == (DotProductProofLogView {
                bullet: bullet_reduction_proof@,
                delta: delta@,
                beta: beta@,
                z1: z1@,
                z2: z2@,
            }),
    {
        DotProductProofLog { bullet_reduction_proof, delta, beta, z1, z2 }
    }

    /// The messages of the reduction.
    pub fn bullet_reduction_proof(&self) -> (r: &BulletReductionProof)
        ensures
            r@ == self@.bullet,
    {
        &self.bullet_reduction_proof
    }

    /// The prover's two last messages.
    pub fn messages(&self) -> (r: (Point, Point))
        ensures
            r.0@ == self@.delta,
            r.1@ == self@.beta,
    {
        (self.delta, self.beta)
    }

    /// The two responses.
    pub fn responses(&self) -> (r: (Scalar, Scalar))
        ensures
            r.0@ == self@.z1,
            r.1@ == self@.z2,
    {
        (self.z1, self.z2)
    }
}

} // verus!
