use vstd::prelude::*;
use crate::algebra::{
    congruent, int_dot, lemma_congruent_reduced, lemma_dist, lemma_fadd, lemma_fmul,
    lemma_inner_product, lemma_int_dot_linear, lemma_int_dot_symmetric,
};
use crate::commitments::{
    commitment, commitment_single, drawn_generators, generator_seed, Commitments, MultiCommitGens,
};
use crate::errors::ProofVerifyError;
use crate::group::{sampled_point, Point};
use crate::random::RandomTape;
use crate::scalar::{fadd, fmul, inner_product, Scalar};
use crate::transcript::{
    challenge_scalar, challenge_vector, log_append_point, log_append_protocol_name,
    log_append_scalars, log_challenge, log_challenges, marker, tag, AppendToTranscript, Log,
    ProofTranscript,
};
use merlin::Transcript;

verus! {

/// A proof that one commitment holds a vector and another its inner
/// product with a public vector. It is as long as the vector.
#[derive(Debug)]
pub struct DotProductProof {
    delta: Point,
    beta: Point,
    z: Vec<Scalar>,
    z_delta: Scalar,
    z_beta: Scalar,
}

/// What a proof of an inner product holds.
pub struct DotProductProofView {
    pub delta: nat,
    pub beta: nat,
    pub z: Seq<nat>,
    pub z_delta: nat,
    pub z_beta: nat,
}

/// What the prover of an inner product hands back and leaves behind.
pub struct DotProductProved {
    pub proof: DotProductProofView,
    pub cx: nat,
    pub cy: nat,
    pub log: Log,
    pub tape: Log,
}

/// The generators that a proof of an inner product is made under: one
/// for the value, as many as the vector is long for the vector, and a
/// blinding base for each.
pub struct DotProductBases {
    pub g1: nat,
    pub h1: nat,
    pub gn: Seq<nat>,
    pub hn: nat,
}

impl View for DotProductProof {
    type V = DotProductProofView;

    closed spec fn view(&self) -> DotProductProofView {
        DotProductProofView {
            delta: self.delta@,
            beta: self.beta@,
            z: self.z.deep_view(),
            z_delta: self.z_delta@,
            z_beta: self.z_beta@,
        }
    }
}

/// In each place `c` times the entry of `x`, plus the entry of `d`.
pub open spec fn blend(c: nat, x: Seq<nat>, d: Seq<nat>) -> Seq<nat> {
    Seq::new(x.len(), |i: int| fadd(fmul(c, x[i]), d[i]))
}

/// The generators of a proof of an inner product, as group elements.
pub open spec fn dot_product_bases(gens_1: &MultiCommitGens, gens_n: &MultiCommitGens)
    -> DotProductBases {
    DotProductBases { g1: gens_1.G@[0]@, h1: gens_1.h@, gn: gens_n.bases(), hn: gens_n.h@ }
}

/// The transcript once the two commitments and the public vector are
/// absorbed.
pub open spec fn dot_product_statement(log: Log, name: Seq<u8>, cx: nat, cy: nat, a: Seq<nat>)
    -> Log {
    let log0 = log_append_protocol_name(log, name);
    let log1 = log_append_point(log0, tag("Cx"), cx);
    let log2 = log_append_point(log1, tag("Cy"), cy);
    log_append_scalars(log2, tag("a"), a)
}

/// The transcript once the prover's first messages are absorbed as well.
pub open spec fn dot_product_log(log: Log, cx: nat, cy: nat, a: Seq<nat>, delta: nat, beta: nat)
    -> Log {
    let log3 = dot_product_statement(log, tag("dot product proof"), cx, cy, a);
    let log4 = log_append_point(log3, tag("delta"), delta);
    log_append_point(log4, tag("beta"), beta)
}

/// What the honest prover of an inner product does for the vector `x`
/// under the blind `blind_x`, the public vector `a`, and the value `y`
/// under the blind `blind_y`.
pub open spec fn dot_product_prove(
    bases: DotProductBases,
    log: Log,
    tape: Log,
    x: Seq<nat>,
    blind_x: nat,
    a: Seq<nat>,
    y: nat,
    blind_y: nat,
) -> DotProductProved {
    let d = challenge_vector(tape, tag("d_vec"), x.len());
    let tape1 = log_challenges(tape, tag("d_vec"), x.len());
    let r_delta = challenge_scalar(tape1, tag("r_delta"));
    let tape2 = log_challenge(tape1, tag("r_delta"));
    let r_beta = challenge_scalar(tape2, tag("r_beta"));
    let cx = commitment(x, blind_x, bases.gn, bases.hn);
    let cy = commitment_single(y, blind_y, bases.g1, bases.h1);
    let delta = commitment(d, r_delta, bases.gn, bases.hn);
    let beta = commitment_single(inner_product(a, d), r_beta, bases.g1, bases.h1);
    let log1 = dot_product_log(log, cx, cy, a, delta, beta);
    let c = challenge_scalar(log1, tag("c"));
    DotProductProved {
        proof: DotProductProofView {
            delta,
            beta,
            z: blend(c, x, d),
            z_delta: fadd(fmul(c, blind_x), r_delta),
            z_beta: fadd(fmul(c, blind_y), r_beta),
        },
        cx,
        cy,
        log: log_challenge(log1, tag("c")),
        tape: log_challenge(tape2, tag("r_beta")),
    }
}

/// Whether the verifier accepts a proof of an inner product with `a` for
/// two commitments.
pub open spec fn dot_product_accepts(
    bases: DotProductBases,
    log: Log,
    proof: DotProductProofView,
    a: Seq<nat>,
    cx: nat,
    cy: nat,
) -> bool {
    let c = challenge_scalar(dot_product_log(log, cx, cy, a, proof.delta, proof.beta), tag("c"));
    &&& fadd(fmul(cx, c), proof.delta) == commitment(proof.z, proof.z_delta, bases.gn, bases.hn)
    &&& fadd(fmul(cy, c), proof.beta) == commitment_single(
        inner_product(proof.z, a),
        proof.z_beta,
        bases.g1,
        bases.h1,
    )
}

impl DotProductProof {
    fn protocol_name() -> (r: &'static [u8])
        ensures
            r@ == tag("dot product proof"),
            r@.len() <= u32::MAX,
    {
        proof {
            reveal_strlit("dot product proof");
        }
        marker("dot product proof")
    }

    /// The inner product of two vectors of one length.
    pub fn compute_dotproduct(a: &[Scalar], b: &[Scalar]) -> (r: Scalar)
        requires
            a@.len() == b@.len(),
        ensures
            r@ == inner_product(a.deep_view(), b.deep_view()),
    {
        let n = a.len();
        let mut acc = Scalar::zero();
        let mut i: usize = 0;
        while i < n
            invariant
                i <= n,
                n == a@.len(),
                n == b@.len(),
                acc@ == inner_product(a.deep_view().take(i as int), b.deep_view().take(i as int)),
            decreases n - i,
        {
            proof {
                let (av, bv) = (a.deep_view(), b.deep_view());
                assert(av.take(i + 1).drop_last() =~= av.take(i as int));
                assert(bv.take(i + 1).drop_last() =~= bv.take(i as int));
                assert(av.take(i + 1).last() == a[i as int]@);
                assert(bv.take(i + 1).last() == b[i as int]@);
            }
            acc = acc.add(&a[i].mul(&b[i]));
            i += 1;
        }
        proof {
            assert(a.deep_view().take(n as int) =~= a.deep_view());
            assert(b.deep_view().take(n as int) =~= b.deep_view());
        }
        acc
    }

    /// The inner product of two vectors of one length.
    pub(crate) fn dot(a: &Vec<Scalar>, b: &Vec<Scalar>) -> (r: Scalar)
        requires
            a@.len() == b@.len(),
        ensures
            r@ == inner_product(a.deep_view(), b.deep_view()),
    {
        let (x, y) = (a.as_slice(), b.as_slice());
        proof {
            assert(x.deep_view() =~= a.deep_view());
            assert(y.deep_view() =~= b.deep_view());
        }
        DotProductProof::compute_dotproduct(x, y)
    }

    /// Proves that `y` is the inner product of `x_vec` and the public `a_vec`, and
    /// hands back the commitments to `x_vec` and to `y` with the proof.
    pub fn prove(
        gens_1: &MultiCommitGens,
        gens_n: &MultiCommitGens,
        transcript: &mut Transcript,
        random_tape: &mut RandomTape,
        x_vec: &[Scalar],
        blind_x: &Scalar,
        a_vec: &[Scalar],
        y: &Scalar,
        blind_y: &Scalar,
    ) -> (res: (Self, Point, Point))
        requires
            x_vec@.len() == a_vec@.len(),
            gens_n.n == a_vec@.len(),
            gens_n.G@.len() == a_vec@.len(),
            gens_1.n == 1,
            gens_1.G@.len() == 1,
        ensures
            ({
                let p = dot_product_prove(
                    dot_product_bases(gens_1, gens_n),
                    old(transcript).log(),
                    old(random_tape)@,
                    x_vec.deep_view(),
                    blind_x@,
                    a_vec.deep_view(),
                    y@,
                    blind_y@,
                );
                &&& res.0@ == p.proof
                &&& res.1@ == p.cx
                &&& res.2@ == p.cy
                &&& final(transcript).log() == p.log
                &&& final(random_tape)@ == p.tape
            }),
    {
        transcript.append_protocol_name(DotProductProof::protocol_name());

        let n = x_vec.len();

        let d_vec = random_tape.random_vector("d_vec".as_bytes(), n);
        let r_delta = random_tape.random_scalar("r_delta".as_bytes());
        let r_beta = random_tape.random_scalar("r_beta".as_bytes());

        let cx = x_vec.commit(blind_x, gens_n);
        cx.append_to_transcript("Cx".as_bytes(), transcript);

        let cy = y.commit(blind_y, gens_1);
        cy.append_to_transcript("Cy".as_bytes(), transcript);

        a_vec.append_to_transcript("a".as_bytes(), transcript);

        let delta = d_vec.commit(&r_delta, gens_n);
        delta.append_to_transcript("delta".as_bytes(), transcript);

        let d_slice = d_vec.as_slice();
        assert(d_slice.deep_view() =~= d_vec.deep_view());
        let dotproduct_a_d = DotProductProof::compute_dotproduct(a_vec, d_slice);

        let beta = dotproduct_a_d.commit(&r_beta, gens_1);
        beta.append_to_transcript("beta".as_bytes(), transcript);

        let c = transcript.challenge_scalar("c".as_bytes());

        let mut z: Vec<Scalar> = Vec::new();
        let mut i: usize = 0;
        while i < n
            invariant
                i <= n,
                n == x_vec@.len(),
                n == d_vec@.len(),
                z@.len() == i,
                forall|j: int| 0 <= j < i ==> z@[j]@ == fadd(fmul(c@, x_vec@[j]@), d_vec@[j]@),
            decreases n - i,
        {
            z.push(c.mul(&x_vec[i]).add(&d_vec[i]));
            i += 1;
        }
        assert(z.deep_view() =~= blend(c@, x_vec.deep_view(), d_vec.deep_view()));

        let z_delta = c.mul(blind_x).add(&r_delta);
        let z_beta = c.mul(blind_y).add(&r_beta);

        (DotProductProof { delta, beta, z, z_delta, z_beta }, cx, cy)
    }

    /// Whether the sizes of the generators, of the public vector and of
    /// the proof fit together.
    pub open spec fn sized(
        &self,
        gens_1: &MultiCommitGens,
        gens_n: &MultiCommitGens,
        a: Seq<nat>,
    ) -> bool {
        &&& gens_n.n == a.len()
        &&& gens_n.G@.len() == a.len()
        &&& gens_1.n == 1
        &&& gens_1.G@.len() == 1
        &&& self@.z.len() == a.len()
    }

    /// Checks a proof that `cy` holds the inner product of the vector in `cx` with
    /// the public vector `a`.
    pub fn verify(
        &self,
        gens_1: &MultiCommitGens,
        gens_n: &MultiCommitGens,
        transcript: &mut Transcript,
        a: &[Scalar],
        cx: &Point,
        cy: &Point,
    ) -> (res: Result<(), ProofVerifyError>)
        ensures
            res is Ok <==> self.sized(gens_1, gens_n, a.deep_view()) && dot_product_accepts(
                dot_product_bases(gens_1, gens_n),
                old(transcript).log(),
                self@,
                a.deep_view(),
                cx@,
                cy@,
            ),
            res is Err ==> res == Err::<(), ProofVerifyError>(ProofVerifyError::VerificationFailed),
            final(transcript).log() == if self.sized(gens_1, gens_n, a.deep_view()) {
                log_challenge(
                    dot_product_log(
                        old(transcript).log(),
                        cx@,
                        cy@,
                        a.deep_view(),
                        self@.delta,
                        self@.beta,
                    ),
                    tag("c"),
                )
            } else {
                old(transcript).log()
            },
    {
        if gens_n.n != a.len() || gens_n.G.len() != a.len() || gens_1.n != 1 || gens_1.G.len() != 1
            || self.z.len() != a.len() {
            return Err(ProofVerifyError::VerificationFailed);
        }
        transcript.append_protocol_name(DotProductProof::protocol_name());
        cx.append_to_transcript("Cx".as_bytes(), transcript);
        cy.append_to_transcript("Cy".as_bytes(), transcript);
        a.append_to_transcript("a".as_bytes(), transcript);
        self.delta.append_to_transcript("delta".as_bytes(), transcript);
        self.beta.append_to_transcript("beta".as_bytes(), transcript);

        let c = transcript.challenge_scalar("c".as_bytes());

        let first = cx.mul(&c).add(&self.delta).equals(&self.z.commit(&self.z_delta, gens_n));

        let z_slice = self.z.as_slice();
        assert(z_slice.deep_view() =~= self.z.deep_view());
        let dotproduct_z_a = DotProductProof::compute_dotproduct(z_slice, a);
        let second = cy.mul(&c).add(&self.beta).equals(&dotproduct_z_a.commit(&self.z_beta, gens_1));

        if first && second {
            Ok(())
        } else {
            Err(ProofVerifyError::VerificationFailed)
        }
    }
}

/// The generators of a proof of an inner product of logarithmic size:
/// `n` for the vector and one for the value, with one blinding base.
pub struct DotProductProofGens {
    pub n: usize,
    pub gens_n: MultiCommitGens,
    pub gens_1: MultiCommitGens,
}

impl DotProductProofGens {
    /// Whether these are the generators drawn for vectors of length `n`
    /// under a label: the `n` generators hold the first `n` elements
    /// drawn, the single one the next, and both the one after as their
    /// blinding base.
    pub open spec fn drawn(&self, n: nat, label: Seq<u8>) -> bool {
        &&& self.n == n
        &&& self.gens_n.wf() && self.gens_n.n == n
        &&& self.gens_1.wf() && self.gens_1.n == 1
        &&& self.gens_n.h == self.gens_1.h
        &&& self.gens_n.bases() == drawn_generators(label, n)
        &&& self.gens_1.bases() == seq![sampled_point(generator_seed(label), n)]
        &&& self.gens_1.h@ == sampled_point(generator_seed(label), n + 1)
    }

    /// Draws the generators for vectors of length `n` from the label.
    pub fn new(n: usize, label: &[u8]) -> (r: Self)
        requires
            n < usize::MAX - 1,
        ensures
            r.drawn(n as nat, label@),
    {
        let all = MultiCommitGens::new(n + 1, label);
        let (gens_n, gens_1) = all.split_at(n);
        assert(all.bases().len() == n + 1);
        assert(gens_n.bases() =~= all.bases().take(n as int));
        assert(gens_1.bases() =~= all.bases().skip(n as int));
        assert(gens_n.bases() =~= drawn_generators(label@, n as nat));
        assert(gens_1.bases() =~= seq![sampled_point(generator_seed(label@), n as nat)]);
        DotProductProofGens { n, gens_n, gens_1 }
    }
}

/// `c` times a commitment to the vector `x`, added to a commitment to the
/// vector `d`, is the commitment to the blend of the two vectors under the
/// blend of the two blinds.
pub proof fn lemma_commitment_blend(
    c: nat,
    x: Seq<nat>,
    blind_x: nat,
    d: Seq<nat>,
    blind_d: nat,
    bases: Seq<nat>,
    h: nat,
)
    requires
        x.len() == d.len(),
        x.len() == bases.len(),
    ensures
        fadd(fmul(commitment(x, blind_x, bases, h), c), commitment(d, blind_d, bases, h))
            == commitment(blend(c, x, d), fadd(fmul(c, blind_x), blind_d), bases, h),
{
    let u = x.push(blind_x);
    let v = d.push(blind_d);
    let g = bases.push(h);
    let z = blend(c, x, d).push(fadd(fmul(c, blind_x), blind_d));
    let ci = c as int;
    assert forall|i: int| 0 <= i < z.len() implies congruent(z[i] as int, ci * u[i] + v[i]) by {
        lemma_fmul(c, u[i], ci, u[i] as int);
        lemma_fadd(fmul(c, u[i]), v[i], ci * u[i], v[i] as int);
    }
    lemma_int_dot_linear(z, u, v, g, ci);
    lemma_inner_product(z, g);
    lemma_inner_product(u, g);
    lemma_inner_product(v, g);
    lemma_fmul(inner_product(u, g), c, int_dot(u, g), ci);
    lemma_fadd(
        fmul(inner_product(u, g), c),
        inner_product(v, g),
        int_dot(u, g) * ci,
        int_dot(v, g),
    );
    crate::algebra::lemma_comm(int_dot(u, g), ci);
    lemma_congruent_reduced(
        fadd(fmul(inner_product(u, g), c), inner_product(v, g)),
        inner_product(z, g),
    );
}

/// Every proof that the honest prover of an inner product makes for a
/// vector and its inner product with the public vector is accepted, on a
/// transcript with the same past, for the commitments that it handed back.
pub proof fn dot_product_proof_complete(
    bases: DotProductBases,
    log: Log,
    tape: Log,
    x: Seq<nat>,
    blind_x: nat,
    a: Seq<nat>,
    blind_y: nat,
)
    requires
        x.len() == a.len(),
        x.len() == bases.gn.len(),
    ensures
        ({
            let y = inner_product(a, x);
            let p = dot_product_prove(bases, log, tape, x, blind_x, a, y, blind_y);
            dot_product_accepts(bases, log, p.proof, a, p.cx, p.cy)
        }),
{
    let y = inner_product(a, x);
    let p = dot_product_prove(bases, log, tape, x, blind_x, a, y, blind_y);
    let d = challenge_vector(tape, tag("d_vec"), x.len());
    let tape1 = log_challenges(tape, tag("d_vec"), x.len());
    let r_delta = challenge_scalar(tape1, tag("r_delta"));
    let r_beta = challenge_scalar(log_challenge(tape1, tag("r_delta")), tag("r_beta"));
    let c = challenge_scalar(
        dot_product_log(log, p.cx, p.cy, a, p.proof.delta, p.proof.beta),
        tag("c"),
    );
    let z = p.proof.z;
    lemma_commitment_blend(c, x, blind_x, d, r_delta, bases.gn, bases.hn);

    let (g1, h1, ci, byi, rbi) = (
        bases.g1 as int,
        bases.h1 as int,
        c as int,
        blind_y as int,
        r_beta as int,
    );
    let (ax, ad) = (int_dot(a, x), int_dot(a, d));
    // the left side
    lemma_inner_product(a, x);
    lemma_inner_product(a, d);
    lemma_fmul(bases.g1, y, g1, ax);
    lemma_fmul(bases.h1, blind_y, h1, byi);
    lemma_fadd(fmul(bases.g1, y), fmul(bases.h1, blind_y), g1 * ax, h1 * byi);
    lemma_fmul(bases.g1, inner_product(a, d), g1, ad);
    lemma_fmul(bases.h1, r_beta, h1, rbi);
    lemma_fadd(fmul(bases.g1, inner_product(a, d)), fmul(bases.h1, r_beta), g1 * ad, h1 * rbi);
    lemma_fmul(p.cy, c, g1 * ax + h1 * byi, ci);
    lemma_fadd(fmul(p.cy, c), p.proof.beta, (g1 * ax + h1 * byi) * ci, g1 * ad + h1 * rbi);
    // the right side
    assert forall|i: int| 0 <= i < z.len() implies congruent(z[i] as int, ci * x[i] + d[i]) by {
        lemma_fmul(c, x[i], ci, x[i] as int);
        lemma_fadd(fmul(c, x[i]), d[i], ci * x[i], d[i] as int);
    }
    lemma_int_dot_linear(z, x, d, a, ci);
    lemma_int_dot_symmetric(x, a);
    lemma_int_dot_symmetric(d, a);
    lemma_inner_product(z, a);
    lemma_fmul(bases.g1, inner_product(z, a), g1, ci * ax + ad);
    lemma_fmul(c, blind_y, ci, byi);
    lemma_fadd(fmul(c, blind_y), r_beta, ci * byi, rbi);
    lemma_fmul(bases.h1, p.proof.z_beta, h1, ci * byi + rbi);
    lemma_fadd(
        fmul(bases.g1, inner_product(z, a)),
        fmul(bases.h1, p.proof.z_beta),
        g1 * (ci * ax + ad),
        h1 * (ci * byi + rbi),
    );
    lemma_dist(ci, g1 * ax, h1 * byi);
    lemma_dist(g1, ci * ax, ad);
    lemma_dist(h1, ci * byi, rbi);
    crate::algebra::lemma_assoc(g1, ax, ci);
    crate::algebra::lemma_assoc(h1, byi, ci);
    crate::algebra::lemma_comm(ax, ci);
    crate::algebra::lemma_comm(byi, ci);
    lemma_congruent_reduced(
        fadd(fmul(p.cy, c), p.proof.beta),
        commitment_single(inner_product(z, a), p.proof.z_beta, bases.g1, bases.h1),
    );
}

impl DotProductProof {
    /// The proof with the given parts.
    pub fn from_parts(delta: Point, beta: Point, z: Vec<Scalar>, z_delta: Scalar, z_beta: Scalar)
        -> (r: Self)
        ensures
            r@ == (DotProductProofView {
                delta: delta@,
                beta: beta@,
                z: z.deep_view(),
                z_delta: z_delta@,
                z_beta: z_beta@,
            }),
    {
        DotProductProof { delta, beta, z, z_delta, z_beta }
    }

    /// The prover's two first messages.
    pub fn messages(&self) -> (r: (Point, Point))
        ensures
            r.0@ == self@.delta,
            r.1@ == self@.beta,
    {
        (self.delta, self.beta)
    }

    /// The response for the vector.
    pub fn z(&self) -> (r: &Vec<Scalar>)
        ensures
            r.deep_view() == self@.z,
    {
        &self.z
    }

    /// The responses for the two blinds.
    pub fn blinds(&self) -> (r: (Scalar, Scalar))
        ensures
            r.0@ == self@.z_delta,
            r.1@ == self@.z_beta,
    {
        (self.z_delta, self.z_beta)
    }
}

} // verus!
