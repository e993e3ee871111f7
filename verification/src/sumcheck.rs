use vstd::prelude::*;
use crate::commitments::{commitment, commitment_single, Commitments, MultiCommitGens};
use crate::dense_mlpoly::{bound_top, DensePolynomial};
use crate::errors::ProofVerifyError;
use crate::group::Point;
use crate::math::two_to;
use crate::nizk::dot_product::{
    dot_product_accepts, dot_product_bases, dot_product_log, dot_product_prove, DotProductBases,
    DotProductProof, DotProductProofView,
};
use crate::random::RandomTape;
use crate::scalar::{fadd, fmul, fsub, inner_product, Scalar};
use crate::transcript::{
    challenge_scalar, challenge_vector, log_append_point, log_challenge, log_challenges, tag,
    AppendToTranscript, Log, ProofTranscript,
};
use crate::unipoly::{uni_eval, uni_from_evals, UniPoly};
use merlin::Transcript;

verus! {

/// A proof that the values of a combination of polynomials add up, over
/// all corners of the cube, to a committed claim. Nothing in it shows the
/// polynomials of the rounds: it holds commitments to them, commitments to
/// their values at the challenges, and a proof of an inner product for
/// each round.
#[derive(Debug)]
pub struct ZKSumcheckInstanceProof {
    comm_polys: Vec<Point>,
    comm_evals: Vec<Point>,
    proofs: Vec<DotProductProof>,
}

/// What a proof of a sum holds.
pub struct ZKSumcheckView {
    pub comm_polys: Seq<nat>,
    pub comm_evals: Seq<nat>,
    pub proofs: Seq<DotProductProofView>,
}

/// What each of some proofs of an inner product holds.
pub open spec fn proof_views(v: Seq<DotProductProof>) -> Seq<DotProductProofView> {
    Seq::new(v.len(), |i: int| v[i]@)
}

impl View for ZKSumcheckInstanceProof {
    type V = ZKSumcheckView;

    closed spec fn view(&self) -> ZKSumcheckView {
        ZKSumcheckView {
            comm_polys: self.comm_polys.deep_view(),
            comm_evals: self.comm_evals.deep_view(),
            proofs: proof_views(self.proofs@),
        }
    }
}

/// The power of `r` with the exponent `j`.
pub open spec fn geometric(r: nat, j: nat) -> nat
    decreases j,
{
    if j == 0 {
        1
    } else {
        fmul(geometric(r, (j - 1) as nat), r)
    }
}

/// The vector with which the coefficients of a round's polynomial give
/// `w0` times its values at 0 and at 1 added up, plus `w1` times its value
/// at `r`.
pub open spec fn claim_weights(w0: nat, w1: nat, r: nat, len: nat) -> Seq<nat> {
    Seq::new(
        len,
        |i: int|
            fadd(
                fmul(
                    w0,
                    if i == 0 {
                        fadd(1, 1)
                    } else {
                        1
                    },
                ),
                fmul(w1, geometric(r, i as nat)),
            ),
    )
}

/// The first half of the values of a polynomial: its values where the
/// first variable is 0.
pub open spec fn lower(t: Seq<nat>) -> Seq<nat> {
    t.take((t.len() / 2) as int)
}

/// The values of a polynomial where the first variable is 2.
pub open spec fn at_two(t: Seq<nat>) -> Seq<nat> {
    Seq::new(t.len() / 2, |i: int| fsub(fadd(t[i + t.len() / 2], t[i + t.len() / 2]), t[i]))
}

/// The values of a polynomial where the first variable is 3.
pub open spec fn at_three(t: Seq<nat>) -> Seq<nat> {
    Seq::new(t.len() / 2, |i: int| fsub(fadd(at_two(t)[i], t[i + t.len() / 2]), t[i]))
}

/// The sum over all places of `a (b c - d)`.
pub open spec fn cubic_sum(a: Seq<nat>, b: Seq<nat>, c: Seq<nat>, d: Seq<nat>) -> nat
    decreases a.len(),
{
    if a.len() == 0 || b.len() == 0 || c.len() == 0 || d.len() == 0 {
        0
    } else {
        fadd(
            cubic_sum(a.drop_last(), b.drop_last(), c.drop_last(), d.drop_last()),
            fmul(a.last(), fsub(fmul(b.last(), c.last()), d.last())),
        )
    }
}

/// The four polynomials of a sum, or the two of a sum of products, in
/// which case the last two have no values.
pub struct Tables {
    pub a: Seq<nat>,
    pub b: Seq<nat>,
    pub c: Seq<nat>,
    pub d: Seq<nat>,
}

/// The values at 0, 1 and 2 of the polynomial of a round of a sum of
/// products `a b`; the one at 1 is what the claim leaves.
pub open spec fn quad_evals(t: Tables, claim: nat) -> Seq<nat> {
    let e0 = inner_product(lower(t.a), lower(t.b));
    seq![e0, fsub(claim, e0), inner_product(at_two(t.a), at_two(t.b))]
}

/// The values at 0, 1, 2 and 3 of the polynomial of a round of a sum of
/// `a (b c - d)`.
pub open spec fn cubic_evals(t: Tables, claim: nat) -> Seq<nat> {
    let e0 = cubic_sum(lower(t.a), lower(t.b), lower(t.c), lower(t.d));
    seq![
        e0,
        fsub(claim, e0),
        cubic_sum(at_two(t.a), at_two(t.b), at_two(t.c), at_two(t.d)),
        cubic_sum(at_three(t.a), at_three(t.b), at_three(t.c), at_three(t.d)),
    ]
}

/// The polynomials once their first variable is set to `r`.
pub open spec fn bound_tables(t: Tables, r: nat) -> Tables {
    Tables { a: bound_top(t.a, r), b: bound_top(t.b, r), c: bound_top(t.c, r), d: bound_top(t.d, r) }
}

/// What the prover's messages of one round come to.
pub struct RoundClosed {
    pub comm_poly: nat,
    pub r: nat,
    pub eval: nat,
    pub comm_eval: nat,
    pub proof: DotProductProofView,
    pub log: Log,
    pub tape: Log,
}

/// The transcript of a round once the commitment to its polynomial is
/// absorbed.
pub open spec fn round_log_poly(log: Log, comm_poly: nat) -> Log {
    log_append_point(log, tag("comm_poly"), comm_poly)
}

/// The challenge of a round.
pub open spec fn round_challenge(log: Log, comm_poly: nat) -> nat {
    challenge_scalar(round_log_poly(log, comm_poly), tag("challenge_nextround"))
}

/// The transcript of a round once the two claims are absorbed.
pub open spec fn round_log_claims(log: Log, comm_poly: nat, comm_claim: nat, comm_eval: nat)
    -> Log {
    log_append_point(
        log_append_point(
            log_challenge(round_log_poly(log, comm_poly), tag("challenge_nextround")),
            tag("comm_claim_per_round"),
            comm_claim,
        ),
        tag("comm_eval"),
        comm_eval,
    )
}

/// The two weights with which the claims of a round are combined.
pub open spec fn round_weights(log: Log, comm_poly: nat, comm_claim: nat, comm_eval: nat) -> Seq<
    nat,
> {
    challenge_vector(
        round_log_claims(log, comm_poly, comm_claim, comm_eval),
        tag("combine_two_claims_to_one"),
        2,
    )
}

/// The transcript of a round once the weights are taken.
pub open spec fn round_log_weights(log: Log, comm_poly: nat, comm_claim: nat, comm_eval: nat)
    -> Log {
    log_challenges(
        round_log_claims(log, comm_poly, comm_claim, comm_eval),
        tag("combine_two_claims_to_one"),
        2,
    )
}

/// What the honest prover does in a round with the polynomial `poly`:
/// it commits to the polynomial and to its value at the challenge, and
/// proves with one inner product that the polynomial's values at 0 and 1
/// add up to the claim of the round and that its value at the challenge
/// is the committed one.
pub open spec fn sumcheck_close(
    bases: DotProductBases,
    log: Log,
    tape: Log,
    poly: Seq<nat>,
    claim: nat,
    comm_claim: nat,
    blind_claim: nat,
    blind_poly: nat,
    blind_eval: nat,
) -> RoundClosed {
    let comm_poly = commitment(poly, blind_poly, bases.gn, bases.hn);
    let r = round_challenge(log, comm_poly);
    let eval = uni_eval(poly, r);
    let comm_eval = commitment_single(eval, blind_eval, bases.g1, bases.h1);
    let w = round_weights(log, comm_poly, comm_claim, comm_eval);
    let target = fadd(fmul(w[0], claim), fmul(w[1], eval));
    let blind = fadd(fmul(w[0], blind_claim), fmul(w[1], blind_eval));
    let p = dot_product_prove(
        bases,
        round_log_weights(log, comm_poly, comm_claim, comm_eval),
        tape,
        poly,
        blind_poly,
        claim_weights(w[0], w[1], r, poly.len()),
        target,
        blind,
    );
    RoundClosed { comm_poly, r, eval, comm_eval, proof: p.proof, log: p.log, tape: p.tape }
}

/// The sum over all places of `a (b c - d)`.
fn cubic_sum_of(a: &Vec<Scalar>, b: &Vec<Scalar>, c: &Vec<Scalar>, d: &Vec<Scalar>) -> (r: Scalar)
    requires
        a@.len() == b@.len(),
        a@.len() == c@.len(),
        a@.len() == d@.len(),
    ensures
        r@ == cubic_sum(a.deep_view(), b.deep_view(), c.deep_view(), d.deep_view()),
{
    let n = a.len();
    let mut acc = Scalar::zero();
    let mut i: usize = 0;
    while i < n
        invariant
            i <= n,
            n == a@.len(),
            n == b@.len(),
            n == c@.len(),
            n == d@.len(),
            acc@ == cubic_sum(
                a.deep_view().take(i as int),
                b.deep_view().take(i as int),
                c.deep_view().take(i as int),
                d.deep_view().take(i as int),
            ),
        decreases n - i,
    {
        proof {
            let (av, bv, cv, dv) = (a.deep_view(), b.deep_view(), c.deep_view(), d.deep_view());
            assert(av.take(i + 1).drop_last() =~= av.take(i as int));
            assert(bv.take(i + 1).drop_last() =~= bv.take(i as int));
            assert(cv.take(i + 1).drop_last() =~= cv.take(i as int));
            assert(dv.take(i + 1).drop_last() =~= dv.take(i as int));
        }
        acc = acc.add(&a[i].mul(&b[i].mul(&c[i]).sub(&d[i])));
        i += 1;
    }
    proof {
        assert(a.deep_view().take(n as int) =~= a.deep_view());
        assert(b.deep_view().take(n as int) =~= b.deep_view());
        assert(c.deep_view().take(n as int) =~= c.deep_view());
        assert(d.deep_view().take(n as int) =~= d.deep_view());
    }
    acc
}

/// The values of a polynomial where the first variable is 0, 2 and 3.
fn extensions(t: &DensePolynomial) -> (r: (Vec<Scalar>, Vec<Scalar>, Vec<Scalar>))
    ensures
        r.0.deep_view() == lower(t@),
        r.1.deep_view() == at_two(t@),
        r.2.deep_view() == at_three(t@),
        r.0@.len() == t@.len() / 2,
        r.1@.len() == t@.len() / 2,
        r.2@.len() == t@.len() / 2,
{
    let len = t.len();
    let n = len / 2;
    let mut zero: Vec<Scalar> = Vec::new();
    let mut two: Vec<Scalar> = Vec::new();
    let mut three: Vec<Scalar> = Vec::new();
    let mut i: usize = 0;
    while i < n
        invariant
            i <= n,
            len == t@.len(),
            n == len / 2,
            zero@.len() == i,
            two@.len() == i,
            three@.len() == i,
            forall|k: int| 0 <= k < i ==> zero@[k]@ == t@[k],
            forall|k: int| 0 <= k < i ==> two@[k]@ == at_two(t@)[k],
            forall|k: int| 0 <= k < i ==> three@[k]@ == at_three(t@)[k],
        decreases n - i,
    {
        let lo = t.index(i);
        let hi = t.index(i + n);
        let at2 = hi.add(&hi).sub(&lo);
        let at3 = at2.add(&hi).sub(&lo);
        zero.push(lo);
        two.push(at2);
        three.push(at3);
        i += 1;
    }
    proof {
        assert(zero.deep_view() =~= lower(t@));
        assert(two.deep_view() =~= at_two(t@));
        assert(three.deep_view() =~= at_three(t@));
    }
    (zero, two, three)
}

/// Where the prover of a sum stands between two rounds.
pub struct SumcheckState {
    pub tables: Tables,
    pub claim: nat,
    pub comm_claim: nat,
    pub blind_claim: nat,
    pub log: Log,
    pub tape: Log,
    pub comm_polys: Seq<nat>,
    pub comm_evals: Seq<nat>,
    pub proofs: Seq<DotProductProofView>,
    pub rs: Seq<nat>,
}

/// The polynomial of a round, in coefficients.
pub open spec fn round_poly(cubic: bool, t: Tables, claim: nat) -> Seq<nat> {
    if cubic {
        uni_from_evals(cubic_evals(t, claim))
    } else {
        uni_from_evals(quad_evals(t, claim))
    }
}

/// One round by the prover, with the blinds `blind_poly` for the
/// polynomial and `blind_eval` for its value at the challenge, which is
/// the claim of the next round.
pub open spec fn sumcheck_round(
    bases: DotProductBases,
    cubic: bool,
    st: SumcheckState,
    blind_poly: nat,
    blind_eval: nat,
) -> SumcheckState {
    let c = sumcheck_close(
        bases,
        st.log,
        st.tape,
        round_poly(cubic, st.tables, st.claim),
        st.claim,
        st.comm_claim,
        st.blind_claim,
        blind_poly,
        blind_eval,
    );
    SumcheckState {
        tables: bound_tables(st.tables, c.r),
        claim: c.eval,
        comm_claim: c.comm_eval,
        blind_claim: blind_eval,
        log: c.log,
        tape: c.tape,
        comm_polys: st.comm_polys.push(c.comm_poly),
        comm_evals: st.comm_evals.push(c.comm_eval),
        proofs: st.proofs.push(c.proof),
        rs: st.rs.push(c.r),
    }
}

/// Where the prover stands after `k` rounds.
pub open spec fn sumcheck_fold(
    bases: DotProductBases,
    cubic: bool,
    init: SumcheckState,
    blinds_poly: Seq<nat>,
    blinds_evals: Seq<nat>,
    k: nat,
) -> SumcheckState
    decreases k,
{
    if k == 0 {
        init
    } else {
        sumcheck_round(
            bases,
            cubic,
            sumcheck_fold(bases, cubic, init, blinds_poly, blinds_evals, (k - 1) as nat),
            blinds_poly[k - 1],
            blinds_evals[k - 1],
        )
    }
}

/// What the prover of a sum hands back and leaves behind.
pub struct SumcheckProved {
    pub proof: ZKSumcheckView,
    pub rs: Seq<nat>,
    pub tables: Tables,
    pub blind: nat,
    pub log: Log,
    pub tape: Log,
}

/// The tape after the blinds of all rounds are taken.
pub open spec fn sumcheck_tape(tape: Log, num_rounds: nat) -> Log {
    log_challenges(
        log_challenges(tape, tag("blinds_poly"), num_rounds),
        tag("blinds_evals"),
        num_rounds,
    )
}

/// The state in which the prover of a sum starts.
pub open spec fn sumcheck_start(
    bases: DotProductBases,
    log: Log,
    tape: Log,
    claim: nat,
    blind_claim: nat,
    num_rounds: nat,
    tables: Tables,
) -> SumcheckState {
    SumcheckState {
        tables,
        claim,
        comm_claim: commitment_single(claim, blind_claim, bases.g1, bases.h1),
        blind_claim,
        log,
        tape: sumcheck_tape(tape, num_rounds),
        comm_polys: Seq::empty(),
        comm_evals: Seq::empty(),
        proofs: Seq::empty(),
        rs: Seq::empty(),
    }
}

/// What the honest prover of a sum does in `num_rounds` rounds, for the
/// claim `claim` under the blind `blind_claim`: of a sum of `a (b c - d)`
/// where `cubic` holds, else of `a b`.
#[verifier::opaque]
pub open spec fn sumcheck_prove(
    bases: DotProductBases,
    cubic: bool,
    log: Log,
    tape: Log,
    claim: nat,
    blind_claim: nat,
    num_rounds: nat,
    tables: Tables,
) -> SumcheckProved {
    let blinds_poly = challenge_vector(tape, tag("blinds_poly"), num_rounds);
    let blinds_evals = challenge_vector(
        log_challenges(tape, tag("blinds_poly"), num_rounds),
        tag("blinds_evals"),
        num_rounds,
    );
    let st = sumcheck_fold(
        bases,
        cubic,
        sumcheck_start(bases, log, tape, claim, blind_claim, num_rounds, tables),
        blinds_poly,
        blinds_evals,
        num_rounds,
    );
    SumcheckProved {
        proof: ZKSumcheckView {
            comm_polys: st.comm_polys,
            comm_evals: st.comm_evals,
            proofs: st.proofs,
        },
        rs: st.rs,
        tables: st.tables,
        blind: st.blind_claim,
        log: st.log,
        tape: st.tape,
    }
}

/// What the prover's messages of one round are.
struct Closed {
    r: Scalar,
    eval: Scalar,
    comm_poly: Point,
    comm_eval: Point,
    proof: DotProductProof,
}

/// The vector with which the coefficients of a round's polynomial give
/// the combination of the two claims of the round.
fn weights(w0: &Scalar, w1: &Scalar, r: &Scalar, len: usize) -> (res: Vec<Scalar>)
    ensures
        res.deep_view() == claim_weights(w0@, w1@, r@, len as nat),
{
    let one = Scalar::one();
    let two = one.add(&one);
    let mut power = Scalar::one();
    let mut out: Vec<Scalar> = Vec::new();
    let mut i: usize = 0;
    while i < len
        invariant
            i <= len,
            one@ == 1,
            two@ == fadd(1, 1),
            power@ == geometric(r@, i as nat),
            out@.len() == i,
            forall|k: int| 0 <= k < i ==> out@[k]@ == claim_weights(w0@, w1@, r@, len as nat)[k],
        decreases len - i,
    {
        let sc = if i == 0 {
            two
        } else {
            one
        };
        out.push(w0.mul(&sc).add(&w1.mul(&power)));
        power = power.mul(r);
        i += 1;
    }
    proof {
        assert(out.deep_view() =~= claim_weights(w0@, w1@, r@, len as nat));
    }
    out
}

impl ZKSumcheckInstanceProof {
    /// The messages of one round for its polynomial.
    fn close_round(
        poly: &UniPoly,
        claim: &Scalar,
        comm_claim: &Point,
        blind_claim: &Scalar,
        blind_poly: &Scalar,
        blind_eval: &Scalar,
        gens_1: &MultiCommitGens,
        gens_n: &MultiCommitGens,
        transcript: &mut Transcript,
        random_tape: &mut RandomTape,
    ) -> (res: Closed)
        requires
            poly@.len() > 0,
            gens_1.n == 1,
            gens_1.G@.len() == 1,
            gens_n.n == poly@.len(),
            gens_n.G@.len() == poly@.len(),
        ensures
            ({
                let c = sumcheck_close(
                    dot_product_bases(gens_1, gens_n),
                    old(transcript).log(),
                    old(random_tape)@,
                    poly@,
                    claim@,
                    comm_claim@,
                    blind_claim@,
                    blind_poly@,
                    blind_eval@,
                );
                &&& res.r@ == c.r
                &&& res.eval@ == c.eval
                &&& res.comm_poly@ == c.comm_poly
                &&& res.comm_eval@ == c.comm_eval
                &&& res.proof@ == c.proof
                &&& final(transcript).log() == c.log
                &&& final(random_tape)@ == c.tape
            }),
    {
        let comm_poly = poly.commit(gens_n, blind_poly);
        comm_poly.append_to_transcript("comm_poly".as_bytes(), transcript);
        let r = transcript.challenge_scalar("challenge_nextround".as_bytes());

        let eval = poly.evaluate(&r);
        let comm_eval = eval.commit(blind_eval, gens_1);

        comm_claim.append_to_transcript("comm_claim_per_round".as_bytes(), transcript);
        comm_eval.append_to_transcript("comm_eval".as_bytes(), transcript);
        let w = transcript.challenge_vector("combine_two_claims_to_one".as_bytes(), 2);
        proof {
            assert(w@[0]@ == w.deep_view()[0]);
            assert(w@[1]@ == w.deep_view()[1]);
        }

        let target = w[0].mul(claim).add(&w[1].mul(&eval));
        let blind = w[0].mul(blind_claim).add(&w[1].mul(blind_eval));
        let a = weights(&w[0], &w[1], &r, poly.degree() + 1);
        let coeffs = poly.as_vec();
        let (cs, av) = (coeffs.as_slice(), a.as_slice());
        proof {
            assert(cs.deep_view() =~= coeffs.deep_view());
            assert(av.deep_view() =~= a.deep_view());
        }
        let (proof, _comm_poly, _comm_target) = DotProductProof::prove(
            gens_1,
            gens_n,
            transcript,
            random_tape,
            cs,
            blind_poly,
            av,
            &target,
            &blind,
        );
        Closed { r, eval, comm_poly, comm_eval, proof }
    }

    /// The polynomial of a round.
    fn round_polynomial(
        cubic: bool,
        a: &DensePolynomial,
        b: &DensePolynomial,
        c: &DensePolynomial,
        d: &DensePolynomial,
        claim: &Scalar,
    ) -> (res: UniPoly)
        requires
            a@.len() == b@.len(),
            cubic ==> a@.len() == c@.len() && a@.len() == d@.len(),
        ensures
            res@ == round_poly(cubic, Tables { a: a@, b: b@, c: c@, d: d@ }, claim@),
            res@.len() == if cubic {
                4nat
            } else {
                3nat
            },
    {
        let (a0, a2, a3) = extensions(a);
        let (b0, b2, b3) = extensions(b);
        if cubic {
            let (c0, c2, c3) = extensions(c);
            let (d0, d2, d3) = extensions(d);
            let e0 = cubic_sum_of(&a0, &b0, &c0, &d0);
            let e2 = cubic_sum_of(&a2, &b2, &c2, &d2);
            let e3 = cubic_sum_of(&a3, &b3, &c3, &d3);
            let evals = vec![e0, claim.sub(&e0), e2, e3];
            let es = evals.as_slice();
            proof {
                let t = Tables { a: a@, b: b@, c: c@, d: d@ };
                assert(es.deep_view() =~= cubic_evals(t, claim@));
            }
            UniPoly::from_evals(es)
        } else {
            let e0 = DotProductProof::dot(&a0, &b0);
            let e2 = DotProductProof::dot(&a2, &b2);
            let evals = vec![e0, claim.sub(&e0), e2];
            let es = evals.as_slice();
            proof {
                let t = Tables { a: a@, b: b@, c: c@, d: d@ };
                assert(es.deep_view() =~= quad_evals(t, claim@));
            }
            UniPoly::from_evals(es)
        }
    }
}

/// Halving as often as the exponent says brings a power of two to one.
pub proof fn lemma_halving(k: nat)
    requires
        k > 0,
    ensures
        two_to(k) / 2 == two_to((k - 1) as nat),
{
}

impl ZKSumcheckInstanceProof {
    /// Whether the generators are those of a sum whose rounds have
    /// polynomials with `coefficients` coefficients.
    pub open spec fn gens_fit(
        gens_1: &MultiCommitGens,
        gens_n: &MultiCommitGens,
        coefficients: nat,
    ) -> bool {
        &&& gens_1.n == 1
        &&& gens_1.G@.len() == 1
        &&& gens_n.n == coefficients
        &&& gens_n.G@.len() == coefficients
    }

    /// All rounds of the prover.
    fn prove_rounds(
        cubic: bool,
        claim: &Scalar,
        blind_claim: &Scalar,
        num_rounds: usize,
        a: &mut DensePolynomial,
        b: &mut DensePolynomial,
        c: &mut DensePolynomial,
        d: &mut DensePolynomial,
        gens_1: &MultiCommitGens,
        gens_n: &MultiCommitGens,
        transcript: &mut Transcript,
        random_tape: &mut RandomTape,
    ) -> (res: (Self, Vec<Scalar>, Scalar))
        requires
            num_rounds >= 1,
            old(a)@.len() == two_to(num_rounds as nat),
            old(b)@.len() == old(a)@.len(),
            cubic ==> old(c)@.len() == old(a)@.len() && old(d)@.len() == old(a)@.len(),
            Self::gens_fit(
                gens_1,
                gens_n,
                if cubic {
                    4nat
                } else {
                    3nat
                },
            ),
        ensures
            ({
                let p = sumcheck_prove(
                    dot_product_bases(gens_1, gens_n),
                    cubic,
                    old(transcript).log(),
                    old(random_tape)@,
                    claim@,
                    blind_claim@,
                    num_rounds as nat,
                    Tables { a: old(a)@, b: old(b)@, c: old(c)@, d: old(d)@ },
                );
                &&& res.0@ == p.proof
                &&& res.1.deep_view() == p.rs
                &&& res.1@.len() == num_rounds
                &&& res.2@ == p.blind
                &&& final(a)@ == p.tables.a
                &&& final(b)@ == p.tables.b
                &&& final(c)@ == p.tables.c
                &&& final(d)@ == p.tables.d
                &&& final(a)@.len() == 1
                &&& final(b)@.len() == 1
                &&& cubic ==> final(c)@.len() == 1 && final(d)@.len() == 1
                &&& final(transcript).log() == p.log
                &&& final(random_tape)@ == p.tape
            }),
    {
        reveal(sumcheck_prove);
        let ghost bases = dot_product_bases(gens_1, gens_n);
        let ghost init = sumcheck_start(
            bases,
            transcript.log(),
            random_tape@,
            claim@,
            blind_claim@,
            num_rounds as nat,
            Tables { a: a@, b: b@, c: c@, d: d@ },
        );
        let blinds_poly = random_tape.random_vector("blinds_poly".as_bytes(), num_rounds);
        let blinds_evals = random_tape.random_vector("blinds_evals".as_bytes(), num_rounds);
        let mut claim_per_round = *claim;
        let mut comm_claim_per_round = claim_per_round.commit(blind_claim, gens_1);
        let mut blind_per_round = *blind_claim;

        let mut r: Vec<Scalar> = Vec::new();
        let mut comm_polys: Vec<Point> = Vec::new();
        let mut comm_evals: Vec<Point> = Vec::new();
        let mut proofs: Vec<DotProductProof> = Vec::new();
        let ghost st = init;
        let ghost bp = blinds_poly.deep_view();
        let ghost be = blinds_evals.deep_view();
        proof {
            assert(r.deep_view() =~= st.rs);
            assert(comm_polys.deep_view() =~= st.comm_polys);
            assert(comm_evals.deep_view() =~= st.comm_evals);
            assert(proof_views(proofs@) =~= st.proofs);
        }

        let mut j: usize = 0;
        while j < num_rounds
            invariant
                j <= num_rounds,
                bases == dot_product_bases(gens_1, gens_n),
                blinds_poly@.len() == num_rounds,
                blinds_evals@.len() == num_rounds,
                bp == blinds_poly.deep_view(),
                be == blinds_evals.deep_view(),
                Self::gens_fit(
                    gens_1,
                    gens_n,
                    if cubic {
                        4nat
                    } else {
                        3nat
                    },
                ),
                st == sumcheck_fold(bases, cubic, init, bp, be, j as nat),
                st.tables == (Tables { a: a@, b: b@, c: c@, d: d@ }),
                st.claim == claim_per_round@,
                st.comm_claim == comm_claim_per_round@,
                st.blind_claim == blind_per_round@,
                st.log == transcript.log(),
                st.tape == random_tape@,
                st.comm_polys == comm_polys.deep_view(),
                st.comm_evals == comm_evals.deep_view(),
                st.proofs == proof_views(proofs@),
                st.rs == r.deep_view(),
                r@.len() == j,
                a@.len() == two_to((num_rounds - j) as nat),
                b@.len() == a@.len(),
                cubic ==> c@.len() == a@.len() && d@.len() == a@.len(),
            decreases num_rounds - j,
        {
            let poly = Self::round_polynomial(cubic, a, b, c, d, &claim_per_round);
            let closed = Self::close_round(
                &poly,
                &claim_per_round,
                &comm_claim_per_round,
                &blind_per_round,
                &blinds_poly[j],
                &blinds_evals[j],
                gens_1,
                gens_n,
                transcript,
                random_tape,
            );
            let ghost next = sumcheck_round(bases, cubic, st, bp[j as int], be[j as int]);
            proof {
                assert(bp[j as int] == blinds_poly@[j as int]@);
                assert(be[j as int] == blinds_evals@[j as int]@);
                lemma_halving((num_rounds - j) as nat);
            }
            a.bound_poly_var_top(&closed.r);
            b.bound_poly_var_top(&closed.r);
            c.bound_poly_var_top(&closed.r);
            d.bound_poly_var_top(&closed.r);

            claim_per_round = closed.eval;
            comm_claim_per_round = closed.comm_eval;
            blind_per_round = blinds_evals[j];
            r.push(closed.r);
            comm_polys.push(closed.comm_poly);
            comm_evals.push(closed.comm_eval);
            proofs.push(closed.proof);
            proof {
                assert(r.deep_view() =~= next.rs);
                assert(comm_polys.deep_view() =~= next.comm_polys);
                assert(comm_evals.deep_view() =~= next.comm_evals);
                assert(proof_views(proofs@) =~= next.proofs);
                st = next;
            }
            j += 1;
        }
        (ZKSumcheckInstanceProof { comm_polys, comm_evals, proofs }, r, blind_per_round)
    }

    /// Proves that `a b` adds up over the cube to the claim. The two
    /// polynomials are left with the one value that each takes at the
    /// point of the challenges, which are handed back with the proof,
    /// these two values and the blind of the last claim.
    pub fn prove_quad(
        claim: &Scalar,
        blind_claim: &Scalar,
        num_rounds: usize,
        poly_a: &mut DensePolynomial,
        poly_b: &mut DensePolynomial,
        gens_1: &MultiCommitGens,
        gens_n: &MultiCommitGens,
        transcript: &mut Transcript,
        random_tape: &mut RandomTape,
    ) -> (res: (Self, Vec<Scalar>, Vec<Scalar>, Scalar))
        requires
            num_rounds >= 1,
            old(poly_a)@.len() == two_to(num_rounds as nat),
            old(poly_b)@.len() == old(poly_a)@.len(),
            Self::gens_fit(gens_1, gens_n, 3),
        ensures
            ({
                let p = sumcheck_prove(
                    dot_product_bases(gens_1, gens_n),
                    false,
                    old(transcript).log(),
                    old(random_tape)@,
                    claim@,
                    blind_claim@,
                    num_rounds as nat,
                    Tables {
                        a: old(poly_a)@,
                        b: old(poly_b)@,
                        c: Seq::empty(),
                        d: Seq::empty(),
                    },
                );
                &&& res.0@ == p.proof
                &&& res.1.deep_view() == p.rs
                &&& res.1@.len() == num_rounds
                &&& res.2@.len() == 2
                &&& res.2.deep_view() == seq![p.tables.a[0], p.tables.b[0]]
                &&& res.3@ == p.blind
                &&& final(poly_a)@ == p.tables.a
                &&& final(poly_b)@ == p.tables.b
                &&& final(transcript).log() == p.log
                &&& final(random_tape)@ == p.tape
            }),
    {
        let mut c = DensePolynomial::new(Vec::new());
        let mut d = DensePolynomial::new(Vec::new());
        proof {
            assert(c@ =~= Seq::<nat>::empty());
            assert(d@ =~= Seq::<nat>::empty());
        }
        let (proof, r, blind) = Self::prove_rounds(
            false,
            claim,
            blind_claim,
            num_rounds,
            poly_a,
            poly_b,
            &mut c,
            &mut d,
            gens_1,
            gens_n,
            transcript,
            random_tape,
        );
        let claims = vec![poly_a.index(0), poly_b.index(0)];
        proof {
            assert(claims.deep_view() =~= seq![poly_a@[0], poly_b@[0]]);
        }
        (proof, r, claims, blind)
    }

    /// Proves that `a (b c - d)` adds up over the cube to the claim. The
    /// four polynomials are left with the one value that each takes at
    /// the point of the challenges.
    pub fn prove_cubic_with_additive_term(
        claim: &Scalar,
        blind_claim: &Scalar,
        num_rounds: usize,
        poly_a: &mut DensePolynomial,
        poly_b: &mut DensePolynomial,
        poly_c: &mut DensePolynomial,
        poly_d: &mut DensePolynomial,
        gens_1: &MultiCommitGens,
        gens_n: &MultiCommitGens,
        transcript: &mut Transcript,
        random_tape: &mut RandomTape,
    ) -> (res: (Self, Vec<Scalar>, Vec<Scalar>, Scalar))
        requires
            num_rounds >= 1,
            old(poly_a)@.len() == two_to(num_rounds as nat),
            old(poly_b)@.len() == old(poly_a)@.len(),
            old(poly_c)@.len() == old(poly_a)@.len(),
            old(poly_d)@.len() == old(poly_a)@.len(),
            Self::gens_fit(gens_1, gens_n, 4),
        ensures
            ({
                let p = sumcheck_prove(
                    dot_product_bases(gens_1, gens_n),
                    true,
                    old(transcript).log(),
                    old(random_tape)@,
                    claim@,
                    blind_claim@,
                    num_rounds as nat,
                    Tables {
                        a: old(poly_a)@,
                        b: old(poly_b)@,
                        c: old(poly_c)@,
                        d: old(poly_d)@,
                    },
                );
                &&& res.0@ == p.proof
                &&& res.1.deep_view() == p.rs
                &&& res.1@.len() == num_rounds
                &&& res.2@.len() == 4
                &&& res.2.deep_view() == seq![
                    p.tables.a[0],
                    p.tables.b[0],
                    p.tables.c[0],
                    p.tables.d[0],
                ]
                &&& res.3@ == p.blind
                &&& final(poly_a)@ == p.tables.a
                &&& final(poly_b)@ == p.tables.b
                &&& final(poly_c)@ == p.tables.c
                &&& final(poly_d)@ == p.tables.d
                &&& final(transcript).log() == p.log
                &&& final(random_tape)@ == p.tape
            }),
    {
        let (proof, r, blind) = Self::prove_rounds(
            true,
            claim,
            blind_claim,
            num_rounds,
            poly_a,
            poly_b,
            poly_c,
            poly_d,
            gens_1,
            gens_n,
            transcript,
            random_tape,
        );
        let claims = vec![poly_a.index(0), poly_b.index(0), poly_c.index(0), poly_d.index(0)];
        proof {
            assert(claims.deep_view() =~= seq![poly_a@[0], poly_b@[0], poly_c@[0], poly_d@[0]]);
        }
        (proof, r, claims, blind)
    }
}

/// Where the verifier of a sum stands between two rounds.
pub struct SumcheckVerifyState {
    pub ok: bool,
    pub comm_claim: nat,
    pub log: Log,
    pub rs: Seq<nat>,
}

/// One round by the verifier, for the commitments `comm_poly` to the
/// polynomial of the round and `comm_eval` to its value at the challenge,
/// where the polynomial has `coefficients` coefficients.
pub open spec fn sumcheck_verify_round(
    bases: DotProductBases,
    st: SumcheckVerifyState,
    comm_poly: nat,
    comm_eval: nat,
    proof: DotProductProofView,
    coefficients: nat,
) -> SumcheckVerifyState {
    let r = round_challenge(st.log, comm_poly);
    let w = round_weights(st.log, comm_poly, st.comm_claim, comm_eval);
    let log1 = round_log_weights(st.log, comm_poly, st.comm_claim, comm_eval);
    let comm_target = inner_product(w, seq![st.comm_claim, comm_eval]);
    let a = claim_weights(w[0], w[1], r, coefficients);
    let sized = proof.z.len() == coefficients;
    SumcheckVerifyState {
        ok: sized && dot_product_accepts(bases, log1, proof, a, comm_poly, comm_target),
        comm_claim: comm_eval,
        log: if sized {
            log_challenge(
                dot_product_log(log1, comm_poly, comm_target, a, proof.delta, proof.beta),
                tag("c"),
            )
        } else {
            log1
        },
        rs: st.rs.push(r),
    }
}

/// Where the verifier stands after `k` rounds, or after the one that
/// failed.
pub open spec fn sumcheck_verify_fold(
    bases: DotProductBases,
    init: SumcheckVerifyState,
    proof: ZKSumcheckView,
    coefficients: nat,
    k: nat,
) -> SumcheckVerifyState
    decreases k,
{
    if k == 0 {
        init
    } else {
        let prev = sumcheck_verify_fold(bases, init, proof, coefficients, (k - 1) as nat);
        if !prev.ok {
            prev
        } else {
            sumcheck_verify_round(
                bases,
                prev,
                proof.comm_polys[k - 1],
                proof.comm_evals[k - 1],
                proof.proofs[k - 1],
                coefficients,
            )
        }
    }
}

/// What the verifier of a sum does in `num_rounds` rounds for the
/// commitment `comm_claim` to the claim: at the end it holds the
/// commitment to the last claim and the challenges.
#[verifier::opaque]
pub open spec fn sumcheck_verify(
    bases: DotProductBases,
    log: Log,
    proof: ZKSumcheckView,
    comm_claim: nat,
    num_rounds: nat,
    coefficients: nat,
) -> SumcheckVerifyState {
    sumcheck_verify_fold(
        bases,
        SumcheckVerifyState { ok: true, comm_claim, log, rs: Seq::empty() },
        proof,
        coefficients,
        num_rounds,
    )
}

/// Once a round has failed, nothing more happens.
pub proof fn lemma_sumcheck_verify_failed(
    bases: DotProductBases,
    init: SumcheckVerifyState,
    proof: ZKSumcheckView,
    coefficients: nat,
    j: nat,
    k: nat,
)
    requires
        j <= k,
        !sumcheck_verify_fold(bases, init, proof, coefficients, j).ok,
    ensures
        sumcheck_verify_fold(bases, init, proof, coefficients, k) == sumcheck_verify_fold(
            bases,
            init,
            proof,
            coefficients,
            j,
        ),
    decreases k,
{
    if j < k {
        lemma_sumcheck_verify_failed(bases, init, proof, coefficients, j, (k - 1) as nat);
    }
}

impl ZKSumcheckInstanceProof {
    /// Whether a proof has the messages of `num_rounds` rounds, of which
    /// there is at least one, and the generators are those for
    /// polynomials of the degree `degree_bound`.
    pub open spec fn fits(
        &self,
        num_rounds: nat,
        degree_bound: nat,
        gens_1: &MultiCommitGens,
        gens_n: &MultiCommitGens,
    ) -> bool {
        &&& num_rounds >= 1
        &&& Self::gens_fit(gens_1, gens_n, degree_bound + 1)
        &&& self@.comm_polys.len() == num_rounds
        &&& self@.comm_evals.len() == num_rounds
        &&& self@.proofs.len() == num_rounds
    }

    /// Checks the rounds of a proof of a sum for the committed claim `comm_claim`,
    /// and hands back the commitment to the last claim with the challenges.
    pub fn verify(
        &self,
        comm_claim: &Point,
        num_rounds: usize,
        degree_bound: usize,
        gens_1: &MultiCommitGens,
        gens_n: &MultiCommitGens,
        transcript: &mut Transcript,
    ) -> (res: Result<(Point, Vec<Scalar>), ProofVerifyError>)
        ensures
            ({
                let fits = self.fits(num_rounds as nat, degree_bound as nat, gens_1, gens_n);
                let v = sumcheck_verify(
                    dot_product_bases(gens_1, gens_n),
                    old(transcript).log(),
                    self@,
                    comm_claim@,
                    num_rounds as nat,
                    (degree_bound + 1) as nat,
                );
                &&& res is Ok <==> fits && v.ok
                &&& res is Err ==> res->Err_0 == ProofVerifyError::VerificationFailed
                &&& res is Ok ==> res->Ok_0.0@ == v.comm_claim && res->Ok_0.1.deep_view() == v.rs
                    && res->Ok_0.1@.len() == num_rounds
                &&& final(transcript).log() == if fits {
                    v.log
                } else {
                    old(transcript).log()
                }
            }),
    {
        reveal(sumcheck_verify);
        if num_rounds == 0 || degree_bound == usize::MAX || gens_1.n != 1 || gens_1.G.len() != 1
            || gens_n.n != degree_bound + 1 || gens_n.G.len() != degree_bound + 1
            || self.comm_polys.len() != num_rounds || self.comm_evals.len() != num_rounds
            || self.proofs.len() != num_rounds {
            return Err(ProofVerifyError::VerificationFailed);
        }
        let ghost bases = dot_product_bases(gens_1, gens_n);
        let ghost coefficients = (degree_bound + 1) as nat;
        let ghost init = SumcheckVerifyState {
            ok: true,
            comm_claim: comm_claim@,
            log: transcript.log(),
            rs: Seq::empty(),
        };
        let ghost st = init;
        let mut comm_claim_per_round = *comm_claim;
        let mut r: Vec<Scalar> = Vec::new();
        proof {
            assert(r.deep_view() =~= st.rs);
        }
        let mut i: usize = 0;
        while i < num_rounds
            invariant
                i <= num_rounds,
                num_rounds >= 1,
                bases == dot_product_bases(gens_1, gens_n),
                coefficients == degree_bound + 1,
                degree_bound < usize::MAX,
                Self::gens_fit(gens_1, gens_n, coefficients),
                self.comm_polys@.len() == num_rounds,
                self.comm_evals@.len() == num_rounds,
                self.proofs@.len() == num_rounds,
                init == (SumcheckVerifyState {
                    ok: true,
                    comm_claim: comm_claim@,
                    log: old(transcript).log(),
                    rs: Seq::empty(),
                }),
                st == sumcheck_verify_fold(bases, init, self@, coefficients, i as nat),
                st.ok,
                st.comm_claim == comm_claim_per_round@,
                st.log == transcript.log(),
                st.rs == r.deep_view(),
                r@.len() == i,
            decreases num_rounds - i,
        {
            let comm_poly = &self.comm_polys[i];
            let comm_eval = &self.comm_evals[i];
            let ghost next = sumcheck_verify_round(
                bases,
                st,
                self@.comm_polys[i as int],
                self@.comm_evals[i as int],
                self@.proofs[i as int],
                coefficients,
            );
            proof {
                assert(next == sumcheck_verify_fold(bases, init, self@, coefficients, (i + 1) as nat));
            }
            comm_poly.append_to_transcript("comm_poly".as_bytes(), transcript);
            let r_i = transcript.challenge_scalar("challenge_nextround".as_bytes());

            comm_claim_per_round.append_to_transcript(
                "comm_claim_per_round".as_bytes(),
                transcript,
            );
            comm_eval.append_to_transcript("comm_eval".as_bytes(), transcript);
            let w = transcript.challenge_vector("combine_two_claims_to_one".as_bytes(), 2);
            proof {
                assert(w@[0]@ == w.deep_view()[0]);
                assert(w@[1]@ == w.deep_view()[1]);
            }
            let bases_pair = vec![comm_claim_per_round, *comm_eval];
            let (bs, ws) = (bases_pair.as_slice(), w.as_slice());
            proof {
                assert(bs.deep_view() =~= seq![st.comm_claim, self@.comm_evals[i as int]]);
                assert(ws.deep_view() =~= w.deep_view());
            }
            let comm_target = Point::multi_scalar_mul(bs, ws);
            let a = weights(&w[0], &w[1], &r_i, degree_bound + 1);
            let av = a.as_slice();
            proof {
                assert(av.deep_view() =~= a.deep_view());
            }
            let res = self.proofs[i].verify(gens_1, gens_n, transcript, av, comm_poly, &comm_target);
            r.push(r_i);
            proof {
                assert(r.deep_view() =~= next.rs);
                assert(transcript.log() == next.log);
                assert(res is Ok <==> next.ok);
            }
            if res.is_err() {
                proof {
                    reveal(sumcheck_verify);
                    lemma_sumcheck_verify_failed(
                        bases,
                        init,
                        self@,
                        coefficients,
                        (i + 1) as nat,
                        num_rounds as nat,
                    );
                }
                return Err(ProofVerifyError::VerificationFailed);
            }
            comm_claim_per_round = *comm_eval;
            proof {
                st = next;
            }
            i += 1;
        }
        Ok((comm_claim_per_round, r))
    }
}

impl ZKSumcheckInstanceProof {
    /// The proof with the given parts.
    pub fn from_parts(comm_polys: Vec<Point>, comm_evals: Vec<Point>, proofs: Vec<DotProductProof>)
        -> (r: Self)
        ensures
            r@ == (ZKSumcheckView {
                comm_polys: comm_polys.deep_view(),
                comm_evals: comm_evals.deep_view(),
                proofs: proof_views(proofs@),
            }),
    {
        ZKSumcheckInstanceProof { comm_polys, comm_evals, proofs }
    }

    /// The commitments to the polynomials of the rounds.
    pub fn comm_polys(&self) -> (r: &Vec<Point>)
        ensures
            r.deep_view() == self@.comm_polys,
    {
        &self.comm_polys
    }

    /// The commitments to the values of the polynomials at the
    /// challenges.
    pub fn comm_evals(&self) -> (r: &Vec<Point>)
        ensures
            r.deep_view() == self@.comm_evals,
    {
        &self.comm_evals
    }

    /// The proofs of the rounds.
    pub fn proofs(&self) -> (r: &Vec<DotProductProof>)
        ensures
            proof_views(r@) == self@.proofs,
    {
        &self.proofs
    }
}

} // verus!
