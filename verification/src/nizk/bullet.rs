use vstd::prelude::*;
use vstd::slice::{slice_subrange, slice_to_vec};
use crate::errors::ProofVerifyError;
use crate::group::Point;
use crate::math::{
    floor_log_2, is_power_of_two, lemma_floor_log_2_two_to, lemma_log_2_unique, log_2, pow2,
    two_to,
};
use crate::nizk::dot_product::DotProductProof;
use crate::scalar::{fadd, finv, fmul, has_inverse, inner_product, Scalar};
use crate::transcript::{
    challenge_scalar, log_append_point, log_challenge, tag, Log, ProofTranscript,
};
use merlin::Transcript;

verus! {

/// The messages of the reduction of an inner product of two vectors to
/// one of two scalars: two group elements for each halving.
#[derive(Debug)]
pub struct BulletReductionProof {
    l_vec: Vec<Point>,
    r_vec: Vec<Point>,
}

/// What the messages of a reduction hold.
pub struct BulletProofView {
    pub ls: Seq<nat>,
    pub rs: Seq<nat>,
}

impl View for BulletReductionProof {
    type V = BulletProofView;

    closed spec fn view(&self) -> BulletProofView {
        BulletProofView { ls: self.l_vec.deep_view(), rs: self.r_vec.deep_view() }
    }
}

/// Where the prover of a reduction stands between two halvings.
pub struct BulletState {
    pub g: Seq<nat>,
    pub a: Seq<nat>,
    pub b: Seq<nat>,
    pub blind: nat,
    pub log: Log,
    pub ls: Seq<nat>,
    pub rs: Seq<nat>,
    pub failed: bool,
}

/// In each place the entry of `lo` times `cl`, plus `ch` times the entry
/// of `hi`.
pub open spec fn fold_scalars(lo: Seq<nat>, hi: Seq<nat>, cl: nat, ch: nat) -> Seq<nat> {
    Seq::new(lo.len(), |i: int| fadd(fmul(lo[i], cl), fmul(ch, hi[i])))
}

/// In each place the element of `lo` taken `cl` times, plus the element
/// of `hi` taken `ch` times.
pub open spec fn fold_points(lo: Seq<nat>, hi: Seq<nat>, cl: nat, ch: nat) -> Seq<nat> {
    Seq::new(lo.len(), |i: int| fadd(fmul(lo[i], cl), fmul(hi[i], ch)))
}

/// The transcript once the two messages of a halving are absorbed.
pub open spec fn bullet_absorbed(log: Log, l: nat, r: nat) -> Log {
    log_append_point(log_append_point(log, tag("L"), l), tag("R"), r)
}

/// One halving by the prover, with the blinds `sl` and `sr`: the two
/// cross terms are committed to, the challenge `u` is taken, and the
/// halves are folded with `u` and its inverse. A challenge without an
/// inverse, which is to say zero, ends the reduction.
pub open spec fn bullet_round(q: nat, h: nat, s: BulletState, sl: nat, sr: nat) -> BulletState {
    let n = s.a.len() / 2;
    let (al, ar) = (s.a.take(n as int), s.a.skip(n as int));
    let (bl, br) = (s.b.take(n as int), s.b.skip(n as int));
    let (gl, gr) = (s.g.take(n as int), s.g.skip(n as int));
    let cl = inner_product(al, br);
    let cr = inner_product(ar, bl);
    let l = inner_product(al.push(cl).push(sl), gr.push(q).push(h));
    let r = inner_product(ar.push(cr).push(sr), gl.push(q).push(h));
    let log1 = bullet_absorbed(s.log, l, r);
    let u = challenge_scalar(log1, tag("u"));
    let u_inv = finv(u);
    if !has_inverse(u) {
        BulletState {
            log: log_challenge(log1, tag("u")),
            ls: s.ls.push(l),
            rs: s.rs.push(r),
            failed: true,
            ..s
        }
    } else {
        BulletState {
            g: fold_points(gl, gr, u_inv, u),
            a: fold_scalars(al, ar, u, u_inv),
            b: fold_scalars(bl, br, u_inv, u),
            blind: fadd(fadd(s.blind, fmul(fmul(sl, u), u)), fmul(fmul(sr, u_inv), u_inv)),
            log: log_challenge(log1, tag("u")),
            ls: s.ls.push(l),
            rs: s.rs.push(r),
            failed: false,
        }
    }
}

/// Where the prover stands after `k` halvings, or after the one that
/// failed.
pub open spec fn bullet_fold(
    q: nat,
    h: nat,
    init: BulletState,
    blinds: Seq<(nat, nat)>,
    k: nat,
) -> BulletState
    decreases k,
{
    if k == 0 {
        init
    } else {
        let prev = bullet_fold(q, h, init, blinds, (k - 1) as nat);
        if prev.failed {
            prev
        } else {
            bullet_round(q, h, prev, blinds[k - 1].0, blinds[k - 1].1)
        }
    }
}

/// The state in which the prover of a reduction starts.
pub open spec fn bullet_start(g: Seq<nat>, a: Seq<nat>, b: Seq<nat>, blind: nat, log: Log)
    -> BulletState {
    BulletState { g, a, b, blind, log, ls: Seq::empty(), rs: Seq::empty(), failed: false }
}

/// What the prover of a reduction hands back and leaves behind.
pub struct BulletProved {
    pub failed: bool,
    pub proof: BulletProofView,
    pub gamma_hat: nat,
    pub a_hat: nat,
    pub b_hat: nat,
    pub g_hat: nat,
    pub blind_hat: nat,
    pub log: Log,
}

/// What the honest prover of a reduction does for the vectors `a` and `b`
/// under the generators `g`, the base `q` for the inner product and the
/// blinding base `h`.
pub open spec fn bullet_prove(
    q: nat,
    h: nat,
    g: Seq<nat>,
    a: Seq<nat>,
    b: Seq<nat>,
    blind: nat,
    blinds: Seq<(nat, nat)>,
    log: Log,
) -> BulletProved {
    let s = bullet_fold(q, h, bullet_start(g, a, b, blind, log), blinds, floor_log_2(a.len()));
    BulletProved {
        failed: s.failed,
        proof: BulletProofView { ls: s.ls, rs: s.rs },
        gamma_hat: inner_product(
            seq![s.a[0], fmul(s.a[0], s.b[0]), s.blind],
            seq![s.g[0], q, h],
        ),
        a_hat: s.a[0],
        b_hat: s.b[0],
        g_hat: s.g[0],
        blind_hat: s.blind,
        log: s.log,
    }
}

/// The transcript of the verifier after `k` halvings.
pub open spec fn bullet_log(log: Log, ls: Seq<nat>, rs: Seq<nat>, k: nat) -> Log
    decreases k,
{
    if k == 0 {
        log
    } else {
        log_challenge(
            bullet_absorbed(bullet_log(log, ls, rs, (k - 1) as nat), ls[k - 1], rs[k - 1]),
            tag("u"),
        )
    }
}

/// The challenges of all halvings, as the verifier takes them.
pub open spec fn bullet_challenges(log: Log, ls: Seq<nat>, rs: Seq<nat>) -> Seq<nat> {
    Seq::new(
        ls.len(),
        |j: int|
            challenge_scalar(
                bullet_absorbed(bullet_log(log, ls, rs, j as nat), ls[j], rs[j]),
                tag("u"),
            ),
    )
}

/// The weight of the generator in place `i` in the folded generator: for
/// each halving the challenge where the place lay in the upper half, and
/// its inverse where it lay in the lower one, all multiplied.
pub open spec fn s_weight(us: Seq<nat>, i: nat) -> nat
    decreases us.len(),
{
    if us.len() == 0 {
        1
    } else {
        let half = two_to((us.len() - 1) as nat);
        if i >= half {
            fmul(us[0], s_weight(us.drop_first(), (i - half) as nat))
        } else {
            fmul(finv(us[0]), s_weight(us.drop_first(), i))
        }
    }
}

/// The weights of all generators.
pub open spec fn s_weights(us: Seq<nat>) -> Seq<nat> {
    Seq::new(two_to(us.len()), |i: int| s_weight(us, i as nat))
}

/// The squares of the entries.
pub open spec fn squares(us: Seq<nat>) -> Seq<nat> {
    Seq::new(us.len(), |j: int| fmul(us[j], us[j]))
}

/// The squares of the inverses of the entries.
pub open spec fn inverse_squares(us: Seq<nat>) -> Seq<nat> {
    Seq::new(us.len(), |j: int| fmul(finv(us[j]), finv(us[j])))
}

/// Whether the sizes of a reduction's messages, vectors and generators
/// fit together.
pub open spec fn bullet_sized(proof: BulletProofView, n: nat, a_len: nat, g_len: nat) -> bool {
    &&& bullet_rounds_fit(proof, n)
    &&& a_len == n
    &&& g_len == n
}

/// What the verifier of a reduction finds.
pub struct BulletVerified {
    pub ok: bool,
    pub g_hat: nat,
    pub gamma_hat: nat,
    pub a_hat: nat,
    pub log: Log,
}

/// What the verifier of a reduction does with the messages, the public
/// vector `a`, the commitment `gamma` and the generators `g`.
pub open spec fn bullet_verify(
    proof: BulletProofView,
    n: nat,
    a: Seq<nat>,
    log: Log,
    gamma: nat,
    g: Seq<nat>,
) -> BulletVerified {
    let sized = bullet_sized(proof, n, a.len(), g.len());
    let us = bullet_challenges(log, proof.ls, proof.rs);
    let s = s_weights(us);
    BulletVerified {
        ok: sized && forall|j: int| 0 <= j < us.len() ==> has_inverse(#[trigger] us[j]),
        g_hat: inner_product(s, g),
        gamma_hat: inner_product(
            (squares(us) + inverse_squares(us)).push(1),
            (proof.ls + proof.rs).push(gamma),
        ),
        a_hat: inner_product(a, s),
        log: if sized {
            bullet_log(log, proof.ls, proof.rs, proof.ls.len())
        } else {
            log
        },
    }
}

/// Once a halving has failed, nothing more happens.
pub proof fn lemma_bullet_fold_failed(
    q: nat,
    h: nat,
    init: BulletState,
    blinds: Seq<(nat, nat)>,
    j: nat,
    k: nat,
)
    requires
        j <= k,
        bullet_fold(q, h, init, blinds, j).failed,
    ensures
        bullet_fold(q, h, init, blinds, k) == bullet_fold(q, h, init, blinds, j),
    decreases k,
{
    if j < k {
        lemma_bullet_fold_failed(q, h, init, blinds, j, (k - 1) as nat);
    }
}

/// What one halving hands on to the next.
struct Folded {
    g: Vec<Point>,
    a: Vec<Scalar>,
    b: Vec<Scalar>,
    blind: Scalar,
    l: Point,
    r: Point,
}

/// The two halves of a vector.
fn halves<T: Copy>(v: &Vec<T>) -> (r: (Vec<T>, Vec<T>))
    ensures
        r.0@ == v@.take((v@.len() / 2) as int),
        r.1@ == v@.skip((v@.len() / 2) as int),
{
    let n = v.len();
    let lo = slice_to_vec(slice_subrange(v.as_slice(), 0, n / 2));
    let hi = slice_to_vec(slice_subrange(v.as_slice(), n / 2, n));
    assert(lo@ =~= v@.take((v@.len() / 2) as int));
    assert(hi@ =~= v@.skip((v@.len() / 2) as int));
    (lo, hi)
}

/// The commitment to one half of a vector under the other half of the
/// generators, with the cross term under `q` and the blind under `h`.
fn cross_commitment(half: &Vec<Scalar>, cross: &Scalar, blind: &Scalar, gens: &Vec<Point>, q: &Point, h: &Point)
    -> (r: Point)
    requires
        half@.len() == gens@.len(),
    ensures
        r@ == inner_product(
            half.deep_view().push(cross@).push(blind@),
            gens.deep_view().push(q@).push(h@),
        ),
{
    let mut scalars = slice_to_vec(half.as_slice());
    scalars.push(*cross);
    scalars.push(*blind);
    let mut bases = slice_to_vec(gens.as_slice());
    bases.push(*q);
    bases.push(*h);
    proof {
        assert(scalars.deep_view() =~= half.deep_view().push(cross@).push(blind@));
        assert(bases.deep_view() =~= gens.deep_view().push(q@).push(h@));
    }
    let (b, s) = (bases.as_slice(), scalars.as_slice());
    proof {
        assert(b.deep_view() =~= bases.deep_view());
        assert(s.deep_view() =~= scalars.deep_view());
    }
    Point::multi_scalar_mul(b, s)
}

impl BulletReductionProof {
    /// One halving: nothing where the challenge is zero.
    fn fold(
        transcript: &mut Transcript,
        q: &Point,
        h: &Point,
        g: &Vec<Point>,
        a: &Vec<Scalar>,
        b: &Vec<Scalar>,
        blind: &Scalar,
        sl: &Scalar,
        sr: &Scalar,
    ) -> (res: Option<Folded>)
        requires
            g@.len() == a@.len(),
            b@.len() == a@.len(),
            a@.len() == 2 * (a@.len() / 2),
        ensures
            ({
                let s = BulletState {
                    g: g.deep_view(),
                    a: a.deep_view(),
                    b: b.deep_view(),
                    blind: blind@,
                    log: old(transcript).log(),
                    ls: Seq::empty(),
                    rs: Seq::empty(),
                    failed: false,
                };
                let t = bullet_round(q@, h@, s, sl@, sr@);
                &&& final(transcript).log() == t.log
                &&& res is None <==> t.failed
                &&& res is Some ==> {
                    let f = res.unwrap();
                    &&& f.g.deep_view() == t.g
                    &&& f.a.deep_view() == t.a
                    &&& f.b.deep_view() == t.b
                    &&& f.blind@ == t.blind
                    &&& f.l@ == t.ls[0]
                    &&& f.r@ == t.rs[0]
                }
                &&& res is None ==> t.ls.len() == 1 && t.rs.len() == 1
            }),
    {
        let n = a.len() / 2;
        let (a_l, a_r) = halves(a);
        let (b_l, b_r) = halves(b);
        let (g_l, g_r) = halves(g);
        proof {
            assert(a_l.deep_view() =~= a.deep_view().take(n as int));
            assert(a_r.deep_view() =~= a.deep_view().skip(n as int));
            assert(b_l.deep_view() =~= b.deep_view().take(n as int));
            assert(b_r.deep_view() =~= b.deep_view().skip(n as int));
            assert(g_l.deep_view() =~= g.deep_view().take(n as int));
            assert(g_r.deep_view() =~= g.deep_view().skip(n as int));
        }
        let c_l = DotProductProof::dot(&a_l, &b_r);
        let c_r = DotProductProof::dot(&a_r, &b_l);
        let l = cross_commitment(&a_l, &c_l, sl, &g_r, q, h);
        let r = cross_commitment(&a_r, &c_r, sr, &g_l, q, h);

        transcript.append_point("L".as_bytes(), &l);
        transcript.append_point("R".as_bytes(), &r);
        let u = transcript.challenge_scalar("u".as_bytes());
        let u_inv = match u.inverse() {
            Some(v) => v,
            None => {
                return None;
            },
        };

        let mut a2: Vec<Scalar> = Vec::new();
        let mut b2: Vec<Scalar> = Vec::new();
        let mut g2: Vec<Point> = Vec::new();
        let mut i: usize = 0;
        while i < n
            invariant
                i <= n,
                a_l@.len() == n,
                a_r@.len() == n,
                b_l@.len() == n,
                b_r@.len() == n,
                g_l@.len() == n,
                g_r@.len() == n,
                a2@.len() == i,
                b2@.len() == i,
                g2@.len() == i,
                forall|j: int|
                    0 <= j < i ==> a2@[j]@ == fadd(fmul(a_l@[j]@, u@), fmul(u_inv@, a_r@[j]@)),
                forall|j: int|
                    0 <= j < i ==> b2@[j]@ == fadd(fmul(b_l@[j]@, u_inv@), fmul(u@, b_r@[j]@)),
                forall|j: int|
                    0 <= j < i ==> g2@[j]@ == fadd(fmul(g_l@[j]@, u_inv@), fmul(g_r@[j]@, u@)),
            decreases n - i,
        {
            a2.push(a_l[i].mul(&u).add(&u_inv.mul(&a_r[i])));
            b2.push(b_l[i].mul(&u_inv).add(&u.mul(&b_r[i])));
            g2.push(g_l[i].mul(&u_inv).add(&g_r[i].mul(&u)));
            i += 1;
        }
        let blind2 = blind.add(&sl.mul(&u).mul(&u)).add(&sr.mul(&u_inv).mul(&u_inv));
        proof {
            assert(a2.deep_view() =~= fold_scalars(a_l.deep_view(), a_r.deep_view(), u@, u_inv@));
            assert(b2.deep_view() =~= fold_scalars(b_l.deep_view(), b_r.deep_view(), u_inv@, u@));
            assert(g2.deep_view() =~= fold_points(g_l.deep_view(), g_r.deep_view(), u_inv@, u@));
        }
        Some(Folded { g: g2, a: a2, b: b2, blind: blind2, l, r })
    }
}

impl BulletReductionProof {
    /// Reduces the inner product of `a_vec` and `b_vec` to one of two
    /// scalars. A challenge of zero ends the reduction with an error.
    pub fn prove(
        transcript: &mut Transcript,
        q: &Point,
        g_vec: &[Point],
        h: &Point,
        a_vec: &[Scalar],
        b_vec: &[Scalar],
        blind: &Scalar,
        blinds_vec: &[(Scalar, Scalar)],
    ) -> (res: Result<
        (BulletReductionProof, Point, Scalar, Scalar, Point, Scalar),
        ProofVerifyError,
    >)
        requires
            g_vec@.len() == a_vec@.len(),
            b_vec@.len() == a_vec@.len(),
            is_power_of_two(a_vec@.len() as nat),
            blinds_vec@.len() >= floor_log_2(a_vec@.len() as nat),
        ensures
            ({
                let p = bullet_prove(
                    q@,
                    h@,
                    g_vec.deep_view(),
                    a_vec.deep_view(),
                    b_vec.deep_view(),
                    blind@,
                    blinds_vec.deep_view(),
                    old(transcript).log(),
                );
                &&& final(transcript).log() == p.log
                &&& res is Err <==> p.failed
                &&& res is Err ==> res->Err_0 == ProofVerifyError::VerificationFailed
                &&& res is Ok ==> {
                    let r = res->Ok_0;
                    &&& r.0@ == p.proof
                    &&& r.1@ == p.gamma_hat
                    &&& r.2@ == p.a_hat
                    &&& r.3@ == p.b_hat
                    &&& r.4@ == p.g_hat
                    &&& r.5@ == p.blind_hat
                }
            }),
    {
        let n = a_vec.len();
        let rounds = log_2(n);
        let mut g = slice_to_vec(g_vec);
        let mut a = slice_to_vec(a_vec);
        let mut b = slice_to_vec(b_vec);
        let mut blind_fin = *blind;
        let mut l_vec: Vec<Point> = Vec::new();
        let mut r_vec: Vec<Point> = Vec::new();
        let ghost init = bullet_start(
            g_vec.deep_view(),
            a_vec.deep_view(),
            b_vec.deep_view(),
            blind@,
            transcript.log(),
        );
        let ghost blinds = blinds_vec.deep_view();
        let ghost st = init;
        proof {
            lemma_floor_log_2_two_to(floor_log_2(n as nat));
            lemma_log_2_unique(n as nat, rounds as nat, floor_log_2(n as nat));
            assert(g.deep_view() =~= g_vec.deep_view());
            assert(a.deep_view() =~= a_vec.deep_view());
            assert(b.deep_view() =~= b_vec.deep_view());
            assert(l_vec.deep_view() =~= Seq::<nat>::empty());
            assert(r_vec.deep_view() =~= Seq::<nat>::empty());
        }
        let mut round: usize = 0;
        while round < rounds
            invariant
                round <= rounds,
                n == a_vec@.len(),
                rounds == floor_log_2(n as nat),
                rounds <= blinds_vec@.len(),
                blinds == blinds_vec.deep_view(),
                init == bullet_start(
                    g_vec.deep_view(),
                    a_vec.deep_view(),
                    b_vec.deep_view(),
                    blind@,
                    old(transcript).log(),
                ),
                st == bullet_fold(q@, h@, init, blinds, round as nat),
                !st.failed,
                g.deep_view() == st.g,
                a.deep_view() == st.a,
                b.deep_view() == st.b,
                blind_fin@ == st.blind,
                l_vec.deep_view() == st.ls,
                r_vec.deep_view() == st.rs,
                transcript.log() == st.log,
                a@.len() == two_to((rounds - round) as nat),
                b@.len() == a@.len(),
                g@.len() == a@.len(),
            decreases rounds - round,
        {
            let pair = &blinds_vec[round];
            let sl = pair.0;
            let sr = pair.1;
            let ghost next = bullet_round(q@, h@, st, sl@, sr@);
            let ghost half = a@.len() / 2;
            proof {
                assert(st.a.len() == a@.len());
                assert(st.b.len() == a@.len());
                assert(st.g.len() == a@.len());
                assert(blinds[round as int] == (sl@, sr@));
                assert(two_to((rounds - round) as nat) == 2 * two_to((rounds - round - 1) as nat));
                assert(next == bullet_fold(q@, h@, init, blinds, (round + 1) as nat));
            }
            match BulletReductionProof::fold(transcript, q, h, &g, &a, &b, &blind_fin, &sl, &sr) {
                None => {
                    proof {
                        assert(next.failed);
                        assert(transcript.log() == next.log);
                        lemma_bullet_fold_failed(
                            q@,
                            h@,
                            init,
                            blinds,
                            (round + 1) as nat,
                            rounds as nat,
                        );
                        assert(bullet_fold(q@, h@, init, blinds, rounds as nat) == next);
                        assert(a_vec.deep_view().len() == n);
                    }
                    return Err(ProofVerifyError::VerificationFailed);
                },
                Some(f) => {
                    g = f.g;
                    a = f.a;
                    b = f.b;
                    blind_fin = f.blind;
                    l_vec.push(f.l);
                    r_vec.push(f.r);
                    proof {
                        assert(a.deep_view().len() == half);
                        assert(b.deep_view().len() == half);
                        assert(g.deep_view().len() == half);
                        assert(l_vec.deep_view() =~= next.ls);
                        assert(r_vec.deep_view() =~= next.rs);
                        st = next;
                    }
                },
            }
            round += 1;
        }
        let a0 = a[0];
        let b0 = b[0];
        let g0 = g[0];
        let scalars = vec![a0, a0.mul(&b0), blind_fin];
        let bases = vec![g0, *q, *h];
        let (bs, ss) = (bases.as_slice(), scalars.as_slice());
        proof {
            assert(ss.deep_view() =~= seq![st.a[0], fmul(st.a[0], st.b[0]), st.blind]);
            assert(bs.deep_view() =~= seq![st.g[0], q@, h@]);
        }
        let gamma_hat = Point::multi_scalar_mul(bs, ss);
        Ok((BulletReductionProof { l_vec, r_vec }, gamma_hat, a0, b0, g0, blind_fin))
    }
}

/// Whether the messages of a reduction are as many as the length `n` of
/// the vectors asks for.
pub open spec fn bullet_rounds_fit(proof: BulletProofView, n: nat) -> bool {
    &&& proof.ls.len() == proof.rs.len()
    &&& proof.ls.len() < 32
    &&& n == two_to(proof.ls.len())
}

/// The weights of twice as many generators, for one more challenge `u`
/// with the inverse `u_inv` taken before the others.
fn double_weights(s: &Vec<Scalar>, u: &Scalar, u_inv: &Scalar, Ghost(us): Ghost<Seq<nat>>) -> (r:
    Vec<Scalar>)
    requires
        us.len() > 0,
        u@ == us[0],
        u_inv@ == finv(us[0]),
        s.deep_view() == s_weights(us.drop_first()),
    ensures
        r.deep_view() == s_weights(us),
{
    let half = s.len();
    proof {
        assert(s.deep_view().len() == two_to(us.drop_first().len()));
    }
    let mut next: Vec<Scalar> = Vec::new();
    let mut i: usize = 0;
    while i < half
        invariant
            i <= half,
            us.len() > 0,
            half == s@.len(),
            half == two_to((us.len() - 1) as nat),
            u_inv@ == finv(us[0]),
            s.deep_view() == s_weights(us.drop_first()),
            next@.len() == i,
            forall|k: int| 0 <= k < i ==> next@[k]@ == s_weight(us, k as nat),
        decreases half - i,
    {
        proof {
            assert(s@[i as int]@ == s.deep_view()[i as int]);
        }
        next.push(u_inv.mul(&s[i]));
        i += 1;
    }
    let mut i: usize = 0;
    while i < half
        invariant
            i <= half,
            us.len() > 0,
            half == s@.len(),
            half == two_to((us.len() - 1) as nat),
            u@ == us[0],
            s.deep_view() == s_weights(us.drop_first()),
            next@.len() == half + i,
            forall|k: int| 0 <= k < half + i ==> next@[k]@ == s_weight(us, k as nat),
        decreases half - i,
    {
        proof {
            assert(s@[i as int]@ == s.deep_view()[i as int]);
        }
        next.push(u.mul(&s[i]));
        i += 1;
    }
    assert(next.deep_view() =~= s_weights(us));
    next
}

impl BulletReductionProof {
    /// The squares of the challenges, the squares of their inverses, and
    /// the weights of the generators.
    fn verification_scalars(&self, n: usize, transcript: &mut Transcript) -> (res: Result<
        (Vec<Scalar>, Vec<Scalar>, Vec<Scalar>),
        ProofVerifyError,
    >)
        ensures
            ({
                let log = old(transcript).log();
                let us = bullet_challenges(log, self@.ls, self@.rs);
                let fit = bullet_rounds_fit(self@, n as nat);
                &&& final(transcript).log() == if fit {
                    bullet_log(log, self@.ls, self@.rs, self@.ls.len())
                } else {
                    log
                }
                &&& res is Ok <==> fit && forall|j: int|
                    0 <= j < us.len() ==> has_inverse(#[trigger] us[j])
                &&& res is Err ==> res->Err_0 == ProofVerifyError::VerificationFailed
                &&& res is Ok ==> {
                    let r = res->Ok_0;
                    &&& r.0.deep_view() == squares(us)
                    &&& r.1.deep_view() == inverse_squares(us)
                    &&& r.2.deep_view() == s_weights(us)
                }
            }),
    {
        let lg_n = self.l_vec.len();
        if lg_n >= 32 || self.r_vec.len() != lg_n {
            return Err(ProofVerifyError::VerificationFailed);
        }
        if n != pow2(lg_n) {
            return Err(ProofVerifyError::VerificationFailed);
        }
        let ghost log = transcript.log();
        let ghost ls = self@.ls;
        let ghost rs = self@.rs;
        let ghost all = bullet_challenges(log, ls, rs);

        let mut us: Vec<Scalar> = Vec::new();
        let mut j: usize = 0;
        while j < lg_n
            invariant
                j <= lg_n,
                lg_n == self.l_vec@.len(),
                lg_n == self.r_vec@.len(),
                ls == self.l_vec.deep_view(),
                rs == self.r_vec.deep_view(),
                all == bullet_challenges(log, ls, rs),
                us@.len() == j,
                transcript.log() == bullet_log(log, ls, rs, j as nat),
                forall|k: int| 0 <= k < j ==> us@[k]@ == all[k],
            decreases lg_n - j,
        {
            transcript.append_point("L".as_bytes(), &self.l_vec[j]);
            transcript.append_point("R".as_bytes(), &self.r_vec[j]);
            let u = transcript.challenge_scalar("u".as_bytes());
            us.push(u);
            j += 1;
        }

        let mut u_invs: Vec<Scalar> = Vec::new();
        let mut u_sq: Vec<Scalar> = Vec::new();
        let mut u_inv_sq: Vec<Scalar> = Vec::new();
        let mut j: usize = 0;
        while j < lg_n
            invariant
                j <= lg_n,
                lg_n == self.l_vec@.len(),
                lg_n == self.r_vec@.len(),
                lg_n < 32,
                n == two_to(lg_n as nat),
                log == old(transcript).log(),
                ls == self@.ls,
                rs == self@.rs,
                all == bullet_challenges(log, ls, rs),
                transcript.log() == bullet_log(log, ls, rs, lg_n as nat),
                us@.len() == lg_n,
                all.len() == lg_n,
                forall|k: int| 0 <= k < lg_n ==> us@[k]@ == all[k],
                u_invs@.len() == j,
                u_sq@.len() == j,
                u_inv_sq@.len() == j,
                forall|k: int| 0 <= k < j ==> has_inverse(#[trigger] all[k]),
                forall|k: int| 0 <= k < j ==> u_invs@[k]@ == finv(all[k]),
                forall|k: int| 0 <= k < j ==> u_sq@[k]@ == fmul(all[k], all[k]),
                forall|k: int| 0 <= k < j ==> u_inv_sq@[k]@ == fmul(finv(all[k]), finv(all[k])),
            decreases lg_n - j,
        {
            let u = us[j];
            match u.inverse() {
                None => {
                    assert(!has_inverse(all[j as int]));
                    return Err(ProofVerifyError::VerificationFailed);
                },
                Some(u_inv) => {
                    u_sq.push(u.mul(&u));
                    u_inv_sq.push(u_inv.mul(&u_inv));
                    u_invs.push(u_inv);
                },
            }
            j += 1;
        }

        let mut s: Vec<Scalar> = vec![Scalar::one()];
        let ghost usv = us.deep_view();
        proof {
            assert(usv =~= all);
            assert(usv.skip(lg_n as int).len() == 0);
            assert(s.deep_view() =~= s_weights(usv.skip(lg_n as int)));
        }
        let mut j: usize = lg_n;
        while j > 0
            invariant
                j <= lg_n,
                lg_n == self.l_vec@.len(),
                lg_n == self.r_vec@.len(),
                lg_n < 32,
                n == two_to(lg_n as nat),
                log == old(transcript).log(),
                ls == self@.ls,
                rs == self@.rs,
                all == bullet_challenges(log, ls, rs),
                transcript.log() == bullet_log(log, ls, rs, lg_n as nat),
                us@.len() == lg_n,
                u_invs@.len() == lg_n,
                usv == us.deep_view(),
                usv == all,
                forall|k: int| 0 <= k < lg_n ==> u_invs@[k]@ == finv(all[k]),
                s.deep_view() == s_weights(usv.skip(j as int)),
            decreases j,
        {
            j -= 1;
            proof {
                assert(usv.skip(j as int).drop_first() =~= usv.skip(j + 1));
                assert(usv.skip(j as int)[0] == us@[j as int]@);
            }
            s = double_weights(&s, &us[j], &u_invs[j], Ghost(usv.skip(j as int)));
        }
        proof {
            assert(usv.skip(0) =~= usv);
            assert(u_sq.deep_view() =~= squares(all));
            assert(u_inv_sq.deep_view() =~= inverse_squares(all));
        }
        Ok((u_sq, u_inv_sq, s))
    }

    /// Recomputes the folded generator, commitment and public scalar from
    /// the messages of a reduction.
    pub fn verify(
        &self,
        n: usize,
        a: &[Scalar],
        transcript: &mut Transcript,
        gamma: &Point,
        g: &[Point],
    ) -> (res: Result<(Point, Point, Scalar), ProofVerifyError>)
        ensures
            ({
                let v = bullet_verify(
                    self@,
                    n as nat,
                    a.deep_view(),
                    old(transcript).log(),
                    gamma@,
                    g.deep_view(),
                );
                &&& final(transcript).log() == v.log
                &&& res is Ok <==> v.ok
                &&& res is Err ==> res->Err_0 == ProofVerifyError::VerificationFailed
                &&& res is Ok ==> {
                    let r = res->Ok_0;
                    &&& r.0@ == v.g_hat
                    &&& r.1@ == v.gamma_hat
                    &&& r.2@ == v.a_hat
                }
            }),
    {
        if a.len() != n || g.len() != n {
            return Err(ProofVerifyError::VerificationFailed);
        }
        let ghost us = bullet_challenges(transcript.log(), self@.ls, self@.rs);
        let (u_sq, u_inv_sq, s) = match self.verification_scalars(n, transcript) {
            Ok(t) => t,
            Err(e) => {
                return Err(e);
            },
        };
        proof {
            assert(s.deep_view().len() == n);
        }
        let s_slice = s.as_slice();
        proof {
            assert(s_slice.deep_view() =~= s.deep_view());
        }
        let g_hat = Point::multi_scalar_mul(g, s_slice);
        let a_hat = DotProductProof::compute_dotproduct(a, s_slice);

        let mut scalars = u_sq;
        let mut rest = u_inv_sq;
        scalars.append(&mut rest);
        scalars.push(Scalar::one());
        let mut bases = slice_to_vec(self.l_vec.as_slice());
        let mut right = slice_to_vec(self.r_vec.as_slice());
        bases.append(&mut right);
        bases.push(*gamma);
        let (bs, ss) = (bases.as_slice(), scalars.as_slice());
        proof {
            assert(ss.deep_view() =~= (squares(us) + inverse_squares(us)).push(1));
            assert(bs.deep_view() =~= (self@.ls + self@.rs).push(gamma@));
        }
        let gamma_hat = Point::multi_scalar_mul(bs, ss);
        Ok((g_hat, gamma_hat, a_hat))
    }
}

impl BulletReductionProof {
    /// The proof with the given messages.
    pub fn from_parts(l_vec: Vec<Point>, r_vec: Vec<Point>) -> (r: Self)
        ensures
            r@ == (BulletProofView { ls: l_vec.deep_view(), rs: r_vec.deep_view() }),
    {
        BulletReductionProof { l_vec, r_vec }
    }

    /// The first messages of the halvings.
    pub fn l_vec(&self) -> (r: &Vec<Point>)
        ensures
            r.deep_view() == self@.ls,
    {
        &self.l_vec
    }

    /// The second messages of the halvings.
    pub fn r_vec(&self) -> (r: &Vec<Point>)
        ensures
            r.deep_view() == self@.rs,
    {
        &self.r_vec
    }
}

} // verus!
