use vstd::prelude::*;
use vstd::slice::{slice_subrange, slice_to_vec};
use crate::commitments::{commitment, Commitments, MultiCommitGens};
use crate::errors::ProofVerifyError;
use crate::group::Point;
use crate::math::{
    lemma_floor_log_2_two_to, lemma_two_to_64, lemma_two_to_grows, log_2, pow2, two_to,
};
use crate::nizk::dot_product::{dot_product_bases, DotProductBases, DotProductProof, DotProductProofGens};
use crate::nizk::dot_product_log::{
    dot_product_log_prove, dot_product_log_verify, DotProductLogProved, DotProductLogVerified,
    DotProductProofLog, DotProductProofLogView,
};
use crate::random::RandomTape;
use crate::scalar::{fadd, fmul, fsub, inner_product, Scalar};
use crate::transcript::{
    challenge_vector, log_append, log_append_point, log_append_protocol_name, log_challenges,
    marker, tag, AppendToTranscript, Log, ProofTranscript, TranscriptOp,
};
use merlin::Transcript;

verus! {

/// The polynomial in several variables that is one where they agree with
/// the point `r`, bit for bit, and zero at every other corner of the cube.
pub struct EqPolynomial {
    r: Vec<Scalar>,
}

impl View for EqPolynomial {
    type V = Seq<nat>;

    closed spec fn view(&self) -> Seq<nat> {
        self.r.deep_view()
    }
}

/// The value at `x` of the polynomial of the point `r`: over all
/// variables the product of `r x + (1 - r)(1 - x)`.
pub open spec fn eq_eval(r: Seq<nat>, x: Seq<nat>) -> nat
    decreases r.len(),
{
    if r.len() == 0 || x.len() == 0 {
        1
    } else {
        fmul(
            eq_eval(r.drop_last(), x.drop_last()),
            fadd(fmul(r.last(), x.last()), fmul(fsub(1, r.last()), fsub(1, x.last()))),
        )
    }
}

/// The values of the polynomial of the point `r` at all corners of the
/// cube, the first variable being the most significant bit of the place.
pub open spec fn eq_evals(r: Seq<nat>) -> Seq<nat>
    decreases r.len(),
{
    if r.len() == 0 {
        seq![1nat]
    } else {
        let prev = eq_evals(r.drop_last());
        Seq::new(
            2 * prev.len(),
            |i: int|
                if i % 2 == 1 {
                    fmul(prev[i / 2], r.last())
                } else {
                    fsub(prev[i / 2], fmul(prev[i / 2], r.last()))
                },
        )
    }
}

/// There is one value for each corner.
pub proof fn lemma_eq_evals_len(r: Seq<nat>)
    ensures
        eq_evals(r).len() == two_to(r.len()),
    decreases r.len(),
{
    if r.len() > 0 {
        lemma_eq_evals_len(r.drop_last());
    }
}

impl EqPolynomial {
    /// The polynomial of the point `r`.
    pub fn new(r: Vec<Scalar>) -> (p: Self)
        ensures
            p@ == r.deep_view(),
    {
        EqPolynomial { r }
    }

    /// The value at `rx`.
    pub fn evaluate(&self, rx: &[Scalar]) -> (res: Scalar)
        requires
            self@.len() == rx@.len(),
        ensures
            res@ == eq_eval(self@, rx.deep_view()),
    {
        let one = Scalar::one();
        let mut acc = Scalar::one();
        let mut i: usize = 0;
        while i < rx.len()
            invariant
                i <= rx@.len(),
                one@ == 1,
                self.r@.len() == rx@.len(),
                acc@ == eq_eval(self@.take(i as int), rx.deep_view().take(i as int)),
            decreases rx@.len() - i,
        {
            proof {
                let (a, b) = (self@, rx.deep_view());
                assert(a.take(i + 1).drop_last() =~= a.take(i as int));
                assert(b.take(i + 1).drop_last() =~= b.take(i as int));
            }
            let term = self.r[i].mul(&rx[i]).add(&one.sub(&self.r[i]).mul(&one.sub(&rx[i])));
            acc = acc.mul(&term);
            i += 1;
        }
        proof {
            assert(self@.take(rx@.len() as int) =~= self@);
            assert(rx.deep_view().take(rx@.len() as int) =~= rx.deep_view());
        }
        acc
    }

    /// The values at all corners of the cube.
    pub fn evals(&self) -> (res: Vec<Scalar>)
        ensures
            res.deep_view() == eq_evals(self@),
    {
        let ell = self.r.len();
        let mut evals: Vec<Scalar> = vec![Scalar::one()];
        proof {
            assert(self@.take(0).len() == 0);
            assert(evals.deep_view() =~= eq_evals(self@.take(0)));
        }
        let mut j: usize = 0;
        while j < ell
            invariant
                j <= ell,
                ell == self.r@.len(),
                evals.deep_view() == eq_evals(self@.take(j as int)),
            decreases ell - j,
        {
            let ghost prev = evals.deep_view();
            let mut next: Vec<Scalar> = Vec::new();
            let mut i: usize = 0;
            while i < evals.len()
                invariant
                    i <= evals@.len(),
                    j < self.r@.len(),
                    prev == evals.deep_view(),
                    next@.len() == 2 * i,
                    forall|k: int|
                        0 <= k < 2 * i ==> next@[k]@ == if k % 2 == 1 {
                            fmul(prev[k / 2], self.r@[j as int]@)
                        } else {
                            fsub(prev[k / 2], fmul(prev[k / 2], self.r@[j as int]@))
                        },
                decreases evals@.len() - i,
            {
                let hi = evals[i].mul(&self.r[j]);
                next.push(evals[i].sub(&hi));
                next.push(hi);
                i += 1;
            }
            proof {
                let t = self@.take(j + 1);
                assert(t.drop_last() =~= self@.take(j as int));
                assert(t.last() == self.r@[j as int]@);
                assert(next.deep_view() =~= eq_evals(t));
            }
            evals = next;
            j += 1;
        }
        proof {
            assert(self@.take(ell as int) =~= self@);
        }
        evals
    }

    /// How many variables go to the rows and how many to the columns when
    /// the values are laid out as a matrix.
    pub fn compute_factored_lens(ell: usize) -> (r: (usize, usize))
        ensures
            r.0 == ell / 2,
            r.1 == ell - ell / 2,
    {
        (ell / 2, ell - ell / 2)
    }

    /// The values of the polynomials of the first and of the second part
    /// of the point.
    pub fn compute_factored_evals(&self) -> (res: (Vec<Scalar>, Vec<Scalar>))
        ensures
            res.0.deep_view() == eq_evals(self@.take((self@.len() / 2) as int)),
            res.1.deep_view() == eq_evals(self@.skip((self@.len() / 2) as int)),
    {
        let ell = self.r.len();
        let (left_num_vars, _right_num_vars) = EqPolynomial::compute_factored_lens(ell);
        let left = slice_to_vec(slice_subrange(self.r.as_slice(), 0, left_num_vars));
        let right = slice_to_vec(slice_subrange(self.r.as_slice(), left_num_vars, ell));
        proof {
            assert(left.deep_view() =~= self@.take((self@.len() / 2) as int));
            assert(right.deep_view() =~= self@.skip((self@.len() / 2) as int));
        }
        let l = EqPolynomial::new(left).evals();
        let r = EqPolynomial::new(right).evals();
        (l, r)
    }
}

/// A polynomial in several variables, of degree one in each, given by its
/// values at the corners of the cube.
#[derive(Debug)]
pub struct DensePolynomial {
    z: Vec<Scalar>,
}

impl View for DensePolynomial {
    type V = Seq<nat>;

    closed spec fn view(&self) -> Seq<nat> {
        self.z.deep_view()
    }
}

/// The values of a polynomial once its first variable is set to `r`.
pub open spec fn bound_top(z: Seq<nat>, r: nat) -> Seq<nat> {
    Seq::new(z.len() / 2, |i: int| fadd(z[i], fmul(r, fsub(z[i + z.len() / 2], z[i]))))
}

/// The value at the point `r` of the polynomial with the values `z`.
pub open spec fn mle_eval(z: Seq<nat>, r: Seq<nat>) -> nat {
    inner_product(z, eq_evals(r))
}

/// The column `i` of the values `z` laid out in rows of `width` entries.
pub open spec fn column(z: Seq<nat>, width: nat, height: nat, i: int) -> Seq<nat> {
    Seq::new(height, |j: int| z[j * width + i])
}

/// The rows of the values `z`, each taken as often as the entry of `l`
/// for it says, and added up.
pub open spec fn bound_rows(z: Seq<nat>, l: Seq<nat>) -> Seq<nat> {
    let width = z.len() / l.len();
    Seq::new(width, |i: int| inner_product(l, column(z, width, l.len(), i)))
}

/// The commitments to the rows of the values `z`, one blind for each row.
pub open spec fn poly_commitment(z: Seq<nat>, blinds: Seq<nat>, bases: Seq<nat>, h: nat) -> Seq<
    nat,
> {
    let width = z.len() / blinds.len();
    Seq::new(
        blinds.len(),
        |i: int| commitment(z.subrange(width * i, width * (i + 1)), blinds[i], bases, h),
    )
}

/// A place in a matrix of `height` rows of `width` entries lies within it.
pub proof fn lemma_matrix_index(j: int, i: int, height: int, width: int)
    requires
        0 <= j < height,
        0 <= i <= width,
    ensures
        0 <= width * j,
        width * j + i <= width * height,
        width * j == j * width,
        width * (j + 1) == width * j + width,
{
    assert(width * j + width <= width * height) by (nonlinear_arith)
        requires
            0 <= j < height,
            0 <= width,
    ;
    assert(0 <= width * j) by (nonlinear_arith)
        requires
            0 <= j,
            0 <= width,
    ;
    assert(width * j == j * width) by (nonlinear_arith);
    assert(width * (j + 1) == width * j + width) by (nonlinear_arith);
}

impl DensePolynomial {
    /// The polynomial with the values `z` at the corners of the cube.
    pub fn new(z: Vec<Scalar>) -> (p: Self)
        ensures
            p@ == z.deep_view(),
    {
        DensePolynomial { z }
    }

    /// The number of values.
    pub fn len(&self) -> (r: usize)
        ensures
            r == self@.len(),
    {
        self.z.len()
    }

    /// The number of variables: the logarithm of the number of values.
    pub fn get_num_vars(&self) -> (r: usize)
        ensures
            crate::math::is_log_2(self@.len(), r as nat),
    {
        log_2(self.z.len())
    }

    /// The value at the corner `i`.
    pub fn index(&self, i: usize) -> (r: Scalar)
        requires
            i < self@.len(),
        ensures
            r@ == self@[i as int],
    {
        self.z[i]
    }

    /// The values, in the order of the corners.
    pub fn vec(&self) -> (r: &Vec<Scalar>)
        ensures
            r.deep_view() == self@,
    {
        &self.z
    }

    /// Sets the first variable to `r`, which halves the number of values.
    pub fn bound_poly_var_top(&mut self, r: &Scalar)
        ensures
            final(self)@ == bound_top(old(self)@, r@),
    {
        let len = self.z.len();
        let n = len / 2;
        let mut next: Vec<Scalar> = Vec::new();
        let mut i: usize = 0;
        while i < n
            invariant
                i <= n,
                len == self.z@.len(),
                n == self.z@.len() / 2,
                next@.len() == i,
                forall|k: int|
                    0 <= k < i ==> next@[k]@ == fadd(
                        self.z@[k]@,
                        fmul(r@, fsub(self.z@[k + n]@, self.z@[k]@)),
                    ),
            decreases n - i,
        {
            next.push(self.z[i].add(&r.mul(&self.z[i + n].sub(&self.z[i]))));
            i += 1;
        }
        proof {
            assert(next.deep_view() =~= bound_top(self@, r@));
        }
        self.z = next;
    }

    /// The value at the point `r`.
    pub fn evaluate(&self, r: &[Scalar]) -> (res: Scalar)
        requires
            self@.len() == two_to(r@.len() as nat),
        ensures
            res@ == mle_eval(self@, r.deep_view()),
    {
        let point = slice_to_vec(r);
        proof {
            assert(point.deep_view() =~= r.deep_view());
            lemma_eq_evals_len(r.deep_view());
        }
        let chis = EqPolynomial::new(point).evals();
        let (a, b) = (self.z.as_slice(), chis.as_slice());
        proof {
            assert(a.deep_view() =~= self@);
            assert(b.deep_view() =~= chis.deep_view());
        }
        DotProductProof::compute_dotproduct(a, b)
    }

    /// The rows of the values, each taken as often as the entry of `l`
    /// for it says, and added up.
    pub fn bound(&self, l: &[Scalar]) -> (res: Vec<Scalar>)
        requires
            l@.len() > 0,
            self@.len() == (self@.len() / l@.len()) * l@.len(),
        ensures
            res.deep_view() == bound_rows(self@, l.deep_view()),
    {
        let height = l.len();
        let len = self.z.len();
        let width = len / height;
        let mut out: Vec<Scalar> = Vec::new();
        let mut i: usize = 0;
        while i < width
            invariant
                i <= width,
                len == self.z@.len(),
                height == l@.len(),
                height > 0,
                width == self.z@.len() / (height as nat),
                self.z@.len() == width * height,
                out@.len() == i,
                forall|k: int|
                    0 <= k < i ==> out@[k]@ == inner_product(
                        l.deep_view(),
                        column(self@, width as nat, height as nat, k),
                    ),
            decreases width - i,
        {
            let ghost col = column(self@, width as nat, height as nat, i as int);
            let mut acc = Scalar::zero();
            let mut j: usize = 0;
            while j < height
                invariant
                    j <= height,
                    i < width,
                    len == self.z@.len(),
                    height == l@.len(),
                    self.z@.len() == width * height,
                    col == column(self@, width as nat, height as nat, i as int),
                    acc@ == inner_product(l.deep_view().take(j as int), col.take(j as int)),
                decreases height - j,
            {
                proof {
                    lemma_matrix_index(j as int, i as int + 1, height as int, width as int);
                    let lv = l.deep_view();
                    assert(lv.take(j + 1).drop_last() =~= lv.take(j as int));
                    assert(col.take(j + 1).drop_last() =~= col.take(j as int));
                    assert(col.take(j + 1).last() == self.z@[j * width + i]@);
                }
                acc = acc.add(&l[j].mul(&self.z[j * width + i]));
                j += 1;
            }
            proof {
                assert(l.deep_view().take(height as int) =~= l.deep_view());
                assert(col.take(height as int) =~= col);
            }
            out.push(acc);
            i += 1;
        }
        proof {
            assert(out.deep_view() =~= bound_rows(self@, l.deep_view()));
        }
        out
    }

    /// The commitments to the rows of the values, as many as there are
    /// blinds.
    pub fn commit_inner(&self, blinds: &[Scalar], gens: &MultiCommitGens) -> (res: PolyCommitment)
        requires
            blinds@.len() > 0,
            self@.len() == (self@.len() / blinds@.len()) * blinds@.len(),
            gens.n == self@.len() / blinds@.len(),
            gens.G@.len() == gens.n,
        ensures
            res@ == poly_commitment(self@, blinds.deep_view(), gens.bases(), gens.h@),
    {
        let l_size = blinds.len();
        let len = self.z.len();
        let r_size = len / l_size;
        let mut c: Vec<Point> = Vec::new();
        let mut i: usize = 0;
        while i < l_size
            invariant
                i <= l_size,
                len == self.z@.len(),
                l_size == blinds@.len(),
                r_size == self.z@.len() / (l_size as nat),
                self.z@.len() == r_size * l_size,
                gens.n == r_size,
                gens.G@.len() == r_size,
                c@.len() == i,
                forall|k: int|
                    0 <= k < i ==> c@[k]@ == commitment(
                        self@.subrange(r_size * k, r_size * (k + 1)),
                        blinds@[k]@,
                        gens.bases(),
                        gens.h@,
                    ),
            decreases l_size - i,
        {
            proof {
                lemma_matrix_index(i as int, r_size as int, l_size as int, r_size as int);
            }
            let row = slice_subrange(self.z.as_slice(), r_size * i, r_size * (i + 1));
            proof {
                assert(row.deep_view() =~= self@.subrange(r_size * i, r_size * (i + 1)));
            }
            c.push(row.commit(&blinds[i], gens));
            i += 1;
        }
        let res = PolyCommitment { c };
        proof {
            assert(res@ =~= poly_commitment(self@, blinds.deep_view(), gens.bases(), gens.h@));
        }
        res
    }
}

/// The commitments to the rows of a polynomial's values.
#[derive(Debug)]
pub struct PolyCommitment {
    c: Vec<Point>,
}

impl View for PolyCommitment {
    type V = Seq<nat>;

    closed spec fn view(&self) -> Seq<nat> {
        self.c.deep_view()
    }
}

/// The blinds of the commitments to the rows of a polynomial's values.
pub struct PolyCommitmentBlinds {
    blinds: Vec<Scalar>,
}

impl View for PolyCommitmentBlinds {
    type V = Seq<nat>;

    closed spec fn view(&self) -> Seq<nat> {
        self.blinds.deep_view()
    }
}

/// The past of a transcript after each of some group elements.
pub open spec fn log_append_shares(log: Log, c: Seq<nat>) -> Log
    decreases c.len(),
{
    if c.len() == 0 {
        log
    } else {
        log_append_point(
            log_append_shares(log, c.drop_last()),
            tag("poly_commitment_share"),
            c.last(),
        )
    }
}

/// The past of a transcript after the commitments to a polynomial.
pub open spec fn log_append_poly_commitment(log: Log, label: Seq<u8>, c: Seq<nat>) -> Log {
    log_append(
        log_append_shares(log_append(log, label, tag("poly_commitment_begin")), c),
        label,
        tag("poly_commitment_end"),
    )
}

impl AppendToTranscript for PolyCommitment {
    open spec fn appended(&self, log: Seq<TranscriptOp>, label: Seq<u8>) -> Seq<TranscriptOp> {
        log_append_poly_commitment(log, label, self@)
    }

    fn append_to_transcript(&self, label: &'static [u8], transcript: &mut Transcript) {
        proof {
            reveal_strlit("poly_commitment_begin");
            reveal_strlit("poly_commitment_end");
        }
        transcript.append_message(label, marker("poly_commitment_begin"));
        let ghost start = transcript.log();
        let mut i: usize = 0;
        while i < self.c.len()
            invariant
                i <= self.c@.len(),
                transcript.log() == log_append_shares(start, self@.take(i as int)),
            decreases self.c@.len() - i,
        {
            proof {
                assert(self@.take(i + 1).drop_last() =~= self@.take(i as int));
                assert(self@.take(i + 1).last() == self.c@[i as int]@);
            }
            transcript.append_point("poly_commitment_share".as_bytes(), &self.c[i]);
            i += 1;
        }
        proof {
            assert(self@.take(self.c@.len() as int) =~= self@);
        }
        transcript.append_message(label, marker("poly_commitment_end"));
    }
}

/// The generators for commitments to polynomials of a number of
/// variables, and for the proofs of their values.
pub struct PolyCommitmentGens {
    pub gens: DotProductProofGens,
}

impl PolyCommitmentGens {
    /// Generators for polynomials in `num_vars` variables: as many as a
    /// row of the matrix of values is long.
    pub fn new(num_vars: usize, label: &[u8]) -> (r: PolyCommitmentGens)
        requires
            num_vars - num_vars / 2 < usize::BITS - 1,
        ensures
            r.gens.drawn(two_to((num_vars - num_vars / 2) as nat), label@),
    {
        let (_left, right) = EqPolynomial::compute_factored_lens(num_vars);
        proof {
            lemma_two_to_grows(right as nat, (usize::BITS - 2) as nat);
            lemma_two_to_64();
            lemma_two_to_grows((usize::BITS - 2) as nat, 62);
            assert(two_to(62) * 4 == two_to(64)) by {
                reveal_with_fuel(two_to, 3);
            }
            if usize::BITS == 32 {
                assert(two_to(30) * 4 == two_to(32)) by {
                    reveal_with_fuel(two_to, 3);
                }
            }
        }
        let gens = DotProductProofGens::new(pow2(right), label);
        PolyCommitmentGens { gens }
    }
}

/// The numbers of rows and of columns of the matrix of the values of a
/// polynomial in `ell` variables multiply to the number of values.
pub proof fn lemma_factored_sizes(ell: nat)
    ensures
        two_to(ell / 2) * two_to((ell - ell / 2) as nat) == two_to(ell),
        two_to(ell) / two_to(ell / 2) == two_to((ell - ell / 2) as nat),
        two_to(ell / 2) > 0,
{
    crate::math::lemma_two_to_adds(ell / 2, (ell - ell / 2) as nat);
    lemma_two_to_grows(0, ell / 2);
    vstd::arithmetic::div_mod::lemma_div_multiples_vanish(
        two_to((ell - ell / 2) as nat) as int,
        two_to(ell / 2) as int,
    );
    assert(two_to(ell / 2) * two_to((ell - ell / 2) as nat) == two_to((ell - ell / 2) as nat)
        * two_to(ell / 2)) by (nonlinear_arith);
}

impl DensePolynomial {
    /// Commits to the rows of the matrix of values, with blinds from the
    /// tape.
    pub fn commit(&self, gens: &PolyCommitmentGens, random_tape: &mut RandomTape) -> (res: (
        PolyCommitment,
        PolyCommitmentBlinds,
    ))
        requires
            crate::math::is_power_of_two(self@.len()),
            DotProductProofLog::gens_fit(
                &gens.gens,
                two_to(
                    (crate::math::floor_log_2(self@.len()) - crate::math::floor_log_2(self@.len())
                        / 2) as nat,
                ),
            ),
        ensures
            ({
                let ell = crate::math::floor_log_2(self@.len());
                let blinds = challenge_vector(old(random_tape)@, tag("poly_blinds"), two_to(ell / 2));
                &&& res.1@ == blinds
                &&& res.0@ == poly_commitment(
                    self@,
                    blinds,
                    gens.gens.gens_n.bases(),
                    gens.gens.gens_n.h@,
                )
                &&& final(random_tape)@ == log_challenges(
                    old(random_tape)@,
                    tag("poly_blinds"),
                    two_to(ell / 2),
                )
            }),
    {
        let ell = crate::math::exact_log_2(self.z.len()).unwrap();
        let (left_num_vars, _right_num_vars) = EqPolynomial::compute_factored_lens(ell);
        proof {
            lemma_factored_sizes(ell as nat);
        }
        let l_size = pow2(left_num_vars);
        let blinds = random_tape.random_vector("poly_blinds".as_bytes(), l_size);
        let b = blinds.as_slice();
        proof {
            assert(b.deep_view() =~= blinds.deep_view());
            assert(two_to(ell as nat) / two_to((ell / 2) as nat) * two_to((ell / 2) as nat)
                == two_to(ell as nat)) by (nonlinear_arith)
                requires
                    two_to((ell / 2) as nat) * two_to((ell - ell / 2) as nat) == two_to(ell as nat),
                    two_to(ell as nat) / two_to((ell / 2) as nat) == two_to(
                        (ell - ell / 2) as nat,
                    ),
            ;
        }
        let c = self.commit_inner(b, &gens.gens.gens_n);
        (c, PolyCommitmentBlinds { blinds })
    }
}

/// A proof of the value of a committed polynomial at a point.
#[derive(Debug)]
pub struct PolyEvalProof {
    proof: DotProductProofLog,
}

impl View for PolyEvalProof {
    type V = DotProductProofLogView;

    closed spec fn view(&self) -> DotProductProofLogView {
        self.proof@
    }
}

/// What the honest prover of a value does for the polynomial with the
/// values `z`, committed to under `blinds`, the point `r`, and the value
/// `zr` under the blind `blind_zr`.
pub open spec fn poly_eval_prove(
    bases: DotProductBases,
    log: Log,
    tape: Log,
    z: Seq<nat>,
    blinds: Seq<nat>,
    r: Seq<nat>,
    zr: nat,
    blind_zr: nat,
) -> DotProductLogProved {
    let l = eq_evals(r.take((r.len() / 2) as int));
    let rr = eq_evals(r.skip((r.len() / 2) as int));
    dot_product_log_prove(
        bases,
        log_append_protocol_name(log, tag("polynomial evaluation proof")),
        tape,
        bound_rows(z, l),
        inner_product(blinds, l),
        rr,
        zr,
        blind_zr,
    )
}

/// What the verifier of a value does for the commitments `comm` to a
/// polynomial, the point `r` and the commitment `c_zr` to the value.
pub open spec fn poly_eval_verify(
    bases: DotProductBases,
    log: Log,
    proof: DotProductProofLogView,
    r: Seq<nat>,
    c_zr: nat,
    comm: Seq<nat>,
) -> DotProductLogVerified {
    let l = eq_evals(r.take((r.len() / 2) as int));
    let rr = eq_evals(r.skip((r.len() / 2) as int));
    dot_product_log_verify(
        bases,
        rr.len(),
        log_append_protocol_name(log, tag("polynomial evaluation proof")),
        proof,
        rr,
        inner_product(l, comm),
        c_zr,
    )
}

impl PolyEvalProof {
    fn protocol_name() -> (r: &'static [u8])
        ensures
            r@ == tag("polynomial evaluation proof"),
            r@.len() <= u32::MAX,
    {
        proof {
            reveal_strlit("polynomial evaluation proof");
        }
        marker("polynomial evaluation proof")
    }

    /// Whether polynomial, blinds, point and generators fit together.
    pub open spec fn fits(gens: &PolyCommitmentGens, z_len: nat, blinds_len: nat, r_len: nat)
        -> bool {
        &&& z_len == two_to(r_len)
        &&& blinds_len == two_to(r_len / 2)
        &&& DotProductProofLog::gens_fit(&gens.gens, two_to((r_len - r_len / 2) as nat))
    }

    /// Proves that the committed polynomial `poly` takes the value `zr` at the point
    /// `r`, and hands back the commitment to the value with the proof. A
    /// challenge of zero in the reduction ends it with an error.
    pub fn prove(
        poly: &DensePolynomial,
        blinds: &PolyCommitmentBlinds,
        r: &[Scalar],
        zr: &Scalar,
        blind_zr: &Scalar,
        gens: &PolyCommitmentGens,
        transcript: &mut Transcript,
        random_tape: &mut RandomTape,
    ) -> (res: Result<(PolyEvalProof, Point), ProofVerifyError>)
        ensures
            ({
                let fits = Self::fits(gens, poly@.len(), blinds@.len(), r@.len() as nat);
                let p = poly_eval_prove(
                    dot_product_bases(&gens.gens.gens_1, &gens.gens.gens_n),
                    old(transcript).log(),
                    old(random_tape)@,
                    poly@,
                    blinds@,
                    r.deep_view(),
                    zr@,
                    blind_zr@,
                );
                &&& !fits ==> res is Err && res->Err_0 == ProofVerifyError::InvalidInput
                    && final(transcript).log() == old(transcript).log() && final(random_tape)@
                    == old(random_tape)@
                &&& fits ==> final(transcript).log() == p.log && final(random_tape)@ == p.tape
                &&& fits && p.failed ==> res is Err && res->Err_0
                    == ProofVerifyError::VerificationFailed
                &&& fits && !p.failed ==> res is Ok && res->Ok_0.0@ == p.proof && res->Ok_0.1@
                    == p.cy
            }),
    {
        let ell = r.len();
        proof {
            lemma_floor_log_2_two_to(ell as nat);
            lemma_factored_sizes(ell as nat);
        }
        match crate::math::exact_log_2(poly.len()) {
            Some(k) => {
                if k != ell {
                    proof {
                        if poly@.len() == two_to(ell as nat) {
                            lemma_floor_log_2_two_to(ell as nat);
                        }
                    }
                    return Err(ProofVerifyError::InvalidInput);
                }
            },
            None => {
                return Err(ProofVerifyError::InvalidInput);
            },
        }
        let (left_num_vars, right_num_vars) = EqPolynomial::compute_factored_lens(ell);
        proof {
            lemma_two_to_grows((ell / 2) as nat, ell as nat);
            lemma_two_to_grows((ell - ell / 2) as nat, ell as nat);
        }
        let l_size = pow2(left_num_vars);
        let r_size = pow2(right_num_vars);
        if blinds.blinds.len() != l_size || !DotProductProofLog::check_gens(&gens.gens, r_size) {
            return Err(ProofVerifyError::InvalidInput);
        }
        transcript.append_protocol_name(PolyEvalProof::protocol_name());

        let point = slice_to_vec(r);
        proof {
            assert(point.deep_view() =~= r.deep_view());
        }
        let eq = EqPolynomial::new(point);
        let (l, rr) = eq.compute_factored_evals();
        proof {
            lemma_eq_evals_len(r.deep_view().take((ell / 2) as int));
            lemma_eq_evals_len(r.deep_view().skip((ell / 2) as int));
            assert(poly@.len() / l@.len() * l@.len() == poly@.len()) by (nonlinear_arith)
                requires
                    l@.len() * two_to((ell - ell / 2) as nat) == poly@.len(),
                    poly@.len() / l@.len() == two_to((ell - ell / 2) as nat),
            ;
        }
        let (ls, bs) = (l.as_slice(), blinds.blinds.as_slice());
        proof {
            assert(ls.deep_view() =~= l.deep_view());
            assert(bs.deep_view() =~= blinds@);
        }
        let lz = poly.bound(ls);
        let lz_blind = DotProductProof::compute_dotproduct(bs, ls);
        let (lzs, rs) = (lz.as_slice(), rr.as_slice());
        proof {
            assert(lzs.deep_view() =~= lz.deep_view());
            assert(rs.deep_view() =~= rr.deep_view());
            lemma_floor_log_2_two_to((ell - ell / 2) as nat);
        }
        match DotProductProofLog::prove(
            &gens.gens,
            transcript,
            random_tape,
            lzs,
            &lz_blind,
            rs,
            zr,
            blind_zr,
        ) {
            Ok((proof, _c_lr, c_zr_prime)) => Ok((PolyEvalProof { proof }, c_zr_prime)),
            Err(e) => Err(e),
        }
    }

    /// Whether commitments, point and generators fit together.
    pub open spec fn verifier_fits(gens: &PolyCommitmentGens, comm_len: nat, r_len: nat) -> bool {
        &&& r_len - r_len / 2 < usize::BITS
        &&& comm_len == two_to(r_len / 2)
        &&& DotProductProofLog::gens_fit(&gens.gens, two_to((r_len - r_len / 2) as nat))
    }

    /// Checks a proof that the polynomial committed to in `comm` takes at the point
    /// `r` the value committed to in `c_zr`.
    pub fn verify(
        &self,
        gens: &PolyCommitmentGens,
        transcript: &mut Transcript,
        r: &[Scalar],
        c_zr: &Point,
        comm: &PolyCommitment,
    ) -> (res: Result<(), ProofVerifyError>)
        ensures
            ({
                let fits = Self::verifier_fits(gens, comm@.len(), r@.len() as nat);
                let v = poly_eval_verify(
                    dot_product_bases(&gens.gens.gens_1, &gens.gens.gens_n),
                    old(transcript).log(),
                    self@,
                    r.deep_view(),
                    c_zr@,
                    comm@,
                );
                &&& res is Ok <==> fits && v.ok
                &&& res is Err ==> res->Err_0 == ProofVerifyError::VerificationFailed
                &&& final(transcript).log() == if fits {
                    v.log
                } else {
                    old(transcript).log()
                }
            }),
    {
        let ell = r.len();
        let (left_num_vars, right_num_vars) = EqPolynomial::compute_factored_lens(ell);
        if right_num_vars >= usize::BITS as usize {
            return Err(ProofVerifyError::VerificationFailed);
        }
        proof {
            lemma_two_to_grows((ell / 2) as nat, (ell - ell / 2) as nat);
            lemma_eq_evals_len(r.deep_view().take((ell / 2) as int));
            lemma_eq_evals_len(r.deep_view().skip((ell / 2) as int));
        }
        let l_size = pow2(left_num_vars);
        let r_size = pow2(right_num_vars);
        if comm.c.len() != l_size || !DotProductProofLog::check_gens(&gens.gens, r_size) {
            return Err(ProofVerifyError::VerificationFailed);
        }
        transcript.append_protocol_name(PolyEvalProof::protocol_name());

        let point = slice_to_vec(r);
        proof {
            assert(point.deep_view() =~= r.deep_view());
        }
        let eq = EqPolynomial::new(point);
        let (l, rr) = eq.compute_factored_evals();

        let (ls, cs, rs) = (l.as_slice(), comm.c.as_slice(), rr.as_slice());
        proof {
            assert(ls.deep_view() =~= l.deep_view());
            assert(cs.deep_view() =~= comm@);
            assert(rs.deep_view() =~= rr.deep_view());
        }
        let c_lz = Point::multi_scalar_mul(cs, ls);
        self.proof.verify(rr.len(), &gens.gens, transcript, rs, &c_lz, c_zr)
    }
}

impl PolyCommitment {
    /// The commitment with the given shares.
    pub fn from_parts(c: Vec<Point>) -> (r: Self)
        ensures
            r@ == c.deep_view(),
    {
        PolyCommitment { c }
    }

    /// The commitments to the rows.
    pub fn shares(&self) -> (r: &Vec<Point>)
        ensures
            r.deep_view() == self@,
    {
        &self.c
    }
}

impl PolyEvalProof {
    /// The proof that holds the given proof of an inner product.
    pub fn from_parts(proof: DotProductProofLog) -> (r: Self)
        ensures
            r@ == proof@,
    {
        PolyEvalProof { proof }
    }

    /// The proof of an inner product that this proof holds.
    pub fn inner(&self) -> (r: &DotProductProofLog)
        ensures
            r@ == self@,
    {
        &self.proof
    }
}

} // verus!
