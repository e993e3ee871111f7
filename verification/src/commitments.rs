use vstd::prelude::*;
use vstd::slice::slice_subrange;
use vstd::slice::slice_to_vec;
use crate::group::{point_compressed, rng_drawn, rng_from_seed, rng_point, rng_seed, sampled_point, Point};
use crate::scalar::{fadd, fmul, inner_product, Scalar};
use digest::{ExtendableOutput, Input, XofReader};
use sha3::Shake256;

verus! {

/// The first `n` bytes that SHAKE256 gives for an input.
pub uninterp spec fn shake256(data: Seq<u8>, n: nat) -> Seq<u8>;

/// Calls `Input::input` of `Shake256` on the one and then on the other
/// byte string, which is to absorb both in a row, then
/// `ExtendableOutput::xof_result` and `XofReader::read` for 32 bytes.
#[verifier::external_body]
fn shake256_seed(first: &[u8], second: &[u8]) -> (seed: [u8; 32])
    ensures
        seed@ == shake256(first@ + second@, 32),
{
    let mut hasher = Shake256::default();
    hasher.input(first);
    hasher.input(second);
    let mut seed = [0u8; 32];
    hasher.xof_result().read(&mut seed);
    seed
}

/// The seed from which the generators under a label are drawn: the label
/// and the compressed encoding of the group's generator, hashed.
pub open spec fn generator_seed(label: Seq<u8>) -> Seq<u8> {
    shake256(label + point_compressed(1), 32)
}

/// The first `n` group elements drawn under a label.
pub open spec fn drawn_generators(label: Seq<u8>, n: nat) -> Seq<nat> {
    Seq::new(n, |i: int| sampled_point(generator_seed(label), i as nat))
}

/// The generators of commitments to vectors of `n` scalars: one group
/// element for each place, and one more, `h`, for the blind.
#[allow(non_snake_case)]
#[derive(Debug)]
pub struct MultiCommitGens {
    pub n: usize,
    pub G: Vec<Point>,
    pub h: Point,
}

/// The commitment to a vector under bases and a blinding base: each base
/// taken as often as its entry says, and the blinding base as often as
/// the blind says.
pub open spec fn commitment(v: Seq<nat>, blind: nat, bases: Seq<nat>, h: nat) -> nat {
    inner_product(v.push(blind), bases.push(h))
}

/// The commitment to one value under one base and a blinding base.
pub open spec fn commitment_single(x: nat, blind: nat, g: nat, h: nat) -> nat {
    fadd(fmul(g, x), fmul(h, blind))
}

impl MultiCommitGens {
    /// There are as many generators as `n` says.
    pub open spec fn wf(&self) -> bool {
        self.n == self.G@.len()
    }

    /// The generators as group elements.
    pub open spec fn bases(&self) -> Seq<nat> {
        self.G.deep_view()
    }

    /// Whether these are the generators drawn for the length `n` under a
    /// label.
    pub open spec fn drawn(&self, n: nat, label: Seq<u8>) -> bool {
        &&& self.wf()
        &&& self.n == n
        &&& self.bases() == drawn_generators(label, n)
        &&& self.h@ == sampled_point(generator_seed(label), n)
        &&& self.h.is_encoded()
        &&& forall|i: int| 0 <= i < self.G@.len() ==> (#[trigger] self.G@[i]).is_encoded()
    }

    /// Draws `n` generators and the blinding base from the label.
    pub fn new(n: usize, label: &[u8]) -> (r: Self)
        requires
            n < usize::MAX,
        ensures
            r.drawn(n as nat, label@),
    {
        let base = Point::generator().serialize();
        let seed = shake256_seed(label, base.as_slice());
        let mut rng = rng_from_seed(seed);
        let mut gens: Vec<Point> = Vec::new();
        let mut i: usize = 0;
        while i < n
            invariant
                i <= n,
                gens@.len() == i,
                rng_seed(rng) == generator_seed(label@),
                rng_drawn(rng) == i,
                forall|j: int|
                    0 <= j < i ==> gens@[j]@ == sampled_point(generator_seed(label@), j as nat),
                forall|j: int| 0 <= j < i ==> (#[trigger] gens@[j]).is_encoded(),
            decreases n - i,
        {
            let g = rng_point(&mut rng);
            proof {
                use_type_invariant(&g);
            }
            gens.push(g);
            i += 1;
        }
        let h = rng_point(&mut rng);
        proof {
            use_type_invariant(&h);
        }
        let r = MultiCommitGens { n, G: gens, h };
        assert(r.bases() =~= drawn_generators(label@, n as nat));
        r
    }

    /// A copy of the generators.
    pub fn clone(&self) -> (r: Self)
        ensures
            r.n == self.n,
            r.G@ == self.G@,
            r.h == self.h,
    {
        MultiCommitGens { n: self.n, h: self.h, G: slice_to_vec(self.G.as_slice()) }
    }

    /// The first `mid` generators and the rest, each part with the same
    /// blinding base.
    pub fn split_at(&self, mid: usize) -> (r: (Self, Self))
        requires
            mid <= self.G@.len(),
        ensures
            r.0.wf(),
            r.1.wf(),
            r.0.G@ == self.G@.take(mid as int),
            r.1.G@ == self.G@.skip(mid as int),
            r.0.h == self.h,
            r.1.h == self.h,
    {
        let len = self.G.len();
        let first = slice_to_vec(slice_subrange(self.G.as_slice(), 0, mid));
        let second = slice_to_vec(slice_subrange(self.G.as_slice(), mid, len));
        assert(first@ =~= self.G@.take(mid as int));
        assert(second@ =~= self.G@.skip(mid as int));
        (
            MultiCommitGens { n: mid, G: first, h: self.h },
            MultiCommitGens { n: len - mid, G: second, h: self.h },
        )
    }
}

/// What can be committed to under generators, with a blind.
pub trait Commitments {
    /// Whether the generators are as many as the value needs.
    spec fn fits(&self, gens_n: &MultiCommitGens) -> bool;

    /// The commitment, as a group element.
    spec fn committed(&self, blind: nat, gens_n: &MultiCommitGens) -> nat;

    fn commit(&self, blind: &Scalar, gens_n: &MultiCommitGens) -> (r: Point)
        requires
            self.fits(gens_n),
        ensures
            r@ == self.committed(blind@, gens_n),
    ;
}

impl Commitments for Scalar {
    open spec fn fits(&self, gens_n: &MultiCommitGens) -> bool {
        gens_n.n == 1 && gens_n.G@.len() == 1
    }

    open spec fn committed(&self, blind: nat, gens_n: &MultiCommitGens) -> nat {
        commitment_single(self@, blind, gens_n.G@[0]@, gens_n.h@)
    }

    fn commit(&self, blind: &Scalar, gens_n: &MultiCommitGens) -> (r: Point) {
        gens_n.G[0].mul(self).add(&gens_n.h.mul(blind))
    }
}

impl Commitments for [Scalar] {
    open spec fn fits(&self, gens_n: &MultiCommitGens) -> bool {
        gens_n.n == self@.len() && gens_n.G@.len() == self@.len()
    }

    open spec fn committed(&self, blind: nat, gens_n: &MultiCommitGens) -> nat {
        commitment(self.deep_view(), blind, gens_n.bases(), gens_n.h@)
    }

    fn commit(&self, blind: &Scalar, gens_n: &MultiCommitGens) -> (r: Point) {
        let mut bases = slice_to_vec(gens_n.G.as_slice());
        let mut scalars = slice_to_vec(self);
        bases.push(gens_n.h);
        scalars.push(*blind);
        proof {
            assert(scalars.deep_view() =~= self.deep_view().push(blind@));
            assert(bases.deep_view() =~= gens_n.bases().push(gens_n.h@));
        }
        Point::multi_scalar_mul(bases.as_slice(), scalars.as_slice())
    }
}

impl Commitments for Vec<Scalar> {
    open spec fn fits(&self, gens_n: &MultiCommitGens) -> bool {
        gens_n.n == self@.len() && gens_n.G@.len() == self@.len()
    }

    open spec fn committed(&self, blind: nat, gens_n: &MultiCommitGens) -> nat {
        commitment(self.deep_view(), blind, gens_n.bases(), gens_n.h@)
    }

    fn commit(&self, blind: &Scalar, gens_n: &MultiCommitGens) -> (r: Point) {
        let s = self.as_slice();
        proof {
            assert(s.deep_view() =~= self.deep_view());
        }
        s.commit(blind, gens_n)
    }
}

/// The generators drawn for one length under one label are the same
/// whenever they are drawn: the same group elements, byte for byte, in
/// the same order, and the same blinding base.
pub proof fn generators_determined(a: MultiCommitGens, b: MultiCommitGens, n: nat, label: Seq<u8>)
    requires
        a.drawn(n, label),
        b.drawn(n, label),
    ensures
        a.n == b.n,
        a.G@ == b.G@,
        a.h == b.h,
{
    a.h.lemma_determined(b.h);
    assert forall|i: int| 0 <= i < a.G@.len() implies a.G@[i] == b.G@[i] by {
        assert(a.bases()[i] == b.bases()[i]);
        a.G@[i].lemma_determined(b.G@[i]);
    }
    assert(a.G@ =~= b.G@);
}

/// The generators drawn for the length `m + n`, split after the first
/// `m`, are the first `m` and the next `n` of the generators drawn, each
/// part with the blinding base of the whole.
pub proof fn split_of_drawn(
    all: MultiCommitGens,
    first: MultiCommitGens,
    second: MultiCommitGens,
    m: nat,
    n: nat,
    label: Seq<u8>,
)
    requires
        all.drawn(m + n, label),
        first.G@ == all.G@.take(m as int),
        second.G@ == all.G@.skip(m as int),
        first.h == all.h,
        second.h == all.h,
    ensures
        first.bases() == drawn_generators(label, m),
        second.bases() == Seq::new(
            n,
            |i: int| sampled_point(generator_seed(label), (m + i) as nat),
        ),
        first.h@ == sampled_point(generator_seed(label), m + n),
        second.h@ == first.h@,
{
    assert(first.bases() =~= all.bases().take(m as int));
    assert(second.bases() =~= all.bases().skip(m as int));
    assert(first.bases() =~= drawn_generators(label, m));
    assert(second.bases() =~= Seq::new(
        n,
        |i: int| sampled_point(generator_seed(label), (m + i) as nat),
    ));
}

} // verus!
