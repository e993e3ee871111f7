use vstd::prelude::*;
use crate::scalar::{fadd, fmul, fsub, inner_product, modulus, Scalar};
use ark_bls12_381::{G1Affine, G1Projective};
use ark_ec::{AffineCurve, ProjectiveCurve};
use ark_ec::msm::VariableBaseMSM;
use ark_ff::BigInteger256;
use ark_serialize::{CanonicalDeserialize, CanonicalSerialize};
use ark_std::UniformRand;
use rand_chacha::ChaCha20Rng;
use ark_std::rand::SeedableRng;

verus! {

/// The bytes that `CanonicalSerialize::serialize_uncompressed` writes for
/// the `k`-th multiple of the generator that
/// `ProjectiveCurve::prime_subgroup_generator` gives: both affine
/// coordinates.
pub uninterp spec fn point_encoding(k: nat) -> Seq<u8>;

/// The bytes that `CanonicalSerialize::serialize` writes for the `k`-th
/// multiple of the generator: one coordinate and the sign of the other.
pub uninterp spec fn point_compressed(k: nat) -> Seq<u8>;

/// The element that the `i`-th call of `UniformRand::rand` gives, on a
/// `ChaCha20Rng` made from `seed` on which nothing else is called, as the
/// number of times that the generator is taken in it.
pub uninterp spec fn sampled_point(seed: Seq<u8>, i: nat) -> nat;

/// An element of the group, held as the bytes of its two affine
/// coordinates. The group has the prime order `modulus()` and a fixed
/// generator, so each element is the generator taken a number of times
/// below `modulus()`, and no two such numbers give one element: that
/// number is the view. It is a model to state and prove with; nothing
/// computes it. The invariant of the type keeps the bytes those of an
/// element of the group; the calls into the curve rely on it.
#[derive(Clone, Copy, Debug, PartialEq, Eq)]
pub struct Point {
    pub(crate) bytes: [u8; 96],
}

impl View for Point {
    type V = nat;

    closed spec fn view(&self) -> nat {
        choose|k: nat| k < modulus() && point_encoding(k) == self.bytes@
    }
}

impl DeepView for Point {
    type V = nat;

    open spec fn deep_view(&self) -> nat {
        self@
    }
}

impl Point {
    /// Whether the bytes held are the encoding of an element of the group.
    #[verifier::type_invariant]
    pub closed spec fn is_encoded(&self) -> bool {
        exists|k: nat| k < modulus() && point_encoding(k) == self.bytes@
    }

    /// Calls `ProjectiveCurve::prime_subgroup_generator`: the generator
    /// taken once.
    #[verifier::external_body]
    pub(crate) fn generator() -> (r: Point)
        ensures
            r@ == 1,
            r.bytes@ == point_encoding(1),
    {
        let mut bytes = [0u8; 96];
        G1Projective::prime_subgroup_generator().serialize_uncompressed(&mut bytes[..]).unwrap();
        Point { bytes }
    }

    /// Calls the group's `+`. The group is cyclic, so the counts add up
    /// modulo its order.
    #[verifier::external_body]
    pub(crate) fn add(&self, other: &Point) -> (r: Point)
        ensures
            r@ == fadd(self@, other@),
            r.bytes@ == point_encoding(r@),
    {
        let a = G1Affine::deserialize_unchecked(&self.bytes[..]).unwrap();
        let b = G1Affine::deserialize_unchecked(&other.bytes[..]).unwrap();
        let mut bytes = [0u8; 96];
        (a.into_projective() + b.into_projective()).serialize_uncompressed(&mut bytes[..]).unwrap();
        Point { bytes }
    }

    /// Calls the group's `-`.
    #[verifier::external_body]
    pub(crate) fn sub(&self, other: &Point) -> (r: Point)
        ensures
            r@ == fsub(self@, other@),
            r.bytes@ == point_encoding(r@),
    {
        let a = G1Affine::deserialize_unchecked(&self.bytes[..]).unwrap();
        let b = G1Affine::deserialize_unchecked(&other.bytes[..]).unwrap();
        let mut bytes = [0u8; 96];
        (a.into_projective() - b.into_projective()).serialize_uncompressed(&mut bytes[..]).unwrap();
        Point { bytes }
    }

    /// Calls `ProjectiveCurve::mul`, which adds the element to itself as
    /// often as the scalar says.
    #[verifier::external_body]
    pub(crate) fn mul(&self, s: &Scalar) -> (r: Point)
        ensures
            r@ == fmul(self@, s@),
            r.bytes@ == point_encoding(r@),
    {
        let a = G1Affine::deserialize_unchecked(&self.bytes[..]).unwrap();
        let mut bytes = [0u8; 96];
        a.into_projective().mul(BigInteger256(s.limbs)).serialize_uncompressed(&mut bytes[..]).unwrap();
        Point { bytes }
    }

    /// Calls `VariableBaseMSM::multi_scalar_mul`, which sums the elements,
    /// each taken as often as the scalar in its place says.
    #[verifier::external_body]
    pub(crate) fn multi_scalar_mul(bases: &[Point], scalars: &[Scalar]) -> (r: Point)
        requires
            bases@.len() == scalars@.len(),
        ensures
            r@ == inner_product(scalars.deep_view(), bases.deep_view()),
            r.bytes@ == point_encoding(r@),
    {
        let b: Vec<G1Affine> =
            bases.iter().map(|p| G1Affine::deserialize_unchecked(&p.bytes[..]).unwrap()).collect();
        let s: Vec<BigInteger256> = scalars.iter().map(|x| BigInteger256(x.limbs)).collect();
        let mut bytes = [0u8; 96];
        VariableBaseMSM::multi_scalar_mul(&b, &s).serialize_uncompressed(&mut bytes[..]).unwrap();
        Point { bytes }
    }

    /// Calls `CanonicalSerialize::serialize` of the element, which writes
    /// 48 bytes.
    #[verifier::external_body]
    pub(crate) fn serialize(&self) -> (r: Vec<u8>)
        ensures
            r@ == point_compressed(self@),
            r@.len() == 48,
    {
        let mut out = Vec::new();
        G1Affine::deserialize_unchecked(&self.bytes[..]).unwrap().serialize(&mut out).unwrap();
        out
    }

    /// Calls `CanonicalDeserialize::deserialize` of the element, which
    /// reads one coordinate and the sign of the other, finds the point
    /// and checks that it lies in the group. It reads back what
    /// `serialize` wrote.
    #[verifier::external_body]
    fn deserialize(bytes: &[u8]) -> (r: Option<Point>)
        ensures
            r is Some ==> r.unwrap()@ < modulus() && r.unwrap().bytes@ == point_encoding(
                r.unwrap()@,
            ),
            forall|k: nat|
                k < modulus() && point_compressed(k) == bytes@ ==> r is Some && r.unwrap()@ == k,
    {
        let p = G1Projective::deserialize(bytes).ok()?;
        let mut out = [0u8; 96];
        p.serialize_uncompressed(&mut out[..]).unwrap();
        Some(Point { bytes: out })
    }

    /// The compressed encoding of the element, 48 bytes long.
    pub fn to_bytes(&self) -> (r: Vec<u8>)
        ensures
            r@ == point_compressed(self@),
            r@.len() == 48,
    {
        self.serialize()
    }

    /// The element with the given compressed encoding, where there is
    /// one.
    pub fn from_bytes(bytes: &[u8]) -> (r: Option<Point>)
        ensures
            r is Some <==> exists|k: nat| k < modulus() && point_compressed(k) == bytes@,
            r is Some ==> point_compressed(r.unwrap()@) == bytes@,
    {
        match Point::deserialize(bytes) {
            None => None,
            Some(p) => {
                proof {
                    use_type_invariant(&p);
                }
                let again = p.serialize();
                if again.len() != bytes.len() {
                    return None;
                }
                let mut i: usize = 0;
                while i < again.len()
                    invariant
                        i <= again@.len(),
                        again@.len() == bytes@.len(),
                        again@ == point_compressed(p@),
                        p@ < modulus(),
                        forall|k: nat|
                            k < modulus() && point_compressed(k) == bytes@ ==> p@ == k,
                        forall|j: int| 0 <= j < i ==> again@[j] == bytes@[j],
                    decreases again@.len() - i,
                {
                    if again[i] != bytes[i] {
                        return None;
                    }
                    i += 1;
                }
                assert(again@ =~= bytes@);
                Some(p)
            },
        }
    }

    /// Two elements with one view are one element, byte for byte.
    pub proof fn lemma_determined(self, other: Point)
        requires
            self.is_encoded(),
            other.is_encoded(),
            self@ == other@,
        ensures
            self == other,
    {
        assert(self.bytes@ =~= other.bytes@);
        assert(self.bytes == other.bytes);
    }

    /// Whether two elements are the same element of the group.
    pub fn equals(&self, other: &Point) -> (r: bool)
        ensures
            r == (self@ == other@),
    {
        proof {
            use_type_invariant(self);
            use_type_invariant(other);
        }
        let mut i: usize = 0;
        while i < 96
            invariant
                i <= 96,
                point_encoding(self@) == self.bytes@,
                point_encoding(other@) == other.bytes@,
                forall|j: int| 0 <= j < i ==> self.bytes@[j] == other.bytes@[j],
            decreases 96 - i,
        {
            if self.bytes[i] != other.bytes[i] {
                return false;
            }
            i += 1;
        }
        assert(self.bytes@ =~= other.bytes@);
        true
    }
}

#[verifier::external_type_specification]
#[verifier::external_body]
pub struct ExChaCha20Rng(ChaCha20Rng);

/// The seed that a generator of random numbers was made from.
pub uninterp spec fn rng_seed(rng: ChaCha20Rng) -> Seq<u8>;

/// How many group elements have been drawn from a generator of random
/// numbers.
pub uninterp spec fn rng_drawn(rng: ChaCha20Rng) -> nat;

/// Calls `SeedableRng::from_seed`.
#[verifier::external_body]
pub(crate) fn rng_from_seed(seed: [u8; 32]) -> (rng: ChaCha20Rng)
    ensures
        rng_seed(rng) == seed@,
        rng_drawn(rng) == 0,
{
    ChaCha20Rng::from_seed(seed)
}

/// Calls `UniformRand::rand` of the group, which draws coordinates from
/// the generator of random numbers until they are those of a point of the
/// curve, and clears the cofactor. What comes out depends on the seed and
/// on the number of elements drawn before.
#[verifier::external_body]
pub(crate) fn rng_point(rng: &mut ChaCha20Rng) -> (r: Point)
    ensures
        r@ == sampled_point(rng_seed(*old(rng)), rng_drawn(*old(rng))),
        r@ < modulus(),
        r.bytes@ == point_encoding(r@),
        rng_seed(*final(rng)) == rng_seed(*old(rng)),
        rng_drawn(*final(rng)) == rng_drawn(*old(rng)) + 1,
{
    let mut bytes = [0u8; 96];
    G1Projective::rand(rng).serialize_uncompressed(&mut bytes[..]).unwrap();
    Point { bytes }
}

} // verus!
