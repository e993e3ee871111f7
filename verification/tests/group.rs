use ark_bls12_381::{Fr, G1Projective};
use ark_ec::ProjectiveCurve;
use ark_ff::PrimeField;
use ark_serialize::{CanonicalDeserialize, CanonicalSerialize};
use ark_std::rand::SeedableRng;
use ark_std::UniformRand;
use digest::{ExtendableOutput, Input, XofReader};
use spartan::commitments::{Commitments, MultiCommitGens};
use spartan::group::Point;
use spartan::scalar::Scalar;

fn scalar_of(x: Fr) -> Scalar {
    Scalar::from_limbs(x.into_repr().0).unwrap()
}

fn curve_point(p: &Point) -> G1Projective {
    G1Projective::deserialize(&p.to_bytes()[..]).unwrap()
}

fn point_of(p: G1Projective) -> Point {
    let mut bytes = Vec::new();
    p.serialize(&mut bytes).unwrap();
    Point::from_bytes(&bytes).unwrap()
}

#[test]
fn points_are_read_back_from_their_bytes() {
    let gens = MultiCommitGens::new(2, b"bytes");
    let bytes = gens.G[0].to_bytes();
    assert_eq!(bytes.len(), 48);
    let back = Point::from_bytes(&bytes).unwrap();
    assert!(back.equals(&gens.G[0]));
    assert_eq!(back, gens.G[0]);
    assert!(!back.equals(&gens.G[1]));
}

#[test]
fn bytes_of_no_point_are_refused() {
    assert!(Point::from_bytes(&[0xffu8; 48]).is_none());
    assert!(Point::from_bytes(&[1u8; 47]).is_none());
    assert!(Point::from_bytes(&[]).is_none());
    // the point at infinity has one encoding only
    let mut infinity = [0u8; 48];
    infinity[47] = 0x40;
    assert!(Point::from_bytes(&infinity).is_some());
    infinity[0] = 1;
    assert!(Point::from_bytes(&infinity).is_none());
}

#[test]
fn generators_are_drawn_as_described() {
    // the label and the generator of the group, hashed to a seed
    let mut hasher = sha3::Shake256::default();
    hasher.input(b"test-label");
    let mut base = Vec::new();
    G1Projective::prime_subgroup_generator().serialize(&mut base).unwrap();
    hasher.input(&base);
    let mut seed = [0u8; 32];
    hasher.xof_result().read(&mut seed);
    let mut rng = rand_chacha::ChaCha20Rng::from_seed(seed);
    let expected: Vec<G1Projective> = (0..4).map(|_| G1Projective::rand(&mut rng)).collect();

    let gens = MultiCommitGens::new(3, b"test-label");
    assert_eq!(gens.n, 3);
    for i in 0..3 {
        assert_eq!(curve_point(&gens.G[i]), expected[i]);
    }
    assert_eq!(curve_point(&gens.h), expected[3]);
}

#[test]
fn a_commitment_is_the_combination_of_the_generators() {
    let mut prng = ark_std::test_rng();
    let gens = MultiCommitGens::new(3, b"combination");
    let v: Vec<Fr> = (0..3).map(|_| Fr::rand(&mut prng)).collect();
    let r = Fr::rand(&mut prng);
    let mut expected = curve_point(&gens.h).mul(r.into_repr());
    for i in 0..3 {
        expected += curve_point(&gens.G[i]).mul(v[i].into_repr());
    }
    let scalars: Vec<Scalar> = v.iter().map(|x| scalar_of(*x)).collect();
    let c = scalars.commit(&scalar_of(r), &gens);
    assert!(c.equals(&point_of(expected)));

    let one = MultiCommitGens::new(1, b"single");
    let single = scalar_of(v[0]).commit(&scalar_of(r), &one);
    let expected =
        curve_point(&one.G[0]).mul(v[0].into_repr()) + curve_point(&one.h).mul(r.into_repr());
    assert!(single.equals(&point_of(expected)));
}

#[test]
fn cloned_generators_are_the_same() {
    let gens = MultiCommitGens::new(4, b"clone");
    let copy = gens.clone();
    assert_eq!(copy.n, gens.n);
    assert_eq!(copy.G, gens.G);
    assert_eq!(copy.h, gens.h);
}
