use ark_bls12_381::Fr;
use ark_ff::{Field, One, PrimeField};
use ark_std::UniformRand;
use spartan::math::{exact_log_2, log_2, pow2};
use spartan::scalar::Scalar;

fn scalar_of(x: Fr) -> Scalar {
    Scalar::from_limbs(x.into_repr().0).unwrap()
}

fn fr_of(x: &Scalar) -> Fr {
    Fr::from_repr(ark_ff::BigInteger256(x.to_limbs())).unwrap()
}

const MODULUS: [u64; 4] = [
    0xffffffff00000001,
    0x53bda402fffe5bfe,
    0x3339d80809a1d805,
    0x73eda753299d7d48,
];

#[test]
fn limbs_at_and_above_the_modulus_are_refused() {
    assert!(Scalar::from_limbs(MODULUS).is_none());
    assert!(Scalar::from_limbs([u64::MAX; 4]).is_none());
    let mut below = MODULUS;
    below[0] -= 1;
    let s = Scalar::from_limbs(below).unwrap();
    assert_eq!(s.to_limbs(), below);
    assert_eq!(fr_of(&s), -Fr::one());
}

#[test]
fn small_numbers_have_their_limbs() {
    assert_eq!(Scalar::zero().to_limbs(), [0, 0, 0, 0]);
    assert_eq!(Scalar::one().to_limbs(), [1, 0, 0, 0]);
    assert_eq!(Scalar::from_u64(77).to_limbs(), [77, 0, 0, 0]);
    assert_eq!(fr_of(&Scalar::from_u64(u64::MAX)), Fr::from(u64::MAX));
}

#[test]
fn zero_has_no_inverse_and_others_have_theirs() {
    assert!(Scalar::zero().inverse().is_none());
    let two_inv = Scalar::from_u64(2).inverse().unwrap();
    assert_eq!(fr_of(&two_inv) * Fr::from(2u64), Fr::one());
    assert_eq!(fr_of(&two_inv), Fr::from(2u64).inverse().unwrap());
    let mut prng = ark_std::test_rng();
    let x = Fr::rand(&mut prng);
    assert_eq!(fr_of(&scalar_of(x).inverse().unwrap()), x.inverse().unwrap());
}

#[test]
fn equal_scalars_are_told_from_others() {
    let mut prng = ark_std::test_rng();
    let x = Fr::rand(&mut prng);
    assert!(scalar_of(x).equals(&scalar_of(x)));
    assert!(!scalar_of(x).equals(&scalar_of(x + Fr::one())));
}

#[test]
fn logarithms_and_powers_of_two() {
    assert_eq!(log_2(1), 0);
    assert_eq!(log_2(2), 1);
    assert_eq!(log_2(3), 2);
    assert_eq!(log_2(1024), 10);
    assert_eq!(log_2(1025), 11);
    assert_eq!(pow2(0), 1);
    assert_eq!(pow2(10), 1024);
    assert_eq!(exact_log_2(1024), Some(10));
    assert_eq!(exact_log_2(1), Some(0));
    assert_eq!(exact_log_2(0), None);
    assert_eq!(exact_log_2(1000), None);
    assert_eq!(exact_log_2(usize::MAX), None);
}
