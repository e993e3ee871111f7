use ark_bls12_381::Fr;
use ark_ff::{One, PrimeField, Zero};
use ark_std::UniformRand;
use spartan::dense_mlpoly::{DensePolynomial, EqPolynomial};
use spartan::scalar::Scalar;
use spartan::sparse_mlpoly::{SparsePolyEntry, SparsePolynomial};
use spartan::unipoly::UniPoly;

fn scalar_of(x: Fr) -> Scalar {
    Scalar::from_limbs(x.into_repr().0).unwrap()
}

fn fr_of(x: &Scalar) -> Fr {
    Fr::from_repr(ark_ff::BigInteger256(x.to_limbs())).unwrap()
}

fn small(v: &[u64]) -> Vec<Scalar> {
    v.iter().map(|x| Scalar::from_u64(*x)).collect()
}

#[test]
fn polynomial_through_three_values() {
    // x^2 + 1 takes 1, 2 and 5 at 0, 1 and 2
    let poly = UniPoly::from_evals(&small(&[1, 2, 5]));
    assert_eq!(poly.as_vec(), small(&[1, 0, 1]));
    assert_eq!(poly.degree(), 2);
    assert_eq!(poly.evaluate(&Scalar::from_u64(3)), Scalar::from_u64(10));
    assert_eq!(poly.evaluate(&Scalar::zero()), Scalar::from_u64(1));
}

#[test]
fn polynomial_through_four_values() {
    // 2 x^3 + 3 x^2 + 5 x + 7 takes 7, 17, 45 and 103 at 0, 1, 2 and 3
    let poly = UniPoly::from_evals(&small(&[7, 17, 45, 103]));
    assert_eq!(poly.as_vec(), small(&[7, 5, 3, 2]));
    assert_eq!(poly.degree(), 3);
    assert_eq!(poly.evaluate(&Scalar::from_u64(4)), Scalar::from_u64(203));
}

#[test]
fn values_of_the_equality_polynomial() {
    let mut prng = ark_std::test_rng();
    let (r0, r1) = (Fr::rand(&mut prng), Fr::rand(&mut prng));
    let one = Fr::one();
    let eq = EqPolynomial::new(vec![scalar_of(r0), scalar_of(r1)]);
    let evals: Vec<Fr> = eq.evals().iter().map(fr_of).collect();
    assert_eq!(
        evals,
        vec![(one - r0) * (one - r1), (one - r0) * r1, r0 * (one - r1), r0 * r1]
    );
    // at a corner it is one where the point is that corner
    let corner = EqPolynomial::new(small(&[1, 0]));
    assert_eq!(corner.evals(), small(&[0, 0, 1, 0]));
    assert_eq!(corner.evaluate(&small(&[1, 0])), Scalar::one());
    assert_eq!(corner.evaluate(&small(&[1, 1])), Scalar::zero());
    assert_eq!(
        fr_of(&eq.evaluate(&small(&[1, 0]))),
        r0 * (one - r1)
    );
    assert_eq!(EqPolynomial::new(vec![]).evals(), small(&[1]));
    assert_eq!(EqPolynomial::compute_factored_lens(5), (2, 3));
    let (l, r) = EqPolynomial::new(small(&[1, 0, 1])).compute_factored_evals();
    assert_eq!(l, small(&[0, 1]));
    assert_eq!(r, small(&[0, 1, 0, 0]));
}

#[test]
fn dense_polynomial_takes_its_values_at_the_corners() {
    let z = small(&[3, 5, 7, 11]);
    let poly = DensePolynomial::new(z);
    assert_eq!(poly.len(), 4);
    assert_eq!(poly.get_num_vars(), 2);
    assert_eq!(poly.evaluate(&small(&[0, 0])), Scalar::from_u64(3));
    assert_eq!(poly.evaluate(&small(&[0, 1])), Scalar::from_u64(5));
    assert_eq!(poly.evaluate(&small(&[1, 0])), Scalar::from_u64(7));
    assert_eq!(poly.evaluate(&small(&[1, 1])), Scalar::from_u64(11));
    // in between it is of degree one in each variable
    assert_eq!(poly.evaluate(&small(&[2, 0])), Scalar::from_u64(11));
    assert_eq!(poly.index(2), Scalar::from_u64(7));
}

#[test]
fn binding_the_first_variable_halves_the_values() {
    let mut poly = DensePolynomial::new(small(&[3, 5, 7, 11]));
    poly.bound_poly_var_top(&Scalar::from_u64(2));
    // 3 + 2 (7 - 3) and 5 + 2 (11 - 5)
    assert_eq!(poly.vec().clone(), small(&[11, 17]));
    poly.bound_poly_var_top(&Scalar::from_u64(3));
    assert_eq!(poly.vec().clone(), small(&[29]));
    let whole = DensePolynomial::new(small(&[3, 5, 7, 11]));
    assert_eq!(whole.evaluate(&small(&[2, 3])), Scalar::from_u64(29));
}

#[test]
fn rows_are_combined_with_weights() {
    // two rows of three
    let poly = DensePolynomial::new(small(&[1, 2, 3, 4, 5, 6]));
    assert_eq!(poly.bound(&small(&[10, 100])), small(&[410, 520, 630]));
}

#[test]
fn sparse_polynomial_agrees_with_the_dense_one() {
    let mut prng = ark_std::test_rng();
    let r: Vec<Scalar> = (0..3).map(|_| scalar_of(Fr::rand(&mut prng))).collect();
    let mut z = vec![Scalar::zero(); 8];
    z[0] = Scalar::from_u64(1);
    z[3] = Scalar::from_u64(9);
    z[6] = Scalar::from_u64(4);
    let dense = DensePolynomial::new(z);
    let sparse = SparsePolynomial::new(
        3,
        vec![
            SparsePolyEntry::new(0, Scalar::from_u64(1)),
            SparsePolyEntry::new(3, Scalar::from_u64(9)),
            SparsePolyEntry::new(6, Scalar::from_u64(4)),
        ],
    );
    assert_eq!(sparse.evaluate(&r), dense.evaluate(&r));
    assert_eq!(sparse.evaluate(&small(&[0, 1, 1])), Scalar::from_u64(9));
    assert_eq!(sparse.evaluate(&small(&[1, 1, 0])), Scalar::from_u64(4));
    assert_eq!(sparse.evaluate(&small(&[1, 1, 1])), Scalar::zero());
    assert_eq!(fr_of(&sparse.evaluate(&small(&[0, 0, 1]))), Fr::zero());
}
