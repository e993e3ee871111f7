use ark_bls12_381::Fr;
use ark_ff::PrimeField;
use ark_std::UniformRand;
use merlin::Transcript;
use spartan::commitments::{Commitments, MultiCommitGens};
use spartan::dense_mlpoly::{
    DensePolynomial, EqPolynomial, PolyCommitmentGens, PolyEvalProof,
};
use spartan::errors::ProofVerifyError;
use spartan::r1csinstance::{MatrixEntry, R1CSInstance};
use spartan::random::RandomTape;
use spartan::scalar::Scalar;
use spartan::sumcheck::ZKSumcheckInstanceProof;

fn scalar_of(x: Fr) -> Scalar {
    Scalar::from_limbs(x.into_repr().0).unwrap()
}

fn fr_of(x: &Scalar) -> Fr {
    Fr::from_repr(ark_ff::BigInteger256(x.to_limbs())).unwrap()
}

fn small(v: &[u64]) -> Vec<Scalar> {
    v.iter().map(|x| Scalar::from_u64(*x)).collect()
}

#[test]
fn sum_of_products_is_proved_and_checked() {
    let mut prng = ark_std::test_rng();
    let n = 8;
    let a: Vec<Fr> = (0..n).map(|_| Fr::rand(&mut prng)).collect();
    let b: Vec<Fr> = (0..n).map(|_| Fr::rand(&mut prng)).collect();
    let claim: Fr = (0..n).map(|i| a[i] * b[i]).sum();
    let blind = Fr::rand(&mut prng);

    let gens_1 = MultiCommitGens::new(1, b"sum-1");
    let gens_3 = MultiCommitGens::new(3, b"sum-3");
    let table_a: Vec<Scalar> = a.iter().map(|x| scalar_of(*x)).collect();
    let table_b: Vec<Scalar> = b.iter().map(|x| scalar_of(*x)).collect();
    let whole_a = DensePolynomial::new(table_a.clone());
    let whole_b = DensePolynomial::new(table_b.clone());
    let mut poly_a = DensePolynomial::new(table_a);
    let mut poly_b = DensePolynomial::new(table_b);

    let mut random_tape = RandomTape::new(b"proof");
    let mut prover_transcript = Transcript::new(b"example");
    let (proof, r, claims, blind_last) = ZKSumcheckInstanceProof::prove_quad(
        &scalar_of(claim),
        &scalar_of(blind),
        3,
        &mut poly_a,
        &mut poly_b,
        &gens_1,
        &gens_3,
        &mut prover_transcript,
        &mut random_tape,
    );
    assert_eq!(r.len(), 3);
    assert_eq!(proof.comm_polys().len(), 3);
    assert_eq!(proof.comm_evals().len(), 3);
    assert_eq!(proof.proofs().len(), 3);
    // the two polynomials are left with their values at the point
    assert_eq!(claims, vec![whole_a.evaluate(&r), whole_b.evaluate(&r)]);
    assert_eq!(poly_a.len(), 1);

    let comm_claim = scalar_of(claim).commit(&scalar_of(blind), &gens_1);
    let mut t = Transcript::new(b"example");
    let (comm_last, vr) = proof
        .verify(&comm_claim, 3, 2, &gens_1, &gens_3, &mut t)
        .unwrap();
    assert_eq!(vr, r);
    // what is left to check is the product of the two values
    let last = scalar_of(fr_of(&claims[0]) * fr_of(&claims[1]));
    assert!(comm_last.equals(&last.commit(&blind_last, &gens_1)));

    // another claim, another number of rounds, another degree
    let other = Scalar::from_u64(5).commit(&scalar_of(blind), &gens_1);
    let mut t = Transcript::new(b"example");
    assert_eq!(
        proof.verify(&other, 3, 2, &gens_1, &gens_3, &mut t).err(),
        Some(ProofVerifyError::VerificationFailed)
    );
    let mut t = Transcript::new(b"example");
    assert!(proof.verify(&comm_claim, 2, 2, &gens_1, &gens_3, &mut t).is_err());
    let mut t = Transcript::new(b"example");
    assert!(proof.verify(&comm_claim, 3, 3, &gens_1, &gens_3, &mut t).is_err());
}

#[test]
fn sum_with_additive_term_is_proved_and_checked() {
    let mut prng = ark_std::test_rng();
    let n = 4;
    let tables: Vec<Vec<Fr>> = (0..4)
        .map(|_| (0..n).map(|_| Fr::rand(&mut prng)).collect())
        .collect();
    let claim: Fr = (0..n)
        .map(|i| tables[0][i] * (tables[1][i] * tables[2][i] - tables[3][i]))
        .sum();
    let blind = Fr::rand(&mut prng);
    let gens_1 = MultiCommitGens::new(1, b"sum-1");
    let gens_4 = MultiCommitGens::new(4, b"sum-4");
    let mut polys: Vec<DensePolynomial> = tables
        .iter()
        .map(|t| DensePolynomial::new(t.iter().map(|x| scalar_of(*x)).collect()))
        .collect();
    let mut d = polys.pop().unwrap();
    let mut c = polys.pop().unwrap();
    let mut b = polys.pop().unwrap();
    let mut a = polys.pop().unwrap();

    let mut random_tape = RandomTape::new(b"proof");
    let mut prover_transcript = Transcript::new(b"example");
    let (proof, r, claims, blind_last) = ZKSumcheckInstanceProof::prove_cubic_with_additive_term(
        &scalar_of(claim),
        &scalar_of(blind),
        2,
        &mut a,
        &mut b,
        &mut c,
        &mut d,
        &gens_1,
        &gens_4,
        &mut prover_transcript,
        &mut random_tape,
    );
    assert_eq!(claims.len(), 4);
    let comm_claim = scalar_of(claim).commit(&scalar_of(blind), &gens_1);
    let mut t = Transcript::new(b"example");
    let (comm_last, vr) = proof
        .verify(&comm_claim, 2, 3, &gens_1, &gens_4, &mut t)
        .unwrap();
    assert_eq!(vr, r);
    let f = |i: usize| fr_of(&claims[i]);
    let last = scalar_of(f(0) * (f(1) * f(2) - f(3)));
    assert!(comm_last.equals(&last.commit(&blind_last, &gens_1)));
}

#[test]
fn value_of_a_committed_polynomial_is_proved_and_checked() {
    let mut prng = ark_std::test_rng();
    let z: Vec<Scalar> = (0..16).map(|_| scalar_of(Fr::rand(&mut prng))).collect();
    let r: Vec<Scalar> = (0..4).map(|_| scalar_of(Fr::rand(&mut prng))).collect();
    let poly = DensePolynomial::new(z);
    let gens = PolyCommitmentGens::new(4, b"poly");
    assert_eq!(gens.gens.gens_n.n, 4);

    let mut random_tape = RandomTape::new(b"proof");
    let (comm, blinds) = poly.commit(&gens, &mut random_tape);
    assert_eq!(comm.shares().len(), 4);
    let value = poly.evaluate(&r);
    let blind = scalar_of(Fr::rand(&mut prng));

    let mut prover_transcript = Transcript::new(b"example");
    let (proof, c_value) = PolyEvalProof::prove(
        &poly,
        &blinds,
        &r,
        &value,
        &blind,
        &gens,
        &mut prover_transcript,
        &mut random_tape,
    )
    .unwrap();
    assert!(c_value.equals(&value.commit(&blind, &gens.gens.gens_1)));

    let mut t = Transcript::new(b"example");
    assert_eq!(proof.verify(&gens, &mut t, &r, &c_value, &comm), Ok(()));
    // another value
    let other = Scalar::from_u64(1).commit(&blind, &gens.gens.gens_1);
    let mut t = Transcript::new(b"example");
    assert_eq!(
        proof.verify(&gens, &mut t, &r, &other, &comm),
        Err(ProofVerifyError::VerificationFailed)
    );
    // another point
    let mut t = Transcript::new(b"example");
    assert!(proof.verify(&gens, &mut t, &small(&[1, 2, 3, 4]), &c_value, &comm).is_err());
    // a point of another length
    let mut t = Transcript::new(b"example");
    assert!(proof.verify(&gens, &mut t, &r[..2], &c_value, &comm).is_err());
    // a prover with a point of another length
    let res = PolyEvalProof::prove(
        &poly,
        &blinds,
        &r[..3],
        &value,
        &blind,
        &gens,
        &mut prover_transcript,
        &mut random_tape,
    );
    assert_eq!(res.err(), Some(ProofVerifyError::InvalidInput));
}

#[test]
fn products_of_a_system_with_vectors() {
    // two constraints on two variables and one input:
    //   z0 * z1 = in0     and     (z0 + 1) * 2 = z1
    let e = |row, col, val| MatrixEntry { row, col, val: Scalar::from_u64(val) };
    let a = vec![e(0, 0, 1), e(1, 0, 1), e(1, 2, 1)];
    let b = vec![e(0, 1, 1), e(1, 2, 2)];
    let c = vec![e(0, 3, 1), e(1, 1, 1)];
    let inst = R1CSInstance::new(2, 2, 1, a, b, c).unwrap();
    assert_eq!(inst.get_num_cons(), 2);
    assert_eq!(inst.get_num_vars(), 2);
    assert_eq!(inst.get_num_inputs(), 1);

    let vars = small(&[3, 8]);
    assert!(inst.is_sat(&vars, &small(&[24])));
    assert!(!inst.is_sat(&vars, &small(&[25])));
    assert!(!inst.is_sat(&small(&[3, 9]), &small(&[27])));

    let z = small(&[3, 8, 1, 24]);
    let (az, bz, cz) = inst.multiply_vec(2, 4, &z);
    assert_eq!(az.vec().clone(), small(&[3, 4]));
    assert_eq!(bz.vec().clone(), small(&[8, 2]));
    assert_eq!(cz.vec().clone(), small(&[24, 8]));

    let (ea, eb, ec) = inst.compute_eval_table_sparse(2, 4, &small(&[10, 100]));
    assert_eq!(ea, small(&[110, 0, 100, 0]));
    assert_eq!(eb, small(&[0, 10, 200, 0]));
    assert_eq!(ec, small(&[0, 100, 0, 10]));

    // at corners the three polynomials take the entries of the matrices
    let (va, vb, vc) = inst.evaluate(&small(&[1]), &small(&[1, 0]));
    assert_eq!((va, vb, vc), (Scalar::from_u64(1), Scalar::from_u64(2), Scalar::zero()));
    let (va, vb, vc) = inst.evaluate(&small(&[0]), &small(&[1, 1]));
    assert_eq!((va, vb, vc), (Scalar::zero(), Scalar::zero(), Scalar::from_u64(1)));

    // in between they agree with the tables
    let mut prng = ark_std::test_rng();
    let rx = vec![scalar_of(Fr::rand(&mut prng))];
    let ry: Vec<Scalar> = (0..2).map(|_| scalar_of(Fr::rand(&mut prng))).collect();
    let (va, _vb, _vc) = inst.evaluate(&rx, &ry);
    let (ta, _tb, _tc) =
        inst.compute_eval_table_sparse(2, 4, &EqPolynomial::new(rx.clone()).evals());
    assert_eq!(va, DensePolynomial::new(ta).evaluate(&ry));
}

#[test]
fn systems_with_sizes_out_of_order_are_refused() {
    let e = |row, col, val| MatrixEntry { row, col, val: Scalar::from_u64(val) };
    assert!(R1CSInstance::new(3, 2, 1, vec![], vec![], vec![]).is_none());
    assert!(R1CSInstance::new(2, 3, 1, vec![], vec![], vec![]).is_none());
    assert!(R1CSInstance::new(2, 2, 2, vec![], vec![], vec![]).is_none());
    assert!(R1CSInstance::new(2, 2, 1, vec![e(2, 0, 1)], vec![], vec![]).is_none());
    assert!(R1CSInstance::new(2, 2, 1, vec![], vec![e(0, 4, 1)], vec![]).is_none());
    assert!(R1CSInstance::new(2, 2, 1, vec![], vec![], vec![e(1, 3, 1)]).is_some());
}
