use ark_bls12_381::Fr;
use ark_ff::{Field, One, PrimeField, Zero};
use spartan::errors::ProofVerifyError;
use ark_std::test_rng;
use ark_std::UniformRand;
use merlin::Transcript;
use spartan::r1csinstance::{MatrixEntry, R1CSInstance};
use spartan::r1csproof::{R1CSGens, R1CSProof};
use spartan::random::RandomTape;
use spartan::scalar::Scalar;

fn scalar_of(x: Fr) -> Scalar {
    Scalar::from_limbs(x.into_repr().0).unwrap()
}

fn entry(row: usize, col: usize, val: Fr) -> MatrixEntry {
    MatrixEntry { row, col, val: scalar_of(val) }
}

fn produce_tiny_r1cs() -> (R1CSInstance, Vec<Scalar>, Vec<Scalar>) {
    // three constraints over five variables Z1, Z2, Z3, Z4, and Z5
    // rounded to the nearest power of two
    let num_cons = 128;
    let num_vars = 256;
    let num_inputs = 2;

    // encode the above constraints into three matrices
    let mut a: Vec<MatrixEntry> = Vec::new();
    let mut b: Vec<MatrixEntry> = Vec::new();
    let mut c: Vec<MatrixEntry> = Vec::new();

    let one = Fr::one();
    // constraint 0 entries
    // (Z1 + Z2) * I0 - Z3 = 0;
    a.push(entry(0, 0, one));
    a.push(entry(0, 1, one));
    b.push(entry(0, num_vars + 1, one));
    c.push(entry(0, 2, one));

    // constraint 1 entries
    // (Z1 + I1) * (Z3) - Z4 = 0
    a.push(entry(1, 0, one));
    a.push(entry(1, num_vars + 2, one));
    b.push(entry(1, 2, one));
    c.push(entry(1, 3, one));
    // constraint 3 entries
    // Z5 * 1 - 0 = 0
    a.push(entry(2, 4, one));
    b.push(entry(2, num_vars, one));

    let inst = R1CSInstance::new(num_cons, num_vars, num_inputs, a, b, c).unwrap();

    // compute a satisfying assignment
    let mut prng = test_rng();
    let i0 = Fr::rand(&mut prng);
    let i1 = Fr::rand(&mut prng);
    let z1 = Fr::rand(&mut prng);
    let z2 = Fr::rand(&mut prng);
    let z3 = (z1 + z2) * i0; // constraint 1: (Z1 + Z2) * I0 - Z3 = 0;
    let z4 = (z1 + i1) * z3; // constraint 2: (Z1 + I1) * (Z3) - Z4 = 0
    let z5 = Fr::zero(); //constraint 3

    let mut vars = vec![Scalar::zero(); num_vars];
    vars[0] = scalar_of(z1);
    vars[1] = scalar_of(z2);
    vars[2] = scalar_of(z3);
    vars[3] = scalar_of(z4);
    vars[4] = scalar_of(z5);

    let mut input = vec![Scalar::zero(); num_inputs];
    input[0] = scalar_of(i0);
    input[1] = scalar_of(i1);

    (inst, vars, input)
}

fn produce_synthetic_r1cs(
    num_cons: usize,
    num_vars: usize,
    num_inputs: usize,
) -> (R1CSInstance, Vec<Scalar>, Vec<Scalar>) {
    let mut prng = test_rng();
    let size_z = num_vars + num_inputs + 1;
    let mut z: Vec<Fr> = (0..size_z).map(|_i| Fr::rand(&mut prng)).collect();
    z[num_vars] = Fr::one();

    let mut a: Vec<MatrixEntry> = Vec::new();
    let mut b: Vec<MatrixEntry> = Vec::new();
    let mut c: Vec<MatrixEntry> = Vec::new();
    let one = Fr::one();
    for i in 0..num_cons {
        let a_idx = i % size_z;
        let b_idx = (i + 2) % size_z;
        a.push(entry(i, a_idx, one));
        b.push(entry(i, b_idx, one));
        let ab_val = z[a_idx] * z[b_idx];

        let c_idx = (i + 3) % size_z;
        let c_val = z[c_idx];
        if c_val == Fr::zero() {
            c.push(entry(i, num_vars, ab_val));
        } else {
            c.push(entry(i, c_idx, ab_val * c_val.inverse().unwrap()));
        }
    }
    let inst = R1CSInstance::new(num_cons, num_vars, num_inputs, a, b, c).unwrap();
    let vars = z[..num_vars].iter().map(|x| scalar_of(*x)).collect();
    let input = z[num_vars + 1..].iter().map(|x| scalar_of(*x)).collect();
    (inst, vars, input)
}

#[test]
fn test_tiny_r1cs() {
    let (inst, vars, input) = produce_tiny_r1cs();
    let is_sat = inst.is_sat(&vars, &input);
    assert!(is_sat);
}

#[test]
fn test_synthetic_r1cs() {
    let (inst, vars, input) = produce_synthetic_r1cs(1024, 1024, 10);
    let is_sat = inst.is_sat(&vars, &input);
    assert!(is_sat);
}

#[test]
fn check_r1cs_proof() {
    let num_vars = 1024;
    let num_cons = num_vars;
    let num_inputs = 10;
    let (inst, vars, input) = produce_synthetic_r1cs(num_cons, num_vars, num_inputs);

    let gens = R1CSGens::new(b"test-m", num_cons, num_vars);

    let mut random_tape = RandomTape::new(b"proof");
    let mut prover_transcript = Transcript::new(b"example");
    let (proof, rx, ry) = R1CSProof::prove(
        &inst,
        vars,
        &input,
        &gens,
        &mut prover_transcript,
        &mut random_tape,
    )
    .unwrap();

    let inst_evals = inst.evaluate(&rx, &ry);

    let mut verifier_transcript = Transcript::new(b"example");
    assert!(proof
        .verify(
            inst.get_num_vars(),
            inst.get_num_cons(),
            &input,
            &inst_evals,
            &mut verifier_transcript,
            &gens,
        )
        .is_ok());
}

#[test]
fn tiny_r1cs_proof_verifies_and_points_agree() {
    let (inst, vars, input) = produce_tiny_r1cs();
    let gens = R1CSGens::new(b"test-tiny", inst.get_num_cons(), inst.get_num_vars());

    let mut random_tape = RandomTape::new(b"proof");
    let mut prover_transcript = Transcript::new(b"example");
    let (proof, rx, ry) = R1CSProof::prove(
        &inst,
        vars,
        &input,
        &gens,
        &mut prover_transcript,
        &mut random_tape,
    )
    .unwrap();
    assert_eq!(rx.len(), 7);
    assert_eq!(ry.len(), 9);

    let inst_evals = inst.evaluate(&rx, &ry);
    let mut verifier_transcript = Transcript::new(b"example");
    let (vx, vy) = proof
        .verify(
            inst.get_num_vars(),
            inst.get_num_cons(),
            &input,
            &inst_evals,
            &mut verifier_transcript,
            &gens,
        )
        .unwrap();
    assert_eq!(vx, rx);
    assert_eq!(vy, ry);

    // another name of the transcript, and the proof is not accepted
    let mut other_transcript = Transcript::new(b"another");
    assert!(proof
        .verify(
            inst.get_num_vars(),
            inst.get_num_cons(),
            &input,
            &inst_evals,
            &mut other_transcript,
            &gens,
        )
        .is_err());
}

#[test]
fn r1cs_proof_is_bound_to_its_statement() {
    let (inst, vars, input) = produce_synthetic_r1cs(16, 16, 3);
    let gens = R1CSGens::new(b"test-bound", 16, 16);
    let prove = |vars: Vec<Scalar>, input: &[Scalar]| {
        let mut random_tape = RandomTape::new(b"proof");
        let mut prover_transcript = Transcript::new(b"example");
        R1CSProof::prove(&inst, vars, input, &gens, &mut prover_transcript, &mut random_tape)
    };
    let verify = |proof: &R1CSProof,
                  num_vars: usize,
                  num_cons: usize,
                  input: &[Scalar],
                  evals: &(Scalar, Scalar, Scalar)| {
        let mut t = Transcript::new(b"example");
        proof.verify(num_vars, num_cons, input, evals, &mut t, &gens)
    };

    let (proof, rx, ry) = prove(vars.clone(), &input).unwrap();
    assert_eq!(rx.len(), 4);
    assert_eq!(ry.len(), 5);
    let evals = inst.evaluate(&rx, &ry);
    assert_eq!(verify(&proof, 16, 16, &input, &evals), Ok((rx.clone(), ry.clone())));

    // other inputs
    let mut other_input = input.clone();
    other_input[1] = Scalar::from_u64(5);
    assert_eq!(
        verify(&proof, 16, 16, &other_input, &evals),
        Err(ProofVerifyError::VerificationFailed)
    );
    // other values of the matrices
    let other_evals = (evals.0, evals.1, Scalar::from_u64(1));
    assert!(verify(&proof, 16, 16, &input, &other_evals).is_err());
    // other sizes
    assert!(verify(&proof, 32, 16, &input, &evals).is_err());
    assert!(verify(&proof, 16, 32, &input, &evals).is_err());
    assert!(verify(&proof, 15, 16, &input, &evals).is_err());
    assert!(verify(&proof, 16, 1, &input, &evals).is_err());
    assert!(verify(&proof, 16, 16, &vars, &evals).is_err());

    // one part of the proof changed
    let mut parts = proof.into_parts();
    parts.comm_vars_at_ry = parts.claims_phase2.0;
    let changed = R1CSProof::from_parts(parts);
    assert!(verify(&changed, 16, 16, &input, &evals).is_err());
    let mut parts = changed.into_parts();
    let (proof, _, _) = prove(vars.clone(), &input).unwrap();
    parts.comm_vars_at_ry = proof.into_parts().comm_vars_at_ry;
    let restored = R1CSProof::from_parts(parts);
    assert!(verify(&restored, 16, 16, &input, &evals).is_ok());

    // an assignment that does not meet the constraints
    let mut wrong = vars.clone();
    wrong[0] = Scalar::from_u64(3);
    assert!(!inst.is_sat(&wrong, &input));
    let (proof, rx, ry) = prove(wrong, &input).unwrap();
    let evals = inst.evaluate(&rx, &ry);
    assert_eq!(
        verify(&proof, 16, 16, &input, &evals),
        Err(ProofVerifyError::VerificationFailed)
    );
}

#[test]
fn r1cs_prover_refuses_what_does_not_fit() {
    let (inst, vars, input) = produce_synthetic_r1cs(16, 16, 3);
    let gens = R1CSGens::new(b"test-fit", 16, 16);
    let mut random_tape = RandomTape::new(b"proof");
    let mut t = Transcript::new(b"example");
    let short = vars[..8].to_vec();
    let res = R1CSProof::prove(&inst, short, &input, &gens, &mut t, &mut random_tape);
    assert_eq!(res.err(), Some(ProofVerifyError::InvalidInput));
    let res = R1CSProof::prove(&inst, vars.clone(), &input[..2], &gens, &mut t, &mut random_tape);
    assert_eq!(res.err(), Some(ProofVerifyError::InvalidInput));
    // generators for another number of variables
    let other = R1CSGens::new(b"test-fit", 16, 64);
    let res = R1CSProof::prove(&inst, vars.clone(), &input, &other, &mut t, &mut random_tape);
    assert_eq!(res.err(), Some(ProofVerifyError::InvalidInput));
    // a system of one constraint
    let (one, vars, input) = produce_synthetic_r1cs(1, 16, 3);
    let res = R1CSProof::prove(&one, vars, &input, &gens, &mut t, &mut random_tape);
    assert_eq!(res.err(), Some(ProofVerifyError::InvalidInput));
    assert!(R1CSProof::check_gens(&gens, 16));
    assert!(!R1CSProof::check_gens(&gens, 64));
}
