use ark_bls12_381::Fr;
use ark_ff::PrimeField;
use ark_std::test_rng;
use ark_std::UniformRand;
use merlin::Transcript;
use spartan::commitments::MultiCommitGens;
use spartan::nizk::{
    DotProductProof, DotProductProofGens, DotProductProofLog, EqualityProof, KnowledgeProof,
    ProductProof,
};
use spartan::random::RandomTape;
use spartan::scalar::Scalar;

fn scalar_of(x: Fr) -> Scalar {
    Scalar::from_limbs(x.into_repr().0).unwrap()
}

#[test]
fn check_knowledgeproof() {
    let mut prng = test_rng();

    let gens_1 = MultiCommitGens::new(1, b"test-knowledgeproof");

    let x = scalar_of(Fr::rand(&mut prng));
    let r = scalar_of(Fr::rand(&mut prng));

    let mut random_tape = RandomTape::new(b"proof");
    let mut prover_transcript = Transcript::new(b"example");
    let (proof, committed_value) =
        KnowledgeProof::prove(&gens_1, &mut prover_transcript, &mut random_tape, &x, &r);

    let mut verifier_transcript = Transcript::new(b"example");
    assert!(proof
        .verify(&gens_1, &mut verifier_transcript, &committed_value)
        .is_ok());
}

#[test]
fn check_equalityproof() {
    let mut prng = test_rng();

    let gens_1 = MultiCommitGens::new(1, b"test-equalityproof");
    let v1 = scalar_of(Fr::rand(&mut prng));
    let v2 = v1;
    let blind1 = scalar_of(Fr::rand(&mut prng));
    let blind2 = scalar_of(Fr::rand(&mut prng));

    let mut random_tape = RandomTape::new(b"proof");
    let mut prover_transcript = Transcript::new(b"example");
    let (proof, c1, c2) = EqualityProof::prove(
        &gens_1,
        &mut prover_transcript,
        &mut random_tape,
        &v1,
        &blind1,
        &v2,
        &blind2,
    );

    let mut verifier_transcript = Transcript::new(b"example");
    assert!(proof
        .verify(&gens_1, &mut verifier_transcript, &c1, &c2)
        .is_ok());
}

#[test]
fn check_productproof() {
    let mut prng = test_rng();

    let gens_1 = MultiCommitGens::new(1, b"test-productproof");
    let x = Fr::rand(&mut prng);
    let r_x = Fr::rand(&mut prng);
    let y = Fr::rand(&mut prng);
    let r_y = Fr::rand(&mut prng);
    let z = x * y;
    let r_z = Fr::rand(&mut prng);

    let mut random_tape = RandomTape::new(b"proof");
    let mut prover_transcript = Transcript::new(b"example");
    let (proof, cx, cy, cz) = ProductProof::prove(
        &gens_1,
        &mut prover_transcript,
        &mut random_tape,
        &scalar_of(x),
        &scalar_of(r_x),
        &scalar_of(y),
        &scalar_of(r_y),
        &scalar_of(z),
        &scalar_of(r_z),
    );

    let mut verifier_transcript = Transcript::new(b"example");
    assert!(proof
        .verify(&gens_1, &mut verifier_transcript, &cx, &cy, &cz)
        .is_ok());
}

#[test]
fn check_dotproductproof() {
    let mut prng = test_rng();

    let n = 1024;

    let gens_1 = MultiCommitGens::new(1, b"test-two");
    let gens_1024 = MultiCommitGens::new(n, b"test-1024");

    let mut x: Vec<Scalar> = Vec::new();
    let mut a: Vec<Scalar> = Vec::new();
    for _ in 0..n {
        x.push(scalar_of(Fr::rand(&mut prng)));
        a.push(scalar_of(Fr::rand(&mut prng)));
    }
    let y = DotProductProofLog::compute_dotproduct(&x, &a);
    let r_x = scalar_of(Fr::rand(&mut prng));
    let r_y = scalar_of(Fr::rand(&mut prng));

    let mut random_tape = RandomTape::new(b"proof");
    let mut prover_transcript = Transcript::new(b"example");
    let (proof, cx, cy) = DotProductProof::prove(
        &gens_1,
        &gens_1024,
        &mut prover_transcript,
        &mut random_tape,
        &x,
        &r_x,
        &a,
        &y,
        &r_y,
    );

    let mut verifier_transcript = Transcript::new(b"example");
    assert!(proof
        .verify(&gens_1, &gens_1024, &mut verifier_transcript, &a, &cx, &cy)
        .is_ok());
}

#[test]
fn check_dotproductproof_log() {
    let mut prng = test_rng();

    let n = 1024;

    let gens = DotProductProofGens::new(n, b"test-1024");

    let x: Vec<Scalar> = (0..n).map(|_i| scalar_of(Fr::rand(&mut prng))).collect();
    let a: Vec<Scalar> = (0..n).map(|_i| scalar_of(Fr::rand(&mut prng))).collect();
    let y = DotProductProof::compute_dotproduct(&x, &a);

    let r_x = scalar_of(Fr::rand(&mut prng));
    let r_y = scalar_of(Fr::rand(&mut prng));

    let mut random_tape = RandomTape::new(b"proof");
    let mut prover_transcript = Transcript::new(b"example");
    let (proof, cx, cy) = DotProductProofLog::prove(
        &gens,
        &mut prover_transcript,
        &mut random_tape,
        &x,
        &r_x,
        &a,
        &y,
        &r_y,
    )
    .unwrap();

    let mut verifier_transcript = Transcript::new(b"example");
    assert!(proof
        .verify(n, &gens, &mut verifier_transcript, &a, &cx, &cy)
        .is_ok());
}
