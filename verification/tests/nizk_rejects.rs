use ark_bls12_381::Fr;
use ark_ff::{One, PrimeField};
use ark_std::test_rng;
use ark_std::UniformRand;
use merlin::Transcript;
use spartan::commitments::{Commitments, MultiCommitGens};
use spartan::errors::ProofVerifyError;
use spartan::nizk::{
    DotProductProof, DotProductProofGens, DotProductProofLog, EqualityProof, KnowledgeProof,
    ProductProof,
};
use spartan::random::RandomTape;
use spartan::scalar::Scalar;
use spartan::transcript::ProofTranscript;

fn scalar_of(x: Fr) -> Scalar {
    Scalar::from_limbs(x.into_repr().0).unwrap()
}

fn fr_of(x: &Scalar) -> Fr {
    Fr::from_repr(ark_ff::BigInteger256(x.to_limbs())).unwrap()
}

fn random_scalars(n: usize) -> Vec<Fr> {
    let mut prng = test_rng();
    (0..n).map(|_| Fr::rand(&mut prng)).collect()
}

#[test]
fn knowledge_proof_is_bound_to_its_commitment_and_transcript() {
    let gens_1 = MultiCommitGens::new(1, b"test-knowledgeproof");
    let v = random_scalars(3);
    let (x, r) = (scalar_of(v[0]), scalar_of(v[1]));

    let mut random_tape = RandomTape::new(b"proof");
    let mut prover_transcript = Transcript::new(b"example");
    let (proof, c) =
        KnowledgeProof::prove(&gens_1, &mut prover_transcript, &mut random_tape, &x, &r);
    assert!(c.equals(&x.commit(&r, &gens_1)));

    // another commitment
    let other = scalar_of(v[2]).commit(&r, &gens_1);
    let mut t = Transcript::new(b"example");
    assert_eq!(
        proof.verify(&gens_1, &mut t, &other),
        Err(ProofVerifyError::VerificationFailed)
    );

    // a transcript on which something else came first
    let mut t = Transcript::new(b"example");
    t.append_protocol_name(b"another protocol");
    assert!(proof.verify(&gens_1, &mut t, &c).is_err());

    // one response changed
    let changed = KnowledgeProof::from_parts(
        proof.alpha(),
        scalar_of(fr_of(&proof.z1()) + Fr::one()),
        proof.z2(),
    );
    let mut t = Transcript::new(b"example");
    assert!(changed.verify(&gens_1, &mut t, &c).is_err());

    // generators for vectors
    let gens_2 = MultiCommitGens::new(2, b"test-knowledgeproof");
    let mut t = Transcript::new(b"example");
    assert_eq!(
        proof.verify(&gens_2, &mut t, &c),
        Err(ProofVerifyError::VerificationFailed)
    );

    // and the proof itself is accepted, and leaves both transcripts alike
    let mut t = Transcript::new(b"example");
    assert_eq!(proof.verify(&gens_1, &mut t, &c), Ok(()));
    assert_eq!(
        t.challenge_scalar(b"after"),
        prover_transcript.challenge_scalar(b"after")
    );
}

#[test]
fn equality_proof_rejects_different_values() {
    let gens_1 = MultiCommitGens::new(1, b"test-equalityproof");
    let v = random_scalars(4);
    let (v1, blind1, blind2) = (scalar_of(v[0]), scalar_of(v[1]), scalar_of(v[2]));
    let v2 = scalar_of(v[0] + Fr::one());

    let mut random_tape = RandomTape::new(b"proof");
    let mut prover_transcript = Transcript::new(b"example");
    let (proof, c1, c2) = EqualityProof::prove(
        &gens_1,
        &mut prover_transcript,
        &mut random_tape,
        &v1,
        &blind1,
        &v2,
        &blind2,
    );
    let mut t = Transcript::new(b"example");
    assert_eq!(
        proof.verify(&gens_1, &mut t, &c1, &c2),
        Err(ProofVerifyError::VerificationFailed)
    );
}

#[test]
fn product_proof_rejects_another_product() {
    let gens_1 = MultiCommitGens::new(1, b"test-productproof");
    let v = random_scalars(5);
    let (x, r_x, y, r_y, r_z) = (v[0], v[1], v[2], v[3], v[4]);
    let z = x * y;

    let mut random_tape = RandomTape::new(b"proof");
    let mut prover_transcript = Transcript::new(b"example");
    let (proof, cx, cy, cz) = ProductProof::prove(
        &gens_1,
        &mut prover_transcript,
        &mut random_tape,
        &scalar_of(x),
        &scalar_of(r_x),
        &scalar_of(y),
        &scalar_of(r_y),
        &scalar_of(z),
        &scalar_of(r_z),
    );
    // the commitment to the product plus one in place of that to the product
    let wrong = scalar_of(z + Fr::one()).commit(&scalar_of(r_z), &gens_1);
    let mut t = Transcript::new(b"example");
    assert_eq!(
        proof.verify(&gens_1, &mut t, &cx, &cy, &wrong),
        Err(ProofVerifyError::VerificationFailed)
    );
    let mut t = Transcript::new(b"example");
    assert_eq!(proof.verify(&gens_1, &mut t, &cx, &cy, &cz), Ok(()));

    // a prover that claims the product plus one
    let mut random_tape = RandomTape::new(b"proof");
    let mut prover_transcript = Transcript::new(b"example");
    let (proof, cx, cy, cz) = ProductProof::prove(
        &gens_1,
        &mut prover_transcript,
        &mut random_tape,
        &scalar_of(x),
        &scalar_of(r_x),
        &scalar_of(y),
        &scalar_of(r_y),
        &scalar_of(z + Fr::one()),
        &scalar_of(r_z),
    );
    let mut t = Transcript::new(b"example");
    assert!(proof.verify(&gens_1, &mut t, &cx, &cy, &cz).is_err());
}

#[test]
fn dot_product_proofs_reject_another_public_vector() {
    let n = 16;
    let gens_1 = MultiCommitGens::new(1, b"test-two");
    let gens_n = MultiCommitGens::new(n, b"test-16");
    let gens = DotProductProofGens::new(n, b"test-16");

    let v = random_scalars(2 * n + 2);
    let x: Vec<Scalar> = v[..n].iter().map(|s| scalar_of(*s)).collect();
    let a: Vec<Scalar> = v[n..2 * n].iter().map(|s| scalar_of(*s)).collect();
    let (r_x, r_y) = (scalar_of(v[2 * n]), scalar_of(v[2 * n + 1]));
    let y = DotProductProof::compute_dotproduct(&x, &a);
    let expected: Fr = (0..n).map(|i| v[i] * v[n + i]).sum();
    assert_eq!(fr_of(&y), expected);

    let mut swapped = a.clone();
    swapped.swap(0, 1);

    let mut random_tape = RandomTape::new(b"proof");
    let mut prover_transcript = Transcript::new(b"example");
    let (proof, cx, cy) = DotProductProof::prove(
        &gens_1,
        &gens_n,
        &mut prover_transcript,
        &mut random_tape,
        &x,
        &r_x,
        &a,
        &y,
        &r_y,
    );
    let mut t = Transcript::new(b"example");
    assert_eq!(proof.verify(&gens_1, &gens_n, &mut t, &a, &cx, &cy), Ok(()));
    let mut t = Transcript::new(b"example");
    assert_eq!(
        proof.verify(&gens_1, &gens_n, &mut t, &swapped, &cx, &cy),
        Err(ProofVerifyError::VerificationFailed)
    );
    // a public vector of another length
    let mut t = Transcript::new(b"example");
    assert_eq!(
        proof.verify(&gens_1, &gens_n, &mut t, &a[..n - 1], &cx, &cy),
        Err(ProofVerifyError::VerificationFailed)
    );

    let mut random_tape = RandomTape::new(b"proof");
    let mut prover_transcript = Transcript::new(b"example");
    let (proof, cx, cy) = DotProductProofLog::prove(
        &gens,
        &mut prover_transcript,
        &mut random_tape,
        &x,
        &r_x,
        &a,
        &y,
        &r_y,
    )
    .unwrap();
    assert_eq!(proof.bullet_reduction_proof().l_vec().len(), 4);
    assert_eq!(proof.bullet_reduction_proof().r_vec().len(), 4);
    let mut t = Transcript::new(b"example");
    assert_eq!(proof.verify(n, &gens, &mut t, &a, &cx, &cy), Ok(()));
    let mut t = Transcript::new(b"example");
    assert_eq!(
        proof.verify(n, &gens, &mut t, &swapped, &cx, &cy),
        Err(ProofVerifyError::VerificationFailed)
    );
    // a length that the generators are not made for
    let mut t = Transcript::new(b"example");
    assert_eq!(
        proof.verify(n / 2, &gens, &mut t, &a[..n / 2], &cx, &cy),
        Err(ProofVerifyError::VerificationFailed)
    );
    // a value that is not the inner product
    let mut random_tape = RandomTape::new(b"proof");
    let mut prover_transcript = Transcript::new(b"example");
    let (proof, cx, cy) = DotProductProofLog::prove(
        &gens,
        &mut prover_transcript,
        &mut random_tape,
        &x,
        &r_x,
        &a,
        &scalar_of(expected + Fr::one()),
        &r_y,
    )
    .unwrap();
    let mut t = Transcript::new(b"example");
    assert!(proof.verify(n, &gens, &mut t, &a, &cx, &cy).is_err());
}

#[test]
fn short_proof_needs_a_power_of_two() {
    let gens = DotProductProofGens::new(3, b"test-3");
    let x = vec![Scalar::from_u64(1), Scalar::from_u64(2), Scalar::from_u64(3)];
    let a = vec![Scalar::from_u64(4), Scalar::from_u64(5), Scalar::from_u64(6)];
    let y = DotProductProofLog::compute_dotproduct(&x, &a);
    assert_eq!(y, Scalar::from_u64(32));
    let mut random_tape = RandomTape::new(b"proof");
    let mut t = Transcript::new(b"example");
    let res = DotProductProofLog::prove(
        &gens,
        &mut t,
        &mut random_tape,
        &x,
        &Scalar::zero(),
        &a,
        &y,
        &Scalar::zero(),
    );
    assert_eq!(res.err(), Some(ProofVerifyError::InvalidInput));
    // nothing was absorbed
    let mut fresh = Transcript::new(b"example");
    assert_eq!(t.challenge_scalar(b"after"), fresh.challenge_scalar(b"after"));

    // vectors of different lengths
    let gens = DotProductProofGens::new(2, b"test-2");
    let res = DotProductProofLog::prove(
        &gens,
        &mut t,
        &mut random_tape,
        &x[..2],
        &Scalar::zero(),
        &a,
        &y,
        &Scalar::zero(),
    );
    assert_eq!(res.err(), Some(ProofVerifyError::InvalidInput));
}

#[test]
fn short_proof_of_one_entry() {
    let gens = DotProductProofGens::new(1, b"test-1");
    let x = vec![Scalar::from_u64(7)];
    let a = vec![Scalar::from_u64(6)];
    let y = Scalar::from_u64(42);
    let mut random_tape = RandomTape::new(b"proof");
    let mut prover_transcript = Transcript::new(b"example");
    let (proof, cx, cy) = DotProductProofLog::prove(
        &gens,
        &mut prover_transcript,
        &mut random_tape,
        &x,
        &Scalar::from_u64(3),
        &a,
        &y,
        &Scalar::from_u64(4),
    )
    .unwrap();
    assert_eq!(proof.bullet_reduction_proof().l_vec().len(), 0);
    let mut t = Transcript::new(b"example");
    assert_eq!(proof.verify(1, &gens, &mut t, &a, &cx, &cy), Ok(()));
}
