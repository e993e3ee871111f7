use ark_bls12_381::Fr;
use ark_ff::PrimeField;
use ark_serialize::CanonicalSerialize;
use ark_std::UniformRand;
use merlin::Transcript;
use spartan::commitments::MultiCommitGens;
use spartan::random::RandomTape;
use spartan::scalar::Scalar;
use spartan::transcript::{AppendToTranscript, ProofTranscript};

fn scalar_of(x: Fr) -> Scalar {
    Scalar::from_limbs(x.into_repr().0).unwrap()
}

fn fr_of(x: &Scalar) -> Fr {
    Fr::from_repr(ark_ff::BigInteger256(x.to_limbs())).unwrap()
}

fn next_challenge(t: &mut Transcript) -> Fr {
    let mut buf = [0u8; 64];
    t.challenge_bytes(b"check", &mut buf);
    Fr::from_le_bytes_mod_order(&buf)
}

#[test]
fn a_scalar_is_absorbed_in_32_bytes_least_significant_first() {
    let mut prng = ark_std::test_rng();
    let x = Fr::rand(&mut prng);
    let mut bytes = Vec::new();
    x.serialize(&mut bytes).unwrap();
    assert_eq!(bytes.len(), 32);

    let mut ours = Transcript::new(b"t");
    ours.append_scalar(b"x", &scalar_of(x));
    let mut theirs = Transcript::new(b"t");
    theirs.append_message(b"x", &bytes);
    assert_eq!(fr_of(&ours.challenge_scalar(b"check")), next_challenge(&mut theirs));

    let mut small = Transcript::new(b"t");
    small.append_scalar(b"x", &Scalar::from_u64(0x0102));
    let mut expected = [0u8; 32];
    expected[0] = 2;
    expected[1] = 1;
    let mut theirs = Transcript::new(b"t");
    theirs.append_message(b"x", &expected);
    assert_eq!(fr_of(&small.challenge_scalar(b"check")), next_challenge(&mut theirs));
}

#[test]
fn a_point_is_absorbed_in_its_compressed_encoding() {
    let gens = MultiCommitGens::new(1, b"point");
    let mut ours = Transcript::new(b"t");
    ours.append_point(b"p", &gens.h);
    let mut theirs = Transcript::new(b"t");
    theirs.append_message(b"p", &gens.h.to_bytes());
    assert_eq!(fr_of(&ours.challenge_scalar(b"check")), next_challenge(&mut theirs));

    let mut again = Transcript::new(b"t");
    gens.h.append_to_transcript(b"p", &mut again);
    let mut theirs = Transcript::new(b"t");
    theirs.append_message(b"p", &gens.h.to_bytes());
    assert_eq!(fr_of(&again.challenge_scalar(b"check")), next_challenge(&mut theirs));
}

#[test]
fn the_name_of_a_protocol_is_absorbed_under_its_own_label() {
    let mut ours = Transcript::new(b"t");
    ours.append_protocol_name(b"some protocol");
    let mut theirs = Transcript::new(b"t");
    theirs.append_message(b"protocol-name", b"some protocol");
    assert_eq!(fr_of(&ours.challenge_scalar(b"check")), next_challenge(&mut theirs));
}

#[test]
fn a_vector_is_framed_when_it_is_absorbed() {
    let v = vec![Scalar::from_u64(1), Scalar::from_u64(2)];
    let mut ours = Transcript::new(b"t");
    ours.append_scalars(b"v", &v);
    let mut theirs = Transcript::new(b"t");
    theirs.append_message(b"v", b"begin_append_vector");
    theirs.append_scalar(b"v", &v[0]);
    theirs.append_scalar(b"v", &v[1]);
    theirs.append_message(b"v", b"end_append_vector");
    assert_eq!(fr_of(&ours.challenge_scalar(b"check")), next_challenge(&mut theirs));

    // one vector of two entries is not two vectors of one
    let mut split = Transcript::new(b"t");
    v[..1].append_to_transcript(b"v", &mut split);
    v[1..].append_to_transcript(b"v", &mut split);
    let mut whole = Transcript::new(b"t");
    v[..].append_to_transcript(b"v", &mut whole);
    assert_ne!(
        fr_of(&split.challenge_scalar(b"check")),
        fr_of(&whole.challenge_scalar(b"check"))
    );
}

#[test]
fn challenges_are_64_bytes_reduced() {
    let mut ours = Transcript::new(b"t");
    let mut theirs = Transcript::new(b"t");
    let c = ours.challenge_scalar(b"check");
    assert_eq!(fr_of(&c), next_challenge(&mut theirs));
    let v = ours.challenge_vector(b"check", 3);
    assert_eq!(v.len(), 3);
    for x in v.iter() {
        assert_eq!(fr_of(x), next_challenge(&mut theirs));
    }
    assert_eq!(ours.challenge_vector(b"check", 0).len(), 0);
}

#[test]
fn a_tape_follows_from_its_first_scalar() {
    let mut a = RandomTape::new(b"tape");
    let mut b = RandomTape::new(b"tape");
    let x = a.random_scalar(b"x");
    assert_eq!(x, b.random_scalar(b"x"));
    assert_ne!(x, a.random_scalar(b"x"));
    let v = a.random_vector(b"v", 5);
    assert_eq!(v.len(), 5);
    let mut c = RandomTape::new(b"other tape");
    assert_ne!(x, c.random_scalar(b"x"));
}
