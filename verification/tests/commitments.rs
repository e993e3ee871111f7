use ark_bls12_381::Fr;
use ark_ff::PrimeField;
use ark_std::UniformRand;
use spartan::commitments::{Commitments, MultiCommitGens};
use spartan::scalar::Scalar;

fn scalar_of(x: Fr) -> Scalar {
    Scalar::from_limbs(x.into_repr().0).unwrap()
}

#[test]
fn generators_are_determined_by_the_label() {
    let a = MultiCommitGens::new(4, b"label");
    let b = MultiCommitGens::new(4, b"label");
    assert_eq!(a.n, 4);
    assert_eq!(a.G.len(), 4);
    assert_eq!(a.G, b.G);
    assert_eq!(a.h, b.h);
    let c = MultiCommitGens::new(4, b"other");
    assert_ne!(a.G, c.G);
}

#[test]
fn split_keeps_order_and_blinding_base() {
    let gens = MultiCommitGens::new(5, b"label");
    let (first, second) = gens.split_at(2);
    assert_eq!(first.n, 2);
    assert_eq!(second.n, 3);
    assert_eq!(first.G[..], gens.G[..2]);
    assert_eq!(second.G[..], gens.G[2..]);
    assert_eq!(first.h, gens.h);
    assert_eq!(second.h, gens.h);
}

#[test]
fn commitments_add_up() {
    let mut prng = ark_std::test_rng();
    let gens = MultiCommitGens::new(1, b"label");
    let x = Fr::rand(&mut prng);
    let y = Fr::rand(&mut prng);
    let r = Fr::rand(&mut prng);
    let s = Fr::rand(&mut prng);
    let cx = scalar_of(x).commit(&scalar_of(r), &gens);
    let cy = scalar_of(y).commit(&scalar_of(s), &gens);
    let cxy = scalar_of(x + y).commit(&scalar_of(r + s), &gens);
    let v = vec![scalar_of(x + y)];
    assert!(cxy.equals(&v.commit(&scalar_of(r + s), &gens)));
    assert!(!cx.equals(&cy));
}
