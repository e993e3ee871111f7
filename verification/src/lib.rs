//! A zero-knowledge argument for the satisfiability of systems of
//! constraints of rank one, over the scalar field of the curve BLS12-381.
//!
//! The proofs are built from commitments to scalars and vectors and from
//! small proofs on committed values: of knowledge, of equality, of a
//! product and of an inner product, the last also in a form whose size
//! grows with the logarithm of the length only. Two sums over the cube,
//! proved round by round on committed polynomials, reduce the constraints
//! to one value of the committed assignment, which is then opened.
//!
//! Every function states what it hands back and what it leaves in the
//! transcript, exactly, over a model in which scalars are numbers below
//! the order of the field and group elements are multiples of a fixed
//! generator. The modules under `completeness` prove over that model that
//! the verifiers accept what the honest provers make.

pub mod algebra;
pub mod commitments;
pub mod completeness;
pub mod dense_mlpoly;
pub mod errors;
pub mod group;
pub mod math;
pub mod nizk;
pub mod r1csinstance;
pub mod r1csproof;
pub mod random;
pub mod scalar;
pub mod sparse_mlpoly;
pub mod sumcheck;
pub mod transcript;
pub mod unipoly;
