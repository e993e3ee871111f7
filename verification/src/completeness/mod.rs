pub mod inputs;
pub mod interpolation;
pub mod matrices;
pub mod multilinear;
pub mod opening;
pub mod polynomials;
pub mod r1cs;
pub mod rounds;
