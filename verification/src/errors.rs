use vstd::prelude::*;

verus! {

/// The two ways in which an argument can fail.
#[derive(Clone, Copy, Debug, PartialEq, Eq, Structural)]
pub enum ProofVerifyError {
    /// A check of the verifier did not hold, or a challenge was zero.
    VerificationFailed,
    /// The prover was handed values whose sizes do not fit together.
    InvalidInput,
}

} // verus!
