use vstd::prelude::*;
use vstd::string::StringSliceAdditionalSpecFns;
use crate::scalar::{modulus, Scalar};
use crate::transcript::{
    challenge_scalar, challenge_vector, log_append_scalar, log_challenge, log_challenges, log_new,
    ProofTranscript, TranscriptOp,
};
use merlin::Transcript;

verus! {

/// The prover's own source of blinding scalars: a transcript that nobody
/// else sees, started from a scalar drawn at random.
pub struct RandomTape {
    tape: Transcript,
}

impl View for RandomTape {
    type V = Seq<TranscriptOp>;

    closed spec fn view(&self) -> Seq<TranscriptOp> {
        self.tape.log()
    }
}

/// The past of a tape made under `name` whose first scalar was `s`.
pub open spec fn tape_start(name: Seq<u8>, s: nat) -> Seq<TranscriptOp> {
    log_append_scalar(log_new(name), "init_randomness".spec_bytes(), s)
}

impl RandomTape {
    /// A tape under a name, started from a scalar drawn at random.
    pub fn new(name: &'static [u8]) -> (r: Self)
        requires
            name@.len() <= u32::MAX,
        ensures
            exists|s: nat| s < modulus() && r@ == tape_start(name@, s),
    {
        let s = Scalar::sample();
        let mut tape = Transcript::new(name);
        tape.append_scalar("init_randomness".as_bytes(), &s);
        let r = RandomTape { tape };
        proof {
            use_type_invariant(&s);
            assert(s@ < modulus() && r@ == tape_start(name@, s@));
        }
        r
    }

    /// The next scalar of the tape under a label.
    pub fn random_scalar(&mut self, label: &'static [u8]) -> (r: Scalar)
        ensures
            r@ == challenge_scalar(old(self)@, label@),
            final(self)@ == log_challenge(old(self)@, label@),
    {
        self.tape.challenge_scalar(label)
    }

    /// The next `len` scalars of the tape under a label.
    pub fn random_vector(&mut self, label: &'static [u8], len: usize) -> (r: Vec<Scalar>)
        ensures
            r@.len() == len,
            r.deep_view() == challenge_vector(old(self)@, label@, len as nat),
            final(self)@ == log_challenges(old(self)@, label@, len as nat),
    {
        self.tape.challenge_vector(label, len)
    }
}

} // verus!
