use vstd::prelude::*;
use vstd::string::StringSliceAdditionalSpecFns;
use crate::group::{point_compressed, Point};
use crate::scalar::{le_bytes, le_bytes_value, modulus, Scalar};
use merlin::Transcript;

verus! {

#[verifier::external_type_specification]
#[verifier::external_body]
pub struct ExTranscript(Transcript);

/// One step in the life of a transcript.
pub enum TranscriptOp {
    /// A message was absorbed under a label.
    Append { label: Seq<u8>, message: Seq<u8> },
    /// A challenge of `len` bytes was squeezed under a label.
    Challenge { label: Seq<u8>, len: nat },
}

/// All that has happened to a transcript since it was made, oldest first.
pub uninterp spec fn transcript_log(t: Transcript) -> Seq<TranscriptOp>;

/// The bytes that `Transcript::challenge_bytes` writes for a label and a
/// length, on a transcript with the given past.
pub uninterp spec fn merlin_challenge(log: Seq<TranscriptOp>, label: Seq<u8>, len: nat) -> Seq<u8>;

/// `Transcript::new` starts the underlying sponge and absorbs the given
/// label as a message under the label `dom-sep`.
pub assume_specification[ Transcript::new ](label: &'static [u8]) -> (t: Transcript)
    requires
        label@.len() <= u32::MAX,
    ensures
        transcript_log(t) == log_new(label@),
;

/// `Transcript::append_message` absorbs the label, the length of the
/// message and the message. It panics on a message of more than
/// `u32::MAX` bytes.
pub assume_specification[ Transcript::append_message ](
    t: &mut Transcript,
    label: &'static [u8],
    message: &[u8],
)
    requires
        message@.len() <= u32::MAX,
    ensures
        transcript_log(*final(t)) == log_append(transcript_log(*old(t)), label@, message@),
;

/// Calls `Transcript::challenge_bytes` on a buffer of 64 bytes: it absorbs
/// the label and the length and fills the buffer from the sponge, so the
/// bytes depend on the transcript's past, the label and the length.
#[verifier::external_body]
fn challenge_bytes(t: &mut Transcript, label: &'static [u8]) -> (r: [u8; 64])
    ensures
        r@ == merlin_challenge(transcript_log(*old(t)), label@, 64),
        transcript_log(*final(t)) == log_challenge(transcript_log(*old(t)), label@),
{
    let mut buf = [0u8; 64];
    t.challenge_bytes(label, &mut buf);
    buf
}

/// The past of a transcript.
pub type Log = Seq<TranscriptOp>;

/// The bytes of a label written as text.
pub open spec fn tag(s: &str) -> Seq<u8> {
    s.spec_bytes()
}

/// The bytes of a protocol's name or of a marker, written as text. Such a
/// text is short enough to be absorbed as a message.
pub fn marker(s: &'static str) -> (r: &'static [u8])
    requires
        s.is_ascii(),
        s@.len() <= 64,
    ensures
        r@ == tag(s),
        r@.len() <= u32::MAX,
{
    proof {
        vstd::string::is_ascii_spec_bytes(s);
    }
    s.as_bytes()
}

/// The past of a transcript just made under a label.
pub open spec fn log_new(label: Seq<u8>) -> Seq<TranscriptOp> {
    seq![TranscriptOp::Append { label: "dom-sep".spec_bytes(), message: label }]
}

/// The past after a message.
pub open spec fn log_append(log: Seq<TranscriptOp>, label: Seq<u8>, message: Seq<u8>) -> Seq<
    TranscriptOp,
> {
    log.push(TranscriptOp::Append { label, message })
}

/// The past after the name of a protocol.
pub open spec fn log_append_protocol_name(log: Seq<TranscriptOp>, name: Seq<u8>) -> Seq<
    TranscriptOp,
> {
    log_append(log, "protocol-name".spec_bytes(), name)
}

/// The past after a scalar: its least residue in 32 bytes, least
/// significant first.
pub open spec fn log_append_scalar(log: Seq<TranscriptOp>, label: Seq<u8>, s: nat) -> Seq<
    TranscriptOp,
> {
    log_append(log, label, le_bytes(s, 32))
}

/// The past after a group element, in its compressed encoding.
pub open spec fn log_append_point(log: Seq<TranscriptOp>, label: Seq<u8>, p: nat) -> Seq<
    TranscriptOp,
> {
    log_append(log, label, point_compressed(p))
}

/// The past after each of some scalars, in order.
pub open spec fn log_append_each(log: Seq<TranscriptOp>, label: Seq<u8>, v: Seq<nat>) -> Seq<
    TranscriptOp,
>
    decreases v.len(),
{
    if v.len() == 0 {
        log
    } else {
        log_append_scalar(log_append_each(log, label, v.drop_last()), label, v.last())
    }
}

/// The past after a vector of scalars, framed by a message before the
/// first and one after the last.
pub open spec fn log_append_scalars(log: Seq<TranscriptOp>, label: Seq<u8>, v: Seq<nat>) -> Seq<
    TranscriptOp,
> {
    log_append(
        log_append_each(log_append(log, label, "begin_append_vector".spec_bytes()), label, v),
        label,
        "end_append_vector".spec_bytes(),
    )
}

/// The past after a challenge scalar was taken.
pub open spec fn log_challenge(log: Seq<TranscriptOp>, label: Seq<u8>) -> Seq<TranscriptOp> {
    log.push(TranscriptOp::Challenge { label, len: 64 })
}

/// The challenge scalar that a past and a label give: 64 bytes from the
/// sponge, read least significant first and reduced.
pub open spec fn challenge_scalar(log: Seq<TranscriptOp>, label: Seq<u8>) -> nat {
    le_bytes_value(merlin_challenge(log, label, 64)) % modulus()
}

/// The past after `n` challenge scalars were taken under one label.
pub open spec fn log_challenges(log: Seq<TranscriptOp>, label: Seq<u8>, n: nat) -> Seq<
    TranscriptOp,
>
    decreases n,
{
    if n == 0 {
        log
    } else {
        log_challenge(log_challenges(log, label, (n - 1) as nat), label)
    }
}

/// The `n` challenge scalars taken one after the other under one label.
pub open spec fn challenge_vector(log: Seq<TranscriptOp>, label: Seq<u8>, n: nat) -> Seq<nat> {
    Seq::new(n, |i: int| challenge_scalar(log_challenges(log, label, i as nat), label))
}

/// What the protocols do with a transcript.
pub trait ProofTranscript {
    /// All that has happened to the transcript.
    spec fn log(&self) -> Seq<TranscriptOp>;

    fn append_protocol_name(&mut self, protocol_name: &'static [u8])
        requires
            protocol_name@.len() <= u32::MAX,
        ensures
            final(self).log() == log_append_protocol_name(old(self).log(), protocol_name@),
    ;

    fn append_scalar(&mut self, label: &'static [u8], scalar: &Scalar)
        ensures
            final(self).log() == log_append_scalar(old(self).log(), label@, scalar@),
    ;

    fn append_scalars(&mut self, label: &'static [u8], scalars: &[Scalar])
        ensures
            final(self).log() == log_append_scalars(old(self).log(), label@, scalars.deep_view()),
    ;

    fn append_point(&mut self, label: &'static [u8], point: &Point)
        ensures
            final(self).log() == log_append_point(old(self).log(), label@, point@),
    ;

    fn challenge_scalar(&mut self, label: &'static [u8]) -> (r: Scalar)
        ensures
            r@ == challenge_scalar(old(self).log(), label@),
            final(self).log() == log_challenge(old(self).log(), label@),
    ;

    fn challenge_vector(&mut self, label: &'static [u8], len: usize) -> (r: Vec<Scalar>)
        ensures
            r@.len() == len,
            r.deep_view() == challenge_vector(old(self).log(), label@, len as nat),
            final(self).log() == log_challenges(old(self).log(), label@, len as nat),
    ;
}

impl ProofTranscript for Transcript {
    open spec fn log(&self) -> Seq<TranscriptOp> {
        transcript_log(*self)
    }

    fn append_protocol_name(&mut self, protocol_name: &'static [u8]) {
        self.append_message("protocol-name".as_bytes(), protocol_name);
    }

    fn append_scalar(&mut self, label: &'static [u8], scalar: &Scalar) {
        let buf = scalar.serialize();
        proof {
            lemma_le_bytes_len(scalar@, 32);
        }
        self.append_message(label, buf.as_slice());
    }

    fn append_scalars(&mut self, label: &'static [u8], scalars: &[Scalar]) {
        proof {
            reveal_strlit("begin_append_vector");
            reveal_strlit("end_append_vector");
            vstd::string::is_ascii_spec_bytes("begin_append_vector");
            vstd::string::is_ascii_spec_bytes("end_append_vector");
        }
        self.append_message(label, "begin_append_vector".as_bytes());
        let ghost start = self.log();
        let n = scalars.len();
        let mut i: usize = 0;
        while i < n
            invariant
                i <= n,
                n == scalars@.len(),
                self.log() == log_append_each(start, label@, scalars.deep_view().take(i as int)),
            decreases n - i,
        {
            self.append_scalar(label, &scalars[i]);
            proof {
                let v = scalars.deep_view();
                assert(v.take(i + 1).drop_last() =~= v.take(i as int));
                assert(v.take(i + 1).last() == scalars[i as int]@);
            }
            i += 1;
        }
        proof {
            assert(scalars.deep_view().take(n as int) =~= scalars.deep_view());
        }
        self.append_message(label, "end_append_vector".as_bytes());
    }

    fn append_point(&mut self, label: &'static [u8], point: &Point) {
        let buf = point.serialize();
        self.append_message(label, buf.as_slice());
    }

    fn challenge_scalar(&mut self, label: &'static [u8]) -> (r: Scalar) {
        let buf = challenge_bytes(self, label);
        Scalar::from_le_bytes_mod_order(buf.as_slice())
    }

    fn challenge_vector(&mut self, label: &'static [u8], len: usize) -> (r: Vec<Scalar>) {
        let ghost start = self.log();
        let mut out: Vec<Scalar> = Vec::new();
        let mut i: usize = 0;
        while i < len
            invariant
                i <= len,
                out@.len() == i,
                self.log() == log_challenges(start, label@, i as nat),
                forall|j: int|
                    0 <= j < i ==> out@[j]@ == challenge_scalar(
                        log_challenges(start, label@, j as nat),
                        label@,
                    ),
            decreases len - i,
        {
            let c = self.challenge_scalar(label);
            out.push(c);
            i += 1;
        }
        assert(out.deep_view() =~= challenge_vector(start, label@, len as nat));
        out
    }
}

/// The number of bytes asked for is the number of bytes given.
pub proof fn lemma_le_bytes_len(v: nat, n: nat)
    ensures
        le_bytes(v, n).len() == n,
    decreases n,
{
    if n > 0 {
        lemma_le_bytes_len(v / 256, (n - 1) as nat);
    }
}

/// What can be absorbed into a transcript under a label.
pub trait AppendToTranscript {
    /// The past of a transcript after this value.
    spec fn appended(&self, log: Seq<TranscriptOp>, label: Seq<u8>) -> Seq<TranscriptOp>;

    fn append_to_transcript(&self, label: &'static [u8], transcript: &mut Transcript)
        ensures
            transcript_log(*final(transcript)) == self.appended(
                transcript_log(*old(transcript)),
                label@,
            ),
    ;
}

impl AppendToTranscript for [Scalar] {
    open spec fn appended(&self, log: Seq<TranscriptOp>, label: Seq<u8>) -> Seq<TranscriptOp> {
        log_append_scalars(log, label, self.deep_view())
    }

    fn append_to_transcript(&self, label: &'static [u8], transcript: &mut Transcript) {
        transcript.append_scalars(label, self);
    }
}

impl AppendToTranscript for Point {
    open spec fn appended(&self, log: Seq<TranscriptOp>, label: Seq<u8>) -> Seq<TranscriptOp> {
        log_append_point(log, label, self@)
    }

    fn append_to_transcript(&self, label: &'static [u8], transcript: &mut Transcript) {
        transcript.append_point(label, self);
    }
}

} // verus!
