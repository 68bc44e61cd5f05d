//! The Fiat-Shamir transcript and the messages of this protocol.
//!
//! The transcript is Merlin's.  Its state is a function of what was absorbed
//! and asked of it, in order; the contracts name that state and the two
//! transitions, and every message of the protocol is stated over them.
use vstd::prelude::*;
use vstd::bytes::{spec_u64_to_le_bytes, u64_to_le_bytes};
use vstd::string::{is_ascii_spec_bytes, StringSliceAdditionalSpecFns};
use crate::field::reduce;
use crate::point::Point;
use crate::scalar::{le_bytes, le_value, scalar_from_wide_bytes, Scalar};

verus! {

#[verifier::external_type_specification]
#[verifier::external_body]
pub struct ExTranscript(merlin::Transcript);

#[verifier::external_type_specification]
#[verifier::external_body]
pub struct ExTranscriptRngBuilder(merlin::TranscriptRngBuilder);

#[verifier::external_type_specification]
#[verifier::external_body]
pub struct ExTranscriptRng(merlin::TranscriptRng);

/// What a transcript holds: the bytes of its sponge state.
pub uninterp spec fn transcript_state(t: merlin::Transcript) -> Seq<u8>;

/// The state that `Transcript::append_message` leaves.
pub uninterp spec fn state_after_append(state: Seq<u8>, label: Seq<u8>, message: Seq<u8>) -> Seq<u8>;

/// What `Transcript::challenge_bytes` does when asked for `len` bytes: the
/// bytes it hands out, and the state it leaves.
pub uninterp spec fn challenge_step(state: Seq<u8>, label: Seq<u8>, len: nat) -> (Seq<u8>, Seq<u8>);

/// The scalar that a challenge yields: 64 challenge bytes, reduced.
pub open spec fn challenge_value(state: Seq<u8>, label: Seq<u8>) -> int {
    reduce(le_value(challenge_step(state, label, 64).0))
}

/// The state that deriving a challenge scalar leaves.
pub open spec fn state_after_challenge(state: Seq<u8>, label: Seq<u8>) -> Seq<u8> {
    challenge_step(state, label, 64).1
}

/// The state after absorbing a list of points under one label, in order.
pub open spec fn state_after_points(state: Seq<u8>, label: Seq<u8>, points: Seq<Seq<u8>>) -> Seq<u8>
    decreases points.len(),
{
    if points.len() == 0 {
        state
    } else {
        state_after_append(state_after_points(state, label, points.drop_last()), label, points.last())
    }
}

/// The state after absorbing a scalar: its 32 bytes, little-endian.
pub open spec fn state_after_scalar(state: Seq<u8>, label: Seq<u8>, scalar: int) -> Seq<u8> {
    state_after_append(state, label, le_bytes(scalar, 32))
}

/// The state after absorbing a number as eight little-endian bytes.
pub open spec fn state_after_u64(state: Seq<u8>, label: Seq<u8>, x: u64) -> Seq<u8> {
    state_after_append(state, label, spec_u64_to_le_bytes(x))
}

/// The state after the domain separator of a constraint-system proof over
/// `m` committed values.
pub open spec fn state_after_r1cs_domain_sep(state: Seq<u8>, m: u64) -> Seq<u8> {
    state_after_u64(
        state_after_append(state, "dom-sep".spec_bytes(), "r1cs v1".spec_bytes()),
        "m".spec_bytes(),
        m,
    )
}

/// The state after the domain separator of an inner-product argument over
/// vectors of length `n`.
pub open spec fn state_after_innerproduct_domain_sep(state: Seq<u8>, n: u64) -> Seq<u8> {
    state_after_u64(
        state_after_append(state, "dom-sep".spec_bytes(), "ipp v1".spec_bytes()),
        "n".spec_bytes(),
        n,
    )
}

/// Challenges are determined by what the transcript absorbed: two transcripts
/// in one state yield one challenge under one label, and are left in one state.
pub proof fn lemma_challenge_determined(a: merlin::Transcript, b: merlin::Transcript, label: Seq<u8>)
    requires
        transcript_state(a) == transcript_state(b),
    ensures
        challenge_value(transcript_state(a), label) == challenge_value(transcript_state(b), label),
        state_after_challenge(transcript_state(a), label) == state_after_challenge(
            transcript_state(b),
            label,
        ),
{
}

/// Calls `Transcript::append_message` of Merlin, which absorbs the label, the
/// length of the message and the message.
#[verifier::external_body]
fn append_message(t: &mut merlin::Transcript, label: &'static [u8], message: &[u8])
    requires
        message@.len() <= u32::MAX,
    ensures
        transcript_state(*final(t)) == state_after_append(
            transcript_state(*old(t)),
            label@,
            message@,
        ),
{
    t.append_message(label, message)
}

/// Calls `Transcript::challenge_bytes` of Merlin for 64 bytes.
#[verifier::external_body]
fn challenge_bytes(t: &mut merlin::Transcript, label: &'static [u8]) -> (out: [u8; 64])
    ensures
        out@ == challenge_step(transcript_state(*old(t)), label@, 64).0,
        transcript_state(*final(t)) == challenge_step(transcript_state(*old(t)), label@, 64).1,
{
    let mut out = [0u8; 64];
    t.challenge_bytes(label, &mut out);
    out
}

/// Calls `Transcript::build_rng` of Merlin: a builder of a random source that
/// is bound to what the transcript has absorbed.
#[verifier::external_body]
pub(crate) fn build_rng(t: &merlin::Transcript) -> (builder: merlin::TranscriptRngBuilder) {
    t.build_rng()
}

/// Calls `TranscriptRngBuilder::rekey_with_witness_bytes` of Merlin, which
/// binds the random source to secret bytes.
#[verifier::external_body]
pub(crate) fn rekey_with_witness_bytes(
    builder: merlin::TranscriptRngBuilder,
    label: &'static [u8],
    witness: &[u8],
) -> (out: merlin::TranscriptRngBuilder)
    requires
        witness@.len() <= u32::MAX,
{
    builder.rekey_with_witness_bytes(label, witness)
}

/// Calls `TranscriptRngBuilder::finalize` of Merlin with the thread-local
/// generator of `rand`, which mixes fresh entropy into the random source.
#[verifier::external_body]
pub(crate) fn finalize_rng(builder: merlin::TranscriptRngBuilder) -> (rng: merlin::TranscriptRng) {
    builder.finalize(&mut rand::thread_rng())
}

pub fn append_u64(t: &mut merlin::Transcript, label: &'static [u8], x: u64)
    ensures
        transcript_state(*final(t)) == state_after_u64(transcript_state(*old(t)), label@, x),
{
    let bytes = u64_to_le_bytes(x);
    proof {
        vstd::bytes::lemma_auto_spec_u64_to_from_le_bytes();
    }
    append_message(t, label, bytes.as_slice());
}

pub fn r1cs_domain_sep(t: &mut merlin::Transcript, m: u64)
    ensures
        transcript_state(*final(t)) == state_after_r1cs_domain_sep(transcript_state(*old(t)), m),
{
    proof {
        reveal_strlit("r1cs v1");
        is_ascii_spec_bytes("r1cs v1");
    }
    append_message(t, "dom-sep".as_bytes(), "r1cs v1".as_bytes());
    append_u64(t, "m".as_bytes(), m);
}

pub fn innerproduct_domain_sep(t: &mut merlin::Transcript, n: u64)
    ensures
        transcript_state(*final(t)) == state_after_innerproduct_domain_sep(
            transcript_state(*old(t)),
            n,
        ),
{
    proof {
        reveal_strlit("ipp v1");
        is_ascii_spec_bytes("ipp v1");
    }
    append_message(t, "dom-sep".as_bytes(), "ipp v1".as_bytes());
    append_u64(t, "n".as_bytes(), n);
}

pub fn commit_scalar(t: &mut merlin::Transcript, label: &'static [u8], scalar: &Scalar)
    ensures
        transcript_state(*final(t)) == state_after_scalar(transcript_state(*old(t)), label@, scalar@),
{
    let bytes = scalar.to_bytes();
    proof {
        scalar.lemma_encoding();
    }
    append_message(t, label, bytes.as_slice());
}

pub fn commit_point(t: &mut merlin::Transcript, label: &'static [u8], point: &Point)
    ensures
        transcript_state(*final(t)) == state_after_append(transcript_state(*old(t)), label@, point@),
{
    let bytes = point.to_bytes();
    append_message(t, label, bytes.as_slice());
}

pub fn challenge_scalar(t: &mut merlin::Transcript, label: &'static [u8]) -> (c: Scalar)
    ensures
        c@ == challenge_value(transcript_state(*old(t)), label@),
        transcript_state(*final(t)) == state_after_challenge(transcript_state(*old(t)), label@),
{
    let bytes = challenge_bytes(t, label);
    scalar_from_wide_bytes(&bytes)
}

} // verus!
