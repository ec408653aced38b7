//! Non-interactive zero-knowledge proofs obtained from Sigma protocols by the
//! Fiat-Shamir transformation, with a Schnorr proof of knowledge of a discrete
//! logarithm as the concrete protocol.
//!
//! A [`SigmaProtocol`] is a three-move proof of knowledge: commitment, challenge,
//! response. [`NIZK`] binds such a protocol to a session context and replaces the
//! verifier's challenge by a hash of the transcript, which gives proofs that
//! anyone can check: the [`BatchableProof`], which carries the commitment, and the
//! [`ShortProof`], which carries the challenge and lets the verifier rebuild the
//! commitment.
//!
//! # What is proved
//!
//! Every operation has a contract over a mathematical model, and Verus proves
//! the code against it:
//!
//! * which bytes are hashed for a challenge, in which order, and that a
//!   challenge depends on nothing else, however a session was used before;
//! * that an operation leaves the labels of its session as they were;
//! * which error an operation gives, and exactly when;
//! * the scalar arithmetic of the Schnorr response, and when challenge bytes
//!   stand for a scalar;
//! * that a short proof is accepted wherever the batchable proof of the same
//!   transcript is;
//! * completeness, given that the group obeys the laws of a group.
//!
//! # What is relied on
//!
//! Field and curve arithmetic come from arkworks, the hash function from the
//! `blake2` crate, randomness from `rand`. Each call into them is a small
//! function whose contract is believed, not proved. Of the field the contracts
//! state modular arithmetic; of the curve, the hash function and the encodings
//! they only give each result a name.
//!
//! # Layout
//!
//! * [`interactive_proofs`]: the interface of a Sigma protocol;
//! * [`protocols`]: the Schnorr protocol;
//! * [`nizk_proofs`]: sessions, challenges, proofs and their laws;
//! * [`hash`]: the hash provider and its BLAKE2s instance;
//! * [`field`], [`group`], [`limbs`]: scalars and group elements of BLS12-377;
//! * [`hash_registry`]: the table of supported hash functions.

use vstd::prelude::*;

pub mod field;
pub mod group;
pub mod hash;
pub mod hash_registry;
pub mod interactive_proofs;
pub mod limbs;
pub mod nizk_proofs;
pub mod protocols;

pub use hash_registry::HashFunction;
pub use interactive_proofs::SigmaProtocol;
pub use nizk_proofs::{BatchableProof, ShortProof, NIZK};

verus! {

/// The error of the serializers and deserializers of `ark-serialize`.
#[verifier::external_type_specification]
#[verifier::external_body]
pub struct ExSerializationError(ark_serialize::SerializationError);

/// Length of a label in bytes.
pub const LABEL_LENGTH: usize = 32;

/// Length of a challenge in bytes.
pub const CHALLENGE_LENGTH: usize = 32;

/// Domain separator for the hash functions: the ASCII text `zkpstd/sigma/0.1`.
pub const DOMSEP: [u8; 16] = [
    0x7a, 0x6b, 0x70, 0x73, 0x74, 0x64, 0x2f, 0x73, 0x69, 0x67, 0x6d, 0x61, 0x2f, 0x30, 0x2e, 0x31,
];

/// A challenge: the first bytes of a digest of the transcript.
pub type Challenge = [u8; CHALLENGE_LENGTH];

/// The ways in which an operation of a Sigma protocol or of its non-interactive
/// form can fail.
#[derive(Clone, Copy, Debug, PartialEq, Eq, Structural)]
pub enum SigmaError {
    /// The verification equation, or for a short proof the equality of the
    /// recomputed challenge with the stored one, did not hold.
    VerificationFailed,
    /// The challenge bytes stand for no scalar. Drawing fresh randomness and
    /// trying again is the remedy.
    ChallengeConversionFailure,
    /// A value could not be written to bytes, or bytes could not be read as a
    /// value.
    SerializationError,
}

} // verus!
