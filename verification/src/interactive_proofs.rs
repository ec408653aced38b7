//! The interface of a Sigma protocol: a three-move proof of knowledge made of a
//! commitment, a challenge and a response.

use crate::{Challenge, SigmaError};
use vstd::prelude::*;

verus! {

/// Interface for a Sigma protocol. **WARNING**: Sigma protocols are *not* to be
/// used interactively; they are the building block of the non-interactive proofs
/// of [`crate::NIZK`].
///
/// Beside each operation stands a specification function that says what the
/// operation computes. An implementation proves its operations against them, and
/// proves that its verifier and its simulator agree: a commitment passes
/// verification under a challenge and a response exactly when the simulator
/// rebuilds that commitment from them.
pub trait SigmaProtocol: Sized {
    /// The public statement that is proved.
    type Instance;

    /// The prover's secret.
    type Witness;

    /// The prover's first message.
    type Commitment;

    /// What the prover keeps between the commitment and the response.
    type ProverState;

    /// The prover's second message.
    type Response;

    /// The protocol bound to `instance`.
    spec fn spec_new(instance: Self::Instance) -> Self;

    /// The label that tells this protocol from others.
    spec fn spec_label(&self) -> Seq<u8>;

    /// The canonical encoding of a commitment, where it has one.
    spec fn commitment_encoding(commitment: Self::Commitment) -> Option<Seq<u8>>;

    /// The length of an encoded commitment in bytes.
    spec fn spec_commitment_size() -> nat;

    /// The commitment that bytes encode, if any.
    spec fn commitment_decoding(bytes: Seq<u8>) -> Option<Self::Commitment>;

    /// The canonical encoding of a response, where it has one.
    spec fn response_encoding(response: Self::Response) -> Option<Seq<u8>>;

    /// The response that bytes encode, if any.
    spec fn response_decoding(bytes: Seq<u8>) -> Option<Self::Response>;

    /// Whether `commitment` and `state` are what an honest prover who knows
    /// `witness` may hold after the first move.
    spec fn honest_commitment(
        &self,
        witness: Self::Witness,
        commitment: Self::Commitment,
        state: Self::ProverState,
    ) -> bool;

    /// The response that the prover state gives to a challenge.
    spec fn spec_prover_response(&self, state: Self::ProverState, challenge: Seq<u8>) -> Result<
        Self::Response,
        SigmaError,
    >;

    /// The verdict on a transcript.
    spec fn spec_verify(
        &self,
        commitment: Self::Commitment,
        challenge: Seq<u8>,
        response: Self::Response,
    ) -> Result<(), SigmaError>;

    /// The one commitment that passes verification under a challenge and a
    /// response.
    spec fn spec_simulate_commitment(&self, challenge: Seq<u8>, response: Self::Response) -> Result<
        Self::Commitment,
        SigmaError,
    >;

    /// The verifier accepts a commitment exactly when the simulator rebuilds it,
    /// and a challenge that the simulator cannot use fails verification with the
    /// same error.
    proof fn lemma_simulated_commitment_verifies(
        &self,
        commitment: Self::Commitment,
        challenge: Seq<u8>,
        response: Self::Response,
    )
        ensures
            self.spec_verify(commitment, challenge, response) is Ok
                <==> self.spec_simulate_commitment(challenge, response) == Ok::<
                Self::Commitment,
                SigmaError,
            >(commitment),
            self.spec_simulate_commitment(challenge, response) matches Err(e)
                ==> self.spec_verify(commitment, challenge, response) == Err::<(), SigmaError>(e),
    ;

    /// Every encoded commitment has the same length.
    proof fn lemma_commitment_encoding_size(commitment: Self::Commitment)
        ensures
            Self::commitment_encoding(commitment) matches Some(bytes) ==> bytes.len()
                == Self::spec_commitment_size(),
    ;

    /// Decoding gives back the response that was encoded.
    proof fn lemma_response_round_trip(response: Self::Response)
        ensures
            Self::response_encoding(response) matches Some(bytes) ==> Self::response_decoding(bytes)
                == Some(response),
    ;

    /// A protocol-specific domain identifier, constant for a given protocol.
    fn label(&self) -> (label: Challenge)
        ensures
            label@ == self.spec_label(),
    ;

    /// Binds the protocol to a public statement.
    fn new(instance: &Self::Instance) -> (protocol: Self)
        ensures
            protocol == Self::spec_new(*instance),
    ;

    /// The prover's first move: draws fresh randomness and commits to it.
    fn prover_commit(&self, witness: &Self::Witness, rng: &mut rand::rngs::ThreadRng) -> (out: (
        Self::Commitment,
        Self::ProverState,
    ))
        ensures
            self.honest_commitment(*witness, out.0, out.1),
    ;

    /// The prover's second move. Fails with
    /// [`SigmaError::ChallengeConversionFailure`] when the challenge bytes stand
    /// for no value that the protocol can use.
    fn prover_response(&self, prover_state: &Self::ProverState, challenge: &Challenge) -> (response:
        Result<Self::Response, SigmaError>)
        ensures
            response == self.spec_prover_response(*prover_state, challenge@),
    ;

    /// The verifier's verdict on a transcript.
    fn verify(
        &self,
        commitment: &Self::Commitment,
        challenge: &Challenge,
        response: &Self::Response,
    ) -> (verdict: Result<(), SigmaError>)
        ensures
            verdict == self.spec_verify(*commitment, challenge@, *response),
    ;

    /// Draws a response as a simulator does, without any witness.
    fn simulate_response(&self, rng: &mut rand::rngs::ThreadRng) -> Self::Response;

    /// Rebuilds the commitment that passes verification under `challenge` and
    /// `response`.
    fn simulate_commitment(&self, challenge: &Challenge, response: &Self::Response) -> (commitment:
        Result<Self::Commitment, SigmaError>)
        ensures
            commitment == self.spec_simulate_commitment(challenge@, *response),
    ;

    /// Writes a commitment in its canonical encoding.
    fn encode_commitment(commitment: &Self::Commitment) -> (bytes: Result<Vec<u8>, SigmaError>)
        ensures
            match bytes {
                Ok(b) => Self::commitment_encoding(*commitment) == Some(b@),
                Err(e) => Self::commitment_encoding(*commitment) is None
                    && e == SigmaError::SerializationError,
            },
    ;

    /// The length of an encoded commitment in bytes.
    fn commitment_size() -> (size: usize)
        ensures
            size == Self::spec_commitment_size(),
    ;

    /// Reads a commitment from its canonical encoding.
    fn decode_commitment(bytes: &[u8]) -> (commitment: Result<Self::Commitment, SigmaError>)
        ensures
            match commitment {
                Ok(c) => Self::commitment_decoding(bytes@) == Some(c),
                Err(e) => Self::commitment_decoding(bytes@) is None
                    && e == SigmaError::SerializationError,
            },
    ;

    /// Writes a response in its canonical encoding.
    fn encode_response(response: &Self::Response) -> (bytes: Result<Vec<u8>, SigmaError>)
        ensures
            match bytes {
                Ok(b) => Self::response_encoding(*response) == Some(b@),
                Err(e) => Self::response_encoding(*response) is None
                    && e == SigmaError::SerializationError,
            },
    ;

    /// Reads a response from its canonical encoding.
    fn decode_response(bytes: &[u8]) -> (response: Result<Self::Response, SigmaError>)
        ensures
            match response {
                Ok(r) => Self::response_decoding(bytes@) == Some(r),
                Err(e) => Self::response_decoding(bytes@) is None
                    && e == SigmaError::SerializationError,
            },
    ;
}

} // verus!
