//! The Fiat-Shamir transformation: non-interactive proofs from a Sigma protocol.
//!
//! A session is bound to a protocol, a hash provider and a context. It holds
//! three labels: `hd`, the digest of the domain separator; `ha`, the protocol's
//! own label; `hctx`, the digest of the context. A challenge is the digest of
//!
//! ```text
//! hd || hctx || ha || [ digest of the message ] || encoding of the commitment
//! ```
//!
//! where every digest is cut to its first 32 bytes and the message part is
//! absent when there is no message. The hash object is reset before each
//! derivation, so a challenge depends on these five inputs and on nothing that
//! the session did before.

use crate::hash::HashProvider;
use crate::interactive_proofs::SigmaProtocol;
use crate::{Challenge, SigmaError, CHALLENGE_LENGTH, DOMSEP};
use vstd::prelude::*;
use vstd::slice::{slice_subrange, slice_to_vec};

verus! {

/// The first bytes of a digest, as many as a label or a challenge has.
pub open spec fn truncated(digest: Seq<u8>) -> Seq<u8> {
    digest.subrange(0, CHALLENGE_LENGTH as int)
}

/// The label that the hash provider `D` gives to `bytes`.
pub open spec fn label_of<D: HashProvider>(bytes: Seq<u8>) -> Seq<u8> {
    truncated(D::spec_digest(bytes))
}

/// What is hashed for a challenge: domain label, context label, protocol label,
/// the label of the message if there is one, and the encoded commitment.
pub open spec fn challenge_input(
    hd: Seq<u8>,
    hctx: Seq<u8>,
    ha: Seq<u8>,
    hm: Option<Seq<u8>>,
    commitment_bytes: Seq<u8>,
) -> Seq<u8> {
    match hm {
        Some(hm) => hd + hctx + ha + hm + commitment_bytes,
        None => hd + hctx + ha + commitment_bytes,
    }
}

/// The challenge for a message and an encoded commitment under three labels.
pub open spec fn derive_challenge<D: HashProvider>(
    hd: Seq<u8>,
    hctx: Seq<u8>,
    ha: Seq<u8>,
    message: Option<Seq<u8>>,
    commitment_bytes: Seq<u8>,
) -> Seq<u8> {
    let hm = match message {
        Some(m) => Some(label_of::<D>(m)),
        None => None,
    };
    label_of::<D>(challenge_input(hd, hctx, ha, hm, commitment_bytes))
}

/// Whether an encoded commitment, behind the four labels, is within what a hash
/// object takes in.
pub open spec fn fits_hash_input(commitment_bytes: Seq<u8>) -> bool {
    commitment_bytes.len() + 4 * CHALLENGE_LENGTH <= u64::MAX
}

/// The bytes of a message, if there is one.
pub open spec fn message_bytes(message: Option<&[u8]>) -> Option<Seq<u8>> {
    match message {
        Some(m) => Some(m@),
        None => None,
    }
}

/// A batchable proof. The canonical form of proofs.
#[derive(Debug)]
pub struct BatchableProof<S: SigmaProtocol> {
    pub commitment: S::Commitment,
    pub response: S::Response,
}

/// A shorter proof. The commitment can be deterministically computed from the
/// challenge and the response.
#[derive(Debug)]
pub struct ShortProof<S: SigmaProtocol> {
    pub challenge: Challenge,
    pub response: S::Response,
}

impl<S: SigmaProtocol> BatchableProof<S> {
    /// The wire encoding of the proof: the encoded commitment, then the encoded
    /// response.
    pub open spec fn spec_to_bytes(self) -> Option<Seq<u8>> {
        match (S::commitment_encoding(self.commitment), S::response_encoding(self.response)) {
            (Some(commitment), Some(response)) => Some(commitment + response),
            _ => None,
        }
    }

    /// The proof that bytes encode: an encoded commitment in its fixed length,
    /// and an encoded response in the rest.
    pub open spec fn spec_from_bytes(bytes: Seq<u8>) -> Option<Self> {
        let size = S::spec_commitment_size() as int;
        if bytes.len() < size {
            None
        } else {
            match (
                S::commitment_decoding(bytes.subrange(0, size)),
                S::response_decoding(bytes.subrange(size, bytes.len() as int)),
            ) {
                (Some(commitment), Some(response)) => Some(BatchableProof { commitment, response }),
                _ => None,
            }
        }
    }

    /// Writes the proof in its wire encoding.
    pub fn to_bytes(&self) -> (bytes: Result<Vec<u8>, SigmaError>)
        ensures
            match bytes {
                Ok(b) => self.spec_to_bytes() == Some(b@),
                Err(e) => self.spec_to_bytes() is None && e == SigmaError::SerializationError,
            },
    {
        let mut bytes = match S::encode_commitment(&self.commitment) {
            Ok(b) => b,
            Err(e) => {
                return Err(e);
            },
        };
        let mut response = match S::encode_response(&self.response) {
            Ok(b) => b,
            Err(e) => {
                return Err(e);
            },
        };
        bytes.append(&mut response);
        Ok(bytes)
    }

    /// Reads a proof from its wire encoding. Truncated or malformed bytes are a
    /// [`SigmaError::SerializationError`].
    pub fn from_bytes(bytes: &[u8]) -> (decoded: Result<Self, SigmaError>)
        ensures
            match decoded {
                Ok(p) => Self::spec_from_bytes(bytes@) == Some(p),
                Err(e) => Self::spec_from_bytes(bytes@) is None && e == SigmaError::SerializationError,
            },
    {
        let size = S::commitment_size();
        if bytes.len() < size {
            return Err(SigmaError::SerializationError);
        }
        let commitment = match S::decode_commitment(slice_subrange(bytes, 0, size)) {
            Ok(c) => c,
            Err(e) => {
                return Err(e);
            },
        };
        match S::decode_response(slice_subrange(bytes, size, bytes.len())) {
            Ok(response) => Ok(BatchableProof { commitment, response }),
            Err(e) => Err(e),
        }
    }

    /// Decoding gives back the batchable proof that was encoded, provided that
    /// decoding gives back its commitment.
    pub proof fn lemma_round_trip(self)
        requires
            S::commitment_encoding(self.commitment) matches Some(bytes) ==> S::commitment_decoding(
                bytes,
            ) == Some(self.commitment),
        ensures
            self.spec_to_bytes() matches Some(bytes) ==> Self::spec_from_bytes(bytes) == Some(self),
    {
        if let Some(bytes) = self.spec_to_bytes() {
            let commitment = S::commitment_encoding(self.commitment).unwrap();
            let response = S::response_encoding(self.response).unwrap();
            S::lemma_commitment_encoding_size(self.commitment);
            S::lemma_response_round_trip(self.response);
            let size = S::spec_commitment_size() as int;
            assert(bytes.subrange(0, size) =~= commitment);
            assert(bytes.subrange(size, bytes.len() as int) =~= response);
        }
    }
}

impl<S: SigmaProtocol> ShortProof<S> {
    /// The wire encoding of the proof: the challenge, then the encoded response.
    pub open spec fn spec_to_bytes(self) -> Option<Seq<u8>> {
        match S::response_encoding(self.response) {
            Some(response) => Some(self.challenge@ + response),
            None => None,
        }
    }

    /// The proof that bytes encode: a challenge, and an encoded response in the
    /// rest.
    pub open spec fn spec_from_bytes(bytes: Seq<u8>) -> Option<(Seq<u8>, S::Response)> {
        if bytes.len() < CHALLENGE_LENGTH {
            None
        } else {
            match S::response_decoding(bytes.subrange(CHALLENGE_LENGTH as int, bytes.len() as int)) {
                Some(response) => Some((bytes.subrange(0, CHALLENGE_LENGTH as int), response)),
                None => None,
            }
        }
    }

    /// Writes the proof in its wire encoding.
    pub fn to_bytes(&self) -> (bytes: Result<Vec<u8>, SigmaError>)
        ensures
            match bytes {
                Ok(b) => self.spec_to_bytes() == Some(b@),
                Err(e) => self.spec_to_bytes() is None && e == SigmaError::SerializationError,
            },
    {
        let mut response = match S::encode_response(&self.response) {
            Ok(b) => b,
            Err(e) => {
                return Err(e);
            },
        };
        let mut bytes = slice_to_vec(self.challenge.as_slice());
        bytes.append(&mut response);
        Ok(bytes)
    }

    /// Reads a proof from its wire encoding. Truncated or malformed bytes are a
    /// [`SigmaError::SerializationError`].
    pub fn from_bytes(bytes: &[u8]) -> (decoded: Result<Self, SigmaError>)
        ensures
            match decoded {
                Ok(p) => Self::spec_from_bytes(bytes@) == Some((p.challenge@, p.response)),
                Err(e) => Self::spec_from_bytes(bytes@) is None && e == SigmaError::SerializationError,
            },
    {
        if bytes.len() < CHALLENGE_LENGTH {
            return Err(SigmaError::SerializationError);
        }
        let challenge = copy_challenge(slice_subrange(bytes, 0, CHALLENGE_LENGTH));
        match S::decode_response(slice_subrange(bytes, CHALLENGE_LENGTH, bytes.len())) {
            Ok(response) => Ok(ShortProof { challenge, response }),
            Err(e) => Err(e),
        }
    }

    /// Decoding gives back the short proof that was encoded.
    pub proof fn lemma_round_trip(self)
        ensures
            self.spec_to_bytes() matches Some(bytes) ==> Self::spec_from_bytes(bytes) == Some(
                (self.challenge@, self.response),
            ),
    {
        if let Some(bytes) = self.spec_to_bytes() {
            let response = S::response_encoding(self.response).unwrap();
            S::lemma_response_round_trip(self.response);
            assert(bytes.subrange(CHALLENGE_LENGTH as int, bytes.len() as int) =~= response);
            assert(bytes.subrange(0, CHALLENGE_LENGTH as int) =~= self.challenge@);
        }
    }
}

/// What a session is bound to: its protocol and its three labels.
pub struct Session<S> {
    pub protocol: S,
    pub hd: Seq<u8>,
    pub ha: Seq<u8>,
    pub hctx: Seq<u8>,
}

/// A non-interactive zk (NIZK) proof derived from applying the Fiat-Shamir
/// transformation to a Sigma protocol.
pub struct NIZK<S: SigmaProtocol, D: HashProvider> {
    interactive_protocol: S,
    hasher: D,
    hd: Challenge,
    ha: Challenge,
    hctx: Challenge,
}

impl<S: SigmaProtocol, D: HashProvider> View for NIZK<S, D> {
    type V = Session<S>;

    closed spec fn view(&self) -> Session<S> {
        Session { protocol: self.interactive_protocol, hd: self.hd@, ha: self.ha@, hctx: self.hctx@ }
    }
}

/// Copies the first bytes of a slice into a challenge.
fn copy_challenge(bytes: &[u8]) -> (out: Challenge)
    requires
        bytes@.len() >= CHALLENGE_LENGTH,
    ensures
        out@ == truncated(bytes@),
{
    let mut out: Challenge = [0u8; 32];
    let mut i: usize = 0;
    while i < CHALLENGE_LENGTH
        invariant
            i <= CHALLENGE_LENGTH,
            bytes@.len() >= CHALLENGE_LENGTH,
            forall|j: int| 0 <= j < i ==> out@[j] == bytes@[j],
        decreases CHALLENGE_LENGTH - i,
    {
        out[i] = bytes[i];
        i += 1;
    }
    assert(out@ =~= truncated(bytes@));
    out
}

/// Tells whether two challenges are the same bytes. Every byte is looked at,
/// wherever the first difference lies.
fn same_challenge(a: &Challenge, b: &Challenge) -> (same: bool)
    ensures
        same == (a@ == b@),
{
    let mut same = true;
    let mut i: usize = 0;
    while i < CHALLENGE_LENGTH
        invariant
            i <= CHALLENGE_LENGTH,
            same == (forall|j: int| 0 <= j < i ==> a@[j] == b@[j]),
        decreases CHALLENGE_LENGTH - i,
    {
        if a[i] != b[i] {
            same = false;
        }
        i += 1;
    }
    assert(same ==> a@ =~= b@);
    same
}

impl<S: SigmaProtocol, D: HashProvider> NIZK<S, D> {
    /// Whether this is the session of `protocol` under the context `ctx`: the
    /// labels are what the domain separator, the protocol's label and the context
    /// decide.
    pub open spec fn is_session_of(self, protocol: S, ctx: Seq<u8>) -> bool {
        &&& self@.protocol == protocol
        &&& self@.hd == label_of::<D>(DOMSEP@)
        &&& self@.ha == protocol.spec_label()
        &&& self@.hctx == label_of::<D>(ctx)
    }

    /// The challenge that the session derives for a message and a commitment. A
    /// commitment without an encoding, or with one that no hash object takes in,
    /// has no challenge.
    pub open spec fn spec_challenge(self, message: Option<Seq<u8>>, commitment: S::Commitment) -> Result<
        Seq<u8>,
        SigmaError,
    > {
        match S::commitment_encoding(commitment) {
            Some(commitment_bytes) => if fits_hash_input(commitment_bytes) {
                Ok(derive_challenge::<D>(self@.hd, self@.hctx, self@.ha, message, commitment_bytes))
            } else {
                Err(SigmaError::SerializationError)
            },
            None => Err(SigmaError::SerializationError),
        }
    }

    /// The response of the prover state to the challenge for `message` and
    /// `commitment`, together with that challenge.
    pub open spec fn spec_transcript(
        self,
        commitment: S::Commitment,
        state: S::ProverState,
        message: Option<Seq<u8>>,
    ) -> Result<(Seq<u8>, S::Response), SigmaError> {
        match self.spec_challenge(message, commitment) {
            Ok(challenge) => match self@.protocol.spec_prover_response(state, challenge) {
                Ok(response) => Ok((challenge, response)),
                Err(e) => Err(e),
            },
            Err(e) => Err(e),
        }
    }

    /// The verdict on a batchable proof: the protocol's verdict under the
    /// challenge derived from the proof's commitment.
    pub open spec fn spec_batchable_verify(self, proof: BatchableProof<S>, message: Option<Seq<u8>>) -> Result<
        (),
        SigmaError,
    > {
        match self.spec_challenge(message, proof.commitment) {
            Ok(challenge) => self@.protocol.spec_verify(proof.commitment, challenge, proof.response),
            Err(e) => Err(e),
        }
    }

    /// The verdict on a short proof: the commitment is rebuilt by the simulator,
    /// and the challenge derived from it must be the stored one.
    pub open spec fn spec_short_verify(self, proof: ShortProof<S>, message: Option<Seq<u8>>) -> Result<
        (),
        SigmaError,
    > {
        match self@.protocol.spec_simulate_commitment(proof.challenge@, proof.response) {
            Ok(commitment) => match self.spec_challenge(message, commitment) {
                Ok(challenge) => if challenge == proof.challenge@ {
                    Ok(())
                } else {
                    Err(SigmaError::VerificationFailed)
                },
                Err(e) => Err(e),
            },
            Err(e) => Err(e),
        }
    }

    /// Initialise the NIZK for a given Sigma protocol. The hash object is reset
    /// first: whatever it had absorbed does not reach the labels.
    pub fn new(protocol: S, hasher: D, ctx: &[u8]) -> (nizk: Self)
        ensures
            nizk.is_session_of(protocol, ctx@),
    {
        let mut hasher = hasher;
        hasher.reset();
        hasher.update(DOMSEP.as_slice());
        let hd_long = hasher.finalize_reset();
        let hd = copy_challenge(hd_long.as_slice());

        let ha = protocol.label();

        let ctx_len = ctx.len();
        assert(ctx@.len() == ctx_len);
        hasher.update(ctx);
        let hctx_long = hasher.finalize_reset();
        let hctx = copy_challenge(hctx_long.as_slice());

        proof {
            assert(Seq::<u8>::empty() + DOMSEP@ =~= DOMSEP@);
            assert(Seq::<u8>::empty() + ctx@ =~= ctx@);
        }
        Self { interactive_protocol: protocol, hasher, hd, ha, hctx }
    }

    /// The protocol that the session is bound to.
    pub fn protocol(&self) -> (protocol: &S)
        ensures
            *protocol == self@.protocol,
    {
        &self.interactive_protocol
    }

    /// Derives the challenge for a message and a commitment.
    pub fn challenge(&mut self, message: Option<&[u8]>, commitment: &S::Commitment) -> (challenge: Result<
        Challenge,
        SigmaError,
    >)
        ensures
            final(self)@ == old(self)@,
            match challenge {
                Ok(c) => old(self).spec_challenge(message_bytes(message), *commitment) == Ok::<
                    Seq<u8>,
                    SigmaError,
                >(c@),
                Err(e) => old(self).spec_challenge(message_bytes(message), *commitment) == Err::<
                    Seq<u8>,
                    SigmaError,
                >(e),
            },
    {
        let commitment_bytes = match S::encode_commitment(commitment) {
            Ok(bytes) => bytes,
            Err(e) => {
                return Err(e);
            },
        };
        if commitment_bytes.len() as u64 > u64::MAX - 4 * (CHALLENGE_LENGTH as u64) {
            return Err(SigmaError::SerializationError);
        }
        let ghost hd = self.hd@;
        let ghost hctx = self.hctx@;
        let ghost ha = self.ha@;
        let ghost empty = Seq::<u8>::empty();

        self.hasher.reset();
        let hashed = match message {
            Some(msg) => {
                let msg_len = msg.len();
                assert(msg@.len() == msg_len);
                self.hasher.update(msg);
                let hm_long = self.hasher.finalize_reset();
                let hm = copy_challenge(hm_long.as_slice());
                proof {
                    assert(empty + msg@ =~= msg@);
                }

                self.hasher.update(self.hd.as_slice());
                self.hasher.update(self.hctx.as_slice());
                self.hasher.update(self.ha.as_slice());
                self.hasher.update(hm.as_slice());
                self.hasher.update(commitment_bytes.as_slice());
                proof {
                    assert(empty + hd + hctx + ha + hm@ + commitment_bytes@ =~= challenge_input(
                        hd,
                        hctx,
                        ha,
                        Some(hm@),
                        commitment_bytes@,
                    ));
                }
                self.hasher.finalize_reset()
            },
            None => {
                self.hasher.update(self.hd.as_slice());
                self.hasher.update(self.hctx.as_slice());
                self.hasher.update(self.ha.as_slice());
                self.hasher.update(commitment_bytes.as_slice());
                proof {
                    assert(empty + hd + hctx + ha + commitment_bytes@ =~= challenge_input(
                        hd,
                        hctx,
                        ha,
                        None,
                        commitment_bytes@,
                    ));
                }
                self.hasher.finalize_reset()
            },
        };
        Ok(copy_challenge(hashed.as_slice()))
    }

    /// Produce a batchable proof from a commitment and the prover state behind
    /// it. The state is used up: it answers this one challenge.
    pub fn batchable_proof_with(
        &mut self,
        commitment: S::Commitment,
        prover_state: S::ProverState,
        message: Option<&[u8]>,
    ) -> (proof: Result<BatchableProof<S>, SigmaError>)
        ensures
            final(self)@ == old(self)@,
            match old(self).spec_transcript(commitment, prover_state, message_bytes(message)) {
                Ok((_, response)) => proof == Ok::<BatchableProof<S>, SigmaError>(
                    BatchableProof { commitment, response },
                ),
                Err(e) => proof == Err::<BatchableProof<S>, SigmaError>(e),
            },
    {
        let challenge = match self.challenge(message, &commitment) {
            Ok(c) => c,
            Err(e) => {
                return Err(e);
            },
        };
        match self.interactive_protocol.prover_response(&prover_state, &challenge) {
            Ok(response) => Ok(BatchableProof { commitment, response }),
            Err(e) => Err(e),
        }
    }

    /// Produce a batchable proof for the instance using the provided witness.
    pub fn batchable_proof(
        &mut self,
        witness: &S::Witness,
        message: Option<&[u8]>,
        rng: &mut rand::rngs::ThreadRng,
    ) -> (proof: Result<BatchableProof<S>, SigmaError>)
        ensures
            final(self)@ == old(self)@,
            exists|commitment: S::Commitment, state: S::ProverState|
                {
                    &&& #[trigger] old(self)@.protocol.honest_commitment(*witness, commitment, state)
                    &&& match old(self).spec_transcript(commitment, state, message_bytes(message)) {
                        Ok((_, response)) => proof == Ok::<BatchableProof<S>, SigmaError>(
                            BatchableProof { commitment, response },
                        ),
                        Err(e) => proof == Err::<BatchableProof<S>, SigmaError>(e),
                    }
                },
    {
        let (commitment, prover_state) = self.interactive_protocol.prover_commit(witness, rng);
        self.batchable_proof_with(commitment, prover_state, message)
    }

    /// Verify a batchable proof.
    pub fn batchable_verify(&mut self, proof: &BatchableProof<S>, message: Option<&[u8]>) -> (verdict:
        Result<(), SigmaError>)
        ensures
            final(self)@ == old(self)@,
            verdict == old(self).spec_batchable_verify(*proof, message_bytes(message)),
    {
        let challenge = match self.challenge(message, &proof.commitment) {
            Ok(c) => c,
            Err(e) => {
                return Err(e);
            },
        };
        self.interactive_protocol.verify(&proof.commitment, &challenge, &proof.response)
    }

    /// Produce a short proof from a commitment and the prover state behind it.
    /// The commitment is left out of the proof. The state is used up: it answers
    /// this one challenge.
    pub fn short_proof_with(
        &mut self,
        commitment: S::Commitment,
        prover_state: S::ProverState,
        message: Option<&[u8]>,
    ) -> (proof: Result<ShortProof<S>, SigmaError>)
        ensures
            final(self)@ == old(self)@,
            match old(self).spec_transcript(commitment, prover_state, message_bytes(message)) {
                Ok((challenge, response)) => proof matches Ok(p) && p.challenge@ == challenge
                    && p.response == response,
                Err(e) => proof == Err::<ShortProof<S>, SigmaError>(e),
            },
    {
        let challenge = match self.challenge(message, &commitment) {
            Ok(c) => c,
            Err(e) => {
                return Err(e);
            },
        };
        match self.interactive_protocol.prover_response(&prover_state, &challenge) {
            Ok(response) => Ok(ShortProof { challenge, response }),
            Err(e) => Err(e),
        }
    }

    /// Produce a short proof for the instance using the provided witness.
    pub fn short_proof(
        &mut self,
        witness: &S::Witness,
        message: Option<&[u8]>,
        rng: &mut rand::rngs::ThreadRng,
    ) -> (proof: Result<ShortProof<S>, SigmaError>)
        ensures
            final(self)@ == old(self)@,
            exists|commitment: S::Commitment, state: S::ProverState|
                {
                    &&& #[trigger] old(self)@.protocol.honest_commitment(*witness, commitment, state)
                    &&& match old(self).spec_transcript(commitment, state, message_bytes(message)) {
                        Ok((challenge, response)) => proof matches Ok(p) && p.challenge@ == challenge
                            && p.response == response,
                        Err(e) => proof == Err::<ShortProof<S>, SigmaError>(e),
                    }
                },
    {
        let (commitment, prover_state) = self.interactive_protocol.prover_commit(witness, rng);
        self.short_proof_with(commitment, prover_state, message)
    }

    /// Verify a short proof.
    pub fn short_verify(&mut self, proof: &ShortProof<S>, message: Option<&[u8]>) -> (verdict: Result<
        (),
        SigmaError,
    >)
        ensures
            final(self)@ == old(self)@,
            verdict == old(self).spec_short_verify(*proof, message_bytes(message)),
    {
        let commitment = match self.interactive_protocol.simulate_commitment(
            &proof.challenge,
            &proof.response,
        ) {
            Ok(c) => c,
            Err(e) => {
                return Err(e);
            },
        };
        let challenge = match self.challenge(message, &commitment) {
            Ok(c) => c,
            Err(e) => {
                return Err(e);
            },
        };
        if same_challenge(&challenge, &proof.challenge) {
            Ok(())
        } else {
            Err(SigmaError::VerificationFailed)
        }
    }
}

/// Whether the protocol is complete for `witness`: whatever an honest prover who
/// knows `witness` commits to, and whatever the challenge, the response that its
/// state gives passes verification.
pub open spec fn protocol_is_complete<S: SigmaProtocol>(protocol: S, witness: S::Witness) -> bool {
    forall|commitment: S::Commitment, state: S::ProverState, challenge: Seq<u8>, response: S::Response|
        #![trigger
            protocol.honest_commitment(witness, commitment, state),
            protocol.spec_verify(commitment, challenge, response)
        ]
        protocol.honest_commitment(witness, commitment, state) && protocol.spec_prover_response(
            state,
            challenge,
        ) == Ok::<S::Response, SigmaError>(response) ==> protocol.spec_verify(
            commitment,
            challenge,
            response,
        ) is Ok
}

/// Determinism of the challenge: two sessions under one context, of protocols
/// with one label, derive the same challenge for the same message and the same
/// encoded commitment.
pub proof fn lemma_challenge_deterministic<S: SigmaProtocol, D: HashProvider>(
    first: NIZK<S, D>,
    first_protocol: S,
    first_commitment: S::Commitment,
    second: NIZK<S, D>,
    second_protocol: S,
    second_commitment: S::Commitment,
    ctx: Seq<u8>,
    message: Option<Seq<u8>>,
)
    requires
        first.is_session_of(first_protocol, ctx),
        second.is_session_of(second_protocol, ctx),
        first_protocol.spec_label() == second_protocol.spec_label(),
        S::commitment_encoding(first_commitment) == S::commitment_encoding(second_commitment),
    ensures
        first.spec_challenge(message, first_commitment) == second.spec_challenge(
            message,
            second_commitment,
        ),
{
}

/// Completeness of the batchable proof: where the protocol is complete for the
/// witness, every batchable proof that an honest prover gets is accepted under
/// the message it was made for. A prover gets none only where the commitment
/// has no challenge or the challenge no response.
pub proof fn lemma_batchable_proof_verifies<S: SigmaProtocol, D: HashProvider>(
    nizk: NIZK<S, D>,
    witness: S::Witness,
    commitment: S::Commitment,
    state: S::ProverState,
    message: Option<Seq<u8>>,
)
    requires
        protocol_is_complete(nizk@.protocol, witness),
        nizk@.protocol.honest_commitment(witness, commitment, state),
    ensures
        nizk.spec_transcript(commitment, state, message) matches Ok((_, response))
            ==> nizk.spec_batchable_verify(BatchableProof { commitment, response }, message) is Ok,
{
    if let Ok((challenge, response)) = nizk.spec_transcript(commitment, state, message) {
        assert(nizk@.protocol.spec_verify(commitment, challenge, response) is Ok);
    }
}

/// A short proof stands and falls with the batchable proof of the same
/// transcript. Take a batchable proof, and the short proof that holds the
/// challenge of its commitment and its response: where the batchable proof is
/// accepted, so is the short proof; where the challenge stands for nothing that
/// the protocol can use, both fail with the same error.
pub proof fn lemma_short_proof_verifies_like_batchable<S: SigmaProtocol, D: HashProvider>(
    nizk: NIZK<S, D>,
    message: Option<Seq<u8>>,
    batchable: BatchableProof<S>,
    short: ShortProof<S>,
)
    requires
        nizk.spec_challenge(message, batchable.commitment) == Ok::<Seq<u8>, SigmaError>(
            short.challenge@,
        ),
        short.response == batchable.response,
    ensures
        nizk.spec_batchable_verify(batchable, message) is Ok ==> nizk.spec_short_verify(
            short,
            message,
        ) is Ok,
        nizk@.protocol.spec_simulate_commitment(short.challenge@, short.response) matches Err(e)
            ==> nizk.spec_short_verify(short, message) == Err::<(), SigmaError>(e)
            && nizk.spec_batchable_verify(batchable, message) == Err::<(), SigmaError>(e),
{
    nizk@.protocol.lemma_simulated_commitment_verifies(
        batchable.commitment,
        short.challenge@,
        short.response,
    );
}

/// Completeness of the short proof: where the protocol is complete for the
/// witness, every short proof that an honest prover gets is accepted under the
/// message it was made for.
pub proof fn lemma_short_proof_verifies<S: SigmaProtocol, D: HashProvider>(
    nizk: NIZK<S, D>,
    witness: S::Witness,
    commitment: S::Commitment,
    state: S::ProverState,
    message: Option<Seq<u8>>,
    short: ShortProof<S>,
)
    requires
        protocol_is_complete(nizk@.protocol, witness),
        nizk@.protocol.honest_commitment(witness, commitment, state),
        nizk.spec_transcript(commitment, state, message) matches Ok((challenge, response))
            && short.challenge@ == challenge && short.response == response,
    ensures
        nizk.spec_short_verify(short, message) is Ok,
{
    let batchable = BatchableProof::<S> { commitment, response: short.response };
    lemma_batchable_proof_verifies(nizk, witness, commitment, state, message);
    lemma_short_proof_verifies_like_batchable(nizk, message, batchable, short);
}

} // verus!
