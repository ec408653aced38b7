//! Schnorr's proof of knowledge of a discrete logarithm.
//!
//! The statement is a pair of group elements `(base, claim)`; the prover knows a
//! scalar `witness` with `claim = witness * base`. The prover commits to
//! `nonce * base` for a fresh nonce, and answers the challenge `c` with
//! `nonce - c * witness`. The verifier accepts when
//! `response * base + c * claim` is the commitment.

use crate::field::{challenge_scalar, scalar_modulus, scalar_mul, scalar_sub, Scalar};
use crate::group::{curve_add, curve_mul, GroupElement, Point, POINT_SIZE};
use crate::hash::HashProvider;
use crate::interactive_proofs::SigmaProtocol;
use crate::nizk_proofs::{
    lemma_batchable_proof_verifies, lemma_short_proof_verifies, protocol_is_complete,
    BatchableProof, ShortProof, NIZK,
};
use crate::{Challenge, SigmaError};
use vstd::prelude::*;

verus! {

/// The response of an honest prover: `nonce - challenge * witness` in the scalar
/// field.
pub open spec fn schnorr_response(witness: nat, nonce: nat, challenge: nat) -> nat {
    scalar_sub(nonce, scalar_mul(challenge, witness))
}

/// The left side of the verification equation: `response * base + challenge *
/// claim`.
pub open spec fn schnorr_commitment(base: Point, claim: Point, challenge: nat, response: nat) -> Point {
    curve_add(curve_mul(base, response), curve_mul(claim, challenge))
}

/// The nonce under which an honest prover who holds `witness` answers
/// `challenge` with `response`: `response + challenge * witness` in the scalar
/// field.
pub open spec fn simulation_nonce(response: nat, witness: nat, challenge: nat) -> nat {
    (response + scalar_mul(challenge, witness)) % scalar_modulus()
}

/// Whether `response` is one that an honest prover gives: whatever the witness
/// and the challenge, there is a nonce under which the prover answers with it.
/// A simulator that draws such a response has drawn from the responses of a
/// genuine prover.
pub open spec fn is_genuine_response(response: nat) -> bool {
    forall|witness: nat, challenge: nat|
        witness < scalar_modulus() && challenge < scalar_modulus() ==> {
            let nonce = #[trigger] simulation_nonce(response, witness, challenge);
            nonce < scalar_modulus() && schnorr_response(witness, nonce, challenge) == response
        }
}

/// The instance for the DLOG proof. It is composed of two group elements: the
/// prover claims to know the discrete log between the `base` point and the
/// `claim` point. That such a discrete log exists is assumed, not checked.
#[derive(Debug, Clone, Copy)]
pub struct SchnorrInstance {
    pub base: GroupElement,
    pub claim: GroupElement,
}

impl SchnorrInstance {
    /// Create a new DLOG instance from the provided group elements.
    pub fn new(base: GroupElement, claim: GroupElement) -> (instance: Self)
        ensures
            instance.base == base,
            instance.claim == claim,
    {
        Self { base, claim }
    }
}

/// What the prover keeps between its two moves: the witness and the nonce behind
/// the commitment. A state answers one challenge only: two responses from one
/// nonce give the witness away.
pub struct ProverState {
    witness: Scalar,
    random_value: Scalar,
}

impl ProverState {
    /// The witness that the prover holds.
    pub closed spec fn witness(self) -> Scalar {
        self.witness
    }

    /// The nonce behind the commitment.
    pub closed spec fn random_value(self) -> Scalar {
        self.random_value
    }
}

/// Schnorr proof of knowledge of the discrete logarithm.
#[derive(Debug, Clone, Copy)]
pub struct SchnorrDLOG {
    pub instance: SchnorrInstance,
    pub label: Challenge,
}

/// The label of a protocol for which none was chosen: all zero. It stands in for
/// a label that tells this protocol from every other; where protocols share a
/// context, choose one with [`SchnorrDLOG::with_label`].
pub const DEFAULT_LABEL: Challenge = [
    0u8, 0u8, 0u8, 0u8, 0u8, 0u8, 0u8, 0u8,
    0u8, 0u8, 0u8, 0u8, 0u8, 0u8, 0u8, 0u8,
    0u8, 0u8, 0u8, 0u8, 0u8, 0u8, 0u8, 0u8,
    0u8, 0u8, 0u8, 0u8, 0u8, 0u8, 0u8, 0u8,
];

impl SchnorrDLOG {
    /// Binds the protocol to a public statement, under a label of the caller's
    /// choice.
    pub fn with_label(instance: &SchnorrInstance, label: Challenge) -> (protocol: Self)
        ensures
            protocol.instance == *instance,
            protocol.label == label,
    {
        Self { instance: *instance, label }
    }

    /// The prover's first move with a given nonce: the commitment is
    /// `nonce * base`, and the state keeps the witness and the nonce.
    pub fn commit_with_nonce(&self, witness: &Scalar, nonce: Scalar) -> (out: (
        GroupElement,
        ProverState,
    ))
        ensures
            out.0@ == curve_mul(self.instance.base@, nonce@),
            out.1.witness() == *witness,
            out.1.random_value() == nonce,
    {
        let commitment = self.instance.base.mul(&nonce);
        let state = ProverState { witness: *witness, random_value: nonce };
        (commitment, state)
    }
}

impl SigmaProtocol for SchnorrDLOG {
    type Instance = SchnorrInstance;

    type Witness = Scalar;

    type Commitment = GroupElement;

    type ProverState = ProverState;

    type Response = Scalar;

    open spec fn spec_new(instance: SchnorrInstance) -> Self {
        SchnorrDLOG { instance, label: DEFAULT_LABEL }
    }

    open spec fn spec_label(&self) -> Seq<u8> {
        self.label@
    }

    open spec fn commitment_encoding(commitment: GroupElement) -> Option<Seq<u8>> {
        commitment.spec_encode()
    }

    open spec fn spec_commitment_size() -> nat {
        POINT_SIZE as nat
    }

    open spec fn commitment_decoding(bytes: Seq<u8>) -> Option<GroupElement> {
        GroupElement::spec_decode(bytes)
    }

    open spec fn response_encoding(response: Scalar) -> Option<Seq<u8>> {
        if response.is_canonical() {
            response.spec_encode()
        } else {
            None
        }
    }

    open spec fn response_decoding(bytes: Seq<u8>) -> Option<Scalar> {
        Scalar::spec_decode(bytes)
    }

    open spec fn honest_commitment(
        &self,
        witness: Scalar,
        commitment: GroupElement,
        state: ProverState,
    ) -> bool {
        &&& state.witness() == witness
        &&& state.witness().is_canonical()
        &&& state.random_value().is_canonical()
        &&& commitment@ == curve_mul(self.instance.base@, state.random_value()@)
    }

    open spec fn spec_prover_response(&self, state: ProverState, challenge: Seq<u8>) -> Result<
        Scalar,
        SigmaError,
    > {
        match challenge_scalar(challenge) {
            Some(c) => Ok(
                Scalar::from_value(schnorr_response(state.witness()@, state.random_value()@, c)),
            ),
            None => Err(SigmaError::ChallengeConversionFailure),
        }
    }

    open spec fn spec_simulate_commitment(&self, challenge: Seq<u8>, response: Scalar) -> Result<
        GroupElement,
        SigmaError,
    > {
        match challenge_scalar(challenge) {
            Some(c) => Ok(
                GroupElement::from_point(
                    schnorr_commitment(self.instance.base@, self.instance.claim@, c, response@),
                ),
            ),
            None => Err(SigmaError::ChallengeConversionFailure),
        }
    }

    open spec fn spec_verify(
        &self,
        commitment: GroupElement,
        challenge: Seq<u8>,
        response: Scalar,
    ) -> Result<(), SigmaError> {
        match self.spec_simulate_commitment(challenge, response) {
            Ok(expected) => if expected == commitment {
                Ok(())
            } else {
                Err(SigmaError::VerificationFailed)
            },
            Err(e) => Err(e),
        }
    }

    proof fn lemma_simulated_commitment_verifies(
        &self,
        commitment: GroupElement,
        challenge: Seq<u8>,
        response: Scalar,
    ) {
    }

    proof fn lemma_commitment_encoding_size(commitment: GroupElement) {
    }

    proof fn lemma_response_round_trip(response: Scalar) {
        if let Some(bytes) = Self::response_encoding(response) {
            response.lemma_decode_encoded(bytes);
        }
    }

    fn label(&self) -> (label: Challenge) {
        self.label
    }

    fn new(instance: &SchnorrInstance) -> (protocol: Self) {
        Self::with_label(instance, DEFAULT_LABEL)
    }

    fn prover_commit(&self, witness: &Scalar, rng: &mut rand::rngs::ThreadRng) -> (out: (
        GroupElement,
        ProverState,
    )) {
        let random_value = Scalar::random(rng);
        let out = self.commit_with_nonce(witness, random_value);
        proof {
            use_type_invariant(witness);
        }
        out
    }

    fn prover_response(&self, prover_state: &ProverState, challenge: &Challenge) -> (response: Result<
        Scalar,
        SigmaError,
    >) {
        match Scalar::from_random_bytes(challenge) {
            Some(challenge_scalar) => {
                let product = challenge_scalar.mul(&prover_state.witness);
                let response = prover_state.random_value.sub(&product);
                proof {
                    response.lemma_view_determines();
                }
                Ok(response)
            },
            None => Err(SigmaError::ChallengeConversionFailure),
        }
    }

    fn verify(&self, commitment: &GroupElement, challenge: &Challenge, response: &Scalar) -> (verdict:
        Result<(), SigmaError>) {
        match self.simulate_commitment(challenge, response) {
            Ok(expected) => {
                if expected.equals(commitment) {
                    Ok(())
                } else {
                    Err(SigmaError::VerificationFailed)
                }
            },
            Err(e) => Err(e),
        }
    }

    fn simulate_response(&self, rng: &mut rand::rngs::ThreadRng) -> (response: Scalar)
        ensures
            response@ < scalar_modulus(),
            is_genuine_response(response@),
    {
        let response = Scalar::random(rng);
        proof {
            lemma_every_scalar_is_a_genuine_response(response@);
        }
        response
    }

    fn simulate_commitment(&self, challenge: &Challenge, response: &Scalar) -> (commitment: Result<
        GroupElement,
        SigmaError,
    >) {
        match Scalar::from_random_bytes(challenge) {
            Some(challenge_scalar) => {
                let left = self.instance.base.mul(response);
                let right = self.instance.claim.mul(&challenge_scalar);
                let commitment = left.add(&right);
                proof {
                    commitment.lemma_view_determines();
                }
                Ok(commitment)
            },
            None => Err(SigmaError::ChallengeConversionFailure),
        }
    }

    fn encode_commitment(commitment: &GroupElement) -> (bytes: Result<Vec<u8>, SigmaError>) {
        commitment.encode()
    }

    fn commitment_size() -> (size: usize) {
        POINT_SIZE
    }

    fn decode_commitment(bytes: &[u8]) -> (commitment: Result<GroupElement, SigmaError>) {
        GroupElement::decode(bytes)
    }

    fn encode_response(response: &Scalar) -> (bytes: Result<Vec<u8>, SigmaError>) {
        proof {
            use_type_invariant(response);
        }
        response.encode()
    }

    fn decode_response(bytes: &[u8]) -> (response: Result<Scalar, SigmaError>) {
        Scalar::decode(bytes)
    }
}

/// The response and the nonce decide each other: for a witness and a challenge,
/// the honest prover's response under the nonce that `simulation_nonce` names is
/// the response that the nonce was named for.
pub proof fn lemma_simulation_nonce_gives_response(response: nat, witness: nat, challenge: nat)
    requires
        response < scalar_modulus(),
    ensures
        simulation_nonce(response, witness, challenge) < scalar_modulus(),
        schnorr_response(witness, simulation_nonce(response, witness, challenge), challenge)
            == response,
{
    let q = scalar_modulus() as int;
    let product = scalar_mul(challenge, witness) as int;
    let sum = response + product;
    let nonce = simulation_nonce(response, witness, challenge) as int;
    if sum < q {
        vstd::arithmetic::div_mod::lemma_small_mod(sum as nat, scalar_modulus());
        vstd::arithmetic::div_mod::lemma_small_mod(response, scalar_modulus());
    } else {
        vstd::arithmetic::div_mod::lemma_fundamental_div_mod_converse(sum, q, 1, sum - q);
        vstd::arithmetic::div_mod::lemma_fundamental_div_mod_converse(
            nonce - product,
            q,
            -1,
            response as int,
        );
    }
}

/// Conversely, the nonce that is named for an honest prover's response is the
/// nonce that the prover drew. So, for a witness and a challenge, responses and
/// nonces correspond one to one: a response drawn evenly from the field is the
/// response to a nonce drawn evenly from the field.
pub proof fn lemma_response_gives_simulation_nonce(nonce: nat, witness: nat, challenge: nat)
    requires
        nonce < scalar_modulus(),
    ensures
        schnorr_response(witness, nonce, challenge) < scalar_modulus(),
        simulation_nonce(schnorr_response(witness, nonce, challenge), witness, challenge) == nonce,
{
    let q = scalar_modulus() as int;
    let product = scalar_mul(challenge, witness) as int;
    let difference = nonce - product;
    let response = schnorr_response(witness, nonce, challenge) as int;
    if difference >= 0 {
        vstd::arithmetic::div_mod::lemma_small_mod(difference as nat, scalar_modulus());
        vstd::arithmetic::div_mod::lemma_small_mod(nonce, scalar_modulus());
    } else {
        vstd::arithmetic::div_mod::lemma_fundamental_div_mod_converse(
            difference,
            q,
            -1,
            difference + q,
        );
        vstd::arithmetic::div_mod::lemma_fundamental_div_mod_converse(
            response + product,
            q,
            1,
            nonce as int,
        );
    }
}

/// Every element of the scalar field is a response that an honest prover gives.
pub proof fn lemma_every_scalar_is_a_genuine_response(response: nat)
    requires
        response < scalar_modulus(),
    ensures
        is_genuine_response(response),
{
    assert forall|witness: nat, challenge: nat|
        witness < scalar_modulus() && challenge < scalar_modulus() implies {
        let nonce = #[trigger] simulation_nonce(response, witness, challenge);
        nonce < scalar_modulus() && schnorr_response(witness, nonce, challenge) == response
    } by {
        lemma_simulation_nonce_gives_response(response, witness, challenge);
    }
}

/// Whether the scalar multiples of `base` add and multiply as their scalars do
/// modulo the order of the scalar field. These are the laws of a group of that
/// order. The arithmetic provider is relied on to obey them on the prime-order
/// subgroup; nothing in this library proves them of it.
pub open spec fn scalar_multiples_form_module(base: Point) -> bool {
    &&& forall|a: nat, b: nat|
        a < scalar_modulus() && b < scalar_modulus() ==> #[trigger] curve_add(
            curve_mul(base, a),
            curve_mul(base, b),
        ) == curve_mul(base, (a + b) % scalar_modulus())
    &&& forall|a: nat, b: nat|
        a < scalar_modulus() && b < scalar_modulus() ==> #[trigger] curve_mul(curve_mul(base, a), b)
            == curve_mul(base, (a * b) % scalar_modulus())
}

/// Whether distinct scalars give distinct multiples of `base`: `base` has the
/// full order of the scalar field. Like the group laws, this is a hypothesis on
/// the arithmetic provider where a law names it.
pub open spec fn scalar_multiples_are_distinct(base: Point) -> bool {
    forall|a: nat, b: nat|
        a < scalar_modulus() && b < scalar_modulus() && #[trigger] curve_mul(base, a)
            == #[trigger] curve_mul(base, b) ==> a == b
}

/// What verification computes from the response of a prover who holds `held`
/// for a statement about `witness`: the multiple of `base` by
/// `nonce + challenge * (witness - held)`.
proof fn lemma_response_verifies_as(base: Point, witness: nat, held: nat, nonce: nat, challenge: nat)
    requires
        scalar_multiples_form_module(base),
        witness < scalar_modulus(),
        held < scalar_modulus(),
        nonce < scalar_modulus(),
        challenge < scalar_modulus(),
    ensures
        schnorr_commitment(
            base,
            curve_mul(base, witness),
            challenge,
            schnorr_response(held, nonce, challenge),
        ) == curve_mul(
            base,
            (nonce + scalar_mul(challenge, scalar_sub(witness, held))) % scalar_modulus(),
        ),
{
    let q = scalar_modulus() as int;
    let w = witness as int;
    let h = held as int;
    let r = nonce as int;
    let c = challenge as int;
    let response = schnorr_response(held, nonce, challenge) as int;
    let product = scalar_mul(witness, challenge) as int;
    assert(curve_mul(curve_mul(base, witness), challenge) == curve_mul(base, product as nat));
    assert(curve_add(curve_mul(base, response as nat), curve_mul(base, product as nat))
        == curve_mul(base, ((response + product) % q) as nat));
    assert(w * c == c * w) by (nonlinear_arith);
    assert(response == (r - c * h) % q) by {
        vstd::arithmetic::div_mod::lemma_sub_mod_noop_right(r, c * h, q);
    }
    assert((response + product) % q == ((r - c * h) + c * w) % q) by {
        vstd::arithmetic::div_mod::lemma_add_mod_noop(r - c * h, c * w, q);
    }
    let shift = scalar_mul(challenge, scalar_sub(witness, held)) as int;
    assert((r + shift) % q == (r + c * (w - h)) % q) by {
        vstd::arithmetic::div_mod::lemma_mul_mod_noop_right(c, w - h, q);
        vstd::arithmetic::div_mod::lemma_add_mod_noop_right(r, c * (w - h), q);
    }
    assert(c * (w - h) == c * w - c * h) by (nonlinear_arith);
}

/// The verification equation holds of an honest response: with
/// `claim = witness * base`, the point `response * base + challenge * claim` is
/// `nonce * base`, the commitment, provided that the multiples of `base` obey the
/// group laws.
pub proof fn lemma_honest_response_verifies(base: Point, witness: nat, nonce: nat, challenge: nat)
    requires
        scalar_multiples_form_module(base),
        witness < scalar_modulus(),
        nonce < scalar_modulus(),
        challenge < scalar_modulus(),
    ensures
        schnorr_commitment(
            base,
            curve_mul(base, witness),
            challenge,
            schnorr_response(witness, nonce, challenge),
        ) == curve_mul(base, nonce),
{
    lemma_response_verifies_as(base, witness, witness, nonce, challenge);
    vstd::arithmetic::div_mod::lemma_small_mod(nonce, scalar_modulus());
    assert(scalar_sub(witness, witness) == 0);
    assert(challenge * 0 == 0) by (nonlinear_arith);
}

/// Soundness, as far as it is a matter of algebra: the response of a prover who
/// holds `held` in place of the witness satisfies the verification equation
/// exactly when `challenge * (witness - held)` is zero in the scalar field,
/// provided that the multiples of `base` obey the group laws and are distinct.
/// With a prime modulus that is the case only when the challenge is zero or
/// `held` is the witness.
pub proof fn lemma_wrong_witness_verifies_by_chance(
    base: Point,
    witness: nat,
    held: nat,
    nonce: nat,
    challenge: nat,
)
    requires
        scalar_multiples_form_module(base),
        scalar_multiples_are_distinct(base),
        witness < scalar_modulus(),
        held < scalar_modulus(),
        nonce < scalar_modulus(),
        challenge < scalar_modulus(),
    ensures
        schnorr_commitment(
            base,
            curve_mul(base, witness),
            challenge,
            schnorr_response(held, nonce, challenge),
        ) == curve_mul(base, nonce) <==> scalar_mul(challenge, scalar_sub(witness, held)) == 0,
{
    lemma_response_verifies_as(base, witness, held, nonce, challenge);
    let shift = scalar_mul(challenge, scalar_sub(witness, held));
    let reached = (nonce + shift) % scalar_modulus();
    if shift == 0 {
        vstd::arithmetic::div_mod::lemma_small_mod(nonce, scalar_modulus());
    } else {
        if nonce + shift < scalar_modulus() {
            vstd::arithmetic::div_mod::lemma_small_mod(nonce + shift, scalar_modulus());
        } else {
            vstd::arithmetic::div_mod::lemma_fundamental_div_mod_converse(
                (nonce + shift) as int,
                scalar_modulus() as int,
                1,
                nonce + shift - scalar_modulus(),
            );
        }
        assert(reached != nonce);
    }
}

/// Completeness of the protocol: for a statement `claim = witness * base` whose
/// base obeys the group laws, every response of an honest prover who knows
/// `witness` passes verification.
pub proof fn lemma_schnorr_is_complete(protocol: SchnorrDLOG, witness: Scalar)
    requires
        scalar_multiples_form_module(protocol.instance.base@),
        protocol.instance.claim@ == curve_mul(protocol.instance.base@, witness@),
    ensures
        protocol_is_complete(protocol, witness),
{
    assert forall|commitment: GroupElement, state: ProverState, challenge: Seq<u8>, response: Scalar|
        #![trigger
            protocol.honest_commitment(witness, commitment, state),
            protocol.spec_verify(commitment, challenge, response)
        ]
        protocol.honest_commitment(witness, commitment, state) && protocol.spec_prover_response(
            state,
            challenge,
        ) == Ok::<Scalar, SigmaError>(response) implies protocol.spec_verify(
        commitment,
        challenge,
        response,
    ) is Ok by {
        let c = challenge_scalar(challenge).unwrap();
        let value = schnorr_response(witness@, state.random_value()@, c);
        Scalar::lemma_from_value(value);
        lemma_honest_response_verifies(protocol.instance.base@, witness@, state.random_value()@, c);
        commitment.lemma_view_determines();
    }
}

/// Completeness of the non-interactive proofs: for a statement
/// `claim = witness * base` whose base obeys the group laws, and for every
/// message, the batchable proof and the short proof that an honest prover gets
/// are accepted. The prover gets none only where the challenge stands for no
/// scalar, or where the commitment has no challenge because it cannot be
/// encoded.
pub proof fn lemma_schnorr_proofs_verify<D: HashProvider>(
    nizk: NIZK<SchnorrDLOG, D>,
    witness: Scalar,
    commitment: GroupElement,
    state: ProverState,
    message: Option<Seq<u8>>,
    short: ShortProof<SchnorrDLOG>,
)
    requires
        scalar_multiples_form_module(nizk@.protocol.instance.base@),
        nizk@.protocol.instance.claim@ == curve_mul(nizk@.protocol.instance.base@, witness@),
        nizk@.protocol.honest_commitment(witness, commitment, state),
    ensures
        match nizk.spec_transcript(commitment, state, message) {
            Ok((challenge, response)) => {
                &&& nizk.spec_batchable_verify(BatchableProof { commitment, response }, message) is Ok
                &&& short.challenge@ == challenge && short.response == response
                    ==> nizk.spec_short_verify(short, message) is Ok
            },
            Err(e) => match nizk.spec_challenge(message, commitment) {
                Ok(challenge) => challenge_scalar(challenge) is None
                    && e == SigmaError::ChallengeConversionFailure,
                Err(_) => e == SigmaError::SerializationError,
            },
        },
{
    lemma_schnorr_is_complete(nizk@.protocol, witness);
    lemma_batchable_proof_verifies(nizk, witness, commitment, state, message);
    if let Ok((challenge, response)) = nizk.spec_transcript(commitment, state, message) {
        if short.challenge@ == challenge && short.response == response {
            lemma_short_proof_verifies(nizk, witness, commitment, state, message, short);
        }
    }
}

} // verus!
