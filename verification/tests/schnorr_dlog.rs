use ark_bls12_377::{Fr, G1Projective};
use ark_ec::ProjectiveCurve;
use ark_ff::{PrimeField, UniformRand};
use rand::rngs::ThreadRng;
use rand::thread_rng;
use sigma_protocol_standard::field::Scalar;
use sigma_protocol_standard::group::GroupElement;
use sigma_protocol_standard::hash::{Blake2sHasher, HashProvider};
use sigma_protocol_standard::protocols::{SchnorrDLOG, SchnorrInstance};
use sigma_protocol_standard::{SigmaError, SigmaProtocol, NIZK};

fn to_scalar(element: Fr) -> Scalar {
    Scalar::from_limbs(element.into_repr().0).unwrap()
}

fn to_element(point: G1Projective) -> GroupElement {
    let affine = point.into_affine();
    GroupElement::from_affine(affine.x.into_repr().0, affine.y.into_repr().0, affine.infinity)
        .unwrap()
}

/// Generates a batched proof using the provided witness and instance and returns the verifier output
fn run_nizk_batched<D: HashProvider, S: SigmaProtocol>(
    instance: &S::Instance,
    witness: &S::Witness,
    hasher: D,
    rng: &mut ThreadRng,
) -> Result<(), SigmaError> {
    let ctx = b"this is a test";
    let message = b"this is a message";

    let interactive_protocol = S::new(instance);
    let mut nizk = NIZK::new(interactive_protocol, hasher, ctx);

    let proof = nizk.batchable_proof(witness, Some(message), rng)?;

    nizk.batchable_verify(&proof, Some(message))
}

/// Generates a short proof using the provided witness and instance and returns the verifier output
fn run_nizk_short<D: HashProvider, S: SigmaProtocol>(
    instance: &S::Instance,
    witness: &S::Witness,
    hasher: D,
    rng: &mut ThreadRng,
) -> Result<(), SigmaError> {
    let ctx = b"this is a test";
    let message = b"this is a message";

    let interactive_protocol = S::new(instance);
    let mut nizk = NIZK::new(interactive_protocol, hasher, ctx);

    let proof = nizk.short_proof(witness, Some(message), rng)?;

    nizk.short_verify(&proof, Some(message))
}

fn schnorr_setup(rng: &mut ThreadRng) -> (SchnorrInstance, Scalar, Scalar) {
    // Produce witness and instance
    let generator = G1Projective::prime_subgroup_generator();
    let witness = Fr::rand(rng);
    let claim = generator.mul(witness.into_repr());
    let instance = SchnorrInstance::new(to_element(generator), to_element(claim));
    let wrong_witness = Fr::rand(rng);

    (instance, to_scalar(witness), to_scalar(wrong_witness))
}

#[test]
fn test_schnorr_accept_valid_batchable() {
    let rng = &mut thread_rng();
    let hasher = Blake2sHasher::new();
    let mut challenge_failures = 0;

    let (instance, witness, _) = schnorr_setup(rng);

    let mut test_result =
        run_nizk_batched::<_, SchnorrDLOG>(&instance, &witness, hasher.clone(), rng);

    while test_result == Err(SigmaError::ChallengeConversionFailure) {
        challenge_failures += 1;
        test_result = run_nizk_batched::<_, SchnorrDLOG>(&instance, &witness, hasher.clone(), rng)
    }

    println!("Parsing the challenge failed {} times", challenge_failures);
    assert!(test_result.is_ok())
}

#[test]
fn test_schnorr_reject_wrong_batchable() {
    let rng = &mut thread_rng();
    let hasher = Blake2sHasher::new();
    let mut challenge_failures = 0;

    let (instance, _, wrong_witness) = schnorr_setup(rng);

    let mut test_result =
        run_nizk_batched::<_, SchnorrDLOG>(&instance, &wrong_witness, hasher.clone(), rng);

    while test_result == Err(SigmaError::ChallengeConversionFailure) {
        challenge_failures += 1;
        test_result =
            run_nizk_batched::<_, SchnorrDLOG>(&instance, &wrong_witness, hasher.clone(), rng)
    }

    println!("Parsing the challenge failed {} times", challenge_failures);

    assert_eq!(test_result, Err(SigmaError::VerificationFailed))
}

#[test]
fn test_schnorr_accept_valid_short() {
    let rng = &mut thread_rng();
    let hasher = Blake2sHasher::new();
    let mut challenge_failures = 0;

    let (instance, witness, _) = schnorr_setup(rng);

    let mut test_result =
        run_nizk_short::<_, SchnorrDLOG>(&instance, &witness, hasher.clone(), rng);

    while test_result == Err(SigmaError::ChallengeConversionFailure) {
        challenge_failures += 1;
        test_result = run_nizk_short::<_, SchnorrDLOG>(&instance, &witness, hasher.clone(), rng)
    }

    println!("Parsing the challenge failed {} times", challenge_failures);
    assert!(test_result.is_ok())
}

#[test]
fn test_schnorr_reject_wrong_short() {
    let rng = &mut thread_rng();
    let hasher = Blake2sHasher::new();
    let mut challenge_failures = 0;

    let (instance, _, wrong_witness) = schnorr_setup(rng);

    let mut test_result =
        run_nizk_short::<_, SchnorrDLOG>(&instance, &wrong_witness, hasher.clone(), rng);

    while test_result == Err(SigmaError::ChallengeConversionFailure) {
        challenge_failures += 1;
        test_result =
            run_nizk_short::<_, SchnorrDLOG>(&instance, &wrong_witness, hasher.clone(), rng)
    }

    println!("Parsing the challenge failed {} times", challenge_failures);

    assert_eq!(test_result, Err(SigmaError::VerificationFailed))
}
