use ark_bls12_377::{Fr, G1Projective};
use ark_ec::ProjectiveCurve;
use ark_ff::PrimeField;
use ark_serialize::CanonicalSerialize;
use blake2::Blake2s;
use digest::Digest;
use sigma_protocol_standard::group::GroupElement;
use sigma_protocol_standard::hash::{Blake2sHasher, HashProvider};
use sigma_protocol_standard::protocols::{SchnorrDLOG, SchnorrInstance};
use sigma_protocol_standard::{
    SigmaProtocol, CHALLENGE_LENGTH, DOMSEP, LABEL_LENGTH, NIZK,
};

fn to_element(point: G1Projective) -> GroupElement {
    let affine = point.into_affine();
    GroupElement::from_affine(affine.x.into_repr().0, affine.y.into_repr().0, affine.infinity)
        .unwrap()
}

fn multiple(scalar: u64) -> G1Projective {
    G1Projective::prime_subgroup_generator().mul(Fr::from(scalar).into_repr())
}

fn protocol() -> SchnorrDLOG {
    SchnorrDLOG::new(&SchnorrInstance::new(to_element(multiple(1)), to_element(multiple(9))))
}

fn session(ctx: &[u8]) -> NIZK<SchnorrDLOG, Blake2sHasher> {
    NIZK::new(protocol(), Blake2sHasher::new(), ctx)
}

fn label(bytes: &[u8]) -> Vec<u8> {
    Blake2s::digest(bytes)[..32].to_vec()
}

fn expected_challenge(
    ctx: &[u8],
    protocol_label: &[u8],
    message: Option<&[u8]>,
    commitment: G1Projective,
) -> Vec<u8> {
    let mut input = Vec::new();
    input.extend_from_slice(&label(b"zkpstd/sigma/0.1"));
    input.extend_from_slice(&label(ctx));
    input.extend_from_slice(protocol_label);
    if let Some(message) = message {
        input.extend_from_slice(&label(message));
    }
    commitment.serialize(&mut input).unwrap();
    label(&input)
}

#[test]
fn constants() {
    assert_eq!(LABEL_LENGTH, 32);
    assert_eq!(CHALLENGE_LENGTH, 32);
    assert_eq!(&DOMSEP[..], b"zkpstd/sigma/0.1");
}

#[test]
fn hasher_gives_the_digest_of_what_it_absorbed() {
    let mut hasher = Blake2sHasher::new();
    hasher.update(b"hello ");
    hasher.update(b"");
    hasher.update(b"world");
    assert_eq!(hasher.finalize_reset(), Blake2s::digest(b"hello world").to_vec());
    assert_eq!(hasher.finalize_reset(), Blake2s::digest(b"").to_vec());
    hasher.update(b"abc");
    let digest = hasher.finalize_reset();
    assert_eq!(digest.len(), 32);
    assert_eq!(digest, Blake2s::digest(b"abc").to_vec());
    assert_ne!(digest, b"abc".to_vec());
}

#[test]
fn hasher_forgets_on_reset() {
    let mut hasher = Blake2sHasher::new();
    hasher.update(b"left over");
    hasher.reset();
    hasher.update(b"abc");
    assert_eq!(hasher.finalize_reset(), Blake2s::digest(b"abc").to_vec());
}

#[test]
fn hasher_copy_has_absorbed_the_same() {
    let mut hasher = Blake2sHasher::new();
    hasher.update(b"ab");
    let mut copy = hasher.clone();
    hasher.update(b"c");
    copy.update(b"c");
    assert_eq!(hasher.finalize_reset(), copy.finalize_reset());
}

#[test]
fn challenge_with_a_message_is_the_digest_of_the_five_parts() {
    let mut nizk = session(b"test");
    let commitment = multiple(1234);
    let challenge = nizk.challenge(Some(b"hello"), &to_element(commitment)).unwrap();
    assert_eq!(
        challenge.to_vec(),
        expected_challenge(b"test", &[0u8; 32], Some(b"hello"), commitment)
    );
}

#[test]
fn challenge_without_a_message_is_the_digest_of_the_four_parts() {
    let mut nizk = session(b"test");
    let commitment = multiple(1234);
    let challenge = nizk.challenge(None, &to_element(commitment)).unwrap();
    assert_eq!(challenge.to_vec(), expected_challenge(b"test", &[0u8; 32], None, commitment));
    let empty = nizk.challenge(Some(b""), &to_element(commitment)).unwrap();
    assert_eq!(empty.to_vec(), expected_challenge(b"test", &[0u8; 32], Some(b""), commitment));
    assert_ne!(challenge, empty);
}

#[test]
fn challenge_takes_the_label_of_the_protocol() {
    let instance = SchnorrInstance::new(to_element(multiple(1)), to_element(multiple(9)));
    let label = [0x5a; 32];
    let labelled = SchnorrDLOG::with_label(&instance, label);
    assert_eq!(labelled.label(), label);
    assert_eq!(protocol().label(), [0u8; 32]);
    let mut nizk = NIZK::new(labelled, Blake2sHasher::new(), b"test");
    let commitment = multiple(77);
    let challenge = nizk.challenge(Some(b"hello"), &to_element(commitment)).unwrap();
    assert_eq!(challenge.to_vec(), expected_challenge(b"test", &label, Some(b"hello"), commitment));
    let plain = session(b"test").challenge(Some(b"hello"), &to_element(commitment)).unwrap();
    assert_ne!(challenge, plain);
}

#[test]
fn session_keeps_its_protocol() {
    let nizk = session(b"context");
    assert_eq!(nizk.protocol().instance.base, to_element(multiple(1)));
    assert_eq!(nizk.protocol().instance.claim, to_element(multiple(9)));
    assert_eq!(nizk.protocol().label, [0u8; 32]);
}

#[test]
fn challenge_is_deterministic() {
    let commitment = to_element(multiple(5));
    let mut first = session(b"context");
    let mut second = session(b"context");
    let a = first.challenge(Some(b"message"), &commitment).unwrap();
    let b = second.challenge(Some(b"message"), &commitment).unwrap();
    assert_eq!(a, b);
    // a session gives the same challenge again, whatever it derived in between
    first.challenge(None, &to_element(multiple(6))).unwrap();
    first.challenge(Some(b"other"), &commitment).unwrap();
    assert_eq!(first.challenge(Some(b"message"), &commitment).unwrap(), a);
}

#[test]
fn challenge_does_not_depend_on_what_the_hasher_held() {
    let mut used = Blake2sHasher::new();
    used.update(b"left over from an earlier use");
    let mut nizk = NIZK::new(protocol(), used, b"context");
    let commitment = to_element(multiple(5));
    assert_eq!(
        nizk.challenge(Some(b"message"), &commitment).unwrap(),
        session(b"context").challenge(Some(b"message"), &commitment).unwrap()
    );
}

#[test]
fn challenge_changes_with_the_context() {
    let commitment = to_element(multiple(5));
    let first = session(b"context 0").challenge(Some(b"message"), &commitment).unwrap();
    for i in 1..50 {
        let ctx = format!("context {}", i);
        let other = session(ctx.as_bytes()).challenge(Some(b"message"), &commitment).unwrap();
        assert_ne!(first, other);
    }
}

#[test]
fn challenge_changes_with_the_message() {
    let commitment = to_element(multiple(5));
    let mut nizk = session(b"context");
    let first = nizk.challenge(Some(b"message 0"), &commitment).unwrap();
    for i in 1..50 {
        let message = format!("message {}", i);
        let other = nizk.challenge(Some(message.as_bytes()), &commitment).unwrap();
        assert_ne!(first, other);
    }
    assert_ne!(first, nizk.challenge(None, &commitment).unwrap());
}

#[test]
fn challenge_changes_with_the_commitment() {
    let mut nizk = session(b"context");
    let first = nizk.challenge(Some(b"message"), &to_element(multiple(1))).unwrap();
    for i in 2..50 {
        let other = nizk.challenge(Some(b"message"), &to_element(multiple(i))).unwrap();
        assert_ne!(first, other);
    }
}
