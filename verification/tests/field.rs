use ark_bls12_377::Fr;
use ark_ff::{Field, FpParameters, PrimeField};
use ark_serialize::CanonicalSerialize;
use rand::thread_rng;
use sigma_protocol_standard::field::{Scalar, SCALAR_MODULUS_LIMBS, SCALAR_SIZE};
use sigma_protocol_standard::limbs::{limbs_equal, limbs_less_than};
use sigma_protocol_standard::SigmaError;

fn small(value: u64) -> Scalar {
    Scalar::from_limbs([value, 0, 0, 0]).unwrap()
}

fn modulus_minus(value: u64) -> [u64; 4] {
    let mut limbs = SCALAR_MODULUS_LIMBS;
    limbs[0] -= value;
    limbs
}

#[test]
fn modulus_limbs_are_those_of_the_field() {
    assert_eq!(SCALAR_MODULUS_LIMBS, <Fr as PrimeField>::Params::MODULUS.0);
}

#[test]
fn from_limbs_takes_what_is_below_the_modulus() {
    assert_eq!(Scalar::from_limbs([0, 0, 0, 0]).unwrap().limbs(), [0, 0, 0, 0]);
    assert_eq!(Scalar::from_limbs(modulus_minus(1)).unwrap().limbs(), modulus_minus(1));
    assert!(Scalar::from_limbs(SCALAR_MODULUS_LIMBS).is_none());
    assert!(Scalar::from_limbs([0, 0, 0, u64::MAX]).is_none());
    let mut above = SCALAR_MODULUS_LIMBS;
    above[0] += 1;
    assert!(Scalar::from_limbs(above).is_none());
}

#[test]
fn limbs_are_compared_from_the_most_significant() {
    assert!(limbs_less_than(&[5, 0], &[0, 1]));
    assert!(!limbs_less_than(&[0, 1], &[5, 0]));
    assert!(limbs_less_than(&[1, 7], &[2, 7]));
    assert!(!limbs_less_than(&[2, 7], &[2, 7]));
    assert!(!limbs_less_than::<0>(&[], &[]));
    assert!(limbs_equal(&[2, 7], &[2, 7]));
    assert!(!limbs_equal(&[2, 7], &[7, 2]));
}

#[test]
fn subtraction_wraps_around_the_modulus() {
    assert_eq!(small(5).sub(&small(3)), small(2));
    assert_eq!(small(3).sub(&small(5)).limbs(), modulus_minus(2));
    assert_eq!(small(0).sub(&small(0)), small(0));
}

#[test]
fn multiplication_is_reduced() {
    assert_eq!(small(2).mul(&small(3)), small(6));
    let minus_one = Scalar::from_limbs(modulus_minus(1)).unwrap();
    assert_eq!(minus_one.mul(&minus_one), small(1));
    assert_eq!(minus_one.mul(&small(2)).limbs(), modulus_minus(2));
}

#[test]
fn challenge_bytes_lose_their_three_highest_bits() {
    let mut bytes = [0u8; 32];
    assert_eq!(Scalar::from_random_bytes(&bytes), Some(small(0)));
    bytes[0] = 7;
    bytes[31] = 0xe0;
    assert_eq!(Scalar::from_random_bytes(&bytes), Some(small(7)));
    bytes[31] = 0xe1;
    let scalar = Scalar::from_random_bytes(&bytes).unwrap();
    assert_eq!(scalar.limbs(), [7, 0, 0, 1 << 56]);
}

#[test]
fn challenge_bytes_at_or_above_the_modulus_are_no_scalar() {
    assert_eq!(Scalar::from_random_bytes(&[0xff; 32]), None);
    let mut bytes = [0u8; 32];
    for (i, limb) in SCALAR_MODULUS_LIMBS.iter().enumerate() {
        bytes[8 * i..8 * i + 8].copy_from_slice(&limb.to_le_bytes());
    }
    assert_eq!(Scalar::from_random_bytes(&bytes), None);
    bytes[0] -= 1;
    assert_eq!(Scalar::from_random_bytes(&bytes).unwrap().limbs(), modulus_minus(1));
}

#[test]
fn challenge_bytes_are_read_as_the_field_reads_them() {
    let mut bytes = [0u8; 32];
    for round in 0..64u8 {
        for (i, byte) in bytes.iter_mut().enumerate() {
            *byte = (i as u8).wrapping_mul(37).wrapping_add(round.wrapping_mul(101));
        }
        let expected = Fr::from_random_bytes(&bytes).map(|f| f.into_repr().0);
        assert_eq!(Scalar::from_random_bytes(&bytes).map(|s| s.limbs()), expected);
    }
}

#[test]
fn encoding_is_the_representative_in_little_endian() {
    assert_eq!(SCALAR_SIZE, 32);
    let mut expected = vec![0u8; 32];
    expected[0] = 1;
    assert_eq!(small(1).encode(), Ok(expected));
    let scalar = Scalar::from_limbs([0x0807060504030201, 0x1, 0, 0x0100000000000000]).unwrap();
    let bytes = scalar.encode().unwrap();
    assert_eq!(&bytes[..9], &[1, 2, 3, 4, 5, 6, 7, 8, 1]);
    assert_eq!(bytes[31], 1);
    assert_eq!(Scalar::decode(&bytes), Ok(scalar));
}

#[test]
fn encoding_is_that_of_the_field() {
    let rng = &mut thread_rng();
    for _ in 0..16 {
        let scalar = Scalar::random(rng);
        let element = Fr::from_repr(ark_ff::BigInteger256(scalar.limbs())).unwrap();
        let mut expected = Vec::new();
        element.serialize(&mut expected).unwrap();
        assert_eq!(scalar.encode(), Ok(expected));
    }
}

#[test]
fn decoding_refuses_what_is_no_scalar() {
    assert_eq!(Scalar::decode(&[0u8; 31]), Err(SigmaError::SerializationError));
    assert_eq!(Scalar::decode(&[0u8; 33]), Err(SigmaError::SerializationError));
    assert_eq!(Scalar::decode(&[0xff; 32]), Err(SigmaError::SerializationError));
    let mut bytes = [0u8; 32];
    for (i, limb) in SCALAR_MODULUS_LIMBS.iter().enumerate() {
        bytes[8 * i..8 * i + 8].copy_from_slice(&limb.to_le_bytes());
    }
    assert_eq!(Scalar::decode(&bytes), Err(SigmaError::SerializationError));
    bytes[0] -= 1;
    assert_eq!(Scalar::decode(&bytes).unwrap().limbs(), modulus_minus(1));
    assert_eq!(Scalar::decode(&[0u8; 32]), Ok(small(0)));
}

#[test]
fn random_scalars_are_canonical() {
    let rng = &mut thread_rng();
    for _ in 0..32 {
        let scalar = Scalar::random(rng);
        assert_eq!(Scalar::from_limbs(scalar.limbs()), Some(scalar));
    }
    assert_ne!(Scalar::random(rng), Scalar::random(rng));
}
