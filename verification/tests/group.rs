use ark_bls12_377::{Fq, Fr, G1Affine, G1Projective};
use ark_ec::{AffineCurve, ProjectiveCurve};
use ark_ff::{FpParameters, PrimeField};
use ark_serialize::CanonicalSerialize;
use sigma_protocol_standard::field::Scalar;
use sigma_protocol_standard::group::{GroupElement, BASE_MODULUS_LIMBS, POINT_SIZE};
use sigma_protocol_standard::SigmaError;

fn to_element(point: G1Projective) -> GroupElement {
    let affine = point.into_affine();
    GroupElement::from_affine(affine.x.into_repr().0, affine.y.into_repr().0, affine.infinity)
        .unwrap()
}

fn generator() -> G1Projective {
    G1Projective::prime_subgroup_generator()
}

fn small(value: u64) -> Scalar {
    Scalar::from_limbs([value, 0, 0, 0]).unwrap()
}

#[test]
fn modulus_limbs_are_those_of_the_base_field() {
    assert_eq!(BASE_MODULUS_LIMBS, <Fq as PrimeField>::Params::MODULUS.0);
}

#[test]
fn from_affine_keeps_the_coordinates() {
    let affine = generator().into_affine();
    let element = to_element(generator());
    assert_eq!(element.x(), affine.x.into_repr().0);
    assert_eq!(element.y(), affine.y.into_repr().0);
    assert!(!element.is_infinity());
}

#[test]
fn from_affine_refuses_coordinates_at_or_above_the_modulus() {
    let affine = generator().into_affine();
    let y = affine.y.into_repr().0;
    assert!(GroupElement::from_affine(BASE_MODULUS_LIMBS, y, false).is_none());
    assert!(GroupElement::from_affine(y, BASE_MODULUS_LIMBS, false).is_none());
    assert!(GroupElement::from_affine([u64::MAX; 6], y, false).is_none());
    let mut below = BASE_MODULUS_LIMBS;
    below[0] -= 1;
    assert!(GroupElement::from_affine(below, y, false).is_some());
}

#[test]
fn the_point_at_infinity_has_one_form() {
    let zero = [0u64; 6];
    let one = [1u64, 0, 0, 0, 0, 0];
    let infinity = GroupElement::from_affine(zero, one, true).unwrap();
    assert!(infinity.is_infinity());
    assert!(GroupElement::from_affine(one, one, true).is_none());
    assert!(GroupElement::from_affine(zero, zero, true).is_none());
    let neutral = G1Affine::new(Fq::from(0u64), Fq::from(1u64), true);
    assert_eq!(to_element(neutral.into_projective()), infinity);
    assert_eq!(to_element(generator()).mul(&small(0)), infinity);
    assert_eq!(to_element(generator()).add(&infinity), to_element(generator()));
}

#[test]
fn multiples_are_those_of_the_curve() {
    let g = to_element(generator());
    assert_eq!(g.mul(&small(1)), g);
    assert_eq!(g.mul(&small(5)), to_element(generator().mul(Fr::from(5u64).into_repr())));
    let big = Scalar::from_limbs([3, 2, 1, 0x0100000000000000]).unwrap();
    let expected = generator().mul(ark_ff::BigInteger256(big.limbs()));
    assert_eq!(g.mul(&big), to_element(expected));
    assert_ne!(g.mul(&small(5)), g);
}

#[test]
fn sums_are_those_of_the_curve() {
    let g = to_element(generator());
    let two = to_element(generator() + generator());
    assert_eq!(g.add(&g), two);
    assert_eq!(g.mul(&small(2)), two);
    assert_eq!(g.mul(&small(2)).add(&g.mul(&small(3))), g.mul(&small(5)));
    assert_ne!(g.add(&g), g);
}

#[test]
fn equal_elements_are_told_from_others() {
    let g = to_element(generator());
    assert!(g.equals(&g));
    assert!(g.mul(&small(3)).equals(&g.add(&g).add(&g)));
    assert!(!g.equals(&g.add(&g)));
    let infinity = GroupElement::from_affine([0; 6], [1, 0, 0, 0, 0, 0], true).unwrap();
    assert!(infinity.equals(&infinity));
    assert!(!infinity.equals(&g));
}

#[test]
fn encoding_is_the_canonical_compressed_form() {
    assert_eq!(POINT_SIZE, 48);
    let point = generator().mul(Fr::from(7u64).into_repr());
    let mut expected = Vec::new();
    point.serialize(&mut expected).unwrap();
    let encoded = to_element(point).encode().unwrap();
    assert_eq!(encoded.len(), 48);
    assert_eq!(encoded, expected);
    assert_ne!(encoded, to_element(generator()).encode().unwrap());
}

#[test]
fn decoding_gives_the_element_back() {
    let element = to_element(generator()).mul(&small(11));
    let bytes = element.encode().unwrap();
    assert_eq!(GroupElement::decode(&bytes), Ok(element));
    let infinity = GroupElement::from_affine([0; 6], [1, 0, 0, 0, 0, 0], true).unwrap();
    assert_eq!(GroupElement::decode(&infinity.encode().unwrap()), Ok(infinity));
}

#[test]
fn decoding_refuses_what_is_no_element() {
    let bytes = to_element(generator()).encode().unwrap();
    assert_eq!(GroupElement::decode(&bytes[..47]), Err(SigmaError::SerializationError));
    let mut longer = bytes.clone();
    longer.push(0);
    assert_eq!(GroupElement::decode(&longer), Err(SigmaError::SerializationError));
    assert_eq!(GroupElement::decode(&[0xff; 48]), Err(SigmaError::SerializationError));
    assert_eq!(GroupElement::decode(&[]), Err(SigmaError::SerializationError));
}
