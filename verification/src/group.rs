//! The group in which statements are made: the first source group of BLS12-377.
//!
//! A [`GroupElement`] holds a point in affine coordinates, each coordinate as the
//! canonical representative of a base field element in six 64-bit limbs. The
//! point at infinity is held as `(0, 1)` with the infinity flag set, so that two
//! values are the same group element exactly when their fields agree. Its view is
//! the [`Point`] that the limbs spell out.
//!
//! Scalar multiplication, addition, comparison and the canonical encoding are
//! done by `ark-ec`. The library does not say what they compute beyond giving
//! each result a name; it does not check either that a point lies on the curve.

use crate::field::Scalar;
use crate::limbs::{
    above_limbs, lemma_limbs_spell_value, lemma_limbs_value_injective, lemma_value_decides_limbs,
    limb_at, limb_base, limbs_equal, limbs_less_than, limbs_value,
};
use crate::SigmaError;
use ark_ec::{AffineCurve, ProjectiveCurve};
use ark_ff::PrimeField;
use ark_serialize::{CanonicalDeserialize, CanonicalSerialize};
use vstd::prelude::*;

verus! {

/// A point in affine coordinates, or the point at infinity.
pub struct Point {
    pub x: nat,
    pub y: nat,
    pub infinity: bool,
}

/// The order of the base field.
pub open spec fn base_modulus() -> nat {
    258664426012969094010652733694893533536393512754914660539884262666720468348340822774968888139573360124440321458177nat
}

/// The limbs of [`base_modulus`], least significant first.
pub const BASE_MODULUS_LIMBS: [u64; 6] = [
    0x8508c00000000001u64,
    0x170b5d4430000000u64,
    0x1ef3622fba094800u64,
    0x1a22d9f300f5138fu64,
    0xc63b05c06ca1493bu64,
    0x01ae3a4617c510eau64,
];

/// The coordinates under which the point at infinity is held.
pub const INFINITY_X_LIMBS: [u64; 6] = [0u64, 0u64, 0u64, 0u64, 0u64, 0u64];

pub const INFINITY_Y_LIMBS: [u64; 6] = [1u64, 0u64, 0u64, 0u64, 0u64, 0u64];

/// The scalar multiple `scalar * point`, as `ProjectiveCurve::mul` computes it.
pub uninterp spec fn curve_mul(point: Point, scalar: nat) -> Point;

/// The sum of two points, as the group addition of `ark-ec` computes it.
pub uninterp spec fn curve_add(a: Point, b: Point) -> Point;

/// The canonical compressed encoding of a point, as `CanonicalSerialize` writes
/// it; `None` where the serializer reports an error.
pub uninterp spec fn point_encoding(point: Point) -> Option<Seq<u8>>;

/// The point that bytes encode, as `CanonicalDeserialize` reads it; `None` where
/// the deserializer reports an error.
pub uninterp spec fn point_decoding(bytes: Seq<u8>) -> Option<Point>;

/// The length of an encoded group element in bytes.
pub const POINT_SIZE: usize = 48;

/// The point that coordinates in limbs stand for.
pub open spec fn affine_point(x: Seq<u64>, y: Seq<u64>, infinity: bool) -> Point {
    Point { x: limbs_value(x), y: limbs_value(y), infinity }
}

/// Both coordinates are canonical representatives, and the point at infinity is
/// written in its one form.
pub open spec fn is_canonical_point(point: Point) -> bool {
    &&& point.x < base_modulus()
    &&& point.y < base_modulus()
    &&& point.infinity ==> point.x == 0 && point.y == 1
}

/// The modulus limbs spell out the modulus.
pub proof fn lemma_base_modulus_limbs()
    ensures
        limbs_value(BASE_MODULUS_LIMBS@) == base_modulus(),
{
    lemma_six_limbs(BASE_MODULUS_LIMBS@);
}

/// The limbs under which the point at infinity is held spell out 0 and 1.
pub proof fn lemma_infinity_limbs()
    ensures
        limbs_value(INFINITY_X_LIMBS@) == 0,
        limbs_value(INFINITY_Y_LIMBS@) == 1,
{
    lemma_six_limbs(INFINITY_X_LIMBS@);
    lemma_six_limbs(INFINITY_Y_LIMBS@);
}

/// Six limbs spell out the sum of the limbs, each weighted by its power of 2^64.
proof fn lemma_six_limbs(limbs: Seq<u64>)
    requires
        limbs.len() == 6,
    ensures
        limbs_value(limbs) == limbs[0] + limb_base() * (limbs[1] + limb_base() * (limbs[2]
            + limb_base() * (limbs[3] + limb_base() * (limbs[4] + limb_base() * limbs[5])))),
{
    let s1 = limbs.drop_first();
    let s2 = s1.drop_first();
    let s3 = s2.drop_first();
    let s4 = s3.drop_first();
    let s5 = s4.drop_first();
    let s6 = s5.drop_first();
    assert(limbs_value(s6) == 0);
    assert(limbs_value(s5) == s5[0] + limb_base() * limbs_value(s6));
    assert(limbs_value(s4) == s4[0] + limb_base() * limbs_value(s5));
    assert(limbs_value(s3) == s3[0] + limb_base() * limbs_value(s4));
    assert(limbs_value(s2) == s2[0] + limb_base() * limbs_value(s3));
    assert(limbs_value(s1) == s1[0] + limb_base() * limbs_value(s2));
    assert(limbs_value(limbs) == limbs[0] + limb_base() * limbs_value(s1));
}

/// A number below the base modulus has nothing above its six lowest limbs.
proof fn lemma_coordinate_fits(value: nat)
    requires
        value < base_modulus(),
    ensures
        above_limbs(value, 6) == 0,
{
    let v1 = value / limb_base();
    let v2 = v1 / limb_base();
    let v3 = v2 / limb_base();
    let v4 = v3 / limb_base();
    let v5 = v4 / limb_base();
    let v6 = v5 / limb_base();
    assert(v6 == 0);
    assert(above_limbs(v6, 0) == v6);
    assert(above_limbs(v5, 1) == above_limbs(v6, 0));
    assert(above_limbs(v4, 2) == above_limbs(v5, 1));
    assert(above_limbs(v3, 3) == above_limbs(v4, 2));
    assert(above_limbs(v2, 4) == above_limbs(v3, 3));
    assert(above_limbs(v1, 5) == above_limbs(v2, 4));
    assert(above_limbs(value, 6) == above_limbs(v1, 5));
}

/// An element of the group, held in canonical affine coordinates.
#[derive(Clone, Copy, Debug, PartialEq, Eq)]
pub struct GroupElement {
    x: [u64; 6],
    y: [u64; 6],
    infinity: bool,
}

impl View for GroupElement {
    type V = Point;

    closed spec fn view(&self) -> Point {
        affine_point(self.x@, self.y@, self.infinity)
    }
}

impl GroupElement {
    /// The coordinates are canonical. Every element that a program holds is
    /// canonical.
    #[verifier::type_invariant]
    pub open spec fn is_canonical(self) -> bool {
        is_canonical_point(self@)
    }

    /// The element that is held for `point`.
    pub closed spec fn from_point(point: Point) -> GroupElement {
        GroupElement {
            x: [
                limb_at(point.x, 0),
                limb_at(point.x, 1),
                limb_at(point.x, 2),
                limb_at(point.x, 3),
                limb_at(point.x, 4),
                limb_at(point.x, 5),
            ],
            y: [
                limb_at(point.y, 0),
                limb_at(point.y, 1),
                limb_at(point.y, 2),
                limb_at(point.y, 3),
                limb_at(point.y, 4),
                limb_at(point.y, 5),
            ],
            infinity: point.infinity,
        }
    }

    /// `from_point` builds the canonical element with a given view.
    pub proof fn lemma_from_point(point: Point)
        requires
            is_canonical_point(point),
        ensures
            GroupElement::from_point(point)@ == point,
            GroupElement::from_point(point).is_canonical(),
    {
        lemma_coordinate_fits(point.x);
        lemma_coordinate_fits(point.y);
        lemma_limbs_spell_value(point.x, GroupElement::from_point(point).x@);
        lemma_limbs_spell_value(point.y, GroupElement::from_point(point).y@);
    }

    /// An element is determined by its view.
    pub proof fn lemma_view_determines(self)
        ensures
            GroupElement::from_point(self@) == self,
    {
        lemma_value_decides_limbs(self.x@);
        lemma_value_decides_limbs(self.y@);
        let other = GroupElement::from_point(self@);
        assert(other.x@ =~= self.x@);
        assert(other.y@ =~= self.y@);
        assert(other.x == self.x);
        assert(other.y == self.y);
    }

    /// Makes an element from affine coordinates in limbs. Coordinates that are no
    /// canonical representatives, and a point at infinity that is not written as
    /// `(0, 1)`, are refused. Whether the point lies on the curve is not checked.
    pub fn from_affine(x: [u64; 6], y: [u64; 6], infinity: bool) -> (element: Option<GroupElement>)
        ensures
            element is Some <==> is_canonical_point(affine_point(x@, y@, infinity)),
            element matches Some(e) ==> e@ == affine_point(x@, y@, infinity),
    {
        proof {
            lemma_base_modulus_limbs();
            lemma_infinity_limbs();
        }
        if !limbs_less_than(&x, &BASE_MODULUS_LIMBS) {
            return None;
        }
        if !limbs_less_than(&y, &BASE_MODULUS_LIMBS) {
            return None;
        }
        if infinity {
            let x_fits = limbs_equal(&x, &INFINITY_X_LIMBS);
            let y_fits = limbs_equal(&y, &INFINITY_Y_LIMBS);
            proof {
                if limbs_value(x@) == 0 {
                    lemma_limbs_value_injective(x@, INFINITY_X_LIMBS@);
                }
                if limbs_value(y@) == 1 {
                    lemma_limbs_value_injective(y@, INFINITY_Y_LIMBS@);
                }
            }
            if !x_fits || !y_fits {
                return None;
            }
        }
        Some(GroupElement { x, y, infinity })
    }

    /// The limbs of the first coordinate, least significant first.
    pub fn x(&self) -> (limbs: [u64; 6])
        ensures
            limbs_value(limbs@) == self@.x,
    {
        self.x
    }

    /// The limbs of the second coordinate, least significant first.
    pub fn y(&self) -> (limbs: [u64; 6])
        ensures
            limbs_value(limbs@) == self@.y,
    {
        self.y
    }

    /// Whether this is the point at infinity, the neutral element.
    pub fn is_infinity(&self) -> (infinity: bool)
        ensures
            infinity == self@.infinity,
    {
        self.infinity
    }

    /// Scalar multiplication.
    pub fn mul(&self, scalar: &Scalar) -> (product: GroupElement)
        ensures
            product@ == curve_mul(self@, scalar@),
    {
        proof {
            use_type_invariant(self);
        }
        let limbs = scalar.limbs();
        let (x, y, infinity) = g1_mul(&self.x, &self.y, self.infinity, &limbs);
        GroupElement { x, y, infinity }
    }

    /// Group addition.
    pub fn add(&self, other: &GroupElement) -> (sum: GroupElement)
        ensures
            sum@ == curve_add(self@, other@),
    {
        proof {
            use_type_invariant(self);
            use_type_invariant(other);
        }
        let (x, y, infinity) = g1_add(
            &self.x, &self.y, self.infinity, &other.x, &other.y, other.infinity,
        );
        GroupElement { x, y, infinity }
    }

    /// Whether two values are the same group element.
    pub fn equals(&self, other: &GroupElement) -> (same: bool)
        ensures
            same == (self@ == other@),
            same == (*self == *other),
    {
        proof {
            use_type_invariant(self);
            use_type_invariant(other);
            self.lemma_view_determines();
            other.lemma_view_determines();
        }
        g1_eq(&self.x, &self.y, self.infinity, &other.x, &other.y, other.infinity)
    }

    /// The canonical compressed encoding of the element: the bytes that the
    /// serializer wrote, provided that they are as many as an encoded element
    /// has.
    pub open spec fn spec_encode(self) -> Option<Seq<u8>> {
        match point_encoding(self@) {
            Some(bytes) => if bytes.len() == POINT_SIZE {
                Some(bytes)
            } else {
                None
            },
            None => None,
        }
    }

    /// The element that bytes encode: they are as many as an encoded element has,
    /// and the deserializer reads a point in canonical coordinates from them.
    pub open spec fn spec_decode(bytes: Seq<u8>) -> Option<GroupElement> {
        if bytes.len() == POINT_SIZE {
            match point_decoding(bytes) {
                Some(point) => if is_canonical_point(point) {
                    Some(GroupElement::from_point(point))
                } else {
                    None
                },
                None => None,
            }
        } else {
            None
        }
    }

    /// Writes the element in its canonical compressed encoding.
    pub fn encode(&self) -> (bytes: Result<Vec<u8>, SigmaError>)
        ensures
            match bytes {
                Ok(b) => self.spec_encode() == Some(b@),
                Err(e) => self.spec_encode() is None && e == SigmaError::SerializationError,
            },
    {
        proof {
            use_type_invariant(self);
        }
        match g1_serialize(&self.x, &self.y, self.infinity) {
            Ok(b) => {
                if b.len() == POINT_SIZE {
                    Ok(b)
                } else {
                    Err(SigmaError::SerializationError)
                }
            },
            Err(_) => Err(SigmaError::SerializationError),
        }
    }

    /// Reads an element from its canonical compressed encoding. Bytes that encode
    /// no point of the prime-order subgroup are refused by the deserializer.
    pub fn decode(bytes: &[u8]) -> (element: Result<GroupElement, SigmaError>)
        ensures
            match element {
                Ok(e) => GroupElement::spec_decode(bytes@) == Some(e),
                Err(e) => GroupElement::spec_decode(bytes@) is None
                    && e == SigmaError::SerializationError,
            },
    {
        if bytes.len() != POINT_SIZE {
            return Err(SigmaError::SerializationError);
        }
        match g1_deserialize(bytes) {
            Ok((x, y, infinity)) => {
                let element = GroupElement { x, y, infinity };
                proof {
                    element.lemma_view_determines();
                }
                Ok(element)
            },
            Err(_) => Err(SigmaError::SerializationError),
        }
    }
}

/// `ProjectiveCurve::mul` of `ark-ec`, on the first source group of BLS12-377,
/// between affine coordinates: the result is the named multiple, brought back to
/// affine form, where each coordinate is a canonical representative and the
/// point at infinity is `(0, 1)`.
#[verifier::external_body]
fn g1_mul(x: &[u64; 6], y: &[u64; 6], infinity: bool, scalar: &[u64; 4]) -> (product: (
    [u64; 6],
    [u64; 6],
    bool,
))
    requires
        is_canonical_point(affine_point(x@, y@, infinity)),
    ensures
        affine_point(product.0@, product.1@, product.2) == curve_mul(
            affine_point(x@, y@, infinity),
            limbs_value(scalar@),
        ),
        is_canonical_point(affine_point(product.0@, product.1@, product.2)),
{
    let x = ark_bls12_377::Fq::from_repr(ark_ff::BigInteger384(*x)).unwrap();
    let y = ark_bls12_377::Fq::from_repr(ark_ff::BigInteger384(*y)).unwrap();
    let point = ark_bls12_377::G1Affine::new(x, y, infinity).into_projective();
    let product = point.mul(*scalar).into_affine();
    (product.x.into_repr().0, product.y.into_repr().0, product.infinity)
}

/// The addition of `ark-ec`'s projective points, on the first source group of
/// BLS12-377, between affine coordinates: the result is the named sum, brought
/// back to affine form, where each coordinate is a canonical representative and
/// the point at infinity is `(0, 1)`.
#[verifier::external_body]
fn g1_add(
    ax: &[u64; 6],
    ay: &[u64; 6],
    a_infinity: bool,
    bx: &[u64; 6],
    by: &[u64; 6],
    b_infinity: bool,
) -> (sum: ([u64; 6], [u64; 6], bool))
    requires
        is_canonical_point(affine_point(ax@, ay@, a_infinity)),
        is_canonical_point(affine_point(bx@, by@, b_infinity)),
    ensures
        affine_point(sum.0@, sum.1@, sum.2) == curve_add(
            affine_point(ax@, ay@, a_infinity),
            affine_point(bx@, by@, b_infinity),
        ),
        is_canonical_point(affine_point(sum.0@, sum.1@, sum.2)),
{
    let ax = ark_bls12_377::Fq::from_repr(ark_ff::BigInteger384(*ax)).unwrap();
    let ay = ark_bls12_377::Fq::from_repr(ark_ff::BigInteger384(*ay)).unwrap();
    let bx = ark_bls12_377::Fq::from_repr(ark_ff::BigInteger384(*bx)).unwrap();
    let by = ark_bls12_377::Fq::from_repr(ark_ff::BigInteger384(*by)).unwrap();
    let a = ark_bls12_377::G1Affine::new(ax, ay, a_infinity).into_projective();
    let b = ark_bls12_377::G1Affine::new(bx, by, b_infinity).into_projective();
    let sum = (a + b).into_affine();
    (sum.x.into_repr().0, sum.y.into_repr().0, sum.infinity)
}

/// The equality of `ark-ec`'s projective points, on the first source group of
/// BLS12-377, between affine coordinates: canonical coordinates are the same
/// group element exactly when they are the same coordinates.
#[verifier::external_body]
fn g1_eq(
    ax: &[u64; 6],
    ay: &[u64; 6],
    a_infinity: bool,
    bx: &[u64; 6],
    by: &[u64; 6],
    b_infinity: bool,
) -> (same: bool)
    requires
        is_canonical_point(affine_point(ax@, ay@, a_infinity)),
        is_canonical_point(affine_point(bx@, by@, b_infinity)),
    ensures
        same == (affine_point(ax@, ay@, a_infinity) == affine_point(bx@, by@, b_infinity)),
{
    let ax = ark_bls12_377::Fq::from_repr(ark_ff::BigInteger384(*ax)).unwrap();
    let ay = ark_bls12_377::Fq::from_repr(ark_ff::BigInteger384(*ay)).unwrap();
    let bx = ark_bls12_377::Fq::from_repr(ark_ff::BigInteger384(*bx)).unwrap();
    let by = ark_bls12_377::Fq::from_repr(ark_ff::BigInteger384(*by)).unwrap();
    let a = ark_bls12_377::G1Affine::new(ax, ay, a_infinity).into_projective();
    let b = ark_bls12_377::G1Affine::new(bx, by, b_infinity).into_projective();
    a == b
}

/// `CanonicalSerialize::serialize` of `ark-serialize`, on a projective point of
/// the first source group of BLS12-377, into a fresh vector: the bytes written
/// are the named encoding of the point, and an error of the serializer is the
/// absence of that encoding.
#[verifier::external_body]
fn g1_serialize(x: &[u64; 6], y: &[u64; 6], infinity: bool) -> (bytes: Result<
    Vec<u8>,
    ark_serialize::SerializationError,
>)
    requires
        is_canonical_point(affine_point(x@, y@, infinity)),
    ensures
        match bytes {
            Ok(b) => point_encoding(affine_point(x@, y@, infinity)) == Some(b@),
            Err(_) => point_encoding(affine_point(x@, y@, infinity)) is None,
        },
{
    let x = ark_bls12_377::Fq::from_repr(ark_ff::BigInteger384(*x)).unwrap();
    let y = ark_bls12_377::Fq::from_repr(ark_ff::BigInteger384(*y)).unwrap();
    let point = ark_bls12_377::G1Affine::new(x, y, infinity).into_projective();
    let mut bytes = Vec::new();
    point.serialize(&mut bytes)?;
    Ok(bytes)
}

/// `CanonicalDeserialize::deserialize` of `ark-serialize`, for a projective
/// point of the first source group of BLS12-377: the point read is the named
/// decoding of the bytes, brought to affine form, where each coordinate is a
/// canonical representative and the point at infinity is `(0, 1)`. An error of
/// the deserializer is the absence of that decoding.
#[verifier::external_body]
fn g1_deserialize(bytes: &[u8]) -> (point: Result<
    ([u64; 6], [u64; 6], bool),
    ark_serialize::SerializationError,
>)
    ensures
        match point {
            Ok(p) => point_decoding(bytes@) == Some(affine_point(p.0@, p.1@, p.2))
                && is_canonical_point(affine_point(p.0@, p.1@, p.2)),
            Err(_) => point_decoding(bytes@) is None,
        },
{
    let point = ark_bls12_377::G1Projective::deserialize(bytes)?.into_affine();
    Ok((point.x.into_repr().0, point.y.into_repr().0, point.infinity))
}

} // verus!
