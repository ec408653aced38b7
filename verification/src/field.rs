//! The scalar field of the group: integers modulo the prime order of the
//! BLS12-377 groups.
//!
//! A [`Scalar`] holds the canonical representative of a field element as four
//! 64-bit limbs, least significant first. Its view is the natural number below
//! [`scalar_modulus`] that the limbs spell out. The field operations are done by
//! `ark-ff`; what the library states of them is ordinary modular arithmetic.

use crate::limbs::{
    above_limbs, le_bytes_value, lemma_limbs_spell_value, lemma_value_decides_limbs, limb_at,
    limb_base, limbs_less_than, limbs_value,
};
use crate::{Challenge, SigmaError};
use ark_ff::{Field, PrimeField};
use ark_serialize::{CanonicalDeserialize, CanonicalSerialize};
use ark_std::UniformRand;
use vstd::prelude::*;

verus! {

/// The thread-local generator of the `rand` crate: a cryptographically secure
/// generator, seeded by the system.
#[verifier::external_type_specification]
#[verifier::external_body]
pub struct ExThreadRng(rand::rngs::ThreadRng);

/// The order of the scalar field.
pub open spec fn scalar_modulus() -> nat {
    8444461749428370424248824938781546531375899335154063827935233455917409239041nat
}

/// The limbs of [`scalar_modulus`], least significant first.
pub const SCALAR_MODULUS_LIMBS: [u64; 4] = [
    725501752471715841u64,
    6461107452199829505u64,
    6968279316240510977u64,
    1345280370688173398u64,
];

/// The number of values that fit in the bits of the scalar modulus: 2^253.
pub open spec fn scalar_bit_range() -> nat {
    0x2000_0000_0000_0000_0000_0000_0000_0000_0000_0000_0000_0000_0000_0000_0000_0000nat
}

/// The integer that challenge bytes are read as: the little-endian value of the
/// bytes with every bit above the modulus' bit length cleared.
pub open spec fn challenge_value(bytes: Seq<u8>) -> nat {
    le_bytes_value(bytes) % scalar_bit_range()
}

/// The field element that challenge bytes stand for, if any: the masked value
/// must be a canonical representative.
pub open spec fn challenge_scalar(bytes: Seq<u8>) -> Option<nat> {
    if challenge_value(bytes) < scalar_modulus() {
        Some(challenge_value(bytes))
    } else {
        None
    }
}

/// The canonical encoding of a field element, as `CanonicalSerialize` writes it;
/// `None` where the serializer reports an error.
pub uninterp spec fn scalar_encoding(value: nat) -> Option<Seq<u8>>;

/// The length of an encoded scalar in bytes.
pub const SCALAR_SIZE: usize = 32;

/// Subtraction in the scalar field.
pub open spec fn scalar_sub(a: nat, b: nat) -> nat {
    ((a - b) % (scalar_modulus() as int)) as nat
}

/// Multiplication in the scalar field.
pub open spec fn scalar_mul(a: nat, b: nat) -> nat {
    (a * b) % scalar_modulus()
}

/// The modulus limbs spell out the modulus.
pub proof fn lemma_scalar_modulus_limbs()
    ensures
        limbs_value(SCALAR_MODULUS_LIMBS@) == scalar_modulus(),
{
    let s0 = SCALAR_MODULUS_LIMBS@;
    let s1 = s0.drop_first();
    let s2 = s1.drop_first();
    let s3 = s2.drop_first();
    let s4 = s3.drop_first();
    assert(limbs_value(s4) == 0);
    assert(limbs_value(s3) == s3[0] + limb_base() * limbs_value(s4));
    assert(limbs_value(s2) == s2[0] + limb_base() * limbs_value(s3));
    assert(limbs_value(s1) == s1[0] + limb_base() * limbs_value(s2));
    assert(limbs_value(s0) == s0[0] + limb_base() * limbs_value(s1));
}

/// A number below the modulus has nothing above its four lowest limbs.
proof fn lemma_scalar_fits(value: nat)
    requires
        value < scalar_modulus(),
    ensures
        above_limbs(value, 4) == 0,
{
    let v1 = value / limb_base();
    let v2 = v1 / limb_base();
    let v3 = v2 / limb_base();
    let v4 = v3 / limb_base();
    assert(v4 == 0);
    assert(above_limbs(v4, 0) == v4);
    assert(above_limbs(v3, 1) == above_limbs(v4, 0));
    assert(above_limbs(v2, 2) == above_limbs(v3, 1));
    assert(above_limbs(v1, 3) == above_limbs(v2, 2));
    assert(above_limbs(value, 4) == above_limbs(v1, 3));
}

/// An element of the scalar field, held as its canonical representative.
#[derive(Clone, Copy, Debug, PartialEq, Eq)]
pub struct Scalar {
    limbs: [u64; 4],
}

impl View for Scalar {
    type V = nat;

    closed spec fn view(&self) -> nat {
        limbs_value(self.limbs@)
    }
}

impl Scalar {
    /// The representative is below the modulus. Every scalar that a program
    /// holds is canonical.
    #[verifier::type_invariant]
    pub open spec fn is_canonical(self) -> bool {
        self@ < scalar_modulus()
    }

    /// The limbs of the representative, least significant first.
    pub closed spec fn spec_limbs(self) -> Seq<u64> {
        self.limbs@
    }

    /// The scalar whose representative is `value`.
    pub closed spec fn from_value(value: nat) -> Scalar {
        Scalar { limbs: [limb_at(value, 0), limb_at(value, 1), limb_at(value, 2), limb_at(value, 3)] }
    }

    /// `from_value` builds the canonical scalar with a given view.
    pub proof fn lemma_from_value(value: nat)
        requires
            value < scalar_modulus(),
        ensures
            Scalar::from_value(value)@ == value,
            Scalar::from_value(value).is_canonical(),
    {
        lemma_scalar_fits(value);
        lemma_limbs_spell_value(value, Scalar::from_value(value).limbs@);
    }

    /// A scalar is determined by its view.
    pub proof fn lemma_view_determines(self)
        ensures
            Scalar::from_value(self@) == self,
    {
        lemma_value_decides_limbs(self.limbs@);
        let other = Scalar::from_value(self@);
        assert(other.limbs@ =~= self.limbs@);
        assert(other.limbs == self.limbs);
    }

    /// Makes a scalar from the limbs of its representative. Limbs that spell out
    /// a number at or above the modulus are no field element.
    pub fn from_limbs(limbs: [u64; 4]) -> (scalar: Option<Scalar>)
        ensures
            scalar is Some <==> limbs_value(limbs@) < scalar_modulus(),
            scalar matches Some(s) ==> s@ == limbs_value(limbs@) && s.spec_limbs() == limbs@,
    {
        proof {
            lemma_scalar_modulus_limbs();
        }
        if limbs_less_than(&limbs, &SCALAR_MODULUS_LIMBS) {
            Some(Scalar { limbs })
        } else {
            None
        }
    }

    /// The limbs of the representative, least significant first.
    pub fn limbs(&self) -> (limbs: [u64; 4])
        ensures
            limbs@ == self.spec_limbs(),
            limbs_value(limbs@) == self@,
    {
        self.limbs
    }

    /// Reads challenge bytes as a scalar. The bits above the modulus' bit length
    /// are dropped; what is left must be below the modulus.
    pub fn from_random_bytes(bytes: &Challenge) -> (scalar: Option<Scalar>)
        ensures
            scalar is Some <==> challenge_scalar(bytes@) is Some,
            scalar matches Some(s) ==> challenge_scalar(bytes@) == Some(s@),
    {
        match fr_from_random_bytes(bytes) {
            Some(limbs) => Some(Scalar { limbs }),
            None => None,
        }
    }

    /// The canonical encoding of the scalar: the bytes that the serializer wrote,
    /// provided that they are the representative in 32 bytes, least significant
    /// first.
    pub open spec fn spec_encode(self) -> Option<Seq<u8>> {
        match scalar_encoding(self@) {
            Some(bytes) => if bytes.len() == SCALAR_SIZE && le_bytes_value(bytes) == self@ {
                Some(bytes)
            } else {
                None
            },
            None => None,
        }
    }

    /// The scalar that bytes encode: they are 32, and spell out a representative
    /// below the modulus.
    pub open spec fn spec_decode(bytes: Seq<u8>) -> Option<Scalar> {
        if bytes.len() == SCALAR_SIZE && le_bytes_value(bytes) < scalar_modulus() {
            Some(Scalar::from_value(le_bytes_value(bytes)))
        } else {
            None
        }
    }

    /// Decoding gives back the scalar that was encoded.
    pub proof fn lemma_decode_encoded(self, bytes: Seq<u8>)
        requires
            self.is_canonical(),
            self.spec_encode() == Some(bytes),
        ensures
            Scalar::spec_decode(bytes) == Some(self),
    {
        self.lemma_view_determines();
    }

    /// Writes the scalar in its canonical encoding.
    pub fn encode(&self) -> (bytes: Result<Vec<u8>, SigmaError>)
        ensures
            match bytes {
                Ok(b) => self.spec_encode() == Some(b@),
                Err(e) => self.spec_encode() is None && e == SigmaError::SerializationError,
            },
    {
        proof {
            use_type_invariant(self);
        }
        match fr_serialize(&self.limbs) {
            Ok(b) => {
                if b.len() == SCALAR_SIZE {
                    Ok(b)
                } else {
                    Err(SigmaError::SerializationError)
                }
            },
            Err(_) => Err(SigmaError::SerializationError),
        }
    }

    /// Reads a scalar from its canonical encoding.
    pub fn decode(bytes: &[u8]) -> (scalar: Result<Scalar, SigmaError>)
        ensures
            match scalar {
                Ok(s) => Scalar::spec_decode(bytes@) == Some(s),
                Err(e) => Scalar::spec_decode(bytes@) is None && e == SigmaError::SerializationError,
            },
    {
        if bytes.len() != SCALAR_SIZE {
            return Err(SigmaError::SerializationError);
        }
        match fr_deserialize(bytes) {
            Ok(limbs) => {
                let scalar = Scalar { limbs };
                proof {
                    scalar.lemma_view_determines();
                }
                Ok(scalar)
            },
            Err(_) => Err(SigmaError::SerializationError),
        }
    }

    /// Field subtraction.
    pub fn sub(&self, rhs: &Scalar) -> (difference: Scalar)
        ensures
            difference@ == scalar_sub(self@, rhs@),
    {
        proof {
            use_type_invariant(self);
            use_type_invariant(rhs);
        }
        let limbs = fr_sub(&self.limbs, &rhs.limbs);
        Scalar { limbs }
    }

    /// Field multiplication.
    pub fn mul(&self, rhs: &Scalar) -> (product: Scalar)
        ensures
            product@ == scalar_mul(self@, rhs@),
    {
        proof {
            use_type_invariant(self);
            use_type_invariant(rhs);
        }
        let limbs = fr_mul(&self.limbs, &rhs.limbs);
        Scalar { limbs }
    }

    /// Draws a scalar from the generator. Whatever the generator gives, what is
    /// drawn is an element of the field: its representative is below the modulus.
    /// Which element it is depends on the generator alone.
    pub fn random(rng: &mut rand::rngs::ThreadRng) -> (scalar: Scalar)
        ensures
            scalar@ < scalar_modulus(),
    {
        let limbs = fr_rand(rng);
        Scalar { limbs }
    }
}

/// `Field::from_random_bytes` of `ark-ff`, on the scalar field and on 32 bytes:
/// the bytes are read as a little-endian integer, the bits from the modulus' bit
/// length on are cleared, and the result is a field element only if it is below
/// the modulus. The limbs returned are those of `PrimeField::into_repr`.
#[verifier::external_body]
fn fr_from_random_bytes(bytes: &Challenge) -> (limbs: Option<[u64; 4]>)
    ensures
        limbs is Some <==> challenge_value(bytes@) < scalar_modulus(),
        limbs matches Some(l) ==> limbs_value(l@) == challenge_value(bytes@),
{
    match ark_bls12_377::Fr::from_random_bytes(bytes) {
        Some(element) => Some(element.into_repr().0),
        None => None,
    }
}

/// Subtraction of `ark-ff` prime field elements, on the scalar field: the
/// difference modulo the field's order, as a canonical representative.
#[verifier::external_body]
fn fr_sub(a: &[u64; 4], b: &[u64; 4]) -> (limbs: [u64; 4])
    requires
        limbs_value(a@) < scalar_modulus(),
        limbs_value(b@) < scalar_modulus(),
    ensures
        limbs_value(limbs@) == scalar_sub(limbs_value(a@), limbs_value(b@)),
        limbs_value(limbs@) < scalar_modulus(),
{
    let a = ark_bls12_377::Fr::from_repr(ark_ff::BigInteger256(*a)).unwrap();
    let b = ark_bls12_377::Fr::from_repr(ark_ff::BigInteger256(*b)).unwrap();
    (a - b).into_repr().0
}

/// Multiplication of `ark-ff` prime field elements, on the scalar field: the
/// product modulo the field's order, as a canonical representative.
#[verifier::external_body]
fn fr_mul(a: &[u64; 4], b: &[u64; 4]) -> (limbs: [u64; 4])
    requires
        limbs_value(a@) < scalar_modulus(),
        limbs_value(b@) < scalar_modulus(),
    ensures
        limbs_value(limbs@) == scalar_mul(limbs_value(a@), limbs_value(b@)),
        limbs_value(limbs@) < scalar_modulus(),
{
    let a = ark_bls12_377::Fr::from_repr(ark_ff::BigInteger256(*a)).unwrap();
    let b = ark_bls12_377::Fr::from_repr(ark_ff::BigInteger256(*b)).unwrap();
    (a * b).into_repr().0
}

/// `CanonicalSerialize::serialize` of `ark-serialize`, on an element of the
/// scalar field, into a fresh vector: the bytes written are the named encoding,
/// and they spell out the representative, least significant byte first. An error
/// of the serializer is the absence of that encoding.
#[verifier::external_body]
fn fr_serialize(limbs: &[u64; 4]) -> (bytes: Result<Vec<u8>, ark_serialize::SerializationError>)
    requires
        limbs_value(limbs@) < scalar_modulus(),
    ensures
        match bytes {
            Ok(b) => scalar_encoding(limbs_value(limbs@)) == Some(b@) && le_bytes_value(b@)
                == limbs_value(limbs@),
            Err(_) => scalar_encoding(limbs_value(limbs@)) is None,
        },
{
    let element = ark_bls12_377::Fr::from_repr(ark_ff::BigInteger256(*limbs)).unwrap();
    let mut bytes = Vec::new();
    element.serialize(&mut bytes)?;
    Ok(bytes)
}

/// `CanonicalDeserialize::deserialize` of `ark-serialize`, for an element of the
/// scalar field, from 32 bytes: the bytes are read as a little-endian integer,
/// which is a field element exactly when it is below the modulus.
#[verifier::external_body]
fn fr_deserialize(bytes: &[u8]) -> (limbs: Result<[u64; 4], ark_serialize::SerializationError>)
    requires
        bytes@.len() == SCALAR_SIZE,
    ensures
        limbs is Ok <==> le_bytes_value(bytes@) < scalar_modulus(),
        limbs matches Ok(l) ==> limbs_value(l@) == le_bytes_value(bytes@),
{
    let element = ark_bls12_377::Fr::deserialize(bytes)?;
    Ok(element.into_repr().0)
}

/// `UniformRand::rand` of `ark-std`, on the scalar field: whatever the generator
/// gives, the element drawn is a field element, so its representative is below
/// the modulus.
#[verifier::external_body]
fn fr_rand(rng: &mut rand::rngs::ThreadRng) -> (limbs: [u64; 4])
    ensures
        limbs_value(limbs@) < scalar_modulus(),
{
    ark_bls12_377::Fr::rand(rng).into_repr().0
}

} // verus!
