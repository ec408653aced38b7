//! The hash provider of a session: an incremental hash object that absorbs
//! bytes and hands out a digest while returning to its initial state.
//!
//! [`HashProvider`] is what the Fiat-Shamir transformation asks of a hash
//! function. [`Blake2sHasher`] provides it with BLAKE2s-256 of the `blake2`
//! crate. The digest itself is not specified here: it is a named function of the
//! bytes absorbed, and the library proves which bytes those are.

use crate::CHALLENGE_LENGTH;
use digest::Digest;
use vstd::prelude::*;

verus! {

/// The BLAKE2s hasher of the `blake2` crate, with a 32-byte digest.
#[verifier::external_type_specification]
#[verifier::external_body]
pub struct ExBlake2s(blake2::Blake2s);

/// The digest that an unkeyed BLAKE2s-256 hasher gives for `input`, as
/// `Digest::finalize_reset` returns it.
pub uninterp spec fn blake2s_digest(input: Seq<u8>) -> Seq<u8>;

/// The bytes that a hasher has absorbed since it was created or last reset.
pub uninterp spec fn blake2s_absorbed(hasher: blake2::Blake2s) -> Seq<u8>;

/// `Clone::clone` of a BLAKE2s hasher: the copy has absorbed the same bytes as
/// the hasher it was made from.
pub assume_specification[ <blake2::Blake2s as Clone>::clone ](hasher: &blake2::Blake2s) -> (copy:
    blake2::Blake2s)
    ensures
        blake2s_absorbed(copy) == blake2s_absorbed(*hasher),
;

/// An incremental hash object with digests of at least 32 bytes.
///
/// The object has absorbed a sequence of bytes, empty after a reset. Its digest
/// is a function of that sequence alone, whatever the pieces in which it was
/// absorbed.
pub trait HashProvider {
    /// The digest of `input`.
    spec fn spec_digest(input: Seq<u8>) -> Seq<u8>;

    /// The bytes absorbed since the last reset.
    spec fn absorbed(&self) -> Seq<u8>;

    /// Forgets what was absorbed.
    fn reset(&mut self)
        ensures
            final(self).absorbed() == Seq::<u8>::empty(),
    ;

    /// Absorbs `data` behind what was absorbed before. A hash object counts its
    /// input in 64 bits, which bounds how much it takes in.
    fn update(&mut self, data: &[u8])
        requires
            old(self).absorbed().len() + data@.len() <= u64::MAX,
        ensures
            final(self).absorbed() == old(self).absorbed() + data@,
    ;

    /// Gives the digest of what was absorbed, and forgets it.
    fn finalize_reset(&mut self) -> (digest: Vec<u8>)
        ensures
            digest@ == Self::spec_digest(old(self).absorbed()),
            digest@.len() >= CHALLENGE_LENGTH,
            final(self).absorbed() == Seq::<u8>::empty(),
    ;
}

/// BLAKE2s-256 as a hash provider. A value is made by [`Blake2sHasher::new`]
/// alone, so the hasher inside is unkeyed and its digest depends on nothing but
/// the bytes absorbed.
pub struct Blake2sHasher {
    inner: blake2::Blake2s,
}

/// `Digest::new` of the `digest` crate, on BLAKE2s: a fresh hasher has absorbed
/// nothing.
#[verifier::external_body]
fn blake2s_new() -> (hasher: Blake2sHasher)
    ensures
        blake2s_absorbed(hasher.inner) == Seq::<u8>::empty(),
{
    Blake2sHasher { inner: blake2::Blake2s::new() }
}

/// `Digest::update` of the `digest` crate, on BLAKE2s: the data is absorbed
/// behind what was absorbed before. The hasher panics when its 64-bit count of
/// bytes overflows, which the precondition rules out.
#[verifier::external_body]
fn blake2s_update(hasher: &mut Blake2sHasher, data: &[u8])
    requires
        blake2s_absorbed(old(hasher).inner).len() + data@.len() <= u64::MAX,
    ensures
        blake2s_absorbed(final(hasher).inner) == blake2s_absorbed(old(hasher).inner) + data@,
{
    hasher.inner.update(data);
}

/// `Digest::finalize_reset` of the `digest` crate, on BLAKE2s: the result is the
/// named digest of what was absorbed, 32 bytes long, and the hasher is left as
/// fresh.
#[verifier::external_body]
fn blake2s_finalize_reset(hasher: &mut Blake2sHasher) -> (digest: Vec<u8>)
    ensures
        digest@ == blake2s_digest(blake2s_absorbed(old(hasher).inner)),
        digest@.len() == CHALLENGE_LENGTH,
        blake2s_absorbed(final(hasher).inner) == Seq::<u8>::empty(),
{
    hasher.inner.finalize_reset().to_vec()
}

/// `Digest::reset` of the `digest` crate, on BLAKE2s: the hasher is left as
/// fresh.
#[verifier::external_body]
fn blake2s_reset(hasher: &mut Blake2sHasher)
    ensures
        blake2s_absorbed(final(hasher).inner) == Seq::<u8>::empty(),
{
    hasher.inner.reset();
}

impl Clone for Blake2sHasher {
    /// The copy has absorbed the same bytes.
    fn clone(&self) -> (copy: Self)
        ensures
            copy.absorbed() == self.absorbed(),
    {
        Blake2sHasher { inner: self.inner.clone() }
    }
}

impl Blake2sHasher {
    /// A fresh hasher.
    pub fn new() -> (hasher: Self)
        ensures
            hasher.absorbed() == Seq::<u8>::empty(),
    {
        blake2s_new()
    }
}

impl HashProvider for Blake2sHasher {
    open spec fn spec_digest(input: Seq<u8>) -> Seq<u8> {
        blake2s_digest(input)
    }

    closed spec fn absorbed(&self) -> Seq<u8> {
        blake2s_absorbed(self.inner)
    }

    fn reset(&mut self) {
        blake2s_reset(self)
    }

    fn update(&mut self, data: &[u8]) {
        blake2s_update(self, data)
    }

    fn finalize_reset(&mut self) -> (digest: Vec<u8>) {
        blake2s_finalize_reset(self)
    }
}

} // verus!
