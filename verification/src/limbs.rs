//! Numbers written in 64-bit limbs or in bytes, least significant digit first.
//!
//! Field elements cross the boundary to the arithmetic provider as arrays of
//! limbs. This module says which number an array stands for, and proves what the
//! rest of the library needs of that reading: a number decides its limbs, limbs
//! cut from a number spell it out again, and numbers can be compared limb by
//! limb.

use vstd::arithmetic::div_mod::lemma_fundamental_div_mod_converse;
use vstd::prelude::*;

verus! {

/// The weight of one limb: 2^64.
pub open spec fn limb_base() -> nat {
    0x1_0000_0000_0000_0000nat
}

/// The number that a sequence of limbs spells out, least significant limb first.
pub open spec fn limbs_value(limbs: Seq<u64>) -> nat
    decreases limbs.len(),
{
    if limbs.len() == 0 {
        0
    } else {
        (limbs[0] + limb_base() * limbs_value(limbs.drop_first())) as nat
    }
}

/// The number that a sequence of bytes spells out, least significant byte first.
pub open spec fn le_bytes_value(bytes: Seq<u8>) -> nat
    decreases bytes.len(),
{
    if bytes.len() == 0 {
        0
    } else {
        (bytes[0] + 256 * le_bytes_value(bytes.drop_first())) as nat
    }
}

/// The limb of `value` at `index`, counted from the least significant one.
pub open spec fn limb_at(value: nat, index: nat) -> u64
    decreases index,
{
    if index == 0 {
        (value % limb_base()) as u64
    } else {
        limb_at(value / limb_base(), (index - 1) as nat)
    }
}

/// What is left of `value` above its `count` lowest limbs.
pub open spec fn above_limbs(value: nat, count: nat) -> nat
    decreases count,
{
    if count == 0 {
        value
    } else {
        above_limbs(value / limb_base(), (count - 1) as nat)
    }
}

/// The limbs that spell out a number are the limbs of that number, and nothing
/// of the number lies above them.
pub proof fn lemma_value_decides_limbs(limbs: Seq<u64>)
    ensures
        forall|i: int| 0 <= i < limbs.len() ==> limb_at(limbs_value(limbs), i as nat) == #[trigger] limbs[i],
        above_limbs(limbs_value(limbs), limbs.len()) == 0,
    decreases limbs.len(),
{
    if limbs.len() > 0 {
        let rest = limbs.drop_first();
        let value = limbs_value(limbs);
        lemma_value_decides_limbs(rest);
        lemma_fundamental_div_mod_converse(
            value as int,
            limb_base() as int,
            limbs_value(rest) as int,
            limbs[0] as int,
        );
        assert forall|i: int| 0 <= i < limbs.len() implies limb_at(value, i as nat) == #[trigger] limbs[i] by {
            if i > 0 {
                assert(rest[i - 1] == limbs[i]);
                assert(limb_at(value, i as nat) == limb_at(limbs_value(rest), (i - 1) as nat));
            }
        }
    }
}

/// Limbs cut from a number spell it out again, when nothing of the number lies
/// above them.
pub proof fn lemma_limbs_spell_value(value: nat, limbs: Seq<u64>)
    requires
        forall|i: int| 0 <= i < limbs.len() ==> #[trigger] limbs[i] == limb_at(value, i as nat),
        above_limbs(value, limbs.len()) == 0,
    ensures
        limbs_value(limbs) == value,
    decreases limbs.len(),
{
    if limbs.len() > 0 {
        let rest = limbs.drop_first();
        let upper = value / limb_base();
        assert forall|i: int| 0 <= i < rest.len() implies #[trigger] rest[i] == limb_at(upper, i as nat) by {
            assert(rest[i] == limbs[i + 1]);
            assert(limb_at(value, (i + 1) as nat) == limb_at(upper, i as nat));
        }
        lemma_limbs_spell_value(upper, rest);
        assert(limbs[0] == limb_at(value, 0));
        assert(value == (value % limb_base()) + limb_base() * upper) by {
            vstd::arithmetic::div_mod::lemma_fundamental_div_mod(value as int, limb_base() as int);
        }
    }
}

/// Two sequences of limbs of one length that spell out one number are equal.
pub proof fn lemma_limbs_value_injective(a: Seq<u64>, b: Seq<u64>)
    requires
        a.len() == b.len(),
        limbs_value(a) == limbs_value(b),
    ensures
        a == b,
{
    lemma_value_decides_limbs(a);
    lemma_value_decides_limbs(b);
    assert(a =~= b);
}

/// Compares two numbers given by limbs, least significant limb first.
pub fn limbs_less_than<const N: usize>(a: &[u64; N], b: &[u64; N]) -> (less: bool)
    ensures
        less == (limbs_value(a@) < limbs_value(b@)),
{
    let mut less = false;
    let mut equal = true;
    let mut i: usize = N;
    assert(a@.skip(i as int).len() == 0);
    assert(b@.skip(i as int).len() == 0);
    while i > 0
        invariant
            i <= N,
            less == (limbs_value(a@.skip(i as int)) < limbs_value(b@.skip(i as int))),
            equal == (limbs_value(a@.skip(i as int)) == limbs_value(b@.skip(i as int))),
        decreases i,
    {
        i -= 1;
        proof {
            assert(a@.skip(i as int).drop_first() =~= a@.skip(i + 1));
            assert(b@.skip(i as int).drop_first() =~= b@.skip(i + 1));
            assert(a@.skip(i as int)[0] == a@[i as int]);
            assert(b@.skip(i as int)[0] == b@[i as int]);
        }
        if equal {
            less = a[i] < b[i];
            equal = a[i] == b[i];
        }
    }
    assert(a@.skip(0) =~= a@);
    assert(b@.skip(0) =~= b@);
    less
}

/// Tells whether two sequences of limbs are the same.
pub fn limbs_equal<const N: usize>(a: &[u64; N], b: &[u64; N]) -> (equal: bool)
    ensures
        equal == (a@ == b@),
{
    let mut equal = true;
    let mut i: usize = 0;
    while i < N
        invariant
            i <= N,
            equal == (forall|j: int| 0 <= j < i ==> a@[j] == b@[j]),
        decreases N - i,
    {
        if a[i] != b[i] {
            equal = false;
        }
        i += 1;
    }
    assert(equal ==> a@ =~= b@);
    equal
}

} // verus!
