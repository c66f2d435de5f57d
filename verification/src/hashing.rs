//! The deterministic hash that derives binding coefficients and the
//! Fiat–Shamir challenge.
//!
//! The hash folds a byte string into the scalar field.  It is fully
//! specified, so every party that hashes the same bytes is proved to
//! obtain the same scalar; domain tags keep the two uses apart.

use vstd::prelude::*;

use crate::field::{fadd, fmul, reduced, FIELD_ORDER};

verus! {

/// Domain tag under which binding coefficients are derived.
pub const TAG_COEFFICIENT: u64 = 1;

/// Domain tag under which the Fiat–Shamir challenge is derived.
pub const TAG_CHALLENGE: u64 = 2;

/// One step of the fold: absorb the byte `b` into the accumulator.
pub open spec fn hash_step(acc: int, b: u8) -> int {
    fadd(fmul(acc, 131), b + 1)
}

/// Fold a whole byte string into the field, starting from `acc`.
pub open spec fn hash_fold(acc: int, s: Seq<u8>) -> int
    decreases s.len(),
{
    if s.len() == 0 {
        acc
    } else {
        hash_fold(hash_step(acc, s[0]), s.drop_first())
    }
}

/// The fold of a non-empty byte string is reduced.
pub proof fn lemma_hash_fold_reduced(acc: int, s: Seq<u8>)
    requires
        reduced(acc),
    ensures
        reduced(hash_fold(acc, s)),
    decreases s.len(),
{
    if s.len() == 0 {
    } else {
        vstd::arithmetic::div_mod::lemma_mod_bound(
            fmul(acc, 131) + s[0] + 1,
            FIELD_ORDER as int,
        );
        vstd::arithmetic::div_mod::lemma_mod_bound(acc * 131, FIELD_ORDER as int);
        lemma_hash_fold_reduced(hash_step(acc, s[0]), s.drop_first());
    }
}

/// Append a copy of `src` to `dst`.
pub fn append_bytes(dst: &mut Vec<u8>, src: &Vec<u8>)
    ensures
        final(dst)@ == old(dst)@ + src@,
{
    let mut i: usize = 0;
    proof {
        assert(dst@ + src@.subrange(0, 0) =~= dst@);
    }
    while i < src.len()
        invariant
            0 <= i <= src@.len(),
            dst@ == old(dst)@ + src@.subrange(0, i as int),
        decreases src@.len() - i,
    {
        dst.push(src[i]);
        proof {
            assert(old(dst)@ + src@.subrange(0, i as int + 1) =~= (old(dst)@ + src@.subrange(
                0,
                i as int,
            )).push(src@[i as int]));
        }
        i = i + 1;
    }
    proof {
        assert(src@.subrange(0, src@.len() as int) =~= src@);
    }
}

/// Hash a byte string into the field under the domain tag `tag`.
pub fn hash_bytes(tag: u64, data: &Vec<u8>) -> (r: u64)
    requires
        reduced(tag as int),
    ensures
        reduced(r as int),
        r == hash_fold(tag as int, data@),
{
    let mut acc: u64 = tag;
    let mut i: usize = 0;
    proof {
        assert(data@.skip(0) =~= data@);
    }
    while i < data.len()
        invariant
            0 <= i <= data@.len(),
            reduced(acc as int),
            hash_fold(tag as int, data@) == hash_fold(acc as int, data@.skip(i as int)),
        decreases data@.len() - i,
    {
        let b = data[i];
        proof {
            let rest = data@.skip(i as int);
            assert(rest[0] == data@[i as int]);
            assert(rest.drop_first() =~= data@.skip(i as int + 1));
            vstd::arithmetic::div_mod::lemma_mod_bound(
                (acc * 131) % (FIELD_ORDER as int) + b + 1,
                FIELD_ORDER as int,
            );
        }
        acc = ((acc * 131) % FIELD_ORDER + b as u64 + 1) % FIELD_ORDER;
        i = i + 1;
    }
    proof {
        assert(data@.skip(i as int) =~= Seq::<u8>::empty());
    }
    acc
}

} // verus!
