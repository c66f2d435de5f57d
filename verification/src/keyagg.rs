//! Key aggregation: combining the session's public keys into one
//! aggregated key together with one binding coefficient per signer.
//!
//! The coefficient of a signer hashes the full ordered key list
//! together with the signer's position, so every key in the set binds
//! every coefficient; substituting any key changes every coefficient
//! and with it the aggregated key.  The caller supplies the key list
//! in the session's canonical order; aggregation itself neither sorts
//! nor reorders it.

use vstd::prelude::*;

use crate::field::{
    fadd, fmul, lemma_sum_res_extend, reduced, sum_res, Point, Scalar, FIELD_ORDER,
};
use crate::hashing::{hash_bytes, hash_fold, TAG_COEFFICIENT};
use crate::ProtocolError;
use vstd::bytes::{spec_u64_to_le_bytes, u64_to_le_bytes};

verus! {

/// A key set the protocol accepts: at least two keys, all of them
/// reduced group elements, none the identity, and no repetitions.
pub open spec fn valid_key_set(keys: Seq<Point>) -> bool {
    &&& keys.len() >= 2
    &&& forall|i: int| 0 <= i < keys.len() ==> (#[trigger] keys[i]).wf()
    &&& forall|i: int| 0 <= i < keys.len() ==> (#[trigger] keys[i]).v != 0
    &&& forall|i: int, j: int| 0 <= i < j < keys.len() ==> keys[i] != keys[j]
}

/// The canonical byte string of an ordered key list: the fixed-width
/// little-endian bytes of each element, concatenated.
pub open spec fn keys_bytes(keys: Seq<Point>) -> Seq<u8>
    decreases keys.len(),
{
    if keys.len() == 0 {
        Seq::<u8>::empty()
    } else {
        keys_bytes(keys.drop_last()) + spec_u64_to_le_bytes(keys.last().v)
    }
}

/// The binding coefficient of the signer at position `i`: the hash of
/// the full key list and the position, under its own domain tag.
pub open spec fn coef_at(keys: Seq<Point>, i: int) -> int {
    hash_fold(TAG_COEFFICIENT as int, keys_bytes(keys) + spec_u64_to_le_bytes(i as u64))
}

/// Each key scaled by its binding coefficient.
pub open spec fn scaled_keys(keys: Seq<Point>) -> Seq<int> {
    Seq::new(keys.len(), |i: int| fmul(coef_at(keys, i), keys[i].v as int))
}

/// The residue of the aggregated key of a key list.
pub open spec fn agg_point_res(keys: Seq<Point>) -> int {
    sum_res(scaled_keys(keys))
}

/// The output of key aggregation: the ordered key list it was derived
/// from, the per-signer binding coefficients, and the aggregated key.
#[derive(Clone, Debug)]
pub struct AggregatedKey {
    pub keys: Vec<Point>,
    pub coefficients: Vec<Scalar>,
    pub point: Point,
}

impl AggregatedKey {
    /// The invariant aggregation establishes: the key set is valid,
    /// each coefficient is the hash the protocol prescribes, and the
    /// point is the coefficient-weighted sum of the keys.
    pub open spec fn wf(self) -> bool {
        &&& valid_key_set(self.keys@)
        &&& self.coefficients@.len() == self.keys@.len()
        &&& forall|i: int|
            0 <= i < self.keys@.len() ==> (#[trigger] self.coefficients@[i]).v
                == coef_at(self.keys@, i)
        &&& self.point.wf()
        &&& self.point.v == agg_point_res(self.keys@)
    }
}

/// The canonical bytes of a key list, executable form.
fn key_list_bytes(keys: &Vec<Point>) -> (r: Vec<u8>)
    ensures
        r@ == keys_bytes(keys@),
{
    let mut out: Vec<u8> = Vec::new();
    let mut i: usize = 0;
    proof {
        assert(keys@.subrange(0, 0) =~= Seq::<Point>::empty());
    }
    while i < keys.len()
        invariant
            0 <= i <= keys@.len(),
            out@ == keys_bytes(keys@.subrange(0, i as int)),
        decreases keys@.len() - i,
    {
        let mut chunk = u64_to_le_bytes(keys[i].v);
        proof {
            let p = keys@.subrange(0, i as int + 1);
            assert(p.drop_last() =~= keys@.subrange(0, i as int));
            assert(p.last() == keys@[i as int]);
        }
        out.append(&mut chunk);
        i = i + 1;
    }
    proof {
        assert(keys@.subrange(0, keys@.len() as int) =~= keys@);
    }
    out
}

/// The binding coefficient of position `i`, executable form.
fn coefficient_at(keys: &Vec<Point>, i: usize) -> (r: Scalar)
    requires
        i < keys@.len(),
    ensures
        r.wf(),
        r.v == coef_at(keys@, i as int),
{
    let mut input = key_list_bytes(keys);
    let mut tail = u64_to_le_bytes(i as u64);
    input.append(&mut tail);
    let h = hash_bytes(TAG_COEFFICIENT, &input);
    Scalar { v: h }
}

/// Combine an ordered list of public keys into an aggregated key and
/// one binding coefficient per key.
///
/// Aggregation is a pure function of the ordered key list: it fails
/// with `InvalidKeySet` exactly when fewer than two keys are given,
/// some key is not a reduced group element or is the identity, or a
/// key repeats; otherwise its output is the prescribed hash-derived
/// coefficients and the coefficient-weighted sum of the keys.
pub fn aggregate_keys(keys: &Vec<Point>) -> (r: Result<AggregatedKey, ProtocolError>)
    ensures
        match r {
            Ok(a) => {
                &&& valid_key_set(keys@)
                &&& a.wf()
                &&& a.keys@ == keys@
            },
            Err(e) => {
                &&& e == ProtocolError::InvalidKeySet
                &&& !valid_key_set(keys@)
            },
        },
{
    if keys.len() < 2 {
        return Err(ProtocolError::InvalidKeySet);
    }
    // Every key must be a reduced, non-identity group element.
    let mut i: usize = 0;
    while i < keys.len()
        invariant
            0 <= i <= keys@.len(),
            forall|k: int| 0 <= k < i ==> (#[trigger] keys@[k]).wf(),
            forall|k: int| 0 <= k < i ==> (#[trigger] keys@[k]).v != 0,
        decreases keys@.len() - i,
    {
        if keys[i].v >= FIELD_ORDER || keys[i].v == 0 {
            return Err(ProtocolError::InvalidKeySet);
        }
        i = i + 1;
    }
    // No key may repeat.
    let mut a: usize = 1;
    while a < keys.len()
        invariant
            1 <= a <= keys@.len(),
            forall|p: int, q: int| 0 <= p < q < a ==> keys@[p] != keys@[q],
        decreases keys@.len() - a,
    {
        let mut b: usize = 0;
        while b < a
            invariant
                0 <= b <= a < keys@.len(),
                forall|p: int, q: int| 0 <= p < q < a ==> keys@[p] != keys@[q],
                forall|p: int| 0 <= p < b ==> keys@[p] != keys@[a as int],
            decreases a - b,
        {
            if keys[b].v == keys[a].v {
                return Err(ProtocolError::InvalidKeySet);
            }
            b = b + 1;
        }
        a = a + 1;
    }
    // Derive the coefficients and fold up the aggregated point.
    let mut coefficients: Vec<Scalar> = Vec::new();
    let mut acc = Point::identity();
    let mut k: usize = 0;
    proof {
        assert(scaled_keys(keys@).subrange(0, 0) =~= Seq::<int>::empty());
    }
    while k < keys.len()
        invariant
            0 <= k <= keys@.len(),
            valid_key_set(keys@),
            coefficients@.len() == k,
            forall|t: int|
                0 <= t < k ==> (#[trigger] coefficients@[t]).v == coef_at(keys@, t)
                    && coefficients@[t].wf(),
            acc.wf(),
            acc.v == sum_res(scaled_keys(keys@).subrange(0, k as int)),
        decreases keys@.len() - k,
    {
        let c = coefficient_at(keys, k);
        let term = keys[k].scaled_by(c);
        proof {
            lemma_sum_res_extend(scaled_keys(keys@), k as int);
            assert(scaled_keys(keys@)[k as int] == fmul(coef_at(keys@, k as int), keys@[k as int].v as int));
        }
        acc = acc.add_point(term);
        coefficients.push(c);
        k = k + 1;
    }
    proof {
        assert(scaled_keys(keys@).subrange(0, keys@.len() as int) =~= scaled_keys(keys@));
    }
    Ok(AggregatedKey { keys: keys.clone(), coefficients, point: acc })
}

/// Key aggregation is deterministic: any two well-formed outputs for
/// the same ordered key list agree on the aggregated key and on every
/// binding coefficient.
pub proof fn lemma_key_aggregation_deterministic(
    keys: Seq<Point>,
    a1: AggregatedKey,
    a2: AggregatedKey,
)
    requires
        a1.wf(),
        a2.wf(),
        a1.keys@ == keys,
        a2.keys@ == keys,
    ensures
        a1.point == a2.point,
        a1.coefficients@ =~= a2.coefficients@,
{
    assert forall|i: int| 0 <= i < a1.coefficients@.len() implies a1.coefficients@[i]
        == a2.coefficients@[i] by {
        assert(a1.coefficients@[i].v == coef_at(keys, i));
        assert(a2.coefficients@[i].v == coef_at(keys, i));
    }
}

} // verus!
