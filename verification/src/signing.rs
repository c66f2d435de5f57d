//! Round 2 of a signing session: combining the published nonce
//! commitments, deriving the Fiat–Shamir challenge, and computing this
//! signer's partial signature.

use vstd::prelude::*;

use crate::field::{
    derive_pubkey, fadd, fmul, lemma_sum_res_extend, pubkey_res, reduced, sum_res, Point,
    Scalar,
};
use crate::hashing::{append_bytes, hash_bytes, hash_fold, TAG_CHALLENGE};
use crate::keyagg::AggregatedKey;
use crate::nonces::{AggMessage1, SecretAggStepOne};
use crate::ProtocolError;
use vstd::bytes::{spec_u64_to_le_bytes, u64_to_le_bytes};

verus! {

/// One signer's contribution to the final signature.
#[derive(Clone, Copy, PartialEq, Eq, Structural, Debug)]
pub struct PartialSignature {
    /// The signer's scalar contribution.
    pub s: Scalar,
}

impl PartialSignature {
    /// The scalar is reduced.
    pub open spec fn wf(self) -> bool {
        self.s.wf()
    }
}

/// The public nonce points of a list of round-1 messages.
pub open spec fn nonce_points(nonces: Seq<AggMessage1>) -> Seq<int> {
    Seq::new(nonces.len(), |i: int| nonces[i].nonce_point.v as int)
}

/// The residue of the aggregated nonce: the group sum of all published
/// nonce points.
pub open spec fn aggregated_nonce_res(nonces: Seq<AggMessage1>) -> int {
    sum_res(nonce_points(nonces))
}

/// The Fiat–Shamir challenge: the hash, under its own domain tag, of
/// the aggregated nonce, the aggregated key, and the message.
pub open spec fn challenge_res(rv: int, av: int, msg: Seq<u8>) -> int {
    hash_fold(
        TAG_CHALLENGE as int,
        spec_u64_to_le_bytes(rv as u64) + spec_u64_to_le_bytes(av as u64) + msg,
    )
}

/// One signer's partial signature residue: the secret nonce plus the
/// challenge times the signer's binding coefficient times its key.
pub open spec fn partial_res(rsec: int, c: int, a: int, x: int) -> int {
    fadd(rsec, fmul(c, fmul(a, x)))
}

/// The round-1 messages come from exactly the session's signers, one
/// each, in the key list's canonical order.
pub open spec fn senders_match(nonces: Seq<AggMessage1>, keys: Seq<Point>) -> bool {
    &&& nonces.len() == keys.len()
    &&& forall|i: int| 0 <= i < nonces.len() ==> (#[trigger] nonces[i]).sender == keys[i]
}

/// The caller's own commitment, for the given secret key and secret
/// nonce, stands among the round-1 messages.
pub open spec fn own_commitment_present(nonces: Seq<AggMessage1>, x: int, rsec: int) -> bool {
    exists|j: int|
        0 <= j < nonces.len() && (#[trigger] nonces[j]).sender.v == pubkey_res(x)
            && nonces[j].nonce_point.v == pubkey_res(rsec)
}

/// Every round-1 message in the list is well formed.
pub open spec fn nonces_wf(nonces: Seq<AggMessage1>) -> bool {
    forall|i: int| 0 <= i < nonces.len() ==> (#[trigger] nonces[i]).wf()
}

/// Combine all published nonce points into the aggregated nonce, in
/// the fixed order of the list every party uses.
pub fn aggregate_nonces(nonces: &Vec<AggMessage1>) -> (r: Point)
    requires
        nonces_wf(nonces@),
    ensures
        r.wf(),
        r.v == aggregated_nonce_res(nonces@),
{
    let mut acc = Point::identity();
    let mut i: usize = 0;
    proof {
        assert(nonce_points(nonces@).subrange(0, 0) =~= Seq::<int>::empty());
    }
    while i < nonces.len()
        invariant
            0 <= i <= nonces@.len(),
            nonces_wf(nonces@),
            acc.wf(),
            acc.v == sum_res(nonce_points(nonces@).subrange(0, i as int)),
        decreases nonces@.len() - i,
    {
        proof {
            lemma_sum_res_extend(nonce_points(nonces@), i as int);
        }
        acc = acc.add_point(nonces[i].nonce_point);
        i = i + 1;
    }
    proof {
        assert(nonce_points(nonces@).subrange(0, nonces@.len() as int) =~= nonce_points(
            nonces@,
        ));
    }
    acc
}

/// Derive the Fiat–Shamir challenge scalar that every honest party
/// recomputes identically.
pub fn compute_challenge(
    aggregated_nonce: Point,
    aggregated_key: Point,
    message: &Vec<u8>,
) -> (r: Scalar)
    requires
        aggregated_nonce.wf(),
        aggregated_key.wf(),
    ensures
        r.wf(),
        r.v == challenge_res(aggregated_nonce.v as int, aggregated_key.v as int, message@),
{
    let mut input = u64_to_le_bytes(aggregated_nonce.v);
    let mut akey_bytes = u64_to_le_bytes(aggregated_key.v);
    input.append(&mut akey_bytes);
    append_bytes(&mut input, message);
    let h = hash_bytes(TAG_CHALLENGE, &input);
    Scalar { v: h }
}

/// Run round 2 for one signer: check the nonce set against the
/// session's key set, fold the nonce points, derive the challenge, and
/// compute this signer's partial signature, consuming the secret nonce
/// state.
///
/// The secret state is consumed exactly once: a state already consumed
/// is rejected with `NonceAlreadyConsumed`, and on success the state
/// is overwritten.  A nonce list that does not carry exactly the
/// session's signers in order, or that does not contain the caller's
/// own commitment for this secret state, is rejected with
/// `IncompleteOrMismatchedNonceSet`.  Any disagreement about the
/// message or the key set surfaces as a different challenge, whose
/// partial signature fails final verification rather than silently
/// passing.
pub fn sign_round2(
    secret_key: &Scalar,
    own_coefficient: &Scalar,
    secret_nonce_state: &mut SecretAggStepOne,
    all_public_nonces: &Vec<AggMessage1>,
    aggregated: &AggregatedKey,
    message: &Vec<u8>,
) -> (r: Result<PartialSignature, ProtocolError>)
    requires
        secret_key.wf(),
        secret_key.v != 0,
        own_coefficient.wf(),
        old(secret_nonce_state).wf(),
        nonces_wf(all_public_nonces@),
        aggregated.wf(),
    ensures
        match r {
            Ok(ps) => {
                &&& !old(secret_nonce_state).consumed
                &&& senders_match(all_public_nonces@, aggregated.keys@)
                &&& own_commitment_present(
                    all_public_nonces@,
                    secret_key.v as int,
                    old(secret_nonce_state).secret.v as int,
                )
                &&& ps.wf()
                &&& ps.s.v == partial_res(
                    old(secret_nonce_state).secret.v as int,
                    challenge_res(
                        aggregated_nonce_res(all_public_nonces@),
                        aggregated.point.v as int,
                        message@,
                    ),
                    own_coefficient.v as int,
                    secret_key.v as int,
                )
                &&& final(secret_nonce_state).consumed
                &&& final(secret_nonce_state).secret.v == 0
                &&& final(secret_nonce_state).wf()
            },
            Err(e) => {
                &&& *final(secret_nonce_state) == *old(secret_nonce_state)
                &&& (e == ProtocolError::NonceAlreadyConsumed <==> old(secret_nonce_state).consumed)
                &&& (old(secret_nonce_state).consumed || e
                    == ProtocolError::IncompleteOrMismatchedNonceSet)
                &&& !old(secret_nonce_state).consumed ==> !(senders_match(
                    all_public_nonces@,
                    aggregated.keys@,
                ) && own_commitment_present(
                    all_public_nonces@,
                    secret_key.v as int,
                    old(secret_nonce_state).secret.v as int,
                ))
            },
        },
        (!old(secret_nonce_state).consumed && senders_match(all_public_nonces@, aggregated.keys@)
            && own_commitment_present(
            all_public_nonces@,
            secret_key.v as int,
            old(secret_nonce_state).secret.v as int,
        )) ==> (r matches Ok(_)),
{
    if secret_nonce_state.consumed {
        return Err(ProtocolError::NonceAlreadyConsumed);
    }
    if all_public_nonces.len() != aggregated.keys.len() {
        return Err(ProtocolError::IncompleteOrMismatchedNonceSet);
    }
    let mut i: usize = 0;
    while i < all_public_nonces.len()
        invariant
            0 <= i <= all_public_nonces@.len(),
            all_public_nonces@.len() == aggregated.keys@.len(),
            !old(secret_nonce_state).consumed,
            *secret_nonce_state == *old(secret_nonce_state),
            forall|k: int|
                0 <= k < i ==> (#[trigger] all_public_nonces@[k]).sender
                    == aggregated.keys@[k],
        decreases all_public_nonces@.len() - i,
    {
        if !(all_public_nonces[i].sender.v == aggregated.keys[i].v) {
            return Err(ProtocolError::IncompleteOrMismatchedNonceSet);
        }
        proof {
            assert(all_public_nonces@[i as int].sender == aggregated.keys@[i as int]);
        }
        i = i + 1;
    }
    let own_pub = derive_pubkey(*secret_key);
    let own_nonce_pub = derive_pubkey(secret_nonce_state.secret);
    let mut j: usize = 0;
    let mut found: bool = false;
    while j < all_public_nonces.len() && !found
        invariant
            0 <= j <= all_public_nonces@.len(),
            !old(secret_nonce_state).consumed,
            own_pub.v == pubkey_res(secret_key.v as int),
            own_nonce_pub.v == pubkey_res(old(secret_nonce_state).secret.v as int),
            *secret_nonce_state == *old(secret_nonce_state),
            !found ==> forall|k: int|
                0 <= k < j ==> !((#[trigger] all_public_nonces@[k]).sender.v == own_pub.v
                    && all_public_nonces@[k].nonce_point.v == own_nonce_pub.v),
            found ==> j < all_public_nonces@.len()
                && all_public_nonces@[j as int].sender.v == own_pub.v
                && all_public_nonces@[j as int].nonce_point.v == own_nonce_pub.v,
        decreases all_public_nonces@.len() - j + (if found { 0int } else { 1int }),
    {
        if all_public_nonces[j].sender.v == own_pub.v && all_public_nonces[j].nonce_point.v
            == own_nonce_pub.v {
            found = true;
        } else {
            j = j + 1;
        }
    }
    if !found {
        return Err(ProtocolError::IncompleteOrMismatchedNonceSet);
    }
    let aggregated_nonce = aggregate_nonces(all_public_nonces);
    let challenge = compute_challenge(aggregated_nonce, aggregated.point, message);
    let s = secret_nonce_state.secret.add_mod(
        challenge.mul_mod(own_coefficient.mul_mod(*secret_key)),
    );
    // Consume the state: overwrite the secret so it cannot be reused.
    *secret_nonce_state = SecretAggStepOne { secret: Scalar { v: 0 }, consumed: true };
    Ok(PartialSignature { s })
}

} // verus!
