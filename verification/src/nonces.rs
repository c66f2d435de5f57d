//! Round 1 of a signing session: each signer draws a fresh secret
//! nonce, publishes its public commitment, and keeps the secret part
//! to carry into round 2.
//!
//! The secret part is a single-use value: the signing stage consumes
//! it exactly once and overwrites it, since signing two different
//! messages under one nonce lets an observer recover the private key.

use vstd::prelude::*;

use crate::field::{derive_pubkey, fmul, pubkey_res, Point, Scalar, FIELD_ORDER, GENERATOR};

verus! {

/// A signer's public round-1 message: who is committing, and the
/// public point of the committed nonce.
#[derive(Clone, Copy, PartialEq, Eq, Structural, Debug)]
pub struct AggMessage1 {
    /// The public key of the signer that published this commitment.
    pub sender: Point,
    /// The public point of the signer's secret nonce.
    pub nonce_point: Point,
}

/// A signer's private round-1 state: the secret nonce matching its
/// published commitment, consumed exactly once by round 2.
#[derive(Clone, Copy, PartialEq, Eq, Structural, Debug)]
pub struct SecretAggStepOne {
    /// The secret nonce scalar; overwritten with zero on consumption.
    pub secret: Scalar,
    /// Whether round 2 has already consumed this state.
    pub consumed: bool,
}

impl AggMessage1 {
    /// Both elements are reduced and neither is the group identity.
    pub open spec fn wf(self) -> bool {
        &&& self.sender.wf()
        &&& self.sender.v != 0
        &&& self.nonce_point.wf()
        &&& self.nonce_point.v != 0
    }
}

impl SecretAggStepOne {
    /// The secret is reduced, and still non-zero while unconsumed.
    pub open spec fn wf(self) -> bool {
        &&& self.secret.wf()
        &&& !self.consumed ==> self.secret.v != 0
    }
}

/// Relies on `rand::random`: a machine word drawn from the thread's
/// generator.  Nothing is assumed about its value.
#[verifier::external_body]
fn random_u64() -> u64 {
    rand::random::<u64>()
}

/// A non-identity point scaled from a non-zero scalar is not the
/// identity.
pub proof fn lemma_pubkey_nonzero(x: int)
    requires
        0 < x < FIELD_ORDER,
    ensures
        pubkey_res(x) != 0,
        crate::field::reduced(pubkey_res(x)),
{
    vstd::arithmetic::div_mod::lemma_mod_bound(x * (GENERATOR as int), FIELD_ORDER as int);
    if pubkey_res(x) == 0 {
        assert(fmul(0, GENERATOR as int) == 0) by {
            vstd::arithmetic::mul::lemma_mul_basics(GENERATOR as int);
            vstd::arithmetic::div_mod::lemma_small_mod(0nat, FIELD_ORDER as nat);
        }
        crate::field::lemma_scale_by_generator_injective(x, 0);
    }
}

/// Begin round 1: draw a fresh secret nonce for this session and
/// return the public commitment to broadcast together with the secret
/// state to keep.
///
/// The nonce is drawn fresh on every call and is independent of any
/// message; nothing ties two invocations together, so the caller must
/// consume each returned state exactly once.
pub fn begin_round1(secret_key: &Scalar) -> (r: (AggMessage1, SecretAggStepOne))
    requires
        secret_key.wf(),
        secret_key.v != 0,
    ensures
        r.0.wf(),
        r.1.wf(),
        !r.1.consumed,
        r.1.secret.v != 0,
        r.0.sender.v == pubkey_res(secret_key.v as int),
        r.0.nonce_point.v == pubkey_res(r.1.secret.v as int),
{
    let w = random_u64();
    // Map the raw word into [1, FIELD_ORDER), leaving out the zero
    // scalar whose commitment would be the group identity.
    let s = w % (FIELD_ORDER - 1) + 1;
    let secret = Scalar { v: s };
    let sender = derive_pubkey(*secret_key);
    let nonce_point = derive_pubkey(secret);
    proof {
        lemma_pubkey_nonzero(secret_key.v as int);
        lemma_pubkey_nonzero(s as int);
    }
    (
        AggMessage1 { sender, nonce_point },
        SecretAggStepOne { secret, consumed: false },
    )
}

} // verus!
