//! The final step of a session: summing the partial signatures into
//! one signature and verifying it against the aggregated key and the
//! message before it is released.

use vstd::prelude::*;

use crate::field::{
    fadd, fmul, lemma_sum_res_extend, sum_res, Point, Scalar, GENERATOR,
};
use crate::signing::{challenge_res, compute_challenge};
use crate::signing::PartialSignature;
use crate::ProtocolError;

verus! {

/// A complete two-element Schnorr signature: the aggregated nonce
/// point and the combined scalar.
#[derive(Clone, Copy, PartialEq, Eq, Structural, Debug)]
pub struct FinalSignature {
    /// The aggregated nonce point of the session.
    pub nonce_point: Point,
    /// The sum of all partial signature scalars.
    pub s: Scalar,
}

impl FinalSignature {
    /// Both components are reduced.
    pub open spec fn wf(self) -> bool {
        &&& self.nonce_point.wf()
        &&& self.s.wf()
    }
}

/// The Schnorr verification equation: the signature scalar, pushed
/// through the generator, must equal the nonce point plus the
/// challenge times the aggregated key.
pub open spec fn schnorr_verifies(rv: int, sv: int, av: int, msg: Seq<u8>) -> bool {
    fmul(sv, GENERATOR as int) == fadd(rv, fmul(challenge_res(rv, av, msg), av))
}

/// The scalar residues contributed by a list of partial signatures.
pub open spec fn partial_scalars(ps: Seq<PartialSignature>) -> Seq<int> {
    Seq::new(ps.len(), |i: int| ps[i].s.v as int)
}

/// The field sum of a list of partial signatures.
pub open spec fn partials_sum_res(ps: Seq<PartialSignature>) -> int {
    sum_res(partial_scalars(ps))
}

/// Every partial signature in the list is well formed.
pub open spec fn partials_wf(ps: Seq<PartialSignature>) -> bool {
    forall|i: int| 0 <= i < ps.len() ==> (#[trigger] ps[i]).wf()
}

/// Check a signature against an aggregated key and a message.
pub fn verify_signature(
    signature: &FinalSignature,
    aggregated_key: Point,
    message: &Vec<u8>,
) -> (b: bool)
    requires
        signature.wf(),
        aggregated_key.wf(),
    ensures
        b == schnorr_verifies(
            signature.nonce_point.v as int,
            signature.s.v as int,
            aggregated_key.v as int,
            message@,
        ),
{
    let challenge = compute_challenge(signature.nonce_point, aggregated_key, message);
    let lhs = Point::generator().scaled_by(signature.s);
    let rhs = signature.nonce_point.add_point(aggregated_key.scaled_by(challenge));
    lhs.v == rhs.v
}

/// Sum the given partial signatures, attach the aggregated nonce, and
/// release the final signature only if it verifies against the
/// aggregated key and the message.
///
/// Verification is mandatory: a tampered or missing partial signature,
/// a wrong participant, or any disagreement about the session
/// parameters leaves the equation unsatisfied and the call fails with
/// `InvalidAggregateSignature` instead of handing out a bad signature.
pub fn finalize(
    aggregated_nonce: Point,
    partial_signatures: &Vec<PartialSignature>,
    aggregated_key: Point,
    message: &Vec<u8>,
) -> (r: Result<FinalSignature, ProtocolError>)
    requires
        aggregated_nonce.wf(),
        aggregated_key.wf(),
        partials_wf(partial_signatures@),
    ensures
        match r {
            Ok(sig) => {
                &&& sig.wf()
                &&& sig.nonce_point == aggregated_nonce
                &&& sig.s.v == partials_sum_res(partial_signatures@)
                &&& schnorr_verifies(
                    aggregated_nonce.v as int,
                    sig.s.v as int,
                    aggregated_key.v as int,
                    message@,
                )
            },
            Err(e) => {
                &&& e == ProtocolError::InvalidAggregateSignature
                &&& !schnorr_verifies(
                    aggregated_nonce.v as int,
                    partials_sum_res(partial_signatures@),
                    aggregated_key.v as int,
                    message@,
                )
            },
        },
{
    let mut acc = Scalar { v: 0 };
    let mut i: usize = 0;
    proof {
        assert(partial_scalars(partial_signatures@).subrange(0, 0) =~= Seq::<int>::empty());
    }
    while i < partial_signatures.len()
        invariant
            0 <= i <= partial_signatures@.len(),
            partials_wf(partial_signatures@),
            acc.wf(),
            acc.v == sum_res(partial_scalars(partial_signatures@).subrange(0, i as int)),
        decreases partial_signatures@.len() - i,
    {
        proof {
            lemma_sum_res_extend(partial_scalars(partial_signatures@), i as int);
        }
        acc = acc.add_mod(partial_signatures[i].s);
        i = i + 1;
    }
    proof {
        assert(partial_scalars(partial_signatures@).subrange(
            0,
            partial_signatures@.len() as int,
        ) =~= partial_scalars(partial_signatures@));
    }
    let signature = FinalSignature { nonce_point: aggregated_nonce, s: acc };
    if verify_signature(&signature, aggregated_key, message) {
        Ok(signature)
    } else {
        Err(ProtocolError::InvalidAggregateSignature)
    }
}

} // verus!
