//! The protocol-wide laws: an honest session always produces a
//! verifying signature, and a tampered partial signature or a
//! diverging challenge always makes finalization fail.

use vstd::prelude::*;

use crate::aggregate::schnorr_verifies;
use crate::field::{
    fadd, fmul, fsub, lemma_fadd_4_swap, lemma_fadd_cancel, lemma_fadd_left_cancel,
    lemma_fmul_assoc, lemma_fmul_comm, lemma_fmul_dist, lemma_fmul_dist_sub, lemma_fmul_zero,
    lemma_fsub_zero, lemma_scale_by_generator_injective, lemma_sum_res_extend,
    lemma_sum_res_reduced, lemma_sum_res_update, pubkey_res, reduced, sum_res, Point, Scalar,
    FIELD_ORDER, GENERATOR,
};
use crate::aggregate::{partial_scalars, partials_sum_res};
use crate::keyagg::{agg_point_res, coef_at, scaled_keys, valid_key_set};
use crate::nonces::AggMessage1;
use crate::signing::{aggregated_nonce_res, challenge_res, nonce_points, partial_res, PartialSignature};

verus! {

/// An honest session: one secret key and one fresh secret nonce per
/// signer, a valid key set, and each public key derived from the
/// matching secret key.
pub open spec fn honest_setup(keys: Seq<Point>, xs: Seq<Scalar>, rs: Seq<Scalar>) -> bool {
    &&& keys.len() == xs.len()
    &&& keys.len() == rs.len()
    &&& valid_key_set(keys)
    &&& forall|i: int| 0 <= i < keys.len() ==> (#[trigger] xs[i]).wf()
    &&& forall|i: int| 0 <= i < keys.len() ==> (#[trigger] rs[i]).wf()
    &&& forall|i: int|
        0 <= i < keys.len() ==> (#[trigger] keys[i]).v == pubkey_res(xs[i].v as int)
}

/// The public nonce points the signers publish in round 1.
pub open spec fn commitment_points(rs: Seq<Scalar>) -> Seq<int> {
    Seq::new(rs.len(), |i: int| pubkey_res(rs[i].v as int))
}

/// The residue of the honest session's aggregated nonce.
pub open spec fn honest_nonce_res(rs: Seq<Scalar>) -> int {
    sum_res(commitment_points(rs))
}

/// The partial signature residues every signer computes under the
/// challenge `c`.
pub open spec fn honest_partials(
    keys: Seq<Point>,
    xs: Seq<Scalar>,
    rs: Seq<Scalar>,
    c: int,
) -> Seq<int> {
    Seq::new(keys.len(), |i: int| partial_res(rs[i].v as int, c, coef_at(keys, i), xs[i].v as int))
}

/// The challenge the honest session derives.
pub open spec fn honest_challenge(
    keys: Seq<Point>,
    rs: Seq<Scalar>,
    msg: Seq<u8>,
) -> int {
    challenge_res(honest_nonce_res(rs), agg_point_res(keys), msg)
}

/// A full nonce exchange carries exactly the honest session's
/// commitment points: the aggregated nonce the signers fold equals the
/// one the laws below speak of.
pub proof fn lemma_commitments_give_nonce_sum(nonces: Seq<AggMessage1>, rs: Seq<Scalar>)
    requires
        nonces.len() == rs.len(),
        forall|i: int|
            0 <= i < rs.len() ==> (#[trigger] nonces[i]).nonce_point.v == pubkey_res(
                rs[i].v as int,
            ),
    ensures
        aggregated_nonce_res(nonces) == honest_nonce_res(rs),
{
    assert(nonce_points(nonces) =~= commitment_points(rs));
}

/// A list of partial signatures whose scalars are the honest residues
/// sums to the honest residue sum.
pub proof fn lemma_partials_sum_matches(ps: Seq<PartialSignature>, vals: Seq<int>)
    requires
        ps.len() == vals.len(),
        forall|i: int| 0 <= i < ps.len() ==> (#[trigger] ps[i]).s.v == vals[i],
    ensures
        partials_sum_res(ps) == sum_res(vals),
{
    assert(partial_scalars(ps) =~= vals);
}

/// The signing identity over a prefix of the signers: pushing the sum
/// of the first `n` partial signatures through the generator gives the
/// sum of their nonce points plus `c` times their share of the
/// aggregated key.
proof fn lemma_signing_identity_prefix(
    keys: Seq<Point>,
    xs: Seq<Scalar>,
    rs: Seq<Scalar>,
    c: int,
    n: int,
)
    requires
        keys.len() == xs.len(),
        keys.len() == rs.len(),
        forall|i: int|
            0 <= i < keys.len() ==> (#[trigger] keys[i]).v == pubkey_res(xs[i].v as int),
        0 <= n <= keys.len(),
    ensures
        fmul(sum_res(honest_partials(keys, xs, rs, c).subrange(0, n)), GENERATOR as int) == fadd(
            sum_res(commitment_points(rs).subrange(0, n)),
            fmul(c, sum_res(scaled_keys(keys).subrange(0, n))),
        ),
    decreases n,
{
    let g = GENERATOR as int;
    let pp = honest_partials(keys, xs, rs, c);
    let rr = commitment_points(rs);
    let aa = scaled_keys(keys);
    if n == 0 {
        assert(pp.subrange(0, 0) =~= Seq::<int>::empty());
        assert(rr.subrange(0, 0) =~= Seq::<int>::empty());
        assert(aa.subrange(0, 0) =~= Seq::<int>::empty());
        lemma_fmul_zero(g);
        lemma_fmul_zero(c);
    } else {
        let i = n - 1;
        lemma_signing_identity_prefix(keys, xs, rs, c, i);
        lemma_sum_res_extend(pp, i);
        lemma_sum_res_extend(rr, i);
        lemma_sum_res_extend(aa, i);
        let sp = sum_res(pp.subrange(0, i));
        let sr = sum_res(rr.subrange(0, i));
        let sa = sum_res(aa.subrange(0, i));
        let r_i = rs[i].v as int;
        let x_i = xs[i].v as int;
        let a_i = coef_at(keys, i);
        let m_i = fmul(a_i, x_i);
        // The new partial, pushed through the generator, splits into
        // the signer's nonce point and c times its key share.
        lemma_fmul_dist(sp, pp[i], g);
        lemma_fmul_dist(r_i, fmul(c, m_i), g);
        lemma_fmul_assoc(c, m_i, g);
        lemma_fmul_assoc(a_i, x_i, g);
        assert(fmul(x_i, g) == keys[i].v);
        assert(fmul(m_i, g) == aa[i]);
        assert(fmul(r_i, g) == rr[i]);
        assert(fmul(pp[i], g) == fadd(rr[i], fmul(c, aa[i])));
        // Distribute c over the extended key share sum.
        lemma_fmul_comm(c, fadd(sa, aa[i]));
        lemma_fmul_dist(sa, aa[i], c);
        lemma_fmul_comm(sa, c);
        lemma_fmul_comm(aa[i], c);
        // Re-associate the four summands.
        lemma_fadd_4_swap(sr, fmul(c, sa), rr[i], fmul(c, aa[i]));
    }
}

/// When every party follows the protocol honestly — fresh nonces,
/// identical session parameters, the complete nonce exchange — the sum
/// of the partial signatures verifies against the aggregated key and
/// the message.
pub proof fn lemma_honest_session_verifies(
    keys: Seq<Point>,
    xs: Seq<Scalar>,
    rs: Seq<Scalar>,
    msg: Seq<u8>,
)
    requires
        honest_setup(keys, xs, rs),
    ensures
        schnorr_verifies(
            honest_nonce_res(rs),
            sum_res(honest_partials(keys, xs, rs, honest_challenge(keys, rs, msg))),
            agg_point_res(keys),
            msg,
        ),
{
    let c = honest_challenge(keys, rs, msg);
    lemma_signing_identity_prefix(keys, xs, rs, c, keys.len() as int);
    assert(honest_partials(keys, xs, rs, c).subrange(0, keys.len() as int) =~= honest_partials(
        keys,
        xs,
        rs,
        c,
    ));
    assert(commitment_points(rs).subrange(0, rs.len() as int) =~= commitment_points(rs));
    assert(scaled_keys(keys).subrange(0, keys.len() as int) =~= scaled_keys(keys));
}

/// Replacing any one honest partial signature by any other reduced
/// value breaks verification: finalization must fail on the tampered
/// set.
pub proof fn lemma_tampered_partial_rejected(
    keys: Seq<Point>,
    xs: Seq<Scalar>,
    rs: Seq<Scalar>,
    msg: Seq<u8>,
    j: int,
    forged: int,
)
    requires
        honest_setup(keys, xs, rs),
        0 <= j < keys.len(),
        reduced(forged),
        forged != honest_partials(keys, xs, rs, honest_challenge(keys, rs, msg))[j],
    ensures
        !schnorr_verifies(
            honest_nonce_res(rs),
            sum_res(
                honest_partials(keys, xs, rs, honest_challenge(keys, rs, msg)).update(j, forged),
            ),
            agg_point_res(keys),
            msg,
        ),
{
    let g = GENERATOR as int;
    let c = honest_challenge(keys, rs, msg);
    let pp = honest_partials(keys, xs, rs, c);
    lemma_honest_session_verifies(keys, xs, rs, msg);
    let s_honest = sum_res(pp);
    let s_forged = sum_res(pp.update(j, forged));
    lemma_sum_res_update(pp, j, forged);
    lemma_sum_res_reduced(pp);
    lemma_sum_res_reduced(pp.update(j, forged));
    // The honest partial at j is reduced, so the shift is non-zero.
    vstd::arithmetic::div_mod::lemma_mod_bound(
        rs[j].v + fmul(c, fmul(coef_at(keys, j), xs[j].v as int)),
        FIELD_ORDER as int,
    );
    lemma_fsub_zero(forged, pp[j]);
    lemma_fadd_cancel(s_honest, fsub(forged, pp[j]));
    assert(s_forged != s_honest);
    if fmul(s_forged, g) == fmul(s_honest, g) {
        lemma_scale_by_generator_injective(s_forged, s_honest);
    }
}

/// If one party derives its challenge from different session
/// parameters, and the deviating contribution does not vanish in the
/// field, the combined signature fails verification.
///
/// The non-vanishing hypothesis excludes the degenerate inputs on
/// which the deviation cancels out: a deviating challenge that equals
/// the honest one, or a signer whose binding coefficient times secret
/// key is a multiple of the field order.
pub proof fn lemma_challenge_disagreement_rejected(
    keys: Seq<Point>,
    xs: Seq<Scalar>,
    rs: Seq<Scalar>,
    msg: Seq<u8>,
    j: int,
    c2: int,
)
    requires
        honest_setup(keys, xs, rs),
        0 <= j < keys.len(),
        fmul(
            fsub(c2, honest_challenge(keys, rs, msg)),
            fmul(coef_at(keys, j), xs[j].v as int),
        ) != 0,
    ensures
        !schnorr_verifies(
            honest_nonce_res(rs),
            sum_res(
                honest_partials(keys, xs, rs, honest_challenge(keys, rs, msg)).update(
                    j,
                    partial_res(rs[j].v as int, c2, coef_at(keys, j), xs[j].v as int),
                ),
            ),
            agg_point_res(keys),
            msg,
        ),
{
    let m_j = fmul(coef_at(keys, j), xs[j].v as int);
    let c = honest_challenge(keys, rs, msg);
    let deviant = partial_res(rs[j].v as int, c2, coef_at(keys, j), xs[j].v as int);
    let honest_j = honest_partials(keys, xs, rs, c)[j];
    vstd::arithmetic::div_mod::lemma_mod_bound(
        rs[j].v + fmul(c2, m_j),
        FIELD_ORDER as int,
    );
    vstd::arithmetic::div_mod::lemma_mod_bound(
        rs[j].v + fmul(c, m_j),
        FIELD_ORDER as int,
    );
    vstd::arithmetic::div_mod::lemma_mod_bound(c2 * m_j, FIELD_ORDER as int);
    vstd::arithmetic::div_mod::lemma_mod_bound(c * m_j, FIELD_ORDER as int);
    if deviant == honest_j {
        lemma_fadd_left_cancel(rs[j].v as int, fmul(c2, m_j), fmul(c, m_j));
        lemma_fmul_dist_sub(c2, c, m_j);
        lemma_fsub_zero(fmul(c2, m_j), fmul(c, m_j));
        assert(false);
    }
    lemma_tampered_partial_rejected(keys, xs, rs, msg, j, deviant);
}

} // verus!
