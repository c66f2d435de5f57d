use aggsig::aggregate::{finalize, verify_signature};
use aggsig::field::{derive_pubkey, Point, Scalar, FIELD_ORDER};
use aggsig::keyagg::aggregate_keys;
use aggsig::message::build_transfer_message;
use aggsig::nonces::begin_round1;
use aggsig::signing::{aggregate_nonces, sign_round2, PartialSignature};
use aggsig::ProtocolError;

fn lamports_of_sol(sol: f64) -> u64 {
    (sol * 1_000_000_000f64) as u64
}

fn demo_recipient() -> Vec<u8> {
    let mut r = Vec::new();
    let mut i: u8 = 0;
    while r.len() < 32 {
        r.push(0xA0 ^ i);
        i = i.wrapping_add(1);
    }
    r
}

fn demo_blockhash() -> Vec<u8> {
    let mut r = Vec::new();
    let mut i: u8 = 0;
    while r.len() < 32 {
        r.push(0x5C ^ i);
        i = i.wrapping_add(1);
    }
    r
}

#[test]
fn key_aggregation_is_deterministic() {
    let keys = vec![
        derive_pubkey(Scalar::new(11)),
        derive_pubkey(Scalar::new(22)),
        derive_pubkey(Scalar::new(33)),
    ];
    let a1 = aggregate_keys(&keys).unwrap();
    let a2 = aggregate_keys(&keys).unwrap();
    assert_eq!(a1.point, a2.point);
    assert_eq!(a1.coefficients, a2.coefficients);
    assert_eq!(a1.keys, a2.keys);
}

#[test]
fn key_aggregation_rejects_single_key() {
    let keys = vec![derive_pubkey(Scalar::new(11))];
    assert_eq!(aggregate_keys(&keys).unwrap_err(), ProtocolError::InvalidKeySet);
}

#[test]
fn key_aggregation_rejects_duplicate_keys() {
    let k = derive_pubkey(Scalar::new(11));
    let keys = vec![k, k];
    assert_eq!(aggregate_keys(&keys).unwrap_err(), ProtocolError::InvalidKeySet);
}

#[test]
fn key_aggregation_rejects_identity_key() {
    let keys = vec![derive_pubkey(Scalar::new(11)), Point { v: 0 }];
    assert_eq!(aggregate_keys(&keys).unwrap_err(), ProtocolError::InvalidKeySet);
}

#[test]
fn key_aggregation_rejects_unreduced_element() {
    let keys = vec![derive_pubkey(Scalar::new(11)), Point { v: FIELD_ORDER }];
    assert_eq!(aggregate_keys(&keys).unwrap_err(), ProtocolError::InvalidKeySet);
}

#[test]
fn round1_commitment_matches_secret() {
    let x = Scalar::new(77);
    let (commitment, state) = begin_round1(&x);
    assert!(!state.consumed);
    assert_eq!(commitment.sender, derive_pubkey(x));
    assert_eq!(commitment.nonce_point, derive_pubkey(state.secret));
    assert_ne!(state.secret.v, 0);
}

#[test]
fn two_party_session_produces_verifying_signature() {
    let x_a = Scalar::new(1001);
    let x_b = Scalar::new(2002);
    let keys = vec![derive_pubkey(x_a), derive_pubkey(x_b)];
    let agg = aggregate_keys(&keys).unwrap();

    let (c_a, mut s_a) = begin_round1(&x_a);
    let (c_b, mut s_b) = begin_round1(&x_b);
    let nonces = vec![c_a, c_b];

    let msg = build_transfer_message(
        lamports_of_sol(1.5),
        &demo_recipient(),
        &None,
        &demo_blockhash(),
    );

    let p_a = sign_round2(&x_a, &agg.coefficients[0], &mut s_a, &nonces, &agg, &msg).unwrap();
    let p_b = sign_round2(&x_b, &agg.coefficients[1], &mut s_b, &nonces, &agg, &msg).unwrap();
    assert!(s_a.consumed);
    assert_eq!(s_a.secret.v, 0);

    let aggregated_nonce = aggregate_nonces(&nonces);
    let sig = finalize(aggregated_nonce, &vec![p_a, p_b], agg.point, &msg).unwrap();
    assert!(verify_signature(&sig, agg.point, &msg));
    assert_eq!(sig.nonce_point, aggregated_nonce);
}

#[test]
fn three_party_session_produces_verifying_signature() {
    let xs = vec![Scalar::new(5), Scalar::new(710), Scalar::new(90001)];
    let keys: Vec<Point> = xs.iter().map(|x| derive_pubkey(*x)).collect();
    let agg = aggregate_keys(&keys).unwrap();

    let mut commitments = Vec::new();
    let mut states = Vec::new();
    for x in &xs {
        let (c, s) = begin_round1(x);
        commitments.push(c);
        states.push(s);
    }

    let msg = build_transfer_message(
        42,
        &demo_recipient(),
        &Some(b"many happy returns".to_vec()),
        &demo_blockhash(),
    );

    let mut partials = Vec::new();
    for i in 0..3 {
        let p = sign_round2(
            &xs[i],
            &agg.coefficients[i],
            &mut states[i],
            &commitments,
            &agg,
            &msg,
        )
        .unwrap();
        partials.push(p);
    }

    let aggregated_nonce = aggregate_nonces(&commitments);
    let sig = finalize(aggregated_nonce, &partials, agg.point, &msg).unwrap();
    assert!(verify_signature(&sig, agg.point, &msg));
}

#[test]
fn tampered_partial_signature_is_rejected() {
    let x_a = Scalar::new(1001);
    let x_b = Scalar::new(2002);
    let keys = vec![derive_pubkey(x_a), derive_pubkey(x_b)];
    let agg = aggregate_keys(&keys).unwrap();

    let (c_a, mut s_a) = begin_round1(&x_a);
    let (c_b, mut s_b) = begin_round1(&x_b);
    let nonces = vec![c_a, c_b];

    let msg = build_transfer_message(
        lamports_of_sol(1.5),
        &demo_recipient(),
        &None,
        &demo_blockhash(),
    );

    let p_a = sign_round2(&x_a, &agg.coefficients[0], &mut s_a, &nonces, &agg, &msg).unwrap();
    let p_b = sign_round2(&x_b, &agg.coefficients[1], &mut s_b, &nonces, &agg, &msg).unwrap();

    let forged = PartialSignature {
        s: Scalar::new((p_b.s.v + 1) % FIELD_ORDER),
    };
    let aggregated_nonce = aggregate_nonces(&nonces);
    assert_eq!(
        finalize(aggregated_nonce, &vec![p_a, forged], agg.point, &msg),
        Err(ProtocolError::InvalidAggregateSignature)
    );
}

#[test]
fn disagreeing_amount_is_rejected() {
    let x_a = Scalar::new(1001);
    let x_b = Scalar::new(2002);
    let keys = vec![derive_pubkey(x_a), derive_pubkey(x_b)];
    let agg = aggregate_keys(&keys).unwrap();

    let (c_a, mut s_a) = begin_round1(&x_a);
    let (c_b, mut s_b) = begin_round1(&x_b);
    let nonces = vec![c_a, c_b];

    let msg_a = build_transfer_message(
        lamports_of_sol(1.5),
        &demo_recipient(),
        &None,
        &demo_blockhash(),
    );
    let msg_b = build_transfer_message(
        lamports_of_sol(1.6),
        &demo_recipient(),
        &None,
        &demo_blockhash(),
    );

    let p_a = sign_round2(&x_a, &agg.coefficients[0], &mut s_a, &nonces, &agg, &msg_a).unwrap();
    let p_b = sign_round2(&x_b, &agg.coefficients[1], &mut s_b, &nonces, &agg, &msg_b).unwrap();

    let aggregated_nonce = aggregate_nonces(&nonces);
    assert_eq!(
        finalize(aggregated_nonce, &vec![p_a, p_b], agg.point, &msg_a),
        Err(ProtocolError::InvalidAggregateSignature)
    );
}

#[test]
fn nonce_state_cannot_be_consumed_twice() {
    let x_a = Scalar::new(1001);
    let x_b = Scalar::new(2002);
    let keys = vec![derive_pubkey(x_a), derive_pubkey(x_b)];
    let agg = aggregate_keys(&keys).unwrap();

    let (c_a, mut s_a) = begin_round1(&x_a);
    let (c_b, _s_b) = begin_round1(&x_b);
    let nonces = vec![c_a, c_b];

    let msg1 = build_transfer_message(7, &demo_recipient(), &None, &demo_blockhash());
    let msg2 = build_transfer_message(8, &demo_recipient(), &None, &demo_blockhash());

    let first = sign_round2(&x_a, &agg.coefficients[0], &mut s_a, &nonces, &agg, &msg1);
    assert!(first.is_ok());
    let second = sign_round2(&x_a, &agg.coefficients[0], &mut s_a, &nonces, &agg, &msg2);
    assert_eq!(second, Err(ProtocolError::NonceAlreadyConsumed));
}

#[test]
fn mismatched_nonce_set_is_rejected() {
    let x_a = Scalar::new(1001);
    let x_b = Scalar::new(2002);
    let keys = vec![derive_pubkey(x_a), derive_pubkey(x_b)];
    let agg = aggregate_keys(&keys).unwrap();

    let (c_a, mut s_a) = begin_round1(&x_a);
    let (c_b, _s_b) = begin_round1(&x_b);
    let msg = build_transfer_message(7, &demo_recipient(), &None, &demo_blockhash());

    // The commitments are listed out of the key set's order.
    let swapped = vec![c_b, c_a];
    let r = sign_round2(&x_a, &agg.coefficients[0], &mut s_a, &swapped, &agg, &msg);
    assert_eq!(r, Err(ProtocolError::IncompleteOrMismatchedNonceSet));

    // A fresh state that does not belong to the published commitment.
    let (_c_a2, mut s_a2) = begin_round1(&x_a);
    let nonces = vec![c_a, c_b];
    let r2 = sign_round2(&x_a, &agg.coefficients[0], &mut s_a2, &nonces, &agg, &msg);
    assert_eq!(r2, Err(ProtocolError::IncompleteOrMismatchedNonceSet));
}

#[test]
fn message_differs_when_any_field_differs() {
    let base = build_transfer_message(7, &demo_recipient(), &None, &demo_blockhash());
    let amount = build_transfer_message(8, &demo_recipient(), &None, &demo_blockhash());
    let memo = build_transfer_message(7, &demo_recipient(), &Some(b"m".to_vec()), &demo_blockhash());
    let recipient = build_transfer_message(7, &demo_blockhash(), &None, &demo_blockhash());
    let blockhash = build_transfer_message(7, &demo_recipient(), &None, &demo_recipient());
    assert_ne!(base, amount);
    assert_ne!(base, memo);
    assert_ne!(base, recipient);
    assert_ne!(base, blockhash);
}

#[test]
fn missing_participant_is_rejected() {
    let x_a = Scalar::new(1001);
    let x_b = Scalar::new(2002);
    let keys = vec![derive_pubkey(x_a), derive_pubkey(x_b)];
    let agg = aggregate_keys(&keys).unwrap();

    let (c_a, mut s_a) = begin_round1(&x_a);
    let (c_b, _s_b) = begin_round1(&x_b);
    let nonces = vec![c_a, c_b];

    let msg = build_transfer_message(7, &demo_recipient(), &None, &demo_blockhash());
    let p_a = sign_round2(&x_a, &agg.coefficients[0], &mut s_a, &nonces, &agg, &msg).unwrap();

    let aggregated_nonce = aggregate_nonces(&nonces);
    assert_eq!(
        finalize(aggregated_nonce, &vec![p_a], agg.point, &msg),
        Err(ProtocolError::InvalidAggregateSignature)
    );
}

#[test]
fn aggregated_key_depends_on_key_order() {
    let a = derive_pubkey(Scalar::new(11));
    let b = derive_pubkey(Scalar::new(22));
    let fwd = aggregate_keys(&vec![a, b]).unwrap();
    let rev = aggregate_keys(&vec![b, a]).unwrap();
    assert_ne!(fwd.point, rev.point);
}
