use aggsig::codec::{parse_agg_message1, parse_partial_signature, parse_secret_agg_step_one};
use aggsig::field::{derive_pubkey, Scalar};
use aggsig::network::{parse_network, Network};
use aggsig::nonces::{begin_round1, SecretAggStepOne};
use aggsig::signing::PartialSignature;
use aggsig::aggregate::{finalize, verify_signature};
use aggsig::keyagg::aggregate_keys;
use aggsig::message::build_transfer_message;
use aggsig::signing::{aggregate_nonces, sign_round2};
use aggsig::ProtocolError;

#[test]
fn agg_message1_round_trips_through_text() {
    let (commitment, _state) = begin_round1(&Scalar::new(4242));
    let text = commitment.serialize_bs58();
    let back = parse_agg_message1(&text).unwrap();
    assert_eq!(back, commitment);
}

#[test]
fn secret_state_round_trips_through_text() {
    let st = SecretAggStepOne {
        secret: Scalar::new(987654321),
        consumed: false,
    };
    let text = st.serialize_bs58();
    let back = parse_secret_agg_step_one(&text).unwrap();
    assert_eq!(back, st);

    let spent = SecretAggStepOne {
        secret: Scalar::new(987654321),
        consumed: true,
    };
    let text2 = spent.serialize_bs58();
    assert_ne!(text, text2);
    assert_eq!(parse_secret_agg_step_one(&text2).unwrap(), spent);
}

#[test]
fn partial_signature_round_trips_through_text() {
    let p = PartialSignature {
        s: Scalar::new(123456789),
    };
    let text = p.serialize_bs58();
    let back = parse_partial_signature(&text).unwrap();
    assert_eq!(back, p);
}

#[test]
fn zero_partial_signature_has_known_text_form() {
    // Eight zero bytes encode as eight of the alphabet's first digit.
    let p = PartialSignature { s: Scalar::new(0) };
    assert_eq!(p.serialize_bs58(), "11111111");
    assert_eq!(parse_partial_signature("11111111").unwrap(), p);
}

#[test]
fn decode_rejects_wrong_length() {
    // Four zero bytes: too short for any record.
    assert_eq!(
        parse_partial_signature("1111"),
        Err(ProtocolError::MalformedMessage)
    );
    assert_eq!(
        parse_agg_message1("1111"),
        Err(ProtocolError::MalformedMessage)
    );
    assert_eq!(
        parse_secret_agg_step_one("1111"),
        Err(ProtocolError::MalformedMessage)
    );
}

#[test]
fn decode_rejects_characters_outside_alphabet() {
    assert_eq!(
        parse_partial_signature("0OIl+/=="),
        Err(ProtocolError::MalformedMessage)
    );
    assert_eq!(
        parse_agg_message1("not base fifty-eight!"),
        Err(ProtocolError::MalformedMessage)
    );
}

#[test]
fn decode_rejects_identity_group_elements() {
    // Sixteen zero bytes would put the identity in both slots.
    assert_eq!(
        parse_agg_message1("1111111111111111"),
        Err(ProtocolError::MalformedMessage)
    );
}

#[test]
fn decode_rejects_unreduced_scalar() {
    // Eight 0xFF bytes: a word at the top of the u64 range, above the
    // field order.
    let bytes = vec![0xFFu8; 8];
    let text = bs58::encode(&bytes).into_string();
    assert_eq!(
        parse_partial_signature(&text),
        Err(ProtocolError::MalformedMessage)
    );
}

#[test]
fn decode_rejects_bad_consumed_flag() {
    // A valid secret scalar followed by a flag byte of 2.
    let mut bytes = 77u64.to_le_bytes().to_vec();
    bytes.push(2u8);
    let text = bs58::encode(&bytes).into_string();
    assert_eq!(
        parse_secret_agg_step_one(&text),
        Err(ProtocolError::MalformedMessage)
    );
}

#[test]
fn commitment_text_identifies_its_sender() {
    let x = Scalar::new(31337);
    let (commitment, _state) = begin_round1(&x);
    let back = parse_agg_message1(&commitment.serialize_bs58()).unwrap();
    assert_eq!(back.sender, derive_pubkey(x));
}

#[test]
fn network_names_parse_ignoring_case() {
    assert_eq!(parse_network("mainnet"), Ok(Network::Mainnet));
    assert_eq!(parse_network("Mainnet"), Ok(Network::Mainnet));
    assert_eq!(parse_network("TESTNET"), Ok(Network::Testnet));
    assert_eq!(parse_network("devNet"), Ok(Network::Devnet));
    assert_eq!(parse_network("local"), Ok(Network::Local));
    assert_eq!(parse_network("regtest"), Err(ProtocolError::WrongNetwork));
    assert_eq!(parse_network(""), Err(ProtocolError::WrongNetwork));
    assert_eq!("mainnet".parse::<Network>(), Ok(Network::Mainnet));
}

#[test]
fn cluster_urls_are_fixed() {
    assert_eq!(
        Network::Mainnet.get_cluster_url(),
        "https://api.mainnet-beta.solana.com"
    );
    assert_eq!(
        Network::Testnet.get_cluster_url(),
        "https://api.testnet.solana.com"
    );
    assert_eq!(
        Network::Devnet.get_cluster_url(),
        "https://api.devnet.solana.com"
    );
    assert_eq!(Network::Local.get_cluster_url(), "http://127.0.0.1:8899");
}

#[test]
fn every_bit_flip_of_a_partial_signature_is_caught() {
    let x_a = Scalar::new(1001);
    let x_b = Scalar::new(2002);
    let keys = vec![derive_pubkey(x_a), derive_pubkey(x_b)];
    let agg = aggregate_keys(&keys).unwrap();

    let (c_a, mut s_a) = begin_round1(&x_a);
    let (c_b, mut s_b) = begin_round1(&x_b);
    let nonces = vec![c_a, c_b];

    let msg_bytes: Vec<u8> = {
        let recipient = vec![9u8; 32];
        let blockhash = vec![7u8; 32];
        build_transfer_message(1_500_000_000, &recipient, &None, &blockhash)
    };

    let p_a = sign_round2(&x_a, &agg.coefficients[0], &mut s_a, &nonces, &agg, &msg_bytes).unwrap();
    let p_b = sign_round2(&x_b, &agg.coefficients[1], &mut s_b, &nonces, &agg, &msg_bytes).unwrap();
    let aggregated_nonce = aggregate_nonces(&nonces);
    let honest = finalize(aggregated_nonce, &vec![p_a, p_b], agg.point, &msg_bytes).unwrap();
    assert!(verify_signature(&honest, agg.point, &msg_bytes));

    // Flip each bit of the second partial's binary record in turn:
    // the result is either no longer a valid record, or a different
    // scalar whose aggregate fails verification.
    let record = p_b.to_bytes();
    for bit in 0..64 {
        let mut tampered = record.clone();
        tampered[bit / 8] ^= 1u8 << (bit % 8);
        let text = bs58::encode(&tampered).into_string();
        match parse_partial_signature(&text) {
            Err(e) => assert_eq!(e, ProtocolError::MalformedMessage),
            Ok(forged) => {
                assert_ne!(forged, p_b);
                assert_eq!(
                    finalize(aggregated_nonce, &vec![p_a, forged], agg.point, &msg_bytes),
                    Err(ProtocolError::InvalidAggregateSignature)
                );
            }
        }
    }
}
