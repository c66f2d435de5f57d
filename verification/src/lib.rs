//! N-of-N aggregated Schnorr signing over a prime-order group.
//!
//! The crate provides key aggregation with binding coefficients, the
//! two-round nonce-commit/sign exchange, final signature aggregation
//! with mandatory verification, and a canonical wire codec (fixed-width
//! binary records carried in a reversible text encoding) for the three
//! protocol messages that parties exchange out of band.

use vstd::prelude::*;

pub mod field;
pub mod hashing;
pub mod keyagg;
pub mod nonces;
pub mod signing;
pub mod aggregate;
pub mod codec;
pub mod network;
pub mod message;
pub mod laws;

verus! {

/// The failures the protocol core can report.  Every operation returns
/// one of these instead of panicking; the surrounding tool reports it
/// and the operator corrects the step.
#[derive(Clone, Copy, PartialEq, Eq, Structural, Debug)]
pub enum ProtocolError {
    /// Too few keys, a repeated key, or a degenerate (identity) key.
    InvalidKeySet,
    /// A wire record failed to decode: wrong length, a character
    /// outside the text alphabet, or an invalid group element.
    MalformedMessage,
    /// The set of public nonces handed to the signing stage does not
    /// match the session's key set, or the secret nonce state does not
    /// belong to the caller's own published commitment.
    IncompleteOrMismatchedNonceSet,
    /// A secret nonce state was offered for signing a second time.
    NonceAlreadyConsumed,
    /// The combined partial signatures do not verify against the
    /// aggregated key and message.
    InvalidAggregateSignature,
    /// A network name that is none of mainnet, testnet, devnet, local.
    WrongNetwork,
}

} // verus!
