//! The wire codec for the three protocol messages exchanged out of
//! band: a canonical fixed-width binary layout for each record, carried
//! in a reversible base-58 text form for human transcription.
//!
//! Decoding is exact: a text string is accepted if and only if it is
//! the encoding of exactly one well-formed record, and decoding an
//! encoded record gives the record back.

use vstd::prelude::*;

use crate::field::{Point, Scalar, FIELD_ORDER};
use crate::nonces::{AggMessage1, SecretAggStepOne};
use crate::signing::PartialSignature;
use crate::ProtocolError;
use vstd::bytes::{
    lemma_auto_spec_u64_to_from_le_bytes, spec_u64_from_le_bytes, spec_u64_to_le_bytes,
    u64_from_le_bytes, u64_to_le_bytes,
};
use vstd::slice::slice_subrange;

verus! {

/// The base-58 text of a byte string, as the outside encoder produces
/// it.  It depends on the bytes alone.
pub uninterp spec fn b58_of(bytes: Seq<u8>) -> Seq<char>;

#[verifier::external_type_specification]
#[verifier::external_body]
pub struct ExBs58DecodeError(bs58::decode::Error);

/// Relies on `bs58::encode(..).into_string()`: the produced text is a
/// function of the input bytes alone.
#[verifier::external_body]
fn bs58_encode(bytes: &Vec<u8>) -> (r: String)
    ensures
        r@ == b58_of(bytes@),
{
    bs58::encode(bytes.as_slice()).into_string()
}

/// Relies on `bs58::decode(..).into_vec()`: decoding inverts encoding.
/// It succeeds exactly on the strings the encoder can produce (every
/// character drawn from the base-58 alphabet) and returns the unique
/// byte string that encodes to the input.
#[verifier::external_body]
fn bs58_decode(s: &str) -> (r: Result<Vec<u8>, bs58::decode::Error>)
    ensures
        match r {
            Ok(bytes) => s@ == b58_of(bytes@) && forall|b: Seq<u8>|
                s@ == b58_of(b) ==> b == bytes@,
            Err(_) => forall|b: Seq<u8>| s@ != b58_of(b),
        },
{
    bs58::decode(s).into_vec()
}

/// The canonical binary record of a round-1 commitment: the sender's
/// key and the nonce point, fixed-width little-endian.
pub open spec fn agg_message1_bytes(m: AggMessage1) -> Seq<u8> {
    spec_u64_to_le_bytes(m.sender.v) + spec_u64_to_le_bytes(m.nonce_point.v)
}

/// The canonical binary record of a secret round-1 state: the secret
/// scalar followed by the consumed flag.
pub open spec fn secret_step_one_bytes(s: SecretAggStepOne) -> Seq<u8> {
    spec_u64_to_le_bytes(s.secret.v) + seq![if s.consumed { 1u8 } else { 0u8 }]
}

/// The canonical binary record of a partial signature.
pub open spec fn partial_signature_bytes(p: PartialSignature) -> Seq<u8> {
    spec_u64_to_le_bytes(p.s.v)
}

/// The binary record determines the commitment: encoding is injective.
pub proof fn lemma_agg_message1_bytes_injective(m1: AggMessage1, m2: AggMessage1)
    requires
        agg_message1_bytes(m1) == agg_message1_bytes(m2),
    ensures
        m1 == m2,
{
    lemma_auto_spec_u64_to_from_le_bytes();
    assert(agg_message1_bytes(m1).subrange(0, 8) =~= spec_u64_to_le_bytes(m1.sender.v));
    assert(agg_message1_bytes(m2).subrange(0, 8) =~= spec_u64_to_le_bytes(m2.sender.v));
    assert(agg_message1_bytes(m1).subrange(8, 16) =~= spec_u64_to_le_bytes(m1.nonce_point.v));
    assert(agg_message1_bytes(m2).subrange(8, 16) =~= spec_u64_to_le_bytes(m2.nonce_point.v));
}

/// The binary record determines the secret state: encoding is
/// injective.
pub proof fn lemma_secret_step_one_bytes_injective(s1: SecretAggStepOne, s2: SecretAggStepOne)
    requires
        secret_step_one_bytes(s1) == secret_step_one_bytes(s2),
    ensures
        s1 == s2,
{
    lemma_auto_spec_u64_to_from_le_bytes();
    assert(spec_u64_to_le_bytes(s1.secret.v).len() == 8);
    assert(spec_u64_to_le_bytes(s2.secret.v).len() == 8);
    assert(secret_step_one_bytes(s1).subrange(0, 8) =~= spec_u64_to_le_bytes(s1.secret.v));
    assert(secret_step_one_bytes(s2).subrange(0, 8) =~= spec_u64_to_le_bytes(s2.secret.v));
    assert(secret_step_one_bytes(s1)[8] == (if s1.consumed { 1u8 } else { 0u8 }));
    assert(secret_step_one_bytes(s2)[8] == (if s2.consumed { 1u8 } else { 0u8 }));
}

/// The binary record determines the partial signature: encoding is
/// injective.
pub proof fn lemma_partial_signature_bytes_injective(p1: PartialSignature, p2: PartialSignature)
    requires
        partial_signature_bytes(p1) == partial_signature_bytes(p2),
    ensures
        p1 == p2,
{
    lemma_auto_spec_u64_to_from_le_bytes();
}

/// Read the fixed-width little-endian word at `off`.
fn read_u64(b: &Vec<u8>, off: usize) -> (r: u64)
    requires
        off + 8 <= b@.len(),
    ensures
        r == spec_u64_from_le_bytes(b@.subrange(off as int, off as int + 8)),
{
    let n = b.len();
    proof {
        assert(off + 8 <= n);
    }
    let sl = slice_subrange(b.as_slice(), off, off + 8);
    u64_from_le_bytes(sl)
}

impl AggMessage1 {
    /// The canonical binary record, executable form.
    pub fn to_bytes(&self) -> (r: Vec<u8>)
        ensures
            r@ == agg_message1_bytes(*self),
    {
        let mut out = u64_to_le_bytes(self.sender.v);
        let mut tail = u64_to_le_bytes(self.nonce_point.v);
        out.append(&mut tail);
        out
    }

    /// Decode a canonical binary record.  Accepts exactly the records
    /// of well-formed commitments: sixteen bytes whose two elements
    /// are reduced and not the identity.
    pub fn from_bytes(b: &Vec<u8>) -> (r: Result<AggMessage1, ProtocolError>)
        ensures
            match r {
                Ok(m) => m.wf() && b@ == agg_message1_bytes(m),
                Err(e) => e == ProtocolError::MalformedMessage && forall|m: AggMessage1|
                    m.wf() ==> b@ != #[trigger] agg_message1_bytes(m),
            },
    {
        proof {
            lemma_auto_spec_u64_to_from_le_bytes();
        }
        if b.len() != 16 {
            return Err(ProtocolError::MalformedMessage);
        }
        let sender_v = read_u64(b, 0);
        let nonce_v = read_u64(b, 8);
        proof {
            assert forall|m: AggMessage1| b@ == agg_message1_bytes(m) implies m.sender.v
                == sender_v && m.nonce_point.v == nonce_v by {
                assert(b@.subrange(0, 8) =~= spec_u64_to_le_bytes(m.sender.v));
                assert(b@.subrange(8, 16) =~= spec_u64_to_le_bytes(m.nonce_point.v));
            }
        }
        if sender_v == 0 || sender_v >= FIELD_ORDER || nonce_v == 0 || nonce_v >= FIELD_ORDER {
            return Err(ProtocolError::MalformedMessage);
        }
        let m = AggMessage1 {
            sender: Point { v: sender_v },
            nonce_point: Point { v: nonce_v },
        };
        proof {
            assert(b@ =~= agg_message1_bytes(m));
        }
        Ok(m)
    }

    /// Encode for out-of-band transcription.
    pub fn serialize_bs58(&self) -> (r: String)
        ensures
            r@ == b58_of(agg_message1_bytes(*self)),
    {
        bs58_encode(&self.to_bytes())
    }

    /// Decode a transcribed commitment.  Accepts exactly the text
    /// encodings of well-formed commitments, and returns the unique
    /// commitment the text encodes.
    pub fn deserialize_bs58(s: &str) -> (r: Result<AggMessage1, ProtocolError>)
        ensures
            match r {
                Ok(m) => m.wf() && s@ == b58_of(agg_message1_bytes(m)) && forall|
                    m2: AggMessage1,
                |
                    m2.wf() && s@ == b58_of(#[trigger] agg_message1_bytes(m2)) ==> m2 == m,
                Err(e) => e == ProtocolError::MalformedMessage && forall|m: AggMessage1|
                    m.wf() ==> s@ != b58_of(#[trigger] agg_message1_bytes(m)),
            },
    {
        let bytes = match bs58_decode(s) {
            Ok(bytes) => bytes,
            Err(_) => {
                return Err(ProtocolError::MalformedMessage);
            },
        };
        match AggMessage1::from_bytes(&bytes) {
            Ok(m) => {
                proof {
                    assert forall|m2: AggMessage1|
                        m2.wf() && s@ == b58_of(#[trigger] agg_message1_bytes(m2)) implies m2
                        == m by {
                        assert(agg_message1_bytes(m2) == bytes@);
                        lemma_agg_message1_bytes_injective(m2, m);
                    }
                }
                Ok(m)
            },
            Err(_) => {
                proof {
                    assert forall|m: AggMessage1| m.wf() implies s@ != b58_of(
                        #[trigger] agg_message1_bytes(m),
                    ) by {
                        if s@ == b58_of(agg_message1_bytes(m)) {
                            assert(agg_message1_bytes(m) == bytes@);
                        }
                    }
                }
                Err(ProtocolError::MalformedMessage)
            },
        }
    }
}

impl SecretAggStepOne {
    /// The canonical binary record, executable form.
    pub fn to_bytes(&self) -> (r: Vec<u8>)
        ensures
            r@ == secret_step_one_bytes(*self),
    {
        let mut out = u64_to_le_bytes(self.secret.v);
        if self.consumed {
            out.push(1u8);
        } else {
            out.push(0u8);
        }
        proof {
            assert(out@ =~= secret_step_one_bytes(*self));
        }
        out
    }

    /// Decode a canonical binary record.  Accepts exactly the records
    /// of well-formed states: a reduced secret, a one-byte flag that
    /// is zero or one, and a non-zero secret while unconsumed.
    pub fn from_bytes(b: &Vec<u8>) -> (r: Result<SecretAggStepOne, ProtocolError>)
        ensures
            match r {
                Ok(st) => st.wf() && b@ == secret_step_one_bytes(st),
                Err(e) => e == ProtocolError::MalformedMessage && forall|st: SecretAggStepOne|
                    st.wf() ==> b@ != #[trigger] secret_step_one_bytes(st),
            },
    {
        proof {
            lemma_auto_spec_u64_to_from_le_bytes();
        }
        if b.len() != 9 {
            return Err(ProtocolError::MalformedMessage);
        }
        let secret_v = read_u64(b, 0);
        let flag = b[8];
        proof {
            assert forall|st: SecretAggStepOne| b@ == secret_step_one_bytes(st) implies st.secret.v
                == secret_v && (if st.consumed { 1u8 } else { 0u8 }) == flag by {
                assert(b@.subrange(0, 8) =~= spec_u64_to_le_bytes(st.secret.v));
                assert(b@[8] == (if st.consumed { 1u8 } else { 0u8 }));
            }
        }
        if secret_v >= FIELD_ORDER || flag > 1 || (flag == 0 && secret_v == 0) {
            return Err(ProtocolError::MalformedMessage);
        }
        let st = SecretAggStepOne { secret: Scalar { v: secret_v }, consumed: flag == 1 };
        proof {
            assert(b@ =~= secret_step_one_bytes(st));
        }
        Ok(st)
    }

    /// Encode for the local round 1 to round 2 hand-over.  The text is
    /// for the owning signer alone; it must never travel to another
    /// party.
    pub fn serialize_bs58(&self) -> (r: String)
        ensures
            r@ == b58_of(secret_step_one_bytes(*self)),
    {
        bs58_encode(&self.to_bytes())
    }

    /// Decode a locally stored secret state.  Accepts exactly the text
    /// encodings of well-formed states, and returns the unique state
    /// the text encodes.
    pub fn deserialize_bs58(s: &str) -> (r: Result<SecretAggStepOne, ProtocolError>)
        ensures
            match r {
                Ok(st) => st.wf() && s@ == b58_of(secret_step_one_bytes(st)) && forall|
                    st2: SecretAggStepOne,
                |
                    st2.wf() && s@ == b58_of(#[trigger] secret_step_one_bytes(st2)) ==> st2 == st,
                Err(e) => e == ProtocolError::MalformedMessage && forall|st: SecretAggStepOne|
                    st.wf() ==> s@ != b58_of(#[trigger] secret_step_one_bytes(st)),
            },
    {
        let bytes = match bs58_decode(s) {
            Ok(bytes) => bytes,
            Err(_) => {
                return Err(ProtocolError::MalformedMessage);
            },
        };
        match SecretAggStepOne::from_bytes(&bytes) {
            Ok(st) => {
                proof {
                    assert forall|st2: SecretAggStepOne|
                        st2.wf() && s@ == b58_of(#[trigger] secret_step_one_bytes(st2)) implies st2
                        == st by {
                        assert(secret_step_one_bytes(st2) == bytes@);
                        lemma_secret_step_one_bytes_injective(st2, st);
                    }
                }
                Ok(st)
            },
            Err(_) => {
                proof {
                    assert forall|st: SecretAggStepOne| st.wf() implies s@ != b58_of(
                        #[trigger] secret_step_one_bytes(st),
                    ) by {
                        if s@ == b58_of(secret_step_one_bytes(st)) {
                            assert(secret_step_one_bytes(st) == bytes@);
                        }
                    }
                }
                Err(ProtocolError::MalformedMessage)
            },
        }
    }
}

impl PartialSignature {
    /// The canonical binary record, executable form.
    pub fn to_bytes(&self) -> (r: Vec<u8>)
        ensures
            r@ == partial_signature_bytes(*self),
    {
        u64_to_le_bytes(self.s.v)
    }

    /// Decode a canonical binary record.  Accepts exactly the records
    /// of well-formed partial signatures: eight bytes holding a
    /// reduced scalar.
    pub fn from_bytes(b: &Vec<u8>) -> (r: Result<PartialSignature, ProtocolError>)
        ensures
            match r {
                Ok(p) => p.wf() && b@ == partial_signature_bytes(p),
                Err(e) => e == ProtocolError::MalformedMessage && forall|p: PartialSignature|
                    p.wf() ==> b@ != #[trigger] partial_signature_bytes(p),
            },
    {
        proof {
            lemma_auto_spec_u64_to_from_le_bytes();
        }
        if b.len() != 8 {
            return Err(ProtocolError::MalformedMessage);
        }
        let s_v = read_u64(b, 0);
        proof {
            assert forall|p: PartialSignature| b@ == partial_signature_bytes(p) implies p.s.v
                == s_v by {
                assert(b@.subrange(0, 8) =~= spec_u64_to_le_bytes(p.s.v));
            }
        }
        if s_v >= FIELD_ORDER {
            return Err(ProtocolError::MalformedMessage);
        }
        let p = PartialSignature { s: Scalar { v: s_v } };
        proof {
            assert(b@ =~= partial_signature_bytes(p));
        }
        Ok(p)
    }

    /// Encode for out-of-band transcription.
    pub fn serialize_bs58(&self) -> (r: String)
        ensures
            r@ == b58_of(partial_signature_bytes(*self)),
    {
        bs58_encode(&self.to_bytes())
    }

    /// Decode a transcribed partial signature.  Accepts exactly the
    /// text encodings of well-formed partial signatures, and returns
    /// the unique partial signature the text encodes.
    pub fn deserialize_bs58(s: &str) -> (r: Result<PartialSignature, ProtocolError>)
        ensures
            match r {
                Ok(p) => p.wf() && s@ == b58_of(partial_signature_bytes(p)) && forall|
                    p2: PartialSignature,
                |
                    p2.wf() && s@ == b58_of(#[trigger] partial_signature_bytes(p2)) ==> p2 == p,
                Err(e) => e == ProtocolError::MalformedMessage && forall|p: PartialSignature|
                    p.wf() ==> s@ != b58_of(#[trigger] partial_signature_bytes(p)),
            },
    {
        let bytes = match bs58_decode(s) {
            Ok(bytes) => bytes,
            Err(_) => {
                return Err(ProtocolError::MalformedMessage);
            },
        };
        match PartialSignature::from_bytes(&bytes) {
            Ok(p) => {
                proof {
                    assert forall|p2: PartialSignature|
                        p2.wf() && s@ == b58_of(#[trigger] partial_signature_bytes(p2)) implies p2
                        == p by {
                        assert(partial_signature_bytes(p2) == bytes@);
                        lemma_partial_signature_bytes_injective(p2, p);
                    }
                }
                Ok(p)
            },
            Err(_) => {
                proof {
                    assert forall|p: PartialSignature| p.wf() implies s@ != b58_of(
                        #[trigger] partial_signature_bytes(p),
                    ) by {
                        if s@ == b58_of(partial_signature_bytes(p)) {
                            assert(partial_signature_bytes(p) == bytes@);
                        }
                    }
                }
                Err(ProtocolError::MalformedMessage)
            },
        }
    }
}

/// Parse a transcribed round-1 commitment.
pub fn parse_agg_message1(s: &str) -> (r: Result<AggMessage1, ProtocolError>)
    ensures
        match r {
            Ok(m) => m.wf() && s@ == b58_of(agg_message1_bytes(m)),
            Err(e) => e == ProtocolError::MalformedMessage && forall|m: AggMessage1|
                m.wf() ==> s@ != b58_of(#[trigger] agg_message1_bytes(m)),
        },
{
    AggMessage1::deserialize_bs58(s)
}

/// Parse a locally stored secret round-1 state.
pub fn parse_secret_agg_step_one(s: &str) -> (r: Result<SecretAggStepOne, ProtocolError>)
    ensures
        match r {
            Ok(st) => st.wf() && s@ == b58_of(secret_step_one_bytes(st)),
            Err(e) => e == ProtocolError::MalformedMessage && forall|st: SecretAggStepOne|
                st.wf() ==> s@ != b58_of(#[trigger] secret_step_one_bytes(st)),
        },
{
    SecretAggStepOne::deserialize_bs58(s)
}

/// Parse a transcribed partial signature.
pub fn parse_partial_signature(s: &str) -> (r: Result<PartialSignature, ProtocolError>)
    ensures
        match r {
            Ok(p) => p.wf() && s@ == b58_of(partial_signature_bytes(p)),
            Err(e) => e == ProtocolError::MalformedMessage && forall|p: PartialSignature|
                p.wf() ==> s@ != b58_of(#[trigger] partial_signature_bytes(p)),
        },
{
    PartialSignature::deserialize_bs58(s)
}

} // verus!
