//! The canonical byte string all parties sign: a fixed, length-framed
//! encoding of the transfer the session is about.
//!
//! Every party must build this preimage from bit-for-bit identical
//! session parameters; any divergence changes the bytes, hence the
//! challenge, and the final signature fails verification.

use vstd::prelude::*;

use crate::hashing::append_bytes;
use vstd::bytes::{spec_u64_to_le_bytes, u64_to_le_bytes};

verus! {

/// The canonical transfer preimage: amount, then the length-framed
/// recipient, the optional length-framed memo behind a presence byte,
/// and the length-framed recent blockhash.
pub open spec fn transfer_message_bytes(
    lamports: u64,
    recipient: Seq<u8>,
    memo: Option<Seq<u8>>,
    blockhash: Seq<u8>,
) -> Seq<u8> {
    spec_u64_to_le_bytes(lamports) + spec_u64_to_le_bytes(recipient.len() as u64) + recipient
        + (match memo {
        Option::None => seq![0u8],
        Option::Some(m) => seq![1u8] + spec_u64_to_le_bytes(m.len() as u64) + m,
    }) + spec_u64_to_le_bytes(blockhash.len() as u64) + blockhash
}

/// Build the canonical transfer preimage, executable form.
pub fn build_transfer_message(
    lamports: u64,
    recipient: &Vec<u8>,
    memo: &Option<Vec<u8>>,
    blockhash: &Vec<u8>,
) -> (r: Vec<u8>)
    ensures
        match *memo {
            Option::None => r@ == transfer_message_bytes(
                lamports,
                recipient@,
                Option::None,
                blockhash@,
            ),
            Option::Some(m) => r@ == transfer_message_bytes(
                lamports,
                recipient@,
                Option::Some(m@),
                blockhash@,
            ),
        },
{
    let mut out = u64_to_le_bytes(lamports);
    let mut rec_len = u64_to_le_bytes(recipient.len() as u64);
    out.append(&mut rec_len);
    append_bytes(&mut out, recipient);
    match memo {
        Option::None => {
            out.push(0u8);
        },
        Option::Some(m) => {
            out.push(1u8);
            let mut memo_len = u64_to_le_bytes(m.len() as u64);
            out.append(&mut memo_len);
            append_bytes(&mut out, m);
        },
    }
    let mut bh_len = u64_to_le_bytes(blockhash.len() as u64);
    out.append(&mut bh_len);
    append_bytes(&mut out, blockhash);
    proof {
        match memo {
            Option::None => {
                assert(out@ =~= transfer_message_bytes(
                    lamports,
                    recipient@,
                    Option::None,
                    blockhash@,
                ));
            },
            Option::Some(m) => {
                assert(out@ =~= transfer_message_bytes(
                    lamports,
                    recipient@,
                    Option::Some(m@),
                    blockhash@,
                ));
            },
        }
    }
    out
}

} // verus!
