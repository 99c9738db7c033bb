//! The seed endpoint: issuing seeds.

use crate::crypto::SecretKey;
use crate::hexcode::{self, hex_encoding, lemma_encoding_decodes};
use crate::models::seed::{authentic, message_bytes, seed_code, Seed, SeedInput};
use vstd::prelude::*;

verus! {

/// Issues a seed for the clock reading `now`, bound to the data sent. The
/// seed is authentic under the same key.
pub fn seed(key: &SecretKey, now: i32, input: SeedInput) -> (issued: Seed)
    ensures
        issued.timestamp == now,
        issued.data == input.data,
        issued.mac@ == hex_encoding(seed_code(key@, now, input.data)),
        authentic(key@, issued),
{
    let message = message_bytes(now, &input.data);
    let code = key.code(message.as_slice());
    let mac = hexcode::encode(code.as_slice());
    proof {
        lemma_encoding_decodes(code@);
    }
    Seed { timestamp: now, data: input.data, mac }
}

} // verus!
