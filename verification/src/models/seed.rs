//! Seeds: timestamped tokens bound to a domain value and authenticated
//! under the secret key.

use crate::crypto::{blake2b_mac, CODE_LEN};
use crate::domain::Domain;
use crate::hexcode::{
    hex_decoding, hex_encoding, hex_fold, is_hex, lemma_decoding_is_folded_encoding,
};
use vstd::prelude::*;

verus! {

/// A bearer token: when it was issued, what it is bound to, and the
/// hexadecimal code of both under the secret key.
#[derive(Clone, Debug)]
pub struct Seed {
    /// Seconds since the epoch at which the seed was issued.
    pub timestamp: i32,
    /// The value mixed in: zero for a start seed, a commitment for a
    /// challenge seed.
    pub data: Domain,
    /// Hexadecimal code of the timestamp and the data.
    pub mac: String,
}

/// What a prover sends to be given a seed.
#[derive(Clone, Copy, Debug)]
pub struct SeedInput {
    /// The value to bind the seed to.
    pub data: Domain,
}

impl Default for SeedInput {
    fn default() -> (input: SeedInput)
        ensures
            input.data@ == Seq::new(32, |i: int| 0u8),
    {
        SeedInput { data: Domain::zero() }
    }
}

/// The decimal digits of a natural number, as ASCII bytes.
pub open spec fn decimal_digits(n: nat) -> Seq<u8>
    decreases n,
{
    if n < 10 {
        seq![(48 + n) as u8]
    } else {
        decimal_digits(n / 10).push((48 + n % 10) as u8)
    }
}

/// The decimal text of an integer, as ASCII bytes, with `-` before a
/// negative one.
pub open spec fn decimal_text(n: int) -> Seq<u8> {
    if n < 0 {
        seq![45u8] + decimal_digits((-n) as nat)
    } else {
        decimal_digits(n as nat)
    }
}

/// The bytes that are authenticated: the timestamp in decimal, then the data.
pub open spec fn seed_message(timestamp: i32, data: Domain) -> Seq<u8> {
    decimal_text(timestamp as int) + data@
}

/// The code that a seed with these contents carries under the key.
pub open spec fn seed_code(key: Seq<u8>, timestamp: i32, data: Domain) -> Seq<u8> {
    blake2b_mac(key, seed_message(timestamp, data))
}

/// The seed's code is hexadecimal text for the 64-byte code of its
/// contents.
pub open spec fn authentic(key: Seq<u8>, seed: Seed) -> bool {
    &&& is_hex(seed.mac@)
    &&& hex_decoding(seed.mac@).len() == CODE_LEN
    &&& hex_decoding(seed.mac@) == seed_code(key, seed.timestamp, seed.data)
}

fn push_digits(n: u64, out: &mut Vec<u8>)
    ensures
        final(out)@ == old(out)@ + decimal_digits(n as nat),
    decreases n,
{
    if n < 10 {
        out.push((48 + n) as u8);
        assert(out@ =~= old(out)@ + decimal_digits(n as nat));
    } else {
        push_digits(n / 10, out);
        out.push((48 + n % 10) as u8);
        assert(out@ =~= old(out)@ + decimal_digits(n as nat));
    }
}

/// The length of a decimal text of 32 bits: at most a sign and ten digits.
pub proof fn lemma_decimal_len(n: int)
    requires
        -0x8000_0000 <= n < 0x8000_0000,
    ensures
        1 <= decimal_text(n).len() <= 11,
{
    let m: nat = if n < 0 {
        (-n) as nat
    } else {
        n as nat
    };
    reveal_with_fuel(decimal_digits, 11);
    assert(1 <= decimal_digits(m).len() <= 10);
}

/// The bytes over which a seed's code is computed.
pub fn message_bytes(timestamp: i32, data: &Domain) -> (message: Vec<u8>)
    ensures
        message@ == seed_message(timestamp, *data),
        message@.len() <= 43,
{
    let mut message: Vec<u8> = Vec::new();
    let wide: i64 = timestamp as i64;
    if wide < 0 {
        message.push(45u8);
        push_digits((-wide) as u64, &mut message);
    } else {
        push_digits(wide as u64, &mut message);
    }
    assert(message@ =~= decimal_text(timestamp as int));
    let ghost text = message@;
    let mut i: usize = 0;
    while i < 32
        invariant
            i <= 32,
            message@ == text + data@.subrange(0, i as int),
        decreases 32 - i,
    {
        message.push(data.bytes[i]);
        assert(message@ =~= text + data@.subrange(0, i + 1));
        i += 1;
    }
    assert(data@.subrange(0, 32) =~= data@);
    proof {
        lemma_decimal_len(timestamp as int);
    }
    message
}

/// A seed is authentic exactly when its code, put in lower case, is the
/// hexadecimal encoding of the code of its contents, 64 bytes long.
pub proof fn law_authentic_code(key: Seq<u8>, seed: Seed)
    ensures
        authentic(key, seed) <==> {
            &&& seed_code(key, seed.timestamp, seed.data).len() == CODE_LEN
            &&& hex_fold(seed.mac@) == hex_encoding(seed_code(key, seed.timestamp, seed.data))
        },
{
    lemma_decoding_is_folded_encoding(seed.mac@, seed_code(key, seed.timestamp, seed.data));
}

/// Tampering with the code of an authentic seed makes it fail, unless the
/// change is only in the case of hexadecimal letters.
pub proof fn law_tampered_code_fails(key: Seq<u8>, seed: Seed, forged: Seed)
    requires
        authentic(key, seed),
        forged.timestamp == seed.timestamp,
        forged.data == seed.data,
        hex_fold(forged.mac@) != hex_fold(seed.mac@),
    ensures
        !authentic(key, forged),
{
    law_authentic_code(key, seed);
    law_authentic_code(key, forged);
}

} // verus!
