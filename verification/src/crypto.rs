//! The secret key and the calls into the `blake2` crate.

use vstd::prelude::*;

verus! {

/// Longest key, in bytes, that keyed BLAKE2b accepts.
pub const MAX_KEY_LEN: usize = 64;

/// Length in bytes of a BLAKE2b code and of a BLAKE2b digest.
pub const CODE_LEN: usize = 64;

/// The 64-byte code of keyed BLAKE2b for a message under a key.
pub uninterp spec fn blake2b_mac(key: Seq<u8>, message: Seq<u8>) -> Seq<u8>;

/// The 64-byte BLAKE2b digest of some bytes.
pub uninterp spec fn blake2b_digest(data: Seq<u8>) -> Seq<u8>;

#[verifier::external_type_specification]
#[verifier::external_body]
pub struct ExMacError(blake2::crypto_mac::MacError);

/// `Blake2b` as a `crypto_mac::Mac`: `new_varkey`, one `input`, then
/// `result().code()`. `new_varkey` refuses only a key of more than 64 bytes,
/// and `input` panics only when its length counter, which starts at 128,
/// passes `u64::MAX`; both are left out. The code has the 64 bytes of the
/// type's output size.
#[verifier::external_body]
pub(crate) fn mac_code(key: &[u8], message: &[u8]) -> (code: Vec<u8>)
    requires
        key@.len() <= MAX_KEY_LEN,
        message@.len() + 128 <= u64::MAX,
    ensures
        code@ == blake2b_mac(key@, message@),
        code@.len() == CODE_LEN,
{
    let mut hasher = <blake2::Blake2b as blake2::crypto_mac::Mac>::new_varkey(key).unwrap();
    blake2::crypto_mac::Mac::input(&mut hasher, message);
    blake2::crypto_mac::Mac::result(hasher).code().to_vec()
}

/// `Mac::verify` of `Blake2b` after `new_varkey` and one `input`. The trait's
/// source compares the code of the input with the given bytes in constant
/// time, and bytes of another length never compare equal: it returns `Ok`
/// exactly when the given bytes are the code.
#[verifier::external_body]
pub(crate) fn mac_verify(key: &[u8], message: &[u8], code: &[u8]) -> (r: Result<
    (),
    blake2::crypto_mac::MacError,
>)
    requires
        key@.len() <= MAX_KEY_LEN,
        message@.len() + 128 <= u64::MAX,
    ensures
        r is Ok <==> code@ == blake2b_mac(key@, message@),
{
    let mut hasher = <blake2::Blake2b as blake2::crypto_mac::Mac>::new_varkey(key).unwrap();
    blake2::crypto_mac::Mac::input(&mut hasher, message);
    blake2::crypto_mac::Mac::verify(hasher, code)
}

/// `Digest::digest` of `Blake2b`: the unkeyed hash of the bytes, 64 bytes
/// long. Its length counter starts at zero and cannot pass `u64::MAX` on one
/// slice no longer than that.
#[verifier::external_body]
pub(crate) fn digest(data: &[u8]) -> (out: Vec<u8>)
    requires
        data@.len() <= u64::MAX,
    ensures
        out@ == blake2b_digest(data@),
        out@.len() == CODE_LEN,
{
    <blake2::Blake2b as blake2::Digest>::digest(data).to_vec()
}

/// The shared secret under which seeds are authenticated. It is made once
/// from the configured bytes and handed to whoever issues or checks a seed.
pub struct SecretKey {
    bytes: Vec<u8>,
}

impl View for SecretKey {
    type V = Seq<u8>;

    closed spec fn view(&self) -> Seq<u8> {
        self.bytes@
    }
}

impl SecretKey {
    #[verifier::type_invariant]
    spec fn fits(self) -> bool {
        self.bytes@.len() <= MAX_KEY_LEN
    }

    /// Takes the key bytes; a key longer than 64 bytes is no key.
    pub fn new(bytes: Vec<u8>) -> (key: Option<SecretKey>)
        ensures
            key is Some <==> bytes@.len() <= MAX_KEY_LEN,
            key is Some ==> key->Some_0@ == bytes@,
    {
        if bytes.len() <= MAX_KEY_LEN {
            Some(SecretKey { bytes })
        } else {
            None
        }
    }

    /// The code of a message under this key.
    pub(crate) fn code(&self, message: &[u8]) -> (code: Vec<u8>)
        requires
            message@.len() + 128 <= u64::MAX,
        ensures
            code@ == blake2b_mac(self@, message@),
            code@.len() == CODE_LEN,
    {
        proof {
            use_type_invariant(self);
        }
        mac_code(self.bytes.as_slice(), message)
    }

    /// Whether the bytes are the code of the message under this key.
    pub(crate) fn accepts(&self, message: &[u8], code: &[u8]) -> (ok: bool)
        requires
            message@.len() + 128 <= u64::MAX,
        ensures
            ok <==> code@ == blake2b_mac(self@, message@),
    {
        proof {
            use_type_invariant(self);
        }
        match mac_verify(self.bytes.as_slice(), message, code) {
            Ok(_) => true,
            Err(_) => false,
        }
    }
}

} // verus!
