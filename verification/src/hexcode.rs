//! Hexadecimal text: what it means, and the calls into the `hex` crate.

use vstd::prelude::*;

verus! {

/// The lower-case hexadecimal digit of a value below 16.
pub open spec fn hex_digit(n: int) -> char {
    if n == 0 {
        '0'
    } else if n == 1 {
        '1'
    } else if n == 2 {
        '2'
    } else if n == 3 {
        '3'
    } else if n == 4 {
        '4'
    } else if n == 5 {
        '5'
    } else if n == 6 {
        '6'
    } else if n == 7 {
        '7'
    } else if n == 8 {
        '8'
    } else if n == 9 {
        '9'
    } else if n == 10 {
        'a'
    } else if n == 11 {
        'b'
    } else if n == 12 {
        'c'
    } else if n == 13 {
        'd'
    } else if n == 14 {
        'e'
    } else {
        'f'
    }
}

/// The value of a hexadecimal digit, in either case; `None` for any other
/// character.
pub open spec fn hex_value(c: char) -> Option<int> {
    if c == '0' {
        Some(0)
    } else if c == '1' {
        Some(1)
    } else if c == '2' {
        Some(2)
    } else if c == '3' {
        Some(3)
    } else if c == '4' {
        Some(4)
    } else if c == '5' {
        Some(5)
    } else if c == '6' {
        Some(6)
    } else if c == '7' {
        Some(7)
    } else if c == '8' {
        Some(8)
    } else if c == '9' {
        Some(9)
    } else if c == 'a' || c == 'A' {
        Some(10)
    } else if c == 'b' || c == 'B' {
        Some(11)
    } else if c == 'c' || c == 'C' {
        Some(12)
    } else if c == 'd' || c == 'D' {
        Some(13)
    } else if c == 'e' || c == 'E' {
        Some(14)
    } else if c == 'f' || c == 'F' {
        Some(15)
    } else {
        None
    }
}

/// The lower-case form of a hexadecimal digit; other characters are left
/// as they are.
pub open spec fn fold_digit(c: char) -> char {
    match hex_value(c) {
        Some(n) => hex_digit(n),
        None => c,
    }
}

/// A text with every hexadecimal digit in lower case.
pub open spec fn hex_fold(s: Seq<char>) -> Seq<char> {
    Seq::new(s.len(), |i: int| fold_digit(s[i]))
}

/// The text is an even number of hexadecimal digits.
pub open spec fn is_hex(s: Seq<char>) -> bool {
    &&& s.len() % 2 == 0
    &&& forall|i: int| 0 <= i < s.len() ==> (#[trigger] hex_value(s[i])) is Some
}

/// Two lower-case digits for each byte, the high half first.
pub open spec fn hex_encoding(bytes: Seq<u8>) -> Seq<char> {
    Seq::new(
        2 * bytes.len(),
        |i: int| if i % 2 == 0 {
            hex_digit(bytes[i / 2] as int / 16)
        } else {
            hex_digit(bytes[i / 2] as int % 16)
        },
    )
}

/// The bytes that a hexadecimal text stands for: one for each pair of digits.
pub open spec fn hex_decoding(s: Seq<char>) -> Seq<u8> {
    Seq::new(
        s.len() / 2,
        |i: int| (16 * hex_value(s[2 * i]).unwrap() + hex_value(s[2 * i + 1]).unwrap()) as u8,
    )
}

/// What the two digit tables say of each other.
pub proof fn lemma_digits()
    ensures
        forall|n: int| 0 <= n < 16 ==> (#[trigger] hex_value(hex_digit(n))) == Some(n),
        forall|c: char| (#[trigger] hex_value(c)) is Some ==> 0 <= hex_value(c).unwrap() < 16,
        forall|c: char|
            (#[trigger] hex_value(c)) is None ==> hex_value(fold_digit(c)) is None,
{
}

/// A text stands for some bytes exactly when its lower-case form is the
/// encoding of those bytes.
#[verifier::rlimit(40)]
pub proof fn lemma_decoding_is_folded_encoding(text: Seq<char>, bytes: Seq<u8>)
    ensures
        (is_hex(text) && hex_decoding(text) == bytes) <==> hex_fold(text) == hex_encoding(bytes),
{
    lemma_digits();
    if is_hex(text) && hex_decoding(text) == bytes {
        assert(text.len() == 2 * bytes.len());
        assert forall|i: int| 0 <= i < text.len() implies hex_fold(text)[i] == hex_encoding(
            bytes,
        )[i] by {
            let k = i / 2;
            let hi = hex_value(text[2 * k]).unwrap();
            let lo = hex_value(text[2 * k + 1]).unwrap();
            assert(hex_value(text[2 * k]) is Some);
            assert(hex_value(text[2 * k + 1]) is Some);
            assert(hex_value(text[i]) is Some);
            assert(bytes[k] == (16 * hi + lo) as u8);
            assert((16 * hi + lo) / 16 == hi);
            assert((16 * hi + lo) % 16 == lo);
        }
        assert(hex_fold(text) =~= hex_encoding(bytes));
    }
    if hex_fold(text) == hex_encoding(bytes) {
        assert(hex_fold(text).len() == text.len());
        assert(text.len() == 2 * bytes.len());
        assert forall|i: int| 0 <= i < text.len() implies (#[trigger] hex_value(text[i])) is Some
            && hex_digit(hex_value(text[i]).unwrap()) == hex_encoding(bytes)[i] by {
            assert(fold_digit(text[i]) == hex_fold(text)[i]);
            let b = bytes[i / 2] as int;
            assert(0 <= b / 16 < 16 && 0 <= b % 16 < 16);
            assert(hex_value(hex_encoding(bytes)[i]) is Some);
        }
        assert forall|k: int| 0 <= k < bytes.len() implies hex_decoding(text)[k] == bytes[k] by {
            let b = bytes[k] as int;
            assert(0 <= b / 16 < 16 && 0 <= b % 16 < 16);
            assert(hex_value(text[2 * k]) is Some);
            assert(hex_value(text[2 * k + 1]) is Some);
            assert(hex_encoding(bytes)[2 * k] == hex_digit(b / 16));
            assert(hex_encoding(bytes)[2 * k + 1] == hex_digit(b % 16));
            assert(hex_value(hex_digit(b / 16)) == Some(b / 16));
            assert(hex_value(hex_digit(b % 16)) == Some(b % 16));
            lemma_digit_is_one_to_one(hex_value(text[2 * k]).unwrap(), b / 16);
            lemma_digit_is_one_to_one(hex_value(text[2 * k + 1]).unwrap(), b % 16);
            assert(16 * (b / 16) + b % 16 == b);
        }
        assert(hex_decoding(text) =~= bytes);
    }
}

/// Different values below 16 have different digits.
pub proof fn lemma_digit_is_one_to_one(m: int, n: int)
    requires
        0 <= m < 16,
        0 <= n < 16,
        hex_digit(m) == hex_digit(n),
    ensures
        m == n,
{
}

/// Decoding undoes encoding.
pub proof fn lemma_encoding_decodes(bytes: Seq<u8>)
    ensures
        is_hex(hex_encoding(bytes)),
        hex_decoding(hex_encoding(bytes)) == bytes,
        hex_fold(hex_encoding(bytes)) == hex_encoding(bytes),
{
    lemma_digits();
    let text = hex_encoding(bytes);
    assert forall|i: int| 0 <= i < text.len() implies hex_fold(text)[i] == text[i] by {
        let b = bytes[i / 2] as int;
        assert(0 <= b / 16 < 16 && 0 <= b % 16 < 16);
        assert(hex_value(hex_digit(b / 16)) == Some(b / 16));
        assert(hex_value(hex_digit(b % 16)) == Some(b % 16));
    }
    assert(hex_fold(text) =~= text);
    lemma_decoding_is_folded_encoding(text, bytes);
}

#[verifier::external_type_specification]
#[verifier::external_body]
pub struct ExFromHexError(hex::FromHexError);

/// `hex::encode` on a byte slice. The crate's source writes, for each byte,
/// the digit of its high four bits and then that of its low four bits, from
/// the table `0123456789abcdef`.
#[verifier::external_body]
pub(crate) fn encode(bytes: &[u8]) -> (text: String)
    ensures
        text@ == hex_encoding(bytes@),
{
    hex::encode(bytes)
}

/// `hex::decode` on a string. The crate reads the string's bytes: it fails
/// on an odd number of them and on any byte that is not one of `0-9`, `a-f`,
/// `A-F`, and otherwise gives one byte per pair, the first digit being the
/// high half. A character outside ASCII is encoded in bytes that are no
/// digits, so the call succeeds exactly on an even number of digits.
#[verifier::external_body]
pub(crate) fn decode(text: &str) -> (r: Result<Vec<u8>, hex::FromHexError>)
    ensures
        r is Ok <==> is_hex(text@),
        r is Ok ==> r->Ok_0@ == hex_decoding(text@),
{
    hex::decode(text)
}

} // verus!
