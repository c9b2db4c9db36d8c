//! Hexadecimal text of byte strings, as written and read by the `hex` crate.

use vstd::prelude::*;

verus! {

/// The lower-case hexadecimal digit of `n` (for `0 <= n < 16`).
pub open spec fn hex_digit(n: int) -> char {
    if n < 10 {
        (48 + n) as char
    } else {
        (87 + n) as char
    }
}

/// The value of a hexadecimal digit of either case, or `None` for any other
/// character.
pub open spec fn hex_value(c: char) -> Option<int> {
    let k = c as int;
    if 48 <= k <= 57 {
        Some(k - 48)
    } else if 97 <= k <= 102 {
        Some(k - 87)
    } else if 65 <= k <= 70 {
        Some(k - 55)
    } else {
        None
    }
}

/// The lower-case hexadecimal text of `b`: two digits per byte, high nibble
/// first.
pub open spec fn hex_encode(b: Seq<u8>) -> Seq<char> {
    Seq::new(
        2 * b.len(),
        |i: int|
            if i % 2 == 0 {
                hex_digit(b[i / 2] as int / 16)
            } else {
                hex_digit(b[i / 2] as int % 16)
            },
    )
}

/// `s` has an even number of characters, all of them hexadecimal digits.
pub open spec fn is_hex_text(s: Seq<char>) -> bool {
    &&& s.len() % 2 == 0
    &&& forall|i: int| 0 <= i < s.len() ==> (#[trigger] hex_value(s[i])) is Some
}

/// The bytes that the hexadecimal text `s` denotes, or `None` where `s` is not
/// such a text.
pub open spec fn hex_decode(s: Seq<char>) -> Option<Seq<u8>> {
    if is_hex_text(s) {
        Some(
            Seq::new(
                s.len() / 2,
                |i: int| (16 * hex_value(s[2 * i]).unwrap() + hex_value(s[2 * i + 1]).unwrap()) as u8,
            ),
        )
    } else {
        None
    }
}

proof fn lemma_digit_value(n: int)
    requires
        0 <= n < 16,
    ensures
        hex_value(hex_digit(n)) == Some(n),
{
}

/// Decoding the hexadecimal text of any byte string gives back the bytes.
pub proof fn lemma_hex_roundtrip(b: Seq<u8>)
    ensures
        hex_decode(hex_encode(b)) == Some(b),
{
    let s = hex_encode(b);
    assert forall|i: int| 0 <= i < s.len() implies (#[trigger] hex_value(s[i])) is Some by {
        let x: int = b[i / 2] as int;
        if i % 2 == 0 {
            lemma_digit_value(x / 16);
        } else {
            lemma_digit_value(x % 16);
        }
    }
    let d = hex_decode(s).unwrap();
    assert forall|j: int| 0 <= j < b.len() implies d[j] == b[j] by {
        let x: int = b[j] as int;
        assert(s[2 * j] == hex_digit(x / 16));
        assert(s[2 * j + 1] == hex_digit(x % 16));
        lemma_digit_value(x / 16);
        lemma_digit_value(x % 16);
        assert(16 * (x / 16) + x % 16 == x) by (nonlinear_arith);
    }
    assert(d =~= b);
}

/// The lower-case hexadecimal text of `data`.
/// Trusted: `hex::encode` writes each byte as two lower-case digits, high
/// nibble first.
#[verifier::external_body]
pub(crate) fn encode_hex(data: &[u8]) -> (r: String)
    ensures
        r@ == hex_encode(data@),
{
    hex::encode(data)
}

/// Declares the error type of `hex::decode`.
#[verifier::external_type_specification]
#[verifier::external_body]
pub struct ExFromHexError(hex::FromHexError);

/// The bytes that the hexadecimal text `s` denotes.
/// Trusted: `hex::decode` accepts exactly the texts of an even number of
/// digits of either case and returns their bytes; any other text is an error.
#[verifier::external_body]
pub(crate) fn decode_hex(s: &str) -> (r: Result<Vec<u8>, hex::FromHexError>)
    ensures
        r is Ok <==> hex_decode(s@) is Some,
        r matches Ok(v) ==> v@ == hex_decode(s@).unwrap(),
{
    hex::decode(s)
}

} // verus!
