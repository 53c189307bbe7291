//! Hexadecimal text: what it means, and the calls into the `hex` crate.

use vstd::prelude::*;

verus! {

/// The lowercase hexadecimal digit for a nibble `n` in `0..16`.
pub open spec fn hex_digit_char(n: int) -> char {
    if n < 10 {
        (48 + n) as char
    } else {
        (87 + n) as char
    }
}

/// The value of a hexadecimal digit, in either case; `None` for any other character.
pub open spec fn hex_value(c: char) -> Option<int> {
    let v = c as int;
    if 48 <= v <= 57 {
        Some(v - 48)
    } else if 97 <= v <= 102 {
        Some(v - 87)
    } else if 65 <= v <= 70 {
        Some(v - 55)
    } else {
        None
    }
}

/// Text that decodes to bytes: an even number of hexadecimal digits.
pub open spec fn is_hex_text(s: Seq<char>) -> bool {
    &&& s.len() % 2 == 0
    &&& forall|i: int| 0 <= i < s.len() ==> (#[trigger] hex_value(s[i])) is Some
}

/// The bytes that hexadecimal text stands for, two digits per byte, high nibble first.
pub open spec fn hex_bytes(s: Seq<char>) -> Seq<u8> {
    Seq::new(
        s.len() / 2,
        |i: int| (hex_value(s[2 * i]).unwrap() * 16 + hex_value(s[2 * i + 1]).unwrap()) as u8,
    )
}

/// The lowercase hexadecimal text of a byte string.
pub open spec fn hex_text(b: Seq<u8>) -> Seq<char> {
    Seq::new(
        2 * b.len(),
        |i: int|
            hex_digit_char(
                if i % 2 == 0 {
                    b[i / 2] as int / 16
                } else {
                    b[i / 2] as int % 16
                },
            ),
    )
}

/// Calls `hex::encode`. Trusted: the result is the lowercase hexadecimal text of
/// `data`, two digits per byte with the high nibble first.
#[verifier::external_body]
pub(crate) fn hex_encode(data: &[u8]) -> (r: String)
    ensures
        r@ == hex_text(data@),
{
    hex::encode(data)
}

/// Calls `hex::decode`. Trusted: it succeeds exactly on an even number of
/// hexadecimal digits (either case), and then yields the byte each pair stands for.
#[verifier::external_body]
pub(crate) fn hex_decode(text: &str) -> (r: Option<Vec<u8>>)
    ensures
        r is Some <==> is_hex_text(text@),
        r matches Some(v) ==> v@ == hex_bytes(text@),
{
    hex::decode(text).ok()
}

/// Decoding the text of `b` gives `b` back.
pub proof fn lemma_hex_bytes_of_text(b: Seq<u8>)
    ensures
        is_hex_text(hex_text(b)),
        hex_bytes(hex_text(b)) == b,
{
    let t = hex_text(b);
    assert forall|i: int| 0 <= i < t.len() implies (#[trigger] hex_value(t[i])) is Some by {
        let n: int = if i % 2 == 0 { b[i / 2] as int / 16 } else { b[i / 2] as int % 16 };
        assert(0 <= n < 16);
        assert(t[i] == hex_digit_char(n));
    }
    assert forall|j: int| 0 <= j < b.len() implies #[trigger] hex_bytes(t)[j] == b[j] by {
        let hi: int = b[j] as int / 16;
        let lo: int = b[j] as int % 16;
        assert(t[2 * j] == hex_digit_char(hi));
        assert(t[2 * j + 1] == hex_digit_char(lo));
        assert(hex_value(hex_digit_char(hi)) == Some(hi));
        assert(hex_value(hex_digit_char(lo)) == Some(lo));
    }
    assert(hex_bytes(t) =~= b);
}

/// A character as `hex_text` writes it: digits stay, letters are lowercase.
pub open spec fn hex_lower(c: char) -> char {
    let v = c as int;
    if 65 <= v <= 70 {
        (v + 32) as char
    } else {
        c
    }
}

/// Encoding the bytes of hexadecimal text gives the text back in lowercase.
pub proof fn lemma_hex_text_of_bytes(s: Seq<char>)
    requires
        is_hex_text(s),
    ensures
        hex_text(hex_bytes(s)).len() == s.len(),
        forall|i: int| 0 <= i < s.len() ==> #[trigger] hex_text(hex_bytes(s))[i] == hex_lower(s[i]),
{
    let b = hex_bytes(s);
    let t = hex_text(b);
    assert forall|i: int| 0 <= i < s.len() implies #[trigger] t[i] == hex_lower(s[i]) by {
        let j: int = i / 2;
        assert(hex_value(s[2 * j]) is Some);
        assert(hex_value(s[2 * j + 1]) is Some);
        let hi: int = hex_value(s[2 * j]).unwrap();
        let lo: int = hex_value(s[2 * j + 1]).unwrap();
        assert(b[j] as int == hi * 16 + lo);
        assert((hi * 16 + lo) / 16 == hi && (hi * 16 + lo) % 16 == lo);
        if i % 2 == 0 {
            assert(hex_digit_char(hi) == hex_lower(s[i]));
        } else {
            assert(hex_digit_char(lo) == hex_lower(s[i]));
        }
    }
}

} // verus!
