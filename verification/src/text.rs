//! Text as the store keeps it: UTF-8 bytes, short identifiers and
//! hexadecimal checksums.

use vstd::prelude::*;
use vstd::utf8::*;
use crate::util::is_hex_digit;

verus! {

/// The characters that a sequence of ASCII bytes spells.
pub open spec fn ascii_chars(bytes: Seq<u8>) -> Seq<char> {
    Seq::new(bytes.len(), |i: int| bytes[i] as char)
}

/// Every byte is below 128.
pub open spec fn is_ascii_bytes(bytes: Seq<u8>) -> bool {
    forall|i: int| 0 <= i < bytes.len() ==> #[trigger] bytes[i] < 128
}

/// ASCII bytes are valid UTF-8 and decode to themselves, one character per byte.
pub proof fn lemma_ascii_text(bytes: Seq<u8>)
    requires
        is_ascii_bytes(bytes),
    ensures
        valid_utf8(bytes),
        decode_utf8(bytes) == ascii_chars(bytes),
        encode_utf8(ascii_chars(bytes)) == bytes,
{
    let chars = ascii_chars(bytes);
    assert(is_ascii_chars(chars)) by {
        assert forall|i: int| 0 <= i < chars.len() implies '\0' <= #[trigger] chars[i] <= '\u{7f}' by {
            assert(bytes[i] < 128);
        }
    }
    is_ascii_chars_encode_utf8(chars);
    assert(encode_utf8(chars) =~= bytes) by {
        assert forall|i: int| 0 <= i < bytes.len() implies encode_utf8(chars)[i] == bytes[i] by {
            assert(chars[i] as u8 == encode_utf8(chars)[i]);
            assert(bytes[i] < 128);
        }
    }
    encode_utf8_valid_utf8(chars);
    encode_utf8_decode_utf8(chars);
}

/// Reads bytes as UTF-8 text.
///
/// Calls `std::str::from_utf8`: the text comes back exactly when the bytes
/// are valid UTF-8, and it is then the text that they encode.
#[verifier::external_body]
pub(crate) fn decode_text(bytes: &[u8]) -> (r: Option<&str>)
    ensures
        r is Some <==> valid_utf8(bytes@),
        r matches Some(s) ==> s@ == decode_utf8(bytes@),
{
    match std::str::from_utf8(bytes) {
        Ok(s) => Some(s),
        Err(_) => None,
    }
}

/// The text that ASCII bytes spell, as an owned string.
pub(crate) fn ascii_string(bytes: &[u8]) -> (s: String)
    requires
        is_ascii_bytes(bytes@),
    ensures
        s@ == ascii_chars(bytes@),
{
    proof {
        lemma_ascii_text(bytes@);
    }
    match decode_text(bytes) {
        Some(s) => s.to_owned(),
        None => String::new(),
    }
}

/// The ASCII code of a hexadecimal digit, lower case from ten on.
pub open spec fn hex_digit(n: u8) -> u8 {
    if n < 10 {
        (48 + n) as u8
    } else {
        (87 + n) as u8
    }
}

/// The ASCII codes of the lower-case hexadecimal form of `data`: two digits
/// for each byte, the high half first.
pub open spec fn hex_bytes(data: Seq<u8>) -> Seq<u8> {
    Seq::new(
        2 * data.len(),
        |i: int|
            hex_digit(
                if i % 2 == 0 {
                    data[i / 2] / 16
                } else {
                    data[i / 2] % 16
                },
            ),
    )
}

/// The lower-case hexadecimal form of `data`.
pub open spec fn hex_lower(data: Seq<u8>) -> Seq<char> {
    ascii_chars(hex_bytes(data))
}

fn digit_of(n: u8) -> (d: u8)
    requires
        n < 16,
    ensures
        d == hex_digit(n),
        d < 128,
{
    if n < 10 {
        48 + n
    } else {
        87 + n
    }
}

/// Writes `data` in lower-case hexadecimal.
pub fn to_hex(data: &[u8]) -> (s: String)
    ensures
        s@ == hex_lower(data@),
{
    let mut digits: Vec<u8> = Vec::new();
    let mut i: usize = 0;
    while i < data.len()
        invariant
            i <= data.len(),
            digits@.len() == 2 * i,
            forall|k: int| 0 <= k < digits@.len() ==> #[trigger] digits@[k] == hex_bytes(data@)[k],
            is_ascii_bytes(digits@),
        decreases data.len() - i,
    {
        let byte: u8 = data[i];
        digits.push(digit_of(byte / 16));
        digits.push(digit_of(byte % 16));
        i = i + 1;
    }
    assert(digits@ =~= hex_bytes(data@));
    ascii_string(digits.as_slice())
}

/// The hexadecimal form has two characters for each byte, each a digit or a
/// letter from `a` to `f`.
pub proof fn lemma_hex_digits(data: Seq<u8>)
    ensures
        hex_lower(data).len() == 2 * data.len(),
        forall|i: int| 0 <= i < 2 * data.len() ==> is_hex_digit(#[trigger] hex_lower(data)[i]),
{
    assert forall|i: int| 0 <= i < 2 * data.len() implies is_hex_digit(#[trigger] hex_lower(data)[i]) by {
        let n: u8 = if i % 2 == 0 {
            data[i / 2] / 16
        } else {
            data[i / 2] % 16
        };
        assert(n < 16);
        assert(hex_bytes(data)[i] == hex_digit(n));
        assert(hex_lower(data)[i] == hex_digit(n) as char);
    }
}

/// An ASCII letter or digit.
pub open spec fn is_alphanumeric(b: u8) -> bool {
    (48 <= b <= 57) || (65 <= b <= 90) || (97 <= b <= 122)
}

/// A short identifier is three to eight ASCII letters and digits.
pub open spec fn is_short_id(id: Seq<u8>) -> bool {
    &&& 3 <= id.len() <= 8
    &&& forall|i: int| 0 <= i < id.len() ==> is_alphanumeric(#[trigger] id[i])
}

/// Tells whether `id` has the form of a short identifier.
pub fn well_formed_id(id: &[u8]) -> (b: bool)
    ensures
        b == is_short_id(id@),
{
    if id.len() < 3 || id.len() > 8 {
        return false;
    }
    let mut i: usize = 0;
    while i < id.len()
        invariant
            i <= id.len(),
            forall|k: int| 0 <= k < i ==> is_alphanumeric(#[trigger] id@[k]),
        decreases id.len() - i,
    {
        let b: u8 = id[i];
        let ok = (48 <= b && b <= 57) || (65 <= b && b <= 90) || (97 <= b && b <= 122);
        if !ok {
            return false;
        }
        i = i + 1;
    }
    true
}

} // verus!
