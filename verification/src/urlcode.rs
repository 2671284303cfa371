//! Percent-encoding of text in URLs, through the `urlencoding` crate, and
//! the specification of what it computes.

use vstd::prelude::*;
use vstd::utf8::{decode_utf8, encode_utf8, valid_utf8, is_ascii_chars, is_ascii_chars_encode_utf8};

verus! {

/// Whether a byte is left as it is by percent-encoding: an ASCII letter or
/// digit, or one of `-`, `.`, `_`, `~`.
pub open spec fn is_unreserved(b: u8) -> bool {
    ||| (48 <= b && b <= 57)
    ||| (65 <= b && b <= 90)
    ||| (97 <= b && b <= 122)
    ||| b == 45
    ||| b == 46
    ||| b == 95
    ||| b == 126
}

/// The upper-case ASCII hexadecimal digit of a value below 16.
pub open spec fn hex_digit(d: u8) -> u8 {
    if d < 10 {
        (48 + d) as u8
    } else {
        (55 + d) as u8
    }
}

/// The value of an ASCII hexadecimal digit of either case.
pub open spec fn hex_value(b: u8) -> Option<u8> {
    if 48 <= b && b <= 57 {
        Some((b - 48) as u8)
    } else if 65 <= b && b <= 70 {
        Some((b - 55) as u8)
    } else if 97 <= b && b <= 102 {
        Some((b - 87) as u8)
    } else {
        None
    }
}

/// The percent-encoding of a byte: itself when unreserved, else `%` and its
/// two upper-case hexadecimal digits.
pub open spec fn encode_byte(b: u8) -> Seq<u8> {
    if is_unreserved(b) {
        seq![b]
    } else {
        seq![37u8, hex_digit(b / 16), hex_digit(b % 16)]
    }
}

/// The percent-encoding of a byte sequence, byte by byte.
pub open spec fn percent_encode(bytes: Seq<u8>) -> Seq<u8>
    decreases bytes.len(),
{
    if bytes.len() == 0 {
        seq![]
    } else {
        encode_byte(bytes[0]) + percent_encode(bytes.drop_first())
    }
}

/// The percent-decoding of a byte sequence: each `%` followed by two
/// hexadecimal digits becomes the byte they denote; any other byte, and a `%`
/// without two hexadecimal digits after it, stays as it is.
pub open spec fn percent_decode(s: Seq<u8>) -> Seq<u8>
    decreases s.len(),
{
    if s.len() == 0 {
        seq![]
    } else if s[0] != 37 {
        seq![s[0]] + percent_decode(s.drop_first())
    } else if s.len() < 3 {
        s
    } else {
        match (hex_value(s[1]), hex_value(s[2])) {
            (Some(h), Some(l)) => seq![(h * 16 + l) as u8] + percent_decode(s.skip(3)),
            (Some(_), None) => seq![37u8, s[1]] + percent_decode(s.skip(2)),
            (None, _) => seq![37u8] + percent_decode(s.drop_first()),
        }
    }
}

/// The text of a sequence of ASCII bytes.
pub open spec fn ascii_text(bytes: Seq<u8>) -> Seq<char> {
    bytes.map_values(|b: u8| b as char)
}

/// The percent-encoding of the UTF-8 bytes of `s`, as text.
pub open spec fn url_encoded(s: Seq<char>) -> Seq<char> {
    ascii_text(percent_encode(encode_utf8(s)))
}

/// The text whose UTF-8 bytes are the percent-decoding of the UTF-8 bytes of
/// `s`; `None` when those bytes are not valid UTF-8.
pub open spec fn url_decoded(s: Seq<char>) -> Option<Seq<char>> {
    let bytes = percent_decode(encode_utf8(s));
    if valid_utf8(bytes) {
        Some(decode_utf8(bytes))
    } else {
        None
    }
}

/// The message with which `String::from_utf8` reports that `bytes` are not
/// valid UTF-8, as the `Display` of its error writes it.
pub uninterp spec fn utf8_error_message(bytes: Seq<u8>) -> Seq<char>;

/// Percent-encodes `s` with `urlencoding::encode`.
///
/// The contract claims what the crate documents and its source shows: every UTF-8 byte of
/// `s` except ASCII letters, digits and `-`, `_`, `.`, `~` becomes `%` followed by two
/// upper-case hexadecimal digits; the others are kept.
#[verifier::external_body]
pub(crate) fn url_encode(s: &str) -> (r: String)
    ensures
        r@ == url_encoded(s@),
{
    urlencoding::encode(s).into_owned()
}

/// Percent-decodes `s` with `urlencoding::decode`.
///
/// The contract claims what the crate's source shows: `%` and two hexadecimal digits
/// become the byte they denote, every other byte is kept, and the result is `Ok` exactly
/// when the bytes so obtained are valid UTF-8, holding the text they encode. The error,
/// a `std::string::FromUtf8Error` built by `String::from_utf8` from those bytes, is
/// converted to its `Display` text, which depends on those bytes alone and is named
/// [`utf8_error_message`]; its wording is not stated.
#[verifier::external_body]
pub(crate) fn url_decode(s: &str) -> (r: Result<String, String>)
    ensures
        match url_decoded(s@) {
            Some(t) => r matches Ok(x) && x@ == t,
            None => r matches Err(m) && m@ == utf8_error_message(
                percent_decode(encode_utf8(s@)),
            ),
        },
{
    match urlencoding::decode(s) {
        Ok(t) => Ok(t.into_owned()),
        Err(e) => Err(e.to_string()),
    }
}

proof fn lemma_hex_round_trip(b: u8)
    ensures
        hex_value(hex_digit(b / 16)) == Some(b / 16),
        hex_value(hex_digit(b % 16)) == Some(b % 16),
        (b / 16) * 16 + b % 16 == b,
{
}

proof fn lemma_decode_encode_bytes(bytes: Seq<u8>)
    ensures
        percent_decode(percent_encode(bytes)) == bytes,
    decreases bytes.len(),
{
    if bytes.len() > 0 {
        let b = bytes[0];
        let rest = percent_encode(bytes.drop_first());
        let all = percent_encode(bytes);
        lemma_decode_encode_bytes(bytes.drop_first());
        assert(all == encode_byte(b) + rest);
        if is_unreserved(b) {
            assert(all[0] == b);
            assert(all.drop_first() =~= rest);
        } else {
            lemma_hex_round_trip(b);
            assert(all[0] == 37u8);
            assert(all[1] == hex_digit(b / 16));
            assert(all[2] == hex_digit(b % 16));
            assert(all.skip(3) =~= rest);
        }
        assert(percent_decode(all) =~= bytes);
    }
}

proof fn lemma_encoded_is_ascii(bytes: Seq<u8>)
    ensures
        forall|i: int| 0 <= i < percent_encode(bytes).len() ==> #[trigger] percent_encode(bytes)[i] < 128,
    decreases bytes.len(),
{
    if bytes.len() > 0 {
        lemma_encoded_is_ascii(bytes.drop_first());
        let rest = percent_encode(bytes.drop_first());
        let head = encode_byte(bytes[0]);
        assert forall|i: int| 0 <= i < percent_encode(bytes).len() implies #[trigger] percent_encode(bytes)[i] < 128 by {
            if i >= head.len() {
                assert(percent_encode(bytes)[i] == rest[i - head.len()]);
            }
        }
    }
}

proof fn lemma_ascii_text_bytes(bytes: Seq<u8>)
    requires
        forall|i: int| 0 <= i < bytes.len() ==> #[trigger] bytes[i] < 128,
    ensures
        encode_utf8(ascii_text(bytes)) == bytes,
{
    let t = ascii_text(bytes);
    assert(is_ascii_chars(t)) by {
        assert forall|i: int| 0 <= i < t.len() implies '\0' <= #[trigger] t[i] <= '\u{7f}' by {
            assert(bytes[i] < 128);
        }
    }
    is_ascii_chars_encode_utf8(t);
    assert forall|i: int| 0 <= i < bytes.len() implies encode_utf8(t)[i] == bytes[i] by {
        assert(t[i] == bytes[i] as char);
        assert(t[i] as u8 == bytes[i]);
    }
    assert(encode_utf8(t) =~= bytes);
}

/// Decoding undoes encoding: percent-decoding the percent-encoding of any text
/// gives that text back, so [`url_decode`] succeeds on whatever [`url_encode`]
/// returns and returns the original.
pub proof fn law_url_decode_encode(s: Seq<char>)
    ensures
        url_decoded(url_encoded(s)) == Some(s),
{
    let bytes = encode_utf8(s);
    lemma_encoded_is_ascii(bytes);
    lemma_ascii_text_bytes(percent_encode(bytes));
    lemma_decode_encode_bytes(bytes);
    vstd::utf8::encode_utf8_valid_utf8(s);
    vstd::utf8::encode_utf8_decode_utf8(s);
}

} // verus!
