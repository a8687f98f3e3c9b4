//! Percent-encoding and percent-decoding of texts, done by the
//! `percent_encoding` crate.

use vstd::prelude::*;
use vstd::utf8::encode_utf8;

verus! {

/// The bytes that pass unescaped: the ASCII letters and digits.
pub open spec fn is_ascii_alphanumeric(byte: u8) -> bool {
    ||| 0x30 <= byte <= 0x39
    ||| 0x41 <= byte <= 0x5a
    ||| 0x61 <= byte <= 0x7a
}

/// The upper-case hexadecimal digit for a value below sixteen.
pub open spec fn hex_digit(value: int) -> char {
    if value < 10 {
        (0x30 + value) as char
    } else {
        (0x41 + value - 10) as char
    }
}

/// One byte, escaped unless it is an ASCII letter or digit: a percent sign
/// and the byte's value as two upper-case hexadecimal digits.
pub open spec fn escaped_byte(byte: u8) -> Seq<char> {
    if is_ascii_alphanumeric(byte) {
        seq![byte as char]
    } else {
        seq!['%', hex_digit(byte as int / 16), hex_digit(byte as int % 16)]
    }
}

/// The escape of each byte, as a function to map with.
pub open spec fn escape() -> spec_fn(u8) -> Seq<char> {
    |byte: u8| escaped_byte(byte)
}

/// The percent-encoding of `text`: its UTF-8 bytes, each escaped unless it
/// is an ASCII letter or digit.
pub open spec fn percent_encoded(text: Seq<char>) -> Seq<char> {
    encode_utf8(text).map_values(escape()).flatten()
}

/// The text that a percent-encoded `text` stands for: each `%` with two
/// hexadecimal digits behind it replaced by the byte they give, and the
/// bytes then read as UTF-8, with U+FFFD in place of what is not valid
/// UTF-8. It stands for the result of `percent_decode`.
pub uninterp spec fn percent_decoded(text: Seq<char>) -> Seq<char>;

/// Calls `percent_encoding::utf8_percent_encode` with the set
/// `NON_ALPHANUMERIC` and collects what it yields. The contract writes
/// out what the crate documents: the input's UTF-8 bytes are taken one by
/// one, an ASCII letter or digit is kept, and any other byte becomes `%`
/// and two upper-case hexadecimal digits.
#[verifier::external_body]
pub(crate) fn percent_encode(text: &str) -> (encoded: String)
    ensures
        encoded@ == percent_encoded(text@),
{
    percent_encoding::utf8_percent_encode(text, percent_encoding::NON_ALPHANUMERIC).to_string()
}

/// Calls `percent_encoding::percent_decode_str` and then
/// `PercentDecode::decode_utf8_lossy` on what it returns. The contract
/// claims that the result depends on `text` alone, and names it
/// `percent_decoded(text)`; and that a text without `%` comes back as it
/// is, since the crate then hands the input's own bytes to the decoding
/// and they are valid UTF-8.
#[verifier::external_body]
pub(crate) fn percent_decode(text: &str) -> (decoded: String)
    ensures
        decoded@ == percent_decoded(text@),
        !text@.contains('%') ==> decoded@ == text@,
{
    percent_encoding::percent_decode_str(text).decode_utf8_lossy().into_owned()
}

} // verus!
