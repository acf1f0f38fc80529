//! Byte codecs used on the wire: hexadecimal text (through the `hex` crate)
//! and the lossy UTF-8 reading of received bytes.

use vstd::prelude::*;
use vstd::string::*;
use vstd::utf8::*;
use crate::text::{decimal, decimal_text, hex_lower, hex_lower_digit, text};

verus! {

/// Whether byte `b` is an ASCII hexadecimal digit, in either case.
pub open spec fn is_hex_byte(b: u8) -> bool {
    (48 <= b <= 57) || (65 <= b <= 70) || (97 <= b <= 102)
}

/// The value of a hexadecimal digit byte.
pub open spec fn hex_byte_value(b: u8) -> nat {
    if 48 <= b <= 57 {
        (b - 48) as nat
    } else if 65 <= b <= 70 {
        (b - 55) as nat
    } else {
        (b - 87) as nat
    }
}

/// Whether every byte of `s` is a hexadecimal digit.
pub open spec fn all_hex(s: Seq<u8>) -> bool {
    forall|i: int| 0 <= i < s.len() ==> is_hex_byte(#[trigger] s[i])
}

/// The bytes that an even run of hexadecimal digits stands for, two digits
/// (high nibble first) per byte.
pub open spec fn hex_pairs(s: Seq<u8>) -> Seq<u8> {
    Seq::new(
        s.len() / 2,
        |i: int| (hex_byte_value(s[2 * i]) * 16 + hex_byte_value(s[2 * i + 1])) as u8,
    )
}

/// Why a hexadecimal text could not be decoded (the variants of
/// `hex::FromHexError` that decoding into a vector can produce, and the third).
#[derive(Debug, Clone, Copy, PartialEq, Eq)]
pub enum HexDecodeError {
    /// The byte at `index`, read as a character, is no hexadecimal digit.
    InvalidHexCharacter { c: char, index: usize },
    /// The text has an odd number of bytes.
    OddLength,
    /// The text does not fit the requested length.
    InvalidStringLength,
}

/// What decoding hexadecimal text gives: an odd length is refused first;
/// otherwise the first byte (in order) that is no hexadecimal digit is reported
/// with its position; otherwise every pair of digits gives one byte.
pub open spec fn hex_decoded(b: Seq<u8>) -> Result<Seq<u8>, HexDecodeError> {
    if b.len() % 2 == 1 {
        Err(HexDecodeError::OddLength)
    } else if all_hex(b) {
        Ok(hex_pairs(b))
    } else {
        let index = choose|k: int|
            0 <= k < b.len() && !is_hex_byte(#[trigger] b[k]) && all_hex(b.take(k));
        Err(HexDecodeError::InvalidHexCharacter { c: b[index] as char, index: index as usize })
    }
}

/// Decodes hexadecimal text with `hex::decode`; the contract restates the
/// crate's `FromHex for Vec<u8>` (length check, then the pairs in order, each
/// digit checked from the left).
#[verifier::external_body]
fn hex_decode(data: &[u8]) -> (r: Result<Vec<u8>, HexDecodeError>)
    ensures
        match r {
            Ok(v) => hex_decoded(data@) == Ok::<Seq<u8>, HexDecodeError>(v@),
            Err(e) => hex_decoded(data@) == Err::<Seq<u8>, HexDecodeError>(e),
        },
{
    match hex::decode(data) {
        Ok(v) => Ok(v),
        Err(hex::FromHexError::InvalidHexCharacter { c, index }) => Err(
            HexDecodeError::InvalidHexCharacter { c, index },
        ),
        Err(hex::FromHexError::OddLength) => Err(HexDecodeError::OddLength),
        Err(hex::FromHexError::InvalidStringLength) => Err(HexDecodeError::InvalidStringLength),
    }
}

/// Encodes bytes as lower-case hexadecimal text with `hex::encode`; the crate
/// documents two lower-case digits per byte, high nibble first.
#[verifier::external_body]
fn hex_encode(data: &[u8]) -> (r: String)
    ensures
        r@ == hex_lower(data@),
{
    hex::encode(data)
}

/// The payload bytes of a text handed to the port: its hexadecimal reading
/// when `as_hex`, else its UTF-8 bytes.
pub open spec fn payload_bytes(text: Seq<char>, as_hex: bool) -> Result<Seq<u8>, HexDecodeError> {
    if !as_hex {
        Ok(encode_utf8(text))
    } else {
        hex_decoded(encode_utf8(text))
    }
}

/// The bytes to send for `text`: decoded from hexadecimal when `as_hex`,
/// otherwise the text's UTF-8 encoding.
pub fn encode_payload(text: &str, as_hex: bool) -> (r: Result<Vec<u8>, HexDecodeError>)
    ensures
        match r {
            Ok(v) => payload_bytes(text@, as_hex) == Ok::<Seq<u8>, HexDecodeError>(v@),
            Err(e) => payload_bytes(text@, as_hex) == Err::<Seq<u8>, HexDecodeError>(e),
        },
{
    let bytes = text.as_bytes();
    if !as_hex {
        let v = text.as_bytes_vec();
        return Ok(v);
    }
    hex_decode(bytes)
}

/// The hexadecimal text of received bytes.
pub fn hex_text(data: &Vec<u8>) -> (r: String)
    ensures
        r@ == hex_lower(data@),
{
    hex_encode(data.as_slice())
}

/// What `String::from_utf8_lossy` makes of `b`: its characters, with each
/// invalid sequence replaced by U+FFFD.
pub uninterp spec fn utf8_lossy(b: Seq<u8>) -> Seq<char>;

/// Reads bytes as text with `String::from_utf8_lossy`; std documents that
/// valid UTF-8 comes back unchanged. What replaces an invalid sequence is left
/// to the name `utf8_lossy`.
#[verifier::external_body]
fn from_utf8_lossy(data: &[u8]) -> (r: String)
    ensures
        r@ == utf8_lossy(data@),
        valid_utf8(data@) ==> r@ == decode_utf8(data@),
{
    String::from_utf8_lossy(data).to_string()
}

/// Received bytes as text, invalid sequences replaced.
pub fn lossy_text(data: &Vec<u8>) -> (r: String)
    ensures
        r@ == utf8_lossy(data@),
        valid_utf8(data@) ==> r@ == decode_utf8(data@),
{
    from_utf8_lossy(data.as_slice())
}

/// What `format!("{:?}", c)` writes for a character: the character between
/// single quotes, escaped where needed.
pub uninterp spec fn debug_char(c: char) -> Seq<char>;

/// Formats a character with its `Debug` implementation (std). For printable
/// ASCII other than `'` and `\` that is the character between single quotes;
/// the escapes of other characters are left to the name `debug_char`.
#[verifier::external_body]
fn char_debug(c: char) -> (r: String)
    ensures
        r@ == debug_char(c),
        (' ' <= c <= '~' && c != '\'' && c != '\\') ==> r@ == seq!['\'', c, '\''],
{
    format!("{:?}", c)
}

/// The text of a decoding error, as `hex::FromHexError` displays it.
pub open spec fn hex_error_text(e: HexDecodeError) -> Seq<char> {
    match e {
        HexDecodeError::InvalidHexCharacter { c, index } => "Invalid character "@ + debug_char(c)
            + " at position "@ + decimal(index as nat),
        HexDecodeError::OddLength => "Odd number of digits"@,
        HexDecodeError::InvalidStringLength => "Invalid string length"@,
    }
}

/// The text of a decoding error.
pub fn hex_error_message(e: HexDecodeError) -> (r: String)
    ensures
        r@ == hex_error_text(e),
{
    match e {
        HexDecodeError::InvalidHexCharacter { c, index } => {
            let mut r = text("Invalid character ");
            let d = char_debug(c);
            r.append(d.as_str());
            r.append(" at position ");
            let n = decimal_text(index as u64);
            r.append(n.as_str());
            r
        },
        HexDecodeError::OddLength => text("Odd number of digits"),
        HexDecodeError::InvalidStringLength => text("Invalid string length"),
    }
}

/// The digits of `hex_lower(b)`: two per byte, high nibble first.
proof fn lemma_hex_lower_digits(b: Seq<u8>)
    ensures
        hex_lower(b).len() == 2 * b.len(),
        forall|i: int|
            0 <= i < b.len() ==> #[trigger] hex_lower(b)[2 * i] == hex_lower_digit(b[i] as nat / 16)
                && hex_lower(b)[2 * i + 1] == hex_lower_digit(b[i] as nat % 16),
    decreases b.len(),
{
    if b.len() > 0 {
        let t = b.drop_last();
        lemma_hex_lower_digits(t);
        assert forall|i: int| 0 <= i < b.len() implies #[trigger] hex_lower(b)[2 * i] == hex_lower_digit(
            b[i] as nat / 16,
        ) && hex_lower(b)[2 * i + 1] == hex_lower_digit(b[i] as nat % 16) by {
            if i < t.len() {
                assert(t[i] == b[i]);
                assert(hex_lower(t)[2 * i] == hex_lower_digit(t[i] as nat / 16));
            }
        }
    }
}

/// A lower-case hexadecimal digit is an ASCII hexadecimal byte of the same value.
proof fn lemma_hex_lower_digit(d: nat)
    requires
        d < 16,
    ensures
        (hex_lower_digit(d) as u32) < 128,
        is_hex_byte(hex_lower_digit(d) as u8),
        hex_byte_value(hex_lower_digit(d) as u8) == d,
{
    if d < 10 {
        assert((hex_lower_digit(d) as u32) == d + 48);
    } else {
        assert((hex_lower_digit(d) as u32) == d + 87);
    }
}

/// Law: the hexadecimal text of some bytes, sent with hexadecimal encoding,
/// sends exactly those bytes. (The push of received data carries this text;
/// writing it back repeats what was received.)
pub proof fn law_hex_roundtrip(b: Seq<u8>)
    ensures
        payload_bytes(hex_lower(b), true) == Ok::<Seq<u8>, HexDecodeError>(b),
{
    let h = hex_lower(b);
    lemma_hex_lower_digits(b);
    assert forall|i: int| 0 <= i < h.len() implies '\0' <= #[trigger] h[i] <= '\u{7f}' by {
        let j = i / 2;
        assert(0 <= j < b.len());
        if i % 2 == 0 {
            assert(i == 2 * j);
            assert(h[2 * j] == hex_lower_digit(b[j] as nat / 16));
            lemma_hex_lower_digit(b[j] as nat / 16);
        } else {
            assert(i == 2 * j + 1);
            assert(h[2 * j] == hex_lower_digit(b[j] as nat / 16));
            assert(h[2 * j + 1] == hex_lower_digit(b[j] as nat % 16));
            lemma_hex_lower_digit(b[j] as nat % 16);
        }
        assert((h[i] as u32) < 128);
    }
    assert(is_ascii_chars(h));
    is_ascii_chars_encode_utf8(h);
    let e = encode_utf8(h);
    assert(e.len() == h.len());
    assert forall|i: int| 0 <= i < e.len() implies is_hex_byte(#[trigger] e[i]) by {
        let j = i / 2;
        assert(0 <= j < b.len());
        assert(h[i] as u8 == e[i]);
        if i % 2 == 0 {
            assert(i == 2 * j);
            assert(h[2 * j] == hex_lower_digit(b[j] as nat / 16));
            lemma_hex_lower_digit(b[j] as nat / 16);
        } else {
            assert(i == 2 * j + 1);
            assert(h[2 * j] == hex_lower_digit(b[j] as nat / 16));
            assert(h[2 * j + 1] == hex_lower_digit(b[j] as nat % 16));
            lemma_hex_lower_digit(b[j] as nat % 16);
        }
    }
    assert(all_hex(e));
    assert(e.len() % 2 == 0);
    let d = hex_pairs(e);
    assert forall|i: int| 0 <= i < b.len() implies #[trigger] d[i] == b[i] by {
        assert(h[2 * i] as u8 == e[2 * i]);
        assert(h[2 * i + 1] as u8 == e[2 * i + 1]);
        lemma_hex_lower_digit(b[i] as nat / 16);
        lemma_hex_lower_digit(b[i] as nat % 16);
        assert(hex_byte_value(e[2 * i]) == b[i] as nat / 16);
        assert(hex_byte_value(e[2 * i + 1]) == b[i] as nat % 16);
    }
    assert(d =~= b);
}

} // verus!
