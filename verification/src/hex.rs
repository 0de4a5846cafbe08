//! The transcoder: bytes to lowercase hex text and back.
//!
//! The codec is specified over byte sequences: a byte becomes two
//! hexadecimal digits, most-significant nibble first. Decoding accepts
//! both letter cases and fails exactly on an odd number of digits or on
//! a byte that is no hexadecimal digit.

use vstd::prelude::*;

verus! {

use vstd::utf8::decode_utf8;
use vstd::utf8::encode_utf8;
use vstd::utf8::is_ascii_chars;
use vstd::utf8::valid_utf8;

/// Why a hex string could not be decoded.
#[derive(Clone, Copy, Debug, PartialEq, Eq, Structural)]
pub enum HexError {
    /// The input held an odd number of bytes, so its digits cannot pair.
    OddLength,
    /// The input held a byte that is no hexadecimal digit.
    InvalidDigit,
}

/// The lowercase hexadecimal digit for a nibble.
pub open spec fn hex_digit_byte(n: u8) -> u8
    recommends
        n < 16,
{
    if n < 10 {
        (n + 0x30) as u8
    } else {
        (n + 0x57) as u8
    }
}

/// The hex encoding of a byte sequence: two lowercase digits per byte,
/// most-significant nibble first, in input order.
pub open spec fn hex_bytes_of(b: Seq<u8>) -> Seq<u8> {
    Seq::new(
        2 * b.len(),
        |i: int|
            if i % 2 == 0 {
                hex_digit_byte(b[i / 2] / 16)
            } else {
                hex_digit_byte(b[i / 2] % 16)
            },
    )
}

/// The hex encoding as text: the same digits, read as characters.
pub open spec fn hex_chars_of(b: Seq<u8>) -> Seq<char> {
    Seq::new(2 * b.len(), |i: int| hex_bytes_of(b)[i] as char)
}

/// Whether a byte is a hexadecimal digit, in either letter case.
pub open spec fn is_hex_digit_byte(c: u8) -> bool {
    (0x30 <= c <= 0x39) || (0x61 <= c <= 0x66) || (0x41 <= c <= 0x46)
}

/// The value of a hexadecimal digit byte.
pub open spec fn hex_val(c: u8) -> u8
    recommends
        is_hex_digit_byte(c),
{
    if 0x30 <= c <= 0x39 {
        (c - 0x30) as u8
    } else if 0x61 <= c <= 0x66 {
        ((c - 0x61) + 10) as u8
    } else {
        ((c - 0x41) + 10) as u8
    }
}

/// Whether a byte sequence decodes: an even count of digits, nothing else.
pub open spec fn ok_hex_bytes(s: Seq<u8>) -> bool {
    &&& s.len() % 2 == 0
    &&& forall|i: int| 0 <= i < s.len() ==> is_hex_digit_byte(#[trigger] s[i])
}

/// What a well-formed hex byte sequence decodes to: consecutive digit
/// pairs, each read as one byte.
pub open spec fn decoded_bytes(s: Seq<u8>) -> Seq<u8>
    recommends
        ok_hex_bytes(s),
{
    Seq::new(s.len() / 2, |i: int| (16 * hex_val(s[2 * i]) + hex_val(s[2 * i + 1])) as u8)
}

/// The lowercase hexadecimal digit for a nibble.
fn hex_digit(n: u8) -> (r: u8)
    requires
        n < 16,
    ensures
        r == hex_digit_byte(n),
{
    if n < 10 {
        n + 0x30
    } else {
        n + 0x57
    }
}

/// Encodes bytes as lowercase hex digits, two per input byte.
pub fn encode_bytes(input: &[u8]) -> (r: Vec<u8>)
    ensures
        r@ == hex_bytes_of(input@),
{
    let mut out: Vec<u8> = Vec::new();
    let n = input.len();
    let mut i: usize = 0;
    while i < n
        invariant
            i <= n,
            n == input@.len(),
            out@.len() == 2 * i,
            forall|j: int| 0 <= j < out@.len() ==> out@[j] == hex_bytes_of(input@)[j],
        decreases n - i,
    {
        let b = input[i];
        out.push(hex_digit(b / 16));
        out.push(hex_digit(b % 16));
        i += 1;
    }
    proof {
        assert(out@ =~= hex_bytes_of(input@));
    }
    out
}

/// Whether a byte is a hexadecimal digit, in either letter case.
fn is_hex_digit(c: u8) -> (r: bool)
    ensures
        r == is_hex_digit_byte(c),
{
    (0x30 <= c && c <= 0x39) || (0x61 <= c && c <= 0x66) || (0x41 <= c && c <= 0x46)
}

/// The value of a hexadecimal digit byte.
fn hex_digit_val(c: u8) -> (r: u8)
    requires
        is_hex_digit_byte(c),
    ensures
        r == hex_val(c),
        r < 16,
{
    if 0x30 <= c && c <= 0x39 {
        c - 0x30
    } else if 0x61 <= c && c <= 0x66 {
        (c - 0x61) + 10
    } else {
        (c - 0x41) + 10
    }
}

/// Decodes a sequence of hex digit bytes back into the bytes they
/// spell. Fails on an odd number of digits or on a non-digit byte,
/// and then produces nothing.
pub fn decode_bytes(s: &[u8]) -> (r: Result<Vec<u8>, HexError>)
    ensures
        r is Ok <==> ok_hex_bytes(s@),
        r matches Ok(v) ==> v@ == decoded_bytes(s@),
        s@.len() % 2 != 0 ==> r == Err::<Vec<u8>, HexError>(HexError::OddLength),
        s@.len() % 2 == 0 && !ok_hex_bytes(s@) ==> r == Err::<Vec<u8>, HexError>(
            HexError::InvalidDigit,
        ),
{
    let n = s.len();
    if n % 2 != 0 {
        return Err(HexError::OddLength);
    }
    let mut out: Vec<u8> = Vec::new();
    let mut i: usize = 0;
    while i < n
        invariant
            i <= n,
            i % 2 == 0,
            n % 2 == 0,
            n == s@.len(),
            forall|j: int| 0 <= j < i ==> is_hex_digit_byte(#[trigger] s@[j]),
            out@.len() == i / 2,
            forall|j: int| 0 <= j < out@.len() ==> out@[j] == decoded_bytes(s@)[j],
        decreases n - i,
    {
        let hi = s[i];
        let lo = s[i + 1];
        if !is_hex_digit(hi) || !is_hex_digit(lo) {
            return Err(HexError::InvalidDigit);
        }
        out.push(16 * hex_digit_val(hi) + hex_digit_val(lo));
        i += 2;
    }
    proof {
        assert(out@ =~= decoded_bytes(s@));
    }
    Ok(out)
}

/// A digit produced by the encoder is a lowercase hex digit, and
/// reading it back yields the nibble it came from.
proof fn lemma_hex_digit_byte_inverts(n: u8)
    requires
        n < 16,
    ensures
        is_hex_digit_byte(hex_digit_byte(n)),
        hex_val(hex_digit_byte(n)) == n,
{
}

/// Round trip: whatever bytes the encoder is given, its output is
/// well-formed hex, and decoding that output restores the original
/// bytes exactly.
pub proof fn lemma_round_trip(b: Seq<u8>)
    ensures
        ok_hex_bytes(hex_bytes_of(b)),
        decoded_bytes(hex_bytes_of(b)) == b,
{
    let h = hex_bytes_of(b);
    assert forall|i: int| 0 <= i < h.len() implies is_hex_digit_byte(#[trigger] h[i]) by {
        if i % 2 == 0 {
            lemma_hex_digit_byte_inverts(b[i / 2] / 16);
        } else {
            lemma_hex_digit_byte_inverts(b[i / 2] % 16);
        }
    }
    assert forall|i: int| 0 <= i < b.len() implies decoded_bytes(h)[i] == b[i] by {
        lemma_hex_digit_byte_inverts(b[i] / 16);
        lemma_hex_digit_byte_inverts(b[i] % 16);
        assert(h[2 * i] == hex_digit_byte(b[i] / 16));
        assert(h[2 * i + 1] == hex_digit_byte(b[i] % 16));
    }
    assert(decoded_bytes(h) =~= b);
}

/// The digit with any uppercase hex letter lowered; other bytes are
/// left as they are.
pub open spec fn lower_hex_byte(c: u8) -> u8 {
    if 0x41 <= c <= 0x46 {
        (c + 0x20) as u8
    } else {
        c
    }
}

/// A hex byte sequence with every uppercase letter lowered.
pub open spec fn lower_hex(s: Seq<u8>) -> Seq<u8> {
    s.map(|i: int, c: u8| lower_hex_byte(c))
}

/// Decoding is case-insensitive: lowering the letter case of the input
/// neither changes whether it decodes nor what it decodes to.
pub proof fn lemma_decode_case_insensitive(s: Seq<u8>)
    ensures
        ok_hex_bytes(lower_hex(s)) == ok_hex_bytes(s),
        ok_hex_bytes(s) ==> decoded_bytes(lower_hex(s)) == decoded_bytes(s),
{
    let t = lower_hex(s);
    assert forall|i: int| 0 <= i < s.len() implies is_hex_digit_byte(#[trigger] t[i])
        == is_hex_digit_byte(s[i]) && hex_val(t[i]) == hex_val(s[i]) by {}
    if ok_hex_bytes(s) {
        assert(decoded_bytes(t) =~= decoded_bytes(s));
    }
    if ok_hex_bytes(t) {
        assert forall|i: int| 0 <= i < s.len() implies is_hex_digit_byte(#[trigger] s[i]) by {
            assert(is_hex_digit_byte(t[i]));
        }
    }
}

/// What `String::from_utf8_lossy` yields on the given bytes; it
/// depends on the bytes alone.
pub uninterp spec fn lossy_chars_of(b: Seq<u8>) -> Seq<char>;

/// Turns raw bytes into printable text with lossy substitution.
/// Relies on `String::from_utf8_lossy`: valid UTF-8 is decoded
/// unchanged, invalid sequences become replacement characters, and the
/// result depends on the bytes alone.
#[verifier::external_body]
fn bytes_to_text(bytes: &[u8]) -> (r: String)
    ensures
        r@ == lossy_chars_of(bytes@),
        valid_utf8(bytes@) ==> r@ == decode_utf8(bytes@),
{
    String::from_utf8_lossy(bytes).into_owned()
}

/// A sequence of bytes below 0x80 is valid UTF-8 and decodes to one
/// character per byte.
proof fn lemma_ascii_bytes_utf8(bs: Seq<u8>)
    requires
        forall|i: int| 0 <= i < bs.len() ==> bs[i] < 0x80,
    ensures
        valid_utf8(bs),
        decode_utf8(bs) == Seq::new(bs.len(), |i: int| bs[i] as char),
{
    let cs = Seq::new(bs.len(), |i: int| bs[i] as char);
    assert(is_ascii_chars(cs));
    vstd::utf8::is_ascii_chars_encode_utf8(cs);
    assert(encode_utf8(cs) =~= bs);
    vstd::utf8::encode_utf8_valid_utf8(cs);
    vstd::utf8::encode_utf8_decode_utf8(cs);
}

/// Round trip through text: the string that `encode` yields for any
/// bytes is well-formed hex under `decode`'s reading of a string, and
/// decoding it restores the original bytes exactly.
pub proof fn lemma_round_trip_str(b: Seq<u8>)
    ensures
        ok_hex_bytes(encode_utf8(hex_chars_of(b))),
        decoded_bytes(encode_utf8(hex_chars_of(b))) == b,
{
    lemma_round_trip(b);
    let h = hex_bytes_of(b);
    let cs = hex_chars_of(b);
    assert(is_ascii_chars(cs));
    vstd::utf8::is_ascii_chars_encode_utf8(cs);
    assert(encode_utf8(cs) =~= h);
}

/// Encodes bytes as a lowercase hex string, two digits per input byte.
pub fn encode(input: &[u8]) -> (r: String)
    ensures
        r@ == hex_chars_of(input@),
{
    let h = encode_bytes(input);
    proof {
        lemma_round_trip(input@);
        lemma_ascii_bytes_utf8(h@);
        assert(hex_chars_of(input@) =~= decode_utf8(h@));
    }
    bytes_to_text(h.as_slice())
}

/// Decodes a hex string into the bytes it spells. The parity check and
/// the digits are read over the string's UTF-8 bytes, so a character
/// outside ASCII is a non-digit.
pub fn decode(s: &str) -> (r: Result<Vec<u8>, HexError>)
    ensures
        r is Ok <==> ok_hex_bytes(encode_utf8(s@)),
        r matches Ok(v) ==> v@ == decoded_bytes(encode_utf8(s@)),
        encode_utf8(s@).len() % 2 != 0 ==> r == Err::<Vec<u8>, HexError>(HexError::OddLength),
        encode_utf8(s@).len() % 2 == 0 && !ok_hex_bytes(encode_utf8(s@)) ==> r == Err::<
            Vec<u8>,
            HexError,
        >(HexError::InvalidDigit),
{
    decode_bytes(s.as_bytes())
}

/// Decodes a hex string and renders the decoded bytes as text with
/// lossy substitution, as the tool prints them.
pub fn decode_to_text(s: &str) -> (r: Result<String, HexError>)
    ensures
        r is Ok <==> ok_hex_bytes(encode_utf8(s@)),
        r matches Ok(t) ==> t@ == lossy_chars_of(decoded_bytes(encode_utf8(s@))),
        r matches Ok(t) ==> (valid_utf8(decoded_bytes(encode_utf8(s@))) ==> t@ == decode_utf8(
            decoded_bytes(encode_utf8(s@)),
        )),
        encode_utf8(s@).len() % 2 != 0 ==> r == Err::<String, HexError>(HexError::OddLength),
        encode_utf8(s@).len() % 2 == 0 && !ok_hex_bytes(encode_utf8(s@)) ==> r == Err::<
            String,
            HexError,
        >(HexError::InvalidDigit),
{
    match decode(s) {
        Ok(bytes) => Ok(bytes_to_text(bytes.as_slice())),
        Err(e) => Err(e),
    }
}

} // verus!
