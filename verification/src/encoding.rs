//! Hex text and little-endian byte encodings.

use sha2::Digest;
use vstd::prelude::*;

verus! {

/// The lowercase hex digit for a nibble.
pub open spec fn hex_digit(n: int) -> char {
    (if n < 10 { 48 + n } else { 87 + n }) as char
}

/// The value of a hex digit of either case, or `None` for any other character.
pub open spec fn hex_value(c: char) -> Option<u8> {
    let x = c as u32;
    if 48 <= x <= 57 {
        Some((x - 48) as u8)
    } else if 97 <= x <= 102 {
        Some((x - 87) as u8)
    } else if 65 <= x <= 70 {
        Some((x - 55) as u8)
    } else {
        None
    }
}

/// Lowercase hex of `bytes`, two digits per byte, high nibble first.
pub open spec fn hex_lower(bytes: Seq<u8>) -> Seq<char> {
    Seq::new(
        2 * bytes.len(),
        |i: int|
            if i % 2 == 0 {
                hex_digit((bytes[i / 2] / 16) as int)
            } else {
                hex_digit((bytes[i / 2] % 16) as int)
            },
    )
}

/// Whether every character of `s` is a hex digit.
pub open spec fn all_hex_digits(s: Seq<char>) -> bool {
    forall|i: int| 0 <= i < s.len() ==> (#[trigger] hex_value(s[i])) is Some
}

/// The bytes that hex text `s` spells, or `None` when its length is odd or a
/// character is not a hex digit.
pub open spec fn hex_decode(s: Seq<char>) -> Option<Seq<u8>> {
    if s.len() % 2 == 0 && all_hex_digits(s) {
        Some(
            Seq::new(
                s.len() / 2,
                |i: int| (hex_value(s[2 * i])->0 * 16 + hex_value(s[2 * i + 1])->0) as u8,
            ),
        )
    } else {
        None
    }
}

/// Decoding a nibble's lowercase digit gives the nibble back.
pub proof fn lemma_hex_digit_value(n: int)
    requires
        0 <= n < 16,
    ensures
        hex_value(hex_digit(n)) == Some(n as u8),
{
}

/// Hex text read back gives the bytes that were written.
pub proof fn lemma_hex_round_trip(bytes: Seq<u8>)
    ensures
        hex_decode(hex_lower(bytes)) == Some(bytes),
{
    let s = hex_lower(bytes);
    assert forall|i: int| 0 <= i < s.len() implies (#[trigger] hex_value(s[i])) is Some by {
        if i % 2 == 0 {
            lemma_hex_digit_value((bytes[i / 2] / 16) as int);
        } else {
            lemma_hex_digit_value((bytes[i / 2] % 16) as int);
        }
    }
    let d = hex_decode(s)->0;
    assert forall|i: int| 0 <= i < bytes.len() implies d[i] == bytes[i] by {
        assert((2 * i) / 2 == i);
        assert((2 * i + 1) / 2 == i);
        assert((2 * i) % 2 == 0);
        assert((2 * i + 1) % 2 == 1);
        lemma_hex_digit_value((bytes[i] / 16) as int);
        lemma_hex_digit_value((bytes[i] % 16) as int);
    }
    assert(d =~= bytes);
}

/// Lowercase hex encoding of `bytes`, by `hex::encode`.
///
/// Trusted: `hex::encode` writes two lowercase digits per byte, high nibble
/// first, which is `hex_lower`.
#[verifier::external_body]
pub(crate) fn hex_encode(bytes: &[u8]) -> (s: String)
    ensures
        s@ == hex_lower(bytes@),
{
    ::hex::encode(bytes)
}

/// Decoding of hex text, by `hex::decode`.
///
/// Trusted: `hex::decode` accepts digits of either case, fails on an odd
/// length or on any other character, and otherwise turns each digit pair into
/// one byte, which is `hex_decode` over the text's characters.
#[verifier::external_body]
pub(crate) fn hex_decode_str(text: &str) -> (r: Option<Vec<u8>>)
    ensures
        r is None <==> hex_decode(text@) is None,
        r matches Some(v) ==> hex_decode(text@) == Some(v@),
{
    ::hex::decode(text).ok()
}

/// The contents of each byte vector.
pub open spec fn seq_bytes(v: Seq<Vec<u8>>) -> Seq<Seq<u8>> {
    v.map_values(|x: Vec<u8>| x@)
}

/// The characters of each string.
pub open spec fn seq_texts(v: Seq<String>) -> Seq<Seq<char>> {
    v.map_values(|x: String| x@)
}

/// The contents of an optional byte vector.
pub open spec fn opt_bytes(o: Option<Vec<u8>>) -> Option<Seq<u8>> {
    match o {
        Some(v) => Some(v@),
        None => None,
    }
}

/// The characters of an optional string.
pub open spec fn opt_text(o: Option<String>) -> Option<Seq<char>> {
    match o {
        Some(s) => Some(s@),
        None => None,
    }
}

/// The SHA-256 digest of `data`.
pub uninterp spec fn sha256_digest(data: Seq<u8>) -> Seq<u8>;

/// The SHA-256 digest of `data`, by `sha2::Sha256::digest`.
///
/// Trusted: the digest is a function of the data alone, and is 32 bytes long.
#[verifier::external_body]
pub(crate) fn sha256(data: &[u8]) -> (d: Vec<u8>)
    ensures
        d@ == sha256_digest(data@),
        d@.len() == 32,
{
    ::sha2::Sha256::digest(data).to_vec()
}

} // verus!
