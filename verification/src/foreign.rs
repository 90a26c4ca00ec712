//! The calls this library makes into other crates and into parts of the
//! standard library that the verifier has no contract for. The contract of
//! each function here is taken on trust from the documentation and source of
//! what it calls; everything else in the library is proved from them.

use base64::Engine;
use vstd::prelude::*;
use vstd::string::*;
use vstd::utf8::{decode_utf8, valid_utf8};

verus! {

/// What the standard base64 alphabet with padding decodes `input` to, or
/// `None` where `input` is not such an encoding.
pub uninterp spec fn base64_decoded(input: Seq<u8>) -> Option<Seq<u8>>;

/// Calls `base64::engine::general_purpose::STANDARD.decode`. The result is
/// a function of the input bytes alone, named [`base64_decoded`]; a decoding
/// error becomes `None`.
#[verifier::external_body]
pub(crate) fn decode_base64(input: &Vec<u8>) -> (decoded: Option<Vec<u8>>)
    ensures
        match decoded {
            Some(bytes) => base64_decoded(input@) == Some(bytes@),
            None => base64_decoded(input@) is None,
        },
{
    base64::engine::general_purpose::STANDARD.decode(input).ok()
}

/// Whether `byte` is one that percent-encoding leaves as it is: an ASCII
/// letter or digit, or one of `-`, `.`, `_`, `~`.
pub open spec fn is_unreserved(byte: u8) -> bool {
    ||| 0x30 <= byte <= 0x39
    ||| 0x41 <= byte <= 0x5a
    ||| 0x61 <= byte <= 0x7a
    ||| byte == 0x2d
    ||| byte == 0x2e
    ||| byte == 0x5f
    ||| byte == 0x7e
}

/// The upper-case hexadecimal digit for a number below 16.
pub open spec fn hex_upper(nibble: int) -> char {
    if nibble < 10 {
        ((0x30 + nibble) as u8) as char
    } else {
        ((0x41 + nibble - 10) as u8) as char
    }
}

/// The lower-case hexadecimal digit for a number below 16.
pub open spec fn hex_lower(nibble: int) -> char {
    if nibble < 10 {
        ((0x30 + nibble) as u8) as char
    } else {
        ((0x61 + nibble - 10) as u8) as char
    }
}

/// The percent-encoding of `bytes`: every unreserved byte as itself, every
/// other byte as `%` and its two upper-case hexadecimal digits.
pub open spec fn percent_encoded(bytes: Seq<u8>) -> Seq<char>
    decreases bytes.len(),
{
    if bytes.len() == 0 {
        Seq::empty()
    } else {
        let byte = bytes.last();
        let earlier = percent_encoded(bytes.drop_last());
        if is_unreserved(byte) {
            earlier.push(byte as char)
        } else {
            earlier.push('%').push(hex_upper(byte as int / 16)).push(hex_upper(byte as int % 16))
        }
    }
}

/// Calls `urlencoding::Encoded::to_string`, which percent-encodes every
/// byte of the text's UTF-8 form except ASCII letters, digits and `-`, `.`,
/// `_`, `~`, with upper-case hexadecimal digits.
#[verifier::external_body]
pub(crate) fn percent_encode(text: &str) -> (encoded: String)
    ensures
        encoded@ == percent_encoded(text.spec_bytes()),
{
    urlencoding::Encoded::new(text).to_string()
}

/// Whether `byte` is an ASCII letter or digit.
pub open spec fn is_alphanumeric_byte(byte: u8) -> bool {
    ||| 0x30 <= byte <= 0x39
    ||| 0x41 <= byte <= 0x5a
    ||| 0x61 <= byte <= 0x7a
}

/// Calls `rand::Rng::sample` on the thread's generator with the
/// `Alphanumeric` distribution. Which byte comes back is chance; it is
/// always an ASCII letter or digit.
#[verifier::external_body]
pub(crate) fn random_alphanumeric() -> (byte: u8)
    ensures
        is_alphanumeric_byte(byte),
{
    rand::Rng::sample(&mut rand::thread_rng(), rand::distributions::Alphanumeric)
}

/// Whether `value` has the version and variant fields of a random UUID:
/// version 4 in bits 76 to 79, and the two bits `10` in bits 62 and 63.
pub open spec fn is_random_uuid(value: u128) -> bool {
    (value as int / 0x1000_0000_0000_0000_0000) % 16 == 4 && (value as int
        / 0x4000_0000_0000_0000) % 4 == 2
}

/// Calls `uuid::Uuid::new_v4` and hands back the identifier as a number.
/// Which number comes back is chance; its version and variant fields are
/// always those of a random UUID.
#[verifier::external_body]
pub(crate) fn new_uuid() -> (value: u128)
    ensures
        is_random_uuid(value),
{
    uuid::Uuid::new_v4().as_u128()
}

/// Sixteen to the power `exponent`.
pub open spec fn sixteen_to(exponent: nat) -> int
    decreases exponent,
{
    if exponent == 0 {
        1
    } else {
        16 * sixteen_to((exponent - 1) as nat)
    }
}

/// The hexadecimal digit of `value` at `position`, counted from the most
/// significant of its 32 digits.
pub open spec fn uuid_digit(value: u128, position: int) -> int {
    (value as int / sixteen_to((31 - position) as nat)) % 16
}

/// How many hyphens stand before place `i` of a hyphenated UUID.
pub open spec fn hyphens_before(i: int) -> int {
    (if i > 8 {
        1int
    } else {
        0
    }) + (if i > 13 {
        1int
    } else {
        0
    }) + (if i > 18 {
        1int
    } else {
        0
    }) + (if i > 23 {
        1int
    } else {
        0
    })
}

/// The hyphenated form of a UUID: its 32 lower-case hexadecimal digits, most
/// significant first, in groups of 8, 4, 4, 4 and 12 with a hyphen between
/// groups.
pub open spec fn hyphenated(value: u128) -> Seq<char> {
    Seq::new(
        36,
        |i: int|
            if i == 8 || i == 13 || i == 18 || i == 23 {
                '-'
            } else {
                hex_lower(uuid_digit(value, i - hyphens_before(i)))
            },
    )
}

/// Calls `uuid::Uuid::from_u128` and renders the identifier with
/// `Hyphenated`'s `to_string`: 32 lower-case hexadecimal digits in groups
/// of 8, 4, 4, 4 and 12.
#[verifier::external_body]
pub(crate) fn uuid_text(value: u128) -> (text: String)
    ensures
        text@ == hyphenated(value),
{
    uuid::Uuid::from_u128(value).hyphenated().to_string()
}

/// Calls `chrono::Utc::now` and hands back its `timestamp`: the seconds
/// since the start of 1970 on this machine's clock. Nothing is promised of
/// the number.
#[verifier::external_body]
pub(crate) fn unix_time_now() -> (seconds: i64) {
    chrono::Utc::now().timestamp()
}

/// Calls `String::push`, which appends one character.
#[verifier::external_body]
pub(crate) fn push_char(text: &mut String, c: char)
    ensures
        final(text)@ == old(text)@.push(c),
{
    text.push(c)
}

/// Calls `String::from_utf8`, which accepts exactly the byte strings that
/// are valid UTF-8 and yields the text they encode.
#[verifier::external_body]
pub(crate) fn string_from_utf8(bytes: Vec<u8>) -> (text: Option<String>)
    ensures
        text is Some <==> valid_utf8(bytes@),
        text matches Some(decoded) ==> decoded@ == decode_utf8(bytes@),
{
    String::from_utf8(bytes).ok()
}

} // verus!
