//! Base64, the form in which logs travel between agents and the coordinator,
//! UTF-8, the form in which text is kept as bytes, and the codes with which
//! messages are signed.

use vstd::prelude::*;
use crate::text::chars_of;

verus! {

/// The bytes that a text stands for in standard, padded base64, or `None`
/// where the text is not valid base64.
pub uninterp spec fn base64_decoded(text: Seq<char>) -> Option<Seq<u8>>;

/// The standard, padded base64 text of a sequence of bytes.
pub uninterp spec fn base64_encoded(bytes: Seq<u8>) -> Seq<char>;

/// Decodes with `decode` of the `base64` crate's `STANDARD` engine. The
/// contract gives the outcome its name: the decoded bytes of the text, or
/// `None` where the engine reports an error.
#[verifier::external_body]
pub(crate) fn decode(text: &str) -> (bytes: Option<Vec<u8>>)
    ensures
        match bytes {
            Some(v) => base64_decoded(text@) == Some(v@),
            None => base64_decoded(text@) is None,
        },
{
    base64::Engine::decode(&base64::engine::general_purpose::STANDARD, text).ok()
}

/// Encodes with `encode` of the `base64` crate's `STANDARD` engine. The
/// contract gives the text its name.
#[verifier::external_body]
pub(crate) fn encode(bytes: &[u8]) -> (text: String)
    ensures
        text@ == base64_encoded(bytes@),
{
    base64::Engine::encode(&base64::engine::general_purpose::STANDARD, bytes)
}

/// Reads bytes as text with `String::from_utf8` of the standard library.
/// The contract says what its documentation says: the bytes are text exactly
/// when they are valid UTF-8, and the text is then the one whose bytes they
/// are.
#[verifier::external_body]
pub(crate) fn string_from_utf8(bytes: Vec<u8>) -> (text: Option<String>)
    ensures
        match text {
            Some(s) => vstd::utf8::valid_utf8(bytes@) && vstd::utf8::encode_utf8(s@) == bytes@,
            None => !vstd::utf8::valid_utf8(bytes@),
        },
{
    String::from_utf8(bytes).ok()
}

/// Whether `signature` is the code of `payload` under the key `secret`, by
/// HMAC with SHA-1.
pub uninterp spec fn hmac_sha1_verifies(
    secret: Seq<u8>,
    payload: Seq<u8>,
    signature: Seq<u8>,
) -> bool;

/// The longest key, in bytes, that a code can be made with: a key whose
/// length in bits does not fit in 64 bits cannot be hashed.
pub const MAX_KEY_LEN: u64 = 0x1fff_ffff_ffff_ffff;

/// Checks a code with `hmac::verify` of the `ring` crate, under a key made
/// with `hmac::Key::new` for `HMAC_SHA1_FOR_LEGACY_USE_ONLY`. The contract
/// gives the outcome its name: whether the code is the one of the payload
/// under the key. `Key::new` gives up on a key that is too long to be
/// hashed, which is left out.
#[verifier::external_body]
pub(crate) fn verify_hmac_sha1(secret: &[u8], payload: &[u8], signature: &[u8]) -> (valid: bool)
    requires
        secret@.len() <= MAX_KEY_LEN,
    ensures
        valid == hmac_sha1_verifies(secret@, payload@, signature@),
{
    let key = ring::hmac::Key::new(ring::hmac::HMAC_SHA1_FOR_LEGACY_USE_ONLY, secret);
    ring::hmac::verify(&key, payload, signature).is_ok()
}

/// The value of a digit to the base 16, in either case.
pub open spec fn hex_value(c: char) -> Option<u8> {
    if '0' <= c && c <= '9' {
        Some((c as u32 - '0' as u32) as u8)
    } else if 'a' <= c && c <= 'f' {
        Some((c as u32 - 'a' as u32 + 10) as u8)
    } else if 'A' <= c && c <= 'F' {
        Some((c as u32 - 'A' as u32 + 10) as u8)
    } else {
        None
    }
}

/// Whether a text is bytes to the base 16: digits to the base 16, two for
/// each byte.
pub open spec fn is_hex(s: Seq<char>) -> bool {
    s.len() % 2 == 0 && forall|i: int| 0 <= i < s.len() ==> hex_value(#[trigger] s[i]) is Some
}

/// The bytes that a text to the base 16 stands for.
pub open spec fn hex_bytes(s: Seq<char>) -> Seq<u8> {
    Seq::new(
        s.len() / 2,
        |i: int| (hex_value(s[2 * i])->0 * 16 + hex_value(s[2 * i + 1])->0) as u8,
    )
}

fn hex_digit(c: char) -> (value: Option<u8>)
    ensures
        value == hex_value(c),
        value matches Some(v) ==> v < 16,
{
    if '0' <= c && c <= '9' {
        Some((c as u32 - '0' as u32) as u8)
    } else if 'a' <= c && c <= 'f' {
        Some((c as u32 - 'a' as u32 + 10) as u8)
    } else if 'A' <= c && c <= 'F' {
        Some((c as u32 - 'A' as u32 + 10) as u8)
    } else {
        None
    }
}

/// Reads a text to the base 16 as bytes.
pub fn from_hex(input: &str) -> (bytes: Option<Vec<u8>>)
    ensures
        match bytes {
            Some(b) => is_hex(input@) && b@ == hex_bytes(input@),
            None => !is_hex(input@),
        },
{
    let chars = chars_of(input);
    let mut bytes: Vec<u8> = Vec::new();
    let mut i: usize = 0;
    while i < chars.len()
        invariant
            chars@ == input@,
            i <= chars.len(),
            i % 2 == 0,
            bytes.len() == i / 2,
            forall|j: int| 0 <= j < i ==> hex_value(#[trigger] chars@[j]) is Some,
            forall|j: int| 0 <= j < i / 2 ==> #[trigger] bytes@[j] == hex_bytes(input@)[j],
        decreases chars.len() - i,
    {
        let high = match hex_digit(chars[i]) {
            Some(v) => v,
            None => {
                return None;
            },
        };
        if i + 1 >= chars.len() {
            return None;
        }
        let low = match hex_digit(chars[i + 1]) {
            Some(v) => v,
            None => {
                return None;
            },
        };
        bytes.push(high * 16 + low);
        i += 2;
    }
    assert(bytes@ =~= hex_bytes(input@));
    Some(bytes)
}

} // verus!
