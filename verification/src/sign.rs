//! The authentication tag of the login command.
//!
//! The tag is the HMAC-SHA256 of the text `"{time}websocket_login"` under the
//! API secret, written in lower-case hex.

use crate::text::{decimal, decimal_text, digit, lemma_decimal_ascii, lemma_decimal_len_u64};
use vstd::prelude::*;
use vstd::string::StringExecFns;
use vstd::utf8::{encode_utf8, is_ascii_chars, is_ascii_chars_encode_utf8};

verus! {

/// The longest message and the longest key, in bytes, that are signed. The
/// hash counts its input, 64 bytes of padding and the message, in bits in a
/// `usize`; up to this length the count fits on the machine at hand.
pub const MAX_HMAC_INPUT: usize = usize::MAX / 8 - 64;

/// The HMAC-SHA256 of `message` under `key`, as the crate `hmac_sha256`
/// computes it.
pub uninterp spec fn hmac_sha256_mac(message: Seq<u8>, key: Seq<u8>) -> Seq<u8>;

/// Calls `hmac_sha256::HMAC::mac`. Trusted: the 32 bytes that come back are
/// a function of the message and the key alone, and the call does not panic
/// while both stay within [`MAX_HMAC_INPUT`].
#[verifier::external_body]
fn mac(message: &[u8], key: &[u8]) -> (tag: [u8; 32])
    requires
        message@.len() <= MAX_HMAC_INPUT,
        key@.len() <= MAX_HMAC_INPUT,
    ensures
        tag@ == hmac_sha256_mac(message@, key@),
{
    hmac_sha256::HMAC::mac(message, key)
}

/// The character of one hex digit, in lower case.
pub open spec fn hex_digit(d: nat) -> char {
    if d < 10 {
        digit(d)
    } else if d == 10 {
        'a'
    } else if d == 11 {
        'b'
    } else if d == 12 {
        'c'
    } else if d == 13 {
        'd'
    } else if d == 14 {
        'e'
    } else {
        'f'
    }
}

/// Bytes in lower-case hex: two digits for each byte, the high half first.
pub open spec fn hex_lower(data: Seq<u8>) -> Seq<char> {
    Seq::new(
        2 * data.len(),
        |i: int|
            if i % 2 == 0 {
                hex_digit((data[i / 2] / 16) as nat)
            } else {
                hex_digit((data[i / 2] % 16) as nat)
            },
    )
}

/// Calls `hex::encode`. Trusted: the text holds two lower-case hex digits
/// for each byte, in the order of the bytes, the high half of a byte first.
#[verifier::external_body]
fn hex_encode(data: &[u8]) -> (text: String)
    ensures
        text@ == hex_lower(data@),
{
    hex::encode(data)
}

/// Writes bytes in lower-case hex.
pub fn hex_text(data: &[u8]) -> (text: String)
    ensures
        text@ == hex_lower(data@),
{
    hex_encode(data)
}

/// The text that is signed at the login.
pub open spec fn sign_payload(time: u64) -> Seq<char> {
    decimal(time as nat) + "websocket_login"@
}

/// The authentication tag for a secret and a time in milliseconds.
pub open spec fn signature(secret: Seq<char>, time: u64) -> Seq<char> {
    hex_lower(hmac_sha256_mac(encode_utf8(sign_payload(time)), encode_utf8(secret)))
}

/// The text that is signed is plain ASCII of at most 35 characters, so its
/// bytes are as many.
pub proof fn lemma_sign_payload_len(time: u64)
    ensures
        is_ascii_chars(sign_payload(time)),
        encode_utf8(sign_payload(time)).len() == sign_payload(time).len(),
        sign_payload(time).len() <= 35,
{
    reveal_strlit("websocket_login");
    lemma_decimal_ascii(time as nat);
    lemma_decimal_len_u64(time);
    is_ascii_chars_encode_utf8(sign_payload(time));
}

/// Writes the text that is signed at the login.
pub fn sign_payload_text(time: u64) -> (text: String)
    ensures
        text@ == sign_payload(time),
{
    let mut text = decimal_text(time);
    text.append("websocket_login");
    text
}

/// Whether a secret is short enough to sign under.
pub fn can_sign(secret: &str) -> (fits: bool)
    ensures
        fits == (encode_utf8(secret@).len() <= MAX_HMAC_INPUT),
{
    secret.as_bytes().len() <= MAX_HMAC_INPUT
}

/// Computes the authentication tag of the login command: 64 characters of
/// lower-case hex.
pub fn sign(secret: &str, time: u64) -> (tag: String)
    requires
        encode_utf8(secret@).len() <= MAX_HMAC_INPUT,
    ensures
        tag@ == signature(secret@, time),
        tag@.len() == 64,
{
    let payload = sign_payload_text(time);
    proof {
        lemma_sign_payload_len(time);
    }
    let tag = mac(payload.as_str().as_bytes(), secret.as_bytes());
    hex_text(tag.as_slice())
}

} // verus!
