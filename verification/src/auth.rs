//! The signature that the venue asks for on private requests.

use vstd::prelude::*;
use vstd::string::StringExecFns;

verus! {

/// The longest key or message, in bytes, that is handed to the signer.
pub const MAX_SIGNED_LEN: usize = 0x4000_0000;

/// The three headers of a private request.
#[derive(Debug, Clone, PartialEq)]
pub struct AuthHeaders {
    pub api_key: String,
    pub api_timestamp: String,
    pub api_sign: String,
}

/// The HMAC-SHA256 tag of a message under a key, as ring computes it.
pub uninterp spec fn hmac_sha256_tag(key: Seq<u8>, message: Seq<u8>) -> Seq<u8>;

/// The lower-case hex digit of a value below sixteen.
pub open spec fn hex_digit(v: int) -> char {
    if v < 10 {
        (('0' as u8) + v) as u8 as char
    } else {
        (('a' as u8) + v - 10) as u8 as char
    }
}

/// Two lower-case hex digits for each byte, the high one first.
pub open spec fn hex_lower(data: Seq<u8>) -> Seq<char> {
    Seq::new(
        2 * data.len(),
        |i: int|
            if i % 2 == 0 {
                hex_digit(data[i / 2] as int / 16)
            } else {
                hex_digit(data[i / 2] as int % 16)
            },
    )
}

/// Calls `ring::hmac::sign` with an HMAC-SHA256 key made by
/// `ring::hmac::Key::new`, and copies the tag out. The contract only names the
/// tag. Ring refuses inputs of more than 2^61 bytes; the bound keeps far below.
#[verifier::external_body]
fn hmac_sha256(key: &[u8], message: &[u8]) -> (tag: Vec<u8>)
    requires
        key@.len() <= MAX_SIGNED_LEN,
        message@.len() <= MAX_SIGNED_LEN,
    ensures
        tag@ == hmac_sha256_tag(key@, message@),
{
    let key = ring::hmac::Key::new(ring::hmac::HMAC_SHA256, key);
    ring::hmac::sign(&key, message).as_ref().to_vec()
}

/// Calls `hex::encode`, which writes each byte as two lower-case hex digits.
#[verifier::external_body]
fn hex_encode(data: &Vec<u8>) -> (text: String)
    ensures
        text@ == hex_lower(data@),
{
    hex::encode(data)
}

/// The text that is signed: timestamp, method, path and body, one after the
/// other.
pub open spec fn signed_text(
    timestamp: Seq<char>,
    method: Seq<char>,
    path: Seq<char>,
    data: Seq<char>,
) -> Seq<char> {
    timestamp + method + path + data
}

/// The signature header: the hex form of the tag of the signed text under the
/// secret.
pub open spec fn signature_spec(secret: Seq<char>, text: Seq<char>) -> Seq<char> {
    hex_lower(hmac_sha256_tag(vstd::utf8::encode_utf8(secret), vstd::utf8::encode_utf8(text)))
}

/// Whether secret and signed text are short enough to be signed.
pub open spec fn signable(secret: Seq<char>, text: Seq<char>) -> bool {
    vstd::utf8::encode_utf8(secret).len() <= MAX_SIGNED_LEN && vstd::utf8::encode_utf8(text).len()
        <= MAX_SIGNED_LEN
}

/// The headers of a private request made at `timestamp`, which is the
/// request's time in milliseconds since the Unix epoch, written in decimal.
/// `None` where the secret or the signed text is over the signer's limit.
pub fn create_auth_headers(
    api_key: &str,
    api_secret: &str,
    timestamp: &str,
    method: &str,
    path: &str,
    data: &str,
) -> (r: Option<AuthHeaders>)
    ensures
        r is Some <==> signable(api_secret@, signed_text(timestamp@, method@, path@, data@)),
        r matches Some(h) ==> {
            &&& h.api_key@ == api_key@
            &&& h.api_timestamp@ == timestamp@
            &&& h.api_sign@ == signature_spec(
                api_secret@,
                signed_text(timestamp@, method@, path@, data@),
            )
        },
{
    let text = String::from_str(timestamp).concat(method).concat(path).concat(data);
    let message = text.as_str().as_bytes();
    let key = api_secret.as_bytes();
    if key.len() > MAX_SIGNED_LEN || message.len() > MAX_SIGNED_LEN {
        return None;
    }
    let tag = hmac_sha256(key, message);
    Some(
        AuthHeaders {
            api_key: String::from_str(api_key),
            api_timestamp: String::from_str(timestamp),
            api_sign: hex_encode(&tag),
        },
    )
}

} // verus!
