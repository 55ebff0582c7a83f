use hmac::{Hmac, KeyInit, Mac};
use sha2::Sha256;
use vstd::prelude::*;
use vstd::string::StringSliceAdditionalSpecFns;
use vstd::utf8::*;

use crate::shook::error::ShookServerError;
use crate::shook::utils::constant_time_eq;

verus! {

broadcast use vstd::utf8::encode_utf8_decode_utf8;

/// The HMAC-SHA256 tag of `msg` under `key`, as the `hmac` and `sha2`
/// crates compute it.
pub uninterp spec fn hmac_sha256(key: Seq<u8>, msg: Seq<u8>) -> Seq<u8>;

/// Computes the HMAC-SHA256 tag of `msg` under `key` with
/// `Hmac::<Sha256>::new_from_slice`, `Mac::update` and `Mac::finalize`.
/// Claims: the tag is the one named by [`hmac_sha256`], and the key is
/// accepted whatever its length (HMAC hashes keys longer than a block and
/// pads shorter ones, so `new_from_slice` always returns `Ok`).
#[verifier::external_body]
fn hmac_sha256_tag(key: &[u8], msg: &[u8]) -> (r: Option<Vec<u8>>)
    ensures
        r is Some,
        r.unwrap()@ == hmac_sha256(key@, msg@),
{
    match <Hmac<Sha256> as KeyInit>::new_from_slice(key) {
        Ok(mut mac) => {
            mac.update(msg);
            Some(mac.finalize().into_bytes().to_vec())
        },
        Err(_) => None,
    }
}

/// The lower-case hexadecimal digit of a nibble.
pub open spec fn hex_digit(n: int) -> char {
    if n < 10 {
        (('0' as int) + n) as char
    } else {
        (('a' as int) + n - 10) as char
    }
}

/// Lower-case hexadecimal text of a byte sequence: two digits per byte,
/// high nibble first.
pub open spec fn hex_lower(bytes: Seq<u8>) -> Seq<char>
    decreases bytes.len(),
{
    if bytes.len() == 0 {
        Seq::empty()
    } else {
        seq![hex_digit(bytes[0] as int / 16), hex_digit(bytes[0] as int % 16)] + hex_lower(bytes.drop_first())
    }
}

/// Encodes bytes as lower-case hexadecimal text with `hex::encode`.
/// Claims: two lower-case digits per byte, high nibble first, as the
/// crate's `HEX_CHARS_LOWER` table gives them.
#[verifier::external_body]
fn hex_encode(data: &[u8]) -> (r: String)
    ensures
        r@ == hex_lower(data@),
{
    hex::encode(data)
}

/// The prefix that names the digest of a signature header.
pub open spec fn signature_prefix() -> Seq<char> {
    seq!['s', 'h', 'a', '2', '5', '6', '=']
}

/// The signature header value that a request with body `body` must carry
/// when signed with the secret `secret`.
pub open spec fn expected_signature(secret: Seq<u8>, body: Seq<u8>) -> Seq<char> {
    signature_prefix() + hex_lower(hmac_sha256(secret, body))
}

/// Checks the `X-Hub-Signature-256` header of a webhook request (given as
/// `signature_header`, empty when the request has none) against the
/// HMAC-SHA256 signature of the body under the shared secret.
pub fn verify_signature(payload_body: &str, secret_token: &str, signature_header: &str) -> (r: Result<
    (),
    ShookServerError,
>)
    ensures
        r is Ok <==> signature_header@ == expected_signature(
            secret_token.spec_bytes(),
            payload_body.spec_bytes(),
        ),
        r matches Err(e) ==> e == ShookServerError::RequestSignaturesMismatch,
{
    let tag = hmac_sha256_tag(secret_token.as_bytes(), payload_body.as_bytes()).unwrap();
    let hex = hex_encode(tag.as_slice());
    let mut expected = "sha256=".to_owned();
    proof {
        reveal_strlit("sha256=");
    }
    expected.append(hex.as_str());
    assert(expected@ =~= expected_signature(secret_token.spec_bytes(), payload_body.spec_bytes()));
    let same = constant_time_eq(expected.as_str().as_bytes(), signature_header.as_bytes());
    proof {
        if same {
            assert(decode_utf8(encode_utf8(expected@)) == decode_utf8(encode_utf8(signature_header@)));
        }
    }
    if !same {
        return Err(ShookServerError::RequestSignaturesMismatch);
    }
    Ok(())
}

} // verus!
