//! Checking a hex-encoded ed25519 signature against a fixed public key.

use vstd::prelude::*;
use crate::ed25519::{
    ed25519_accepts, ed25519_point_decompresses, public_key_from_bytes, public_key_verify,
    signature_encoding_accepted, signature_from_bytes,
};
use crate::hex::{decoded_signature, signature_hex_truncated, signature_hex_valid, signature_to_array};
use crate::text::utf8_len;

verus! {

/// Why a signature check could not give an answer.
#[derive(Debug, PartialEq, Eq, Structural)]
pub enum VerificationError {
    /// The fixed public key does not decode to a curve point.
    InvalidPublicKey,
    /// The signature text is too short or holds a non-hex character.
    InvalidSignatureHex,
    /// The 64 decoded bytes are not an acceptable ed25519 signature encoding.
    InvalidSignature,
}

/// What checking the hex signature `signature_hex` on `message` under the key
/// `public_key` gives: an error where a step refuses its input, otherwise
/// whether ed25519 accepts the decoded signature.
pub open spec fn hex_signature_check(
    public_key: Seq<u8>,
    signature_hex: Seq<char>,
    message: Seq<u8>,
) -> Result<bool, VerificationError> {
    if !(public_key.len() == 32 && ed25519_point_decompresses(public_key)) {
        Err(VerificationError::InvalidPublicKey)
    } else if utf8_len(signature_hex) < 128 || !signature_hex_valid(signature_hex) {
        Err(VerificationError::InvalidSignatureHex)
    } else if !signature_encoding_accepted(decoded_signature(signature_hex)) {
        Err(VerificationError::InvalidSignature)
    } else {
        Ok(ed25519_accepts(public_key, message, decoded_signature(signature_hex)))
    }
}

/// Whether decoding the hex signature can run: the decoder never reads past
/// the end of the text before it meets a non-hex character.
pub open spec fn signature_hex_decodable(signature_hex: Seq<char>) -> bool {
    utf8_len(signature_hex) >= 128 ==> !signature_hex_truncated(signature_hex)
}

/// Decodes `signature_hex` and checks it on `message` under `public_key`.
pub fn check_hex_signature(public_key: &[u8], signature_hex: String, message: &[u8]) -> (r: Result<
    bool,
    VerificationError,
>)
    requires
        signature_hex_decodable(signature_hex@),
    ensures
        r == hex_signature_check(public_key@, signature_hex@, message@),
{
    let key = match public_key_from_bytes(public_key) {
        Ok(k) => k,
        Err(_) => {
            return Err(VerificationError::InvalidPublicKey);
        },
    };
    let ghost hex_view = signature_hex@;
    let bytes = match signature_to_array(signature_hex) {
        Ok(b) => b,
        Err(_) => {
            return Err(VerificationError::InvalidSignatureHex);
        },
    };
    let signature = match signature_from_bytes(bytes.as_slice()) {
        Ok(s) => s,
        Err(_) => {
            return Err(VerificationError::InvalidSignature);
        },
    };
    assert(bytes@ == decoded_signature(hex_view));
    Ok(public_key_verify(&key, message, &signature))
}

} // verus!
